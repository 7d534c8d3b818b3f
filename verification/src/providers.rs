//! What is sent to each model provider and what is taken from its reply.
//! Sending the request and reading the HTTP reply is the transport's part.
use vstd::prelude::*;

use crate::ai_types::{
    AudioData, AudioUrlData, ChatCompletionRequest, ChatCompletionResponse, ChatContent,
    ChatContentPart, ChatMessage, GeminiContent, GeminiGenerationConfig, GeminiInlineData,
    GeminiPart, GeminiRequest, GeminiResponse, GeminiResponsePart, GeminiThinkingConfig,
    ImageUrlData, OpenRouterProvider, OpenRouterReasoning, StreamChunk, StreamOptions,
    ThinkingParam, TokenUsage, usage_of, usage_or_default,
};
use crate::config::{AudioInputMode, ThinkingConfig};
use crate::text::{
    chars_eq, chars_of, contains, ends_with, lines, lines_of, starts_with, starts_with_chars,
    str_contains, str_eq, str_starts_with, str_trim, string_of, strip_prefix, strip_prefix_chars,
    to_lowercase, trim, trim_chars, trim_end_char, unicode_lowercase, url_join, url_join_str,
};

verus! {

// ---------------------------------------------------------------------------
// Shapes
// ---------------------------------------------------------------------------

/// The user text of an optimization request.
pub open spec fn voice_input(text: Seq<char>) -> Seq<char> {
    "<voice-input>\n"@ + text + "\n</voice-input>"@
}

pub open spec fn png_data_uri(image_base64: Seq<char>) -> Seq<char> {
    "data:image/png;base64,"@ + image_base64
}

pub open spec fn flac_data_uri(audio_base64: Seq<char>) -> Seq<char> {
    "data:audio/flac;base64,"@ + audio_base64
}

/// Audio as DashScope and MiMo take it inline.
pub open spec fn bare_data_uri(audio_base64: Seq<char>) -> Seq<char> {
    "data:;base64,"@ + audio_base64
}

pub open spec fn is_text_message(m: ChatMessage, role: Seq<char>, text: Seq<char>) -> bool {
    m.role@ == role && (m.content matches ChatContent::Text(t) && t@ == text)
}

pub open spec fn is_image_message(m: ChatMessage, url: Seq<char>) -> bool {
    &&& m.role@ == "user"@
    &&& m.content matches ChatContent::Parts(ps)
    &&& ps@.len() == 1
    &&& ps@[0] matches ChatContentPart::ImageUrl { image_url }
    &&& image_url.url@ == url
}

pub open spec fn is_input_audio_message(m: ChatMessage, data: Seq<char>) -> bool {
    &&& m.role@ == "user"@
    &&& m.content matches ChatContent::Parts(ps)
    &&& ps@.len() == 1
    &&& ps@[0] matches ChatContentPart::InputAudio { input_audio }
    &&& input_audio.data@ == data
    &&& input_audio.format@ == "flac"@
    &&& input_audio.audio_type is None
    &&& input_audio.sample_rate is None
}

pub open spec fn is_audio_url_message(m: ChatMessage, url: Seq<char>) -> bool {
    &&& m.role@ == "user"@
    &&& m.content matches ChatContent::Parts(ps)
    &&& ps@.len() == 1
    &&& ps@[0] matches ChatContentPart::AudioUrl { audio_url }
    &&& audio_url.url@ == url
}

/// A system message with `prompt` followed by `user`.
pub open spec fn system_then(r: ChatCompletionRequest, model: Seq<char>, prompt: Seq<char>) -> bool {
    &&& r.model@ == model
    &&& r.messages@.len() == 2
    &&& is_text_message(r.messages@[0], "system"@, prompt)
}

/// A single user message "hi".
pub open spec fn greeting(r: ChatCompletionRequest, model: Seq<char>) -> bool {
    &&& r.model@ == model
    &&& r.messages@.len() == 1
    &&& is_text_message(r.messages@[0], "user"@, "hi"@)
}

pub open spec fn text_only(m: Option<Vec<String>>) -> bool {
    m is Some && m->0@.len() == 1 && m->0@[0]@ == "text"@
}

pub open spec fn streams_with_usage(r: ChatCompletionRequest) -> bool {
    &&& r.stream == Some(true)
    &&& r.stream_options is Some
    &&& r.stream_options->0.include_usage
}

pub open spec fn thinking_is(t: Option<ThinkingParam>, kind: Seq<char>) -> bool {
    t is Some && t->0.thinking_type@ == kind
}

pub open spec fn opt_view(o: Option<String>) -> Option<Seq<char>> {
    match o {
        Some(s) => Some(s@),
        None => None,
    }
}

// ---------------------------------------------------------------------------
// Gemini
// ---------------------------------------------------------------------------

/// Gemini 3.7 and 3.8 always think and do not take the `minimal` level.
pub open spec fn spec_forced_thinking_model(model: Seq<char>) -> bool {
    contains(model, "gemini-3.7"@) || contains(model, "gemini-3.8"@)
}

/// The thinking level sent to Gemini, or `None` to send no thinking
/// configuration: the configured level in lower case (`medium` when unset),
/// with `minimal` raised to `low` on the models that always think; with
/// thinking off, `low` on those models and nothing on the others.
pub open spec fn gemini_thinking_level(model: Seq<char>, enabled: bool, level: Seq<char>) -> Option<
    Seq<char>,
> {
    if !enabled {
        if spec_forced_thinking_model(model) {
            Some("low"@)
        } else {
            None
        }
    } else {
        let l = unicode_lowercase(trim(level));
        let l = if l.len() == 0 {
            "medium"@
        } else {
            l
        };
        if l == "minimal"@ && spec_forced_thinking_model(model) {
            Some("low"@)
        } else {
            Some(l)
        }
    }
}

/// `g` carries thinking level `level` without thoughts, or is absent.
pub open spec fn has_thinking_level(g: Option<GeminiGenerationConfig>, level: Option<Seq<char>>) -> bool {
    match level {
        None => g is None,
        Some(l) => {
            &&& g is Some
            &&& g->0.thinking_config is Some
            &&& !g->0.thinking_config->0.include_thoughts
            &&& g->0.thinking_config->0.thinking_level@ == l
        },
    }
}

pub fn forced_thinking_model(model: &str) -> (b: bool)
    ensures
        b == spec_forced_thinking_model(model@),
{
    str_contains(model, "gemini-3.7") || str_contains(model, "gemini-3.8")
}

fn thinking_config_at(level: String) -> (g: GeminiGenerationConfig)
    ensures
        has_thinking_level(Some(g), Some(level@)),
{
    GeminiGenerationConfig {
        thinking_config: Some(GeminiThinkingConfig { include_thoughts: false, thinking_level: level }),
    }
}

/// The thinking configuration sent to Gemini for `model`.
pub fn build_thinking_config(model: &str, thinking: &ThinkingConfig) -> (r: Option<GeminiGenerationConfig>)
    ensures
        has_thinking_level(r, gemini_thinking_level(model@, thinking.enabled, thinking.level@)),
{
    let forced = forced_thinking_model(model);
    if !thinking.enabled {
        if forced {
            return Some(thinking_config_at(String::from_str("low")));
        }
        return None;
    }
    let trimmed = str_trim(thinking.level.as_str());
    let level = to_lowercase(trimmed.as_str());
    let level = if level.unicode_len() == 0 {
        String::from_str("medium")
    } else {
        level
    };
    if str_eq(level.as_str(), "minimal") && forced {
        return Some(thinking_config_at(String::from_str("low")));
    }
    Some(thinking_config_at(level))
}

/// Gemini 3.7 and 3.8 always get a thinking level, whether thinking is on
/// or off, and never `minimal`, which they refuse.
pub proof fn lemma_forced_models_never_minimal(model: Seq<char>, enabled: bool, level: Seq<char>)
    requires
        spec_forced_thinking_model(model),
    ensures
        gemini_thinking_level(model, enabled, level) is Some,
        gemini_thinking_level(model, enabled, level)->Some_0 != "minimal"@,
{
    reveal_strlit("low");
    reveal_strlit("minimal");
    assert("low"@.len() != "minimal"@.len());
}

/// The `generateContent` endpoint of `model`.
pub open spec fn spec_gemini_url(base_url: Seq<char>, model: Seq<char>, api_key: Seq<char>) -> Seq<char> {
    url_join(base_url, "/v1beta/models/"@) + model + ":generateContent?key="@ + api_key
}

pub fn gemini_url(base_url: &str, model: &str, api_key: &str) -> (r: String)
    ensures
        r@ == spec_gemini_url(base_url@, model@, api_key@),
{
    let mut url = url_join_str(base_url, "/v1beta/models/");
    url.append(model);
    url.append(":generateContent?key=");
    url.append(api_key);
    url
}

/// No system instruction for an empty prompt, else the prompt as one part.
pub open spec fn is_gemini_system(si: Option<GeminiContent>, prompt: Seq<char>) -> bool {
    if prompt.len() == 0 {
        si is None
    } else {
        &&& si is Some
        &&& si->0.role is None
        &&& si->0.parts@.len() == 1
        &&& si->0.parts@[0] matches GeminiPart::Text { text }
        &&& text@ == prompt
    }
}

/// The user's turn holding one inline blob of type `mime`.
pub open spec fn is_gemini_user_inline(c: GeminiContent, mime: Seq<char>, data: Seq<char>) -> bool {
    &&& c.role matches Some(r) && r@ == "user"@
    &&& c.parts@.len() == 1
    &&& c.parts@[0] matches GeminiPart::InlineData { inline_data }
    &&& inline_data.mime_type@ == mime
    &&& inline_data.data@ == data
}

/// The user's turn holding one text part.
pub open spec fn is_gemini_user_text(c: GeminiContent, text: Seq<char>) -> bool {
    &&& c.role matches Some(r) && r@ == "user"@
    &&& c.parts@.len() == 1
    &&& c.parts@[0] matches GeminiPart::Text { text: t }
    &&& t@ == text
}

fn gemini_system(prompt: &str) -> (r: Option<GeminiContent>)
    ensures
        is_gemini_system(r, prompt@),
{
    if prompt.unicode_len() == 0 {
        None
    } else {
        let mut parts = Vec::new();
        parts.push(GeminiPart::Text { text: String::from_str(prompt) });
        Some(GeminiContent { role: None, parts })
    }
}

fn gemini_user(part: GeminiPart) -> (c: GeminiContent)
    ensures
        c.role matches Some(r) && r@ == "user"@,
        c.parts@ == seq![part],
{
    let mut parts = Vec::new();
    parts.push(part);
    assert(parts@ =~= seq![part]);
    GeminiContent { role: Some(String::from_str("user")), parts }
}

fn gemini_inline(mime: &str, data: &str) -> (p: GeminiPart)
    ensures
        p matches GeminiPart::InlineData { inline_data } && inline_data.mime_type@ == mime@
            && inline_data.data@ == data@,
{
    GeminiPart::InlineData {
        inline_data: GeminiInlineData { mime_type: String::from_str(mime), data: String::from_str(data) },
    }
}

/// A Gemini request with `prompt` as system instruction, one user turn and
/// the thinking configuration of `model`.
pub open spec fn is_gemini_request(
    r: GeminiRequest,
    prompt: Seq<char>,
    model: Seq<char>,
    thinking: ThinkingConfig,
) -> bool {
    &&& is_gemini_system(r.system_instruction, prompt)
    &&& r.contents@.len() == 1
    &&& has_thinking_level(r.generation_config, gemini_thinking_level(model, thinking.enabled, thinking.level@))
}

/// Transcription: the FLAC audio inline.
pub fn gemini_transcribe_request(audio_base64: &str, system_prompt: &str, model: &str, thinking: &ThinkingConfig) -> (r: GeminiRequest)
    ensures
        is_gemini_request(r, system_prompt@, model@, *thinking),
        is_gemini_user_inline(r.contents@[0], "audio/flac"@, audio_base64@),
{
    let mut contents = Vec::new();
    contents.push(gemini_user(gemini_inline("audio/flac", audio_base64)));
    GeminiRequest {
        system_instruction: gemini_system(system_prompt),
        contents,
        generation_config: build_thinking_config(model, thinking),
    }
}

/// Optimization: the text wrapped as voice input.
pub fn gemini_optimize_request(text: &str, system_prompt: &str, model: &str, thinking: &ThinkingConfig) -> (r: GeminiRequest)
    ensures
        is_gemini_request(r, system_prompt@, model@, *thinking),
        is_gemini_user_text(r.contents@[0], voice_input(text@)),
{
    let mut contents = Vec::new();
    contents.push(gemini_user(GeminiPart::Text { text: wrap_voice_input(text) }));
    GeminiRequest {
        system_instruction: gemini_system(system_prompt),
        contents,
        generation_config: build_thinking_config(model, thinking),
    }
}

/// Text recognition: the PNG screenshot inline.
pub fn gemini_extract_request(image_base64: &str, system_prompt: &str, model: &str, thinking: &ThinkingConfig) -> (r: GeminiRequest)
    ensures
        is_gemini_request(r, system_prompt@, model@, *thinking),
        is_gemini_user_inline(r.contents@[0], "image/png"@, image_base64@),
{
    let mut contents = Vec::new();
    contents.push(gemini_user(gemini_inline("image/png", image_base64)));
    GeminiRequest {
        system_instruction: gemini_system(system_prompt),
        contents,
        generation_config: build_thinking_config(model, thinking),
    }
}

/// The connectivity probe: "hi", no system instruction, no thinking setting.
pub fn gemini_connectivity_request() -> (r: GeminiRequest)
    ensures
        r.system_instruction is None,
        r.generation_config is None,
        r.contents@.len() == 1,
        is_gemini_user_text(r.contents@[0], "hi"@),
{
    let mut contents = Vec::new();
    contents.push(gemini_user(GeminiPart::Text { text: String::from_str("hi") }));
    GeminiRequest { system_instruction: None, contents, generation_config: None }
}

/// The text of the last part that has text.
pub open spec fn last_text(parts: Seq<GeminiResponsePart>) -> Option<Seq<char>>
    decreases parts.len(),
{
    if parts.len() == 0 {
        None
    } else {
        match parts.last().text {
            Some(t) => Some(t@),
            None => last_text(parts.drop_last()),
        }
    }
}

/// The answer in a Gemini reply: the last text part of the first candidate
/// (earlier parts are thoughts), trimmed; or why there is none.
pub open spec fn spec_gemini_text(resp: GeminiResponse) -> Result<Seq<char>, Seq<char>> {
    match resp.candidates {
        None => Err("No candidates in Gemini response"@),
        Some(cs) => if cs@.len() == 0 {
            Err("Empty candidates in Gemini response"@)
        } else {
            match cs@[0].content {
                None => Err("No content in Gemini candidate"@),
                Some(content) => match content.parts {
                    None => Err("No parts in Gemini content"@),
                    Some(parts) => match last_text(parts@) {
                        None => Err("No text found in Gemini response parts"@),
                        Some(t) => Ok(trim(t)),
                    },
                },
            }
        },
    }
}

pub open spec fn result_view(r: Result<String, String>) -> Result<Seq<char>, Seq<char>> {
    match r {
        Ok(s) => Ok(s@),
        Err(e) => Err(e@),
    }
}

/// The answer in a Gemini reply.
pub fn extract_gemini_text(resp: &GeminiResponse) -> (r: Result<String, String>)
    ensures
        result_view(r) == spec_gemini_text(*resp),
{
    let candidates = match &resp.candidates {
        Some(c) => c,
        None => return Err(String::from_str("No candidates in Gemini response")),
    };
    if candidates.len() == 0 {
        return Err(String::from_str("Empty candidates in Gemini response"));
    }
    let content = match &candidates[0].content {
        Some(c) => c,
        None => return Err(String::from_str("No content in Gemini candidate")),
    };
    let parts = match &content.parts {
        Some(p) => p,
        None => return Err(String::from_str("No parts in Gemini content")),
    };
    let mut i = parts.len();
    assert(parts@.subrange(0, i as int) =~= parts@);
    while i > 0
        invariant
            i <= parts.len(),
            last_text(parts@) == last_text(parts@.subrange(0, i as int)),
            resp.candidates == Some(*candidates),
            candidates@.len() > 0,
            candidates@[0].content == Some(*content),
            content.parts == Some(*parts),
        decreases i,
    {
        let ghost sub = parts@.subrange(0, i as int);
        assert(sub.last() == parts@[i - 1]);
        assert(sub.drop_last() =~= parts@.subrange(0, i - 1));
        match &parts[i - 1].text {
            Some(t) => {
                assert(sub.last().text == Some(*t));
                assert(last_text(sub) == Some(t@));
                assert(last_text(parts@) == Some(t@));
                return Ok(str_trim(t.as_str()));
            },
            None => {},
        }
        i = i - 1;
    }
    Err(String::from_str("No text found in Gemini response parts"))
}

// ---------------------------------------------------------------------------
// OpenAI-compatible chat requests
// ---------------------------------------------------------------------------

fn wrap_voice_input(text: &str) -> (r: String)
    ensures
        r@ == voice_input(text@),
{
    let mut out = String::from_str("<voice-input>\n");
    out.append(text);
    out.append("\n</voice-input>");
    out
}

fn prefixed(prefix: &str, rest: &str) -> (r: String)
    ensures
        r@ == prefix@ + rest@,
{
    let mut out = String::from_str(prefix);
    out.append(rest);
    out
}

fn text_message(role: &str, text: String) -> (m: ChatMessage)
    ensures
        is_text_message(m, role@, text@),
{
    ChatMessage { role: String::from_str(role), content: ChatContent::Text(text) }
}

fn parts_message(part: ChatContentPart) -> (m: ChatMessage)
    ensures
        m.role@ == "user"@,
        m.content matches ChatContent::Parts(ps) && ps@ == seq![part],
{
    let mut parts = Vec::new();
    parts.push(part);
    assert(parts@ =~= seq![part]);
    ChatMessage { role: String::from_str("user"), content: ChatContent::Parts(parts) }
}

fn image_message(image_base64: &str) -> (m: ChatMessage)
    ensures
        is_image_message(m, png_data_uri(image_base64@)),
{
    parts_message(ChatContentPart::ImageUrl {
        image_url: ImageUrlData { url: prefixed("data:image/png;base64,", image_base64) },
    })
}

fn input_audio_message(data: String) -> (m: ChatMessage)
    ensures
        is_input_audio_message(m, data@),
{
    parts_message(ChatContentPart::InputAudio {
        input_audio: AudioData {
            audio_type: None,
            data,
            format: String::from_str("flac"),
            sample_rate: None,
        },
    })
}

fn text_modality() -> (m: Option<Vec<String>>)
    ensures
        text_only(m),
{
    let mut v = Vec::new();
    v.push(String::from_str("text"));
    Some(v)
}

fn thinking_param(kind: &str) -> (t: Option<ThinkingParam>)
    ensures
        thinking_is(t, kind@),
{
    Some(ThinkingParam { thinking_type: String::from_str(kind) })
}

/// A request for `model` with `messages` and no optional field set.
fn plain_request(model: &str, messages: Vec<ChatMessage>) -> (r: ChatCompletionRequest)
    ensures
        r.model@ == model@,
        r.messages == messages,
        is_plain(r),
{
    ChatCompletionRequest {
        model: String::from_str(model),
        messages,
        modalities: None,
        output_modalities: None,
        stream: None,
        max_tokens: None,
        stream_options: None,
        thinking: None,
        reasoning_effort: None,
        reasoning: None,
        provider: None,
        chat_template_kwargs: None,
    }
}

/// No optional field of the request is set.
pub open spec fn is_plain(r: ChatCompletionRequest) -> bool {
    &&& r.modalities is None
    &&& r.output_modalities is None
    &&& r.stream is None
    &&& r.max_tokens is None
    &&& r.stream_options is None
    &&& r.thinking is None
    &&& r.reasoning_effort is None
    &&& r.reasoning is None
    &&& r.provider is None
    &&& r.chat_template_kwargs is None
}

fn two_messages(first: ChatMessage, second: ChatMessage) -> (v: Vec<ChatMessage>)
    ensures
        v@ == seq![first, second],
{
    let mut v = Vec::new();
    v.push(first);
    v.push(second);
    assert(v@ =~= seq![first, second]);
    v
}

fn greeting_messages() -> (v: Vec<ChatMessage>)
    ensures
        v@.len() == 1,
        is_text_message(v@[0], "user"@, "hi"@),
{
    let mut v = Vec::new();
    v.push(text_message("user", String::from_str("hi")));
    v
}

// ---------------------------------------------------------------------------
// DeepSeek
// ---------------------------------------------------------------------------

/// DeepSeek's thinking switch and effort: thinking off sends `disabled` and
/// no effort; on sends `enabled` with the configured effort (`high` when
/// unset).
pub fn build_thinking_params(thinking: &ThinkingConfig, reasoning_effort: Option<&str>) -> (r: (
    Option<ThinkingParam>,
    Option<String>,
))
    ensures
        !thinking.enabled ==> thinking_is(r.0, "disabled"@) && r.1 is None,
        thinking.enabled ==> thinking_is(r.0, "enabled"@) && r.1 is Some && r.1->0@ == match reasoning_effort {
            Some(e) => e@,
            None => "high"@,
        },
{
    if !thinking.enabled {
        return (thinking_param("disabled"), None);
    }
    let effort = match reasoning_effort {
        Some(e) => String::from_str(e),
        None => String::from_str("high"),
    };
    (thinking_param("enabled"), Some(effort))
}

/// DeepSeek's thinking fields in a request.
pub open spec fn deepseek_thinking(r: ChatCompletionRequest, thinking: ThinkingConfig, effort: Option<Seq<char>>) -> bool {
    if !thinking.enabled {
        thinking_is(r.thinking, "disabled"@) && r.reasoning_effort is None
    } else {
        thinking_is(r.thinking, "enabled"@) && opt_view(r.reasoning_effort) == Some(
            match effort {
                Some(e) => e,
                None => "high"@,
            },
        )
    }
}

pub open spec fn str_opt_view(o: Option<&str>) -> Option<Seq<char>> {
    match o {
        Some(s) => Some(s@),
        None => None,
    }
}

/// DeepSeek text optimization.
pub fn deepseek_optimize_request(
    model: &str,
    text: &str,
    system_prompt: &str,
    thinking: &ThinkingConfig,
    reasoning_effort: Option<&str>,
) -> (r: ChatCompletionRequest)
    ensures
        system_then(r, model@, system_prompt@),
        is_text_message(r.messages@[1], "user"@, voice_input(text@)),
        deepseek_thinking(r, *thinking, str_opt_view(reasoning_effort)),
        r.modalities is None && r.stream is None && r.max_tokens is None && r.stream_options is None,
        r.reasoning is None && r.provider is None && r.chat_template_kwargs is None,
{
    let (thinking_p, effort) = build_thinking_params(thinking, reasoning_effort);
    let messages = two_messages(
        text_message("system", String::from_str(system_prompt)),
        text_message("user", wrap_voice_input(text)),
    );
    let mut r = plain_request(model, messages);
    r.thinking = thinking_p;
    r.reasoning_effort = effort;
    r
}

/// DeepSeek image recognition: the PNG inline in the user message only, with
/// the thinking setting of the optimization model.
pub fn build_extract_request(
    model: &str,
    system_prompt: &str,
    image_base64: &str,
    thinking: &ThinkingConfig,
    reasoning_effort: Option<&str>,
) -> (r: ChatCompletionRequest)
    ensures
        system_then(r, model@, system_prompt@),
        is_image_message(r.messages@[1], png_data_uri(image_base64@)),
        deepseek_thinking(r, *thinking, str_opt_view(reasoning_effort)),
        r.modalities is None && r.stream is None && r.max_tokens is None && r.stream_options is None,
        r.reasoning is None && r.provider is None && r.chat_template_kwargs is None,
{
    let (thinking_p, effort) = build_thinking_params(thinking, reasoning_effort);
    let messages = two_messages(
        text_message("system", String::from_str(system_prompt)),
        image_message(image_base64),
    );
    let mut r = plain_request(model, messages);
    r.thinking = thinking_p;
    r.reasoning_effort = effort;
    r
}

/// DeepSeek's connectivity probe: "hi", at most 8 tokens, thinking off.
pub fn deepseek_connectivity_request(model: &str) -> (r: ChatCompletionRequest)
    ensures
        greeting(r, model@),
        r.max_tokens == Some(8u32),
        thinking_is(r.thinking, "disabled"@),
        r.modalities is None && r.stream is None && r.stream_options is None,
        r.reasoning_effort is None && r.reasoning is None && r.provider is None,
        r.chat_template_kwargs is None,
{
    let mut r = plain_request(model, greeting_messages());
    r.max_tokens = Some(8);
    r.thinking = thinking_param("disabled");
    r
}

/// DeepSeek takes no audio.
pub fn deepseek_transcribe_unsupported() -> (e: String)
    ensures
        e@ == "DeepSeek 模型不支持音频转写,请选择其他模型"@,
{
    String::from_str("DeepSeek 模型不支持音频转写,请选择其他模型")
}

// ---------------------------------------------------------------------------
// OpenAI-compatible providers, OpenRouter and DashScope
// ---------------------------------------------------------------------------

pub open spec fn spec_is_openrouter(base_url: Seq<char>) -> bool {
    contains(base_url, "openrouter.ai"@)
}

pub fn is_openrouter(base_url: &str) -> (b: bool)
    ensures
        b == spec_is_openrouter(base_url@),
{
    str_contains(base_url, "openrouter.ai")
}

/// On OpenRouter, Google models are pinned to the `google-vertex/global`
/// provider without fallbacks; elsewhere no provider is named.
pub open spec fn provider_for(p: Option<OpenRouterProvider>, base_url: Seq<char>, model: Seq<char>) -> bool {
    if spec_is_openrouter(base_url) && starts_with(model, "google/"@) {
        &&& p is Some
        &&& p->0.order@.len() == 1
        &&& p->0.order@[0]@ == "google-vertex/global"@
        &&& !p->0.allow_fallbacks
    } else {
        p is None
    }
}

pub fn openrouter_provider(base_url: &str, model: &str) -> (r: Option<OpenRouterProvider>)
    ensures
        provider_for(r, base_url@, model@),
{
    if is_openrouter(base_url) && str_starts_with(model, "google/") {
        let mut order = Vec::new();
        order.push(String::from_str("google-vertex/global"));
        Some(OpenRouterProvider { order, allow_fallbacks: false })
    } else {
        None
    }
}

/// The number of entries of the JSON object written in `text`, or `None`
/// when `text` is not a JSON object.
pub uninterp spec fn json_object_entries(text: Seq<char>) -> Option<usize>;

/// Parses `text` with `serde_json` and counts the entries when it is an
/// object; the parse is named rather than spelled out.
#[verifier::external_body]
fn json_object_len(text: &str) -> (r: Option<usize>)
    ensures
        r == json_object_entries(text@),
{
    match serde_json::from_str::<serde_json::Value>(text) {
        Ok(serde_json::Value::Object(map)) => Some(map.len()),
        _ => None,
    }
}

/// The chat-template arguments that are sent: only a non-empty JSON object.
pub open spec fn spec_effective_kwargs(kwargs: Option<Seq<char>>) -> Option<Seq<char>> {
    match kwargs {
        Some(k) => match json_object_entries(k) {
            Some(n) => if n > 0 {
                Some(k)
            } else {
                None
            },
            None => None,
        },
        None => None,
    }
}

/// The chat-template arguments to send: an empty object `{}` or anything
/// that is not an object counts as not configured.
pub fn effective_kwargs(kwargs: Option<&String>) -> (r: Option<String>)
    ensures
        opt_view(r) == spec_effective_kwargs(match kwargs {
            Some(k) => Some(k@),
            None => None,
        }),
{
    match kwargs {
        Some(k) => match json_object_len(k.as_str()) {
            Some(n) => if n > 0 {
                Some(k.clone())
            } else {
                None
            },
            None => None,
        },
        None => None,
    }
}

/// OpenRouter's reasoning effort: the configured level in lower case
/// (`medium` when unset) with thinking on, else `minimal`; `minimal` is
/// raised to `low` for Gemini 3.7.
pub open spec fn openrouter_effort(enabled: bool, level: Seq<char>, model: Seq<char>) -> Seq<char> {
    let e = if enabled {
        let l = unicode_lowercase(trim(level));
        if l.len() == 0 {
            "medium"@
        } else {
            l
        }
    } else {
        "minimal"@
    };
    if e == "minimal"@ && contains(model, "gemini-3.7"@) {
        "low"@
    } else {
        e
    }
}

pub open spec fn thinking_on(thinking: Option<ThinkingConfig>) -> bool {
    thinking is Some && thinking->0.enabled
}

pub open spec fn thinking_level(thinking: Option<ThinkingConfig>) -> Seq<char> {
    match thinking {
        Some(t) => t.level@,
        None => Seq::empty(),
    }
}

pub open spec fn ref_opt(t: Option<&ThinkingConfig>) -> Option<ThinkingConfig> {
    match t {
        Some(x) => Some(*x),
        None => None,
    }
}

pub fn openrouter_reasoning(thinking: Option<&ThinkingConfig>, model: &str) -> (r: Option<OpenRouterReasoning>)
    ensures
        r is Some,
        r->0.effort@ == openrouter_effort(
            thinking_on(ref_opt(thinking)),
            thinking_level(ref_opt(thinking)),
            model@,
        ),
{
    let effort = match thinking {
        Some(cfg) => if cfg.enabled {
            let l = to_lowercase(str_trim(cfg.level.as_str()).as_str());
            if l.unicode_len() == 0 {
                String::from_str("medium")
            } else {
                l
            }
        } else {
            String::from_str("minimal")
        },
        None => String::from_str("minimal"),
    };
    let effort = if str_eq(effort.as_str(), "minimal") && str_contains(model, "gemini-3.7") {
        String::from_str("low")
    } else {
        effort
    };
    Some(OpenRouterReasoning { effort })
}

/// The reasoning field of an OpenAI-compatible request: OpenRouter's effort
/// on OpenRouter, nothing elsewhere.
pub open spec fn reasoning_for(r: Option<OpenRouterReasoning>, base_url: Seq<char>, thinking: Option<ThinkingConfig>, model: Seq<char>) -> bool {
    if spec_is_openrouter(base_url) {
        r is Some && r->0.effort@ == openrouter_effort(thinking_on(thinking), thinking_level(thinking), model)
    } else {
        r is None
    }
}

fn reasoning_if_openrouter(base_url: &str, thinking: Option<&ThinkingConfig>, model: &str) -> (r: Option<OpenRouterReasoning>)
    ensures
        reasoning_for(r, base_url@, ref_opt(thinking), model@),
{
    if is_openrouter(base_url) {
        openrouter_reasoning(thinking, model)
    } else {
        None
    }
}

/// The value of the `Authorization` header for `api_key`.
pub open spec fn bearer_value(api_key: Seq<char>) -> Seq<char> {
    "Bearer "@ + api_key
}

/// Bearer authorization, as DeepSeek, DashScope and OpenRouter take it.
pub fn bearer(api_key: &str) -> (h: Vec<(&'static str, String)>)
    ensures
        h@.len() == 1,
        h@[0].0@ == "Authorization"@,
        h@[0].1@ == bearer_value(api_key@),
{
    let mut h = Vec::new();
    h.push(("Authorization", prefixed("Bearer ", api_key)));
    h
}

/// Headers of an OpenAI-compatible request: bearer authorization, plus the
/// referrer and title on OpenRouter.
pub fn api_headers(api_key: &str, base_url: &str) -> (h: Vec<(&'static str, String)>)
    ensures
        h@[0].0@ == "Authorization"@,
        h@[0].1@ == bearer_value(api_key@),
        !spec_is_openrouter(base_url@) ==> h@.len() == 1,
        spec_is_openrouter(base_url@) ==> h@.len() == 3
            && h@[1].0@ == "HTTP-Referer"@ && h@[1].1@ == "https://github.com/devonmochi/byetype"@
            && h@[2].0@ == "X-Title"@ && h@[2].1@ == "ByeType"@,
{
    let mut h = bearer(api_key);
    if is_openrouter(base_url) {
        h.push(("HTTP-Referer", String::from_str("https://github.com/devonmochi/byetype")));
        h.push(("X-Title", String::from_str("ByeType")));
    }
    h
}

/// MiMo's key header.
pub fn mimo_headers(api_key: &str) -> (h: Vec<(&'static str, String)>)
    ensures
        h@.len() == 1,
        h@[0].0@ == "api-key"@,
        h@[0].1@ == api_key@,
{
    let mut h = Vec::new();
    h.push(("api-key", String::from_str(api_key)));
    h
}

/// The chat-completions endpoint under `base_url`.
pub fn chat_completions_url(base_url: &str) -> (r: String)
    ensures
        r@ == url_join(base_url@, "/chat/completions"@),
{
    url_join_str(base_url, "/chat/completions")
}

pub open spec fn ref_string_opt(k: Option<&String>) -> Option<Seq<char>> {
    match k {
        Some(x) => Some(x@),
        None => None,
    }
}

/// The audio of an OpenAI-compatible transcription: a FLAC data URI in
/// `audio_url` mode; else inline, bare on OpenRouter and as a data URI
/// elsewhere.
pub open spec fn is_audio_for(m: ChatMessage, mode: AudioInputMode, base_url: Seq<char>, audio: Seq<char>) -> bool {
    match mode {
        AudioInputMode::AudioUrl => is_audio_url_message(m, flac_data_uri(audio)),
        AudioInputMode::InputAudio => if spec_is_openrouter(base_url) {
            is_input_audio_message(m, audio)
        } else {
            is_input_audio_message(m, bare_data_uri(audio))
        },
    }
}

/// Fields shared by OpenAI-compatible requests: OpenRouter reasoning and
/// provider, and the effective chat-template arguments.
pub open spec fn compat_extras(
    r: ChatCompletionRequest,
    base_url: Seq<char>,
    model: Seq<char>,
    kwargs: Option<Seq<char>>,
    thinking: Option<ThinkingConfig>,
) -> bool {
    &&& reasoning_for(r.reasoning, base_url, thinking, model)
    &&& provider_for(r.provider, base_url, model)
    &&& opt_view(r.chat_template_kwargs) == spec_effective_kwargs(kwargs)
    &&& r.thinking is None && r.reasoning_effort is None && r.output_modalities is None
    &&& r.max_tokens is None && r.stream_options is None
}

/// OpenAI-compatible transcription.
pub fn openai_transcribe_request(
    audio_base64: &str,
    system_prompt: &str,
    model: &str,
    base_url: &str,
    audio_input_mode: AudioInputMode,
    chat_template_kwargs: Option<&String>,
    thinking: Option<&ThinkingConfig>,
) -> (r: ChatCompletionRequest)
    ensures
        system_then(r, model@, system_prompt@),
        is_audio_for(r.messages@[1], audio_input_mode, base_url@, audio_base64@),
        text_only(r.modalities),
        r.stream is None,
        compat_extras(r, base_url@, model@, ref_string_opt(chat_template_kwargs), ref_opt(thinking)),
{
    let audio = match audio_input_mode {
        AudioInputMode::AudioUrl => parts_message(ChatContentPart::AudioUrl {
            audio_url: AudioUrlData { url: prefixed("data:audio/flac;base64,", audio_base64) },
        }),
        AudioInputMode::InputAudio => {
            let data = if is_openrouter(base_url) {
                String::from_str(audio_base64)
            } else {
                prefixed("data:;base64,", audio_base64)
            };
            input_audio_message(data)
        },
    };
    let messages = two_messages(text_message("system", String::from_str(system_prompt)), audio);
    let mut r = plain_request(model, messages);
    r.modalities = text_modality();
    r.reasoning = reasoning_if_openrouter(base_url, thinking, model);
    r.provider = openrouter_provider(base_url, model);
    r.chat_template_kwargs = effective_kwargs(chat_template_kwargs);
    r
}

/// OpenAI-compatible text optimization.
pub fn openai_optimize_request(
    text: &str,
    system_prompt: &str,
    model: &str,
    base_url: &str,
    chat_template_kwargs: Option<&String>,
    thinking: Option<&ThinkingConfig>,
) -> (r: ChatCompletionRequest)
    ensures
        system_then(r, model@, system_prompt@),
        is_text_message(r.messages@[1], "user"@, voice_input(text@)),
        r.modalities is None && r.stream is None,
        compat_extras(r, base_url@, model@, ref_string_opt(chat_template_kwargs), ref_opt(thinking)),
{
    let messages = two_messages(
        text_message("system", String::from_str(system_prompt)),
        text_message("user", wrap_voice_input(text)),
    );
    let mut r = plain_request(model, messages);
    r.reasoning = reasoning_if_openrouter(base_url, thinking, model);
    r.provider = openrouter_provider(base_url, model);
    r.chat_template_kwargs = effective_kwargs(chat_template_kwargs);
    r
}

/// OpenAI-compatible image recognition, not streamed.
pub fn openai_extract_request(
    image_base64: &str,
    system_prompt: &str,
    model: &str,
    base_url: &str,
    chat_template_kwargs: Option<&String>,
    thinking: Option<&ThinkingConfig>,
) -> (r: ChatCompletionRequest)
    ensures
        system_then(r, model@, system_prompt@),
        is_image_message(r.messages@[1], png_data_uri(image_base64@)),
        text_only(r.modalities),
        r.stream == Some(false),
        compat_extras(r, base_url@, model@, ref_string_opt(chat_template_kwargs), ref_opt(thinking)),
{
    let messages = two_messages(
        text_message("system", String::from_str(system_prompt)),
        image_message(image_base64),
    );
    let mut r = plain_request(model, messages);
    r.modalities = text_modality();
    r.stream = Some(false);
    r.reasoning = reasoning_if_openrouter(base_url, thinking, model);
    r.provider = openrouter_provider(base_url, model);
    r.chat_template_kwargs = effective_kwargs(chat_template_kwargs);
    r
}

/// The OpenAI-compatible connectivity probe.
pub fn openai_connectivity_request(model: &str, base_url: &str, chat_template_kwargs: Option<&String>) -> (r: ChatCompletionRequest)
    ensures
        greeting(r, model@),
        provider_for(r.provider, base_url@, model@),
        opt_view(r.chat_template_kwargs) == spec_effective_kwargs(ref_string_opt(chat_template_kwargs)),
        r.modalities is None && r.stream is None && r.max_tokens is None && r.stream_options is None,
        r.thinking is None && r.reasoning_effort is None && r.reasoning is None,
{
    let mut r = plain_request(model, greeting_messages());
    r.provider = openrouter_provider(base_url, model);
    r.chat_template_kwargs = effective_kwargs(chat_template_kwargs);
    r
}

/// Fields shared by DashScope (Qwen Omni) requests: text output, streamed
/// with usage, the OpenRouter provider pin, nothing else.
pub open spec fn qwen_extras(r: ChatCompletionRequest, base_url: Seq<char>, model: Seq<char>) -> bool {
    &&& text_only(r.modalities)
    &&& streams_with_usage(r)
    &&& provider_for(r.provider, base_url, model)
    &&& r.thinking is None && r.reasoning_effort is None && r.reasoning is None
    &&& r.chat_template_kwargs is None && r.output_modalities is None
}

fn qwen_stream(r: &mut ChatCompletionRequest, base_url: &str, model: &str)
    requires
        is_plain(*old(r)),
    ensures
        qwen_extras(*final(r), base_url@, model@),
        final(r).model == old(r).model,
        final(r).messages == old(r).messages,
        final(r).max_tokens is None,
{
    r.modalities = text_modality();
    r.stream = Some(true);
    r.stream_options = Some(StreamOptions { include_usage: true });
    r.provider = openrouter_provider(base_url, model);
}

/// Qwen Omni transcription: the audio as a bare data URI, streamed.
pub fn qwen_omni_transcribe_request(audio_base64: &str, system_prompt: &str, model: &str, base_url: &str) -> (r:
    ChatCompletionRequest)
    ensures
        system_then(r, model@, system_prompt@),
        is_input_audio_message(r.messages@[1], bare_data_uri(audio_base64@)),
        qwen_extras(r, base_url@, model@),
        r.max_tokens is None,
{
    let messages = two_messages(
        text_message("system", String::from_str(system_prompt)),
        input_audio_message(prefixed("data:;base64,", audio_base64)),
    );
    let mut r = plain_request(model, messages);
    qwen_stream(&mut r, base_url, model);
    r
}

/// Qwen Omni text optimization, streamed.
pub fn qwen_omni_optimize_request(text: &str, system_prompt: &str, model: &str, base_url: &str) -> (r:
    ChatCompletionRequest)
    ensures
        system_then(r, model@, system_prompt@),
        is_text_message(r.messages@[1], "user"@, voice_input(text@)),
        qwen_extras(r, base_url@, model@),
        r.max_tokens is None,
{
    let messages = two_messages(
        text_message("system", String::from_str(system_prompt)),
        text_message("user", wrap_voice_input(text)),
    );
    let mut r = plain_request(model, messages);
    qwen_stream(&mut r, base_url, model);
    r
}

/// Qwen Omni image recognition, streamed.
pub fn qwen_omni_extract_request(image_base64: &str, system_prompt: &str, model: &str, base_url: &str) -> (r:
    ChatCompletionRequest)
    ensures
        system_then(r, model@, system_prompt@),
        is_image_message(r.messages@[1], png_data_uri(image_base64@)),
        qwen_extras(r, base_url@, model@),
        r.max_tokens is None,
{
    let messages = two_messages(
        text_message("system", String::from_str(system_prompt)),
        image_message(image_base64),
    );
    let mut r = plain_request(model, messages);
    qwen_stream(&mut r, base_url, model);
    r
}

/// The Qwen Omni connectivity probe: "hi", at most 32 tokens, streamed.
pub fn qwen_omni_connectivity_request(model: &str, base_url: &str) -> (r: ChatCompletionRequest)
    ensures
        greeting(r, model@),
        qwen_extras(r, base_url@, model@),
        r.max_tokens == Some(32u32),
{
    let mut r = plain_request(model, greeting_messages());
    qwen_stream(&mut r, base_url, model);
    r.max_tokens = Some(32);
    r
}

// ---------------------------------------------------------------------------
// MiMo
// ---------------------------------------------------------------------------

/// MiMo requests always turn thinking off and set nothing else optional
/// but the text-only output where given.
pub open spec fn mimo_extras(r: ChatCompletionRequest, text_out: bool) -> bool {
    &&& thinking_is(r.thinking, "disabled"@)
    &&& (if text_out { text_only(r.modalities) } else { r.modalities is None })
    &&& r.stream is None && r.max_tokens is None && r.stream_options is None
    &&& r.reasoning_effort is None && r.reasoning is None && r.provider is None
    &&& r.chat_template_kwargs is None && r.output_modalities is None
}

pub fn mimo_transcribe_request(audio_base64: &str, system_prompt: &str, model: &str) -> (r: ChatCompletionRequest)
    ensures
        system_then(r, model@, system_prompt@),
        is_input_audio_message(r.messages@[1], bare_data_uri(audio_base64@)),
        mimo_extras(r, true),
{
    let messages = two_messages(
        text_message("system", String::from_str(system_prompt)),
        input_audio_message(prefixed("data:;base64,", audio_base64)),
    );
    let mut r = plain_request(model, messages);
    r.modalities = text_modality();
    r.thinking = thinking_param("disabled");
    r
}

pub fn mimo_optimize_request(text: &str, system_prompt: &str, model: &str) -> (r: ChatCompletionRequest)
    ensures
        system_then(r, model@, system_prompt@),
        is_text_message(r.messages@[1], "user"@, voice_input(text@)),
        mimo_extras(r, false),
{
    let messages = two_messages(
        text_message("system", String::from_str(system_prompt)),
        text_message("user", wrap_voice_input(text)),
    );
    let mut r = plain_request(model, messages);
    r.thinking = thinking_param("disabled");
    r
}

pub fn mimo_extract_request(image_base64: &str, system_prompt: &str, model: &str) -> (r: ChatCompletionRequest)
    ensures
        system_then(r, model@, system_prompt@),
        is_image_message(r.messages@[1], png_data_uri(image_base64@)),
        mimo_extras(r, true),
{
    let messages = two_messages(
        text_message("system", String::from_str(system_prompt)),
        image_message(image_base64),
    );
    let mut r = plain_request(model, messages);
    r.modalities = text_modality();
    r.thinking = thinking_param("disabled");
    r
}

pub fn mimo_connectivity_request(model: &str) -> (r: ChatCompletionRequest)
    ensures
        greeting(r, model@),
        mimo_extras(r, false),
{
    let mut r = plain_request(model, greeting_messages());
    r.thinking = thinking_param("disabled");
    r
}

// ---------------------------------------------------------------------------
// Replies
// ---------------------------------------------------------------------------

/// The content of the first choice of a reply, if it has one.
pub open spec fn first_content(resp: ChatCompletionResponse) -> Option<Seq<char>> {
    match resp.choices {
        Some(cs) => if cs@.len() > 0 {
            match cs@[0].message {
                Some(m) => match m.content {
                    Some(c) => Some(c@),
                    None => None,
                },
                None => None,
            }
        } else {
            None
        },
        None => None,
    }
}

fn first_content_of(resp: &ChatCompletionResponse) -> (r: Option<&String>)
    ensures
        match r {
            Some(s) => first_content(*resp) == Some(s@),
            None => first_content(*resp) is None,
        },
{
    match &resp.choices {
        Some(cs) => if cs.len() > 0 {
            match &cs[0].message {
                Some(m) => match &m.content {
                    Some(c) => Some(c),
                    None => None,
                },
                None => None,
            }
        } else {
            None
        },
        None => None,
    }
}

/// The trimmed answer of a reply that must hold one, with its usage;
/// `missing` when it holds none.
pub fn required_text(resp: &ChatCompletionResponse, missing: &str) -> (r: Result<(String, TokenUsage), String>)
    ensures
        match first_content(*resp) {
            Some(c) => r is Ok && r->Ok_0.0@ == trim(c) && r->Ok_0.1 == usage_of(resp.usage),
            None => r is Err && r->Err_0@ == missing@,
        },
{
    match first_content_of(resp) {
        Some(c) => Ok((str_trim(c.as_str()), usage_or_default(&resp.usage))),
        None => Err(String::from_str(missing)),
    }
}

/// The answer of an optimization reply: the trimmed content, or the input
/// text unchanged when the content is missing or blank; usage is reported
/// either way.
pub open spec fn spec_optimized_text(resp: ChatCompletionResponse, original: Seq<char>) -> Seq<char> {
    let t = match first_content(resp) {
        Some(c) => trim(c),
        None => Seq::empty(),
    };
    if t.len() == 0 {
        original
    } else {
        t
    }
}

pub fn optimized_text(resp: &ChatCompletionResponse, original: &str) -> (r: (String, TokenUsage))
    ensures
        r.0@ == spec_optimized_text(*resp, original@),
        r.1 == usage_of(resp.usage),
{
    let t = match first_content_of(resp) {
        Some(c) => str_trim(c.as_str()),
        None => String::new(),
    };
    let usage = usage_or_default(&resp.usage);
    if t.unicode_len() == 0 {
        (String::from_str(original), usage)
    } else {
        (t, usage)
    }
}

/// DeepSeek image recognition: the answer must hold more than white space.
pub fn deepseek_extract_text(resp: &ChatCompletionResponse) -> (r: Result<(String, TokenUsage), String>)
    ensures
        match first_content(*resp) {
            Some(c) => if trim(c).len() > 0 {
                r is Ok && r->Ok_0.0@ == trim(c) && r->Ok_0.1 == usage_of(resp.usage)
            } else {
                r is Err && r->Err_0@ == "No text in DeepSeek extract_text response"@
            },
            None => r is Err && r->Err_0@ == "No text in DeepSeek extract_text response"@,
        },
{
    match first_content_of(resp) {
        Some(c) => {
            let t = str_trim(c.as_str());
            if t.unicode_len() > 0 {
                Ok((t, usage_or_default(&resp.usage)))
            } else {
                Err(String::from_str("No text in DeepSeek extract_text response"))
            }
        },
        None => Err(String::from_str("No text in DeepSeek extract_text response")),
    }
}

// ---------------------------------------------------------------------------
// Server-sent events
// ---------------------------------------------------------------------------

/// The `data:` payloads of lines `i..`, up to `[DONE]`: each line trimmed,
/// blank lines and `:` comments skipped.
pub open spec fn sse_payloads_from(ls: Seq<Seq<char>>, i: int) -> Seq<Seq<char>>
    decreases ls.len() - i,
{
    if i < 0 || i >= ls.len() {
        Seq::empty()
    } else {
        let l = trim(ls[i]);
        if l.len() == 0 || l[0] == ':' {
            sse_payloads_from(ls, i + 1)
        } else {
            match strip_prefix(l, "data: "@) {
                Some(d) => {
                    let d = trim(d);
                    if d == "[DONE]"@ {
                        Seq::empty()
                    } else {
                        seq![d] + sse_payloads_from(ls, i + 1)
                    }
                },
                None => sse_payloads_from(ls, i + 1),
            }
        }
    }
}

/// The JSON payloads of a complete event-stream body, in order.
pub open spec fn spec_sse_payloads(body: Seq<char>) -> Seq<Seq<char>> {
    sse_payloads_from(lines(body), 0)
}

/// The JSON payloads of a complete event-stream body, in order.
pub fn sse_payloads(body: &str) -> (r: Vec<String>)
    ensures
        r@.map_values(|s: String| s@) == spec_sse_payloads(body@),
{
    let text = chars_of(body);
    let ls = lines_of(&text);
    let ghost lv = lines(body@);
    let data = chars_of("data: ");
    let done = chars_of("[DONE]");
    let mut out: Vec<String> = Vec::new();
    let mut i: usize = 0;
    while i < ls.len()
        invariant
            i <= ls.len() == lv.len(),
            lv == lines(body@),
            data@ == "data: "@,
            done@ == "[DONE]"@,
            forall|k: int| 0 <= k < ls.len() ==> #[trigger] ls@[k]@ == lv[k],
            spec_sse_payloads(body@) == out@.map_values(|s: String| s@) + sse_payloads_from(lv, i as int),
        decreases ls.len() - i,
    {
        let l = trim_chars(&ls[i]);
        if l.len() == 0 || l[0] == ':' {
            i = i + 1;
            continue;
        }
        match strip_prefix_chars(&l, &data) {
            Some(d) => {
                let d = trim_chars(&d);
                if chars_eq(&d, &done) {
                    assert(out@.map_values(|s: String| s@) + Seq::<Seq<char>>::empty() =~= out@.map_values(|s: String| s@));
                    return out;
                }
                let ghost prev = out@.map_values(|s: String| s@);
                let ds = string_of(&d);
                out.push(ds);
                assert(out@.map_values(|s: String| s@) =~= prev.push(d@));
                assert(prev + (seq![d@] + sse_payloads_from(lv, i + 1)) =~= prev.push(d@)
                    + sse_payloads_from(lv, i + 1));
            },
            None => {},
        }
        i = i + 1;
    }
    assert(out@.map_values(|s: String| s@) + Seq::<Seq<char>>::empty() =~= out@.map_values(|s: String| s@));
    out
}

/// The delta text of a chunk's first choice, empty when absent.
pub open spec fn chunk_text(c: StreamChunk) -> Seq<char> {
    match c.choices {
        Some(cs) => if cs@.len() > 0 {
            match cs@[0].delta {
                Some(d) => match d.content {
                    Some(t) => t@,
                    None => Seq::empty(),
                },
                None => Seq::empty(),
            }
        } else {
            Seq::empty()
        },
        None => Seq::empty(),
    }
}

/// The text of a stream: the delta texts of its chunks, in order.
pub open spec fn stream_text(chunks: Seq<StreamChunk>) -> Seq<char>
    decreases chunks.len(),
{
    if chunks.len() == 0 {
        Seq::empty()
    } else {
        stream_text(chunks.drop_last()) + chunk_text(chunks.last())
    }
}

/// The usage of a stream: that of the last chunk carrying one, else zero.
pub open spec fn stream_usage(chunks: Seq<StreamChunk>) -> TokenUsage
    decreases chunks.len(),
{
    if chunks.len() == 0 {
        TokenUsage { prompt_tokens: 0, completion_tokens: 0 }
    } else {
        match chunks.last().usage {
            Some(u) => usage_of(Some(u)),
            None => stream_usage(chunks.drop_last()),
        }
    }
}

/// The text and usage of a parsed stream.
pub fn merge_stream_chunks(chunks: &Vec<StreamChunk>) -> (r: (String, TokenUsage))
    ensures
        r.0@ == stream_text(chunks@),
        r.1 == stream_usage(chunks@),
{
    let mut text = String::new();
    let mut usage = TokenUsage::default();
    let mut i: usize = 0;
    while i < chunks.len()
        invariant
            i <= chunks.len(),
            text@ == stream_text(chunks@.take(i as int)),
            usage == stream_usage(chunks@.take(i as int)),
        decreases chunks.len() - i,
    {
        let c = &chunks[i];
        match &c.usage {
            Some(u) => {
                usage = usage_or_default(&c.usage);
            },
            None => {},
        }
        match &c.choices {
            Some(cs) => if cs.len() > 0 {
                match &cs[0].delta {
                    Some(d) => match &d.content {
                        Some(t) => text.append(t.as_str()),
                        None => {},
                    },
                    None => {},
                }
            },
            None => {},
        }
        proof {
            let t = chunks@.take(i + 1);
            assert(t.drop_last() =~= chunks@.take(i as int));
            assert(t.last() == chunks@[i as int]);
            assert(text@ =~= stream_text(t));
        }
        i = i + 1;
    }
    assert(chunks@.take(chunks.len() as int) =~= chunks@);
    (text, usage)
}

/// A streamed answer that must hold text: trimmed, or `missing`.
pub fn required_stream_text(text: String, usage: TokenUsage, missing: &str) -> (r: Result<(String, TokenUsage), String>)
    ensures
        text@.len() > 0 ==> r is Ok && r->Ok_0.0@ == trim(text@) && r->Ok_0.1 == usage,
        text@.len() == 0 ==> r is Err && r->Err_0@ == missing@,
{
    if text.unicode_len() == 0 {
        return Err(String::from_str(missing));
    }
    Ok((str_trim(text.as_str()), usage))
}

/// A streamed optimization: the original text when nothing came back, else
/// the answer trimmed.
pub fn stream_optimized_text(result: String, usage: TokenUsage, original: &str) -> (r: (String, TokenUsage))
    ensures
        result@.len() == 0 ==> r.0@ == original@,
        result@.len() > 0 ==> r.0@ == trim(result@),
        r.1 == usage,
{
    if result.unicode_len() == 0 {
        return (String::from_str(original), usage);
    }
    (str_trim(result.as_str()), usage)
}


proof fn lemma_last_text_at(parts: Seq<GeminiResponsePart>, j: int)
    requires
        0 <= j < parts.len(),
        parts[j].text is Some,
        forall|k: int| j < k < parts.len() ==> (#[trigger] parts[k]).text is None,
    ensures
        last_text(parts) == Some(parts[j].text->Some_0@),
    decreases parts.len(),
{
    if j < parts.len() - 1 {
        assert(parts.last() == parts[parts.len() - 1]);
        let q = parts.drop_last();
        assert forall|k: int| j < k < q.len() implies (#[trigger] q[k]).text is None by {
            assert(q[k] == parts[k]);
        }
        assert(q[j] == parts[j]);
        lemma_last_text_at(q, j);
    }
}

proof fn lemma_last_text_none(parts: Seq<GeminiResponsePart>)
    requires
        forall|k: int| 0 <= k < parts.len() ==> (#[trigger] parts[k]).text is None,
    ensures
        last_text(parts) is None,
    decreases parts.len(),
{
    if parts.len() > 0 {
        assert(parts.last() == parts[parts.len() - 1]);
        let q = parts.drop_last();
        assert forall|k: int| 0 <= k < q.len() implies (#[trigger] q[k]).text is None by {
            assert(q[k] == parts[k]);
        }
        lemma_last_text_none(q);
    }
}

/// The answer of a Gemini reply is the last part of the first candidate
/// that holds text, trimmed: earlier text parts (the model's thoughts) and
/// later parts without text are passed over; a reply whose parts hold no
/// text has no answer.
pub proof fn lemma_gemini_answer_is_last_text(resp: GeminiResponse, parts: Seq<GeminiResponsePart>, j: int)
    requires
        resp.candidates is Some,
        resp.candidates->Some_0@.len() > 0,
        resp.candidates->Some_0@[0].content is Some,
        resp.candidates->Some_0@[0].content->Some_0.parts is Some,
        resp.candidates->Some_0@[0].content->Some_0.parts->Some_0@ == parts,
    ensures
        0 <= j < parts.len() && parts[j].text is Some && (forall|k: int|
            j < k < parts.len() ==> (#[trigger] parts[k]).text is None) ==> spec_gemini_text(resp) == Ok::<
            Seq<char>,
            Seq<char>,
        >(trim(parts[j].text->Some_0@)),
        (forall|k: int| 0 <= k < parts.len() ==> (#[trigger] parts[k]).text is None) ==> spec_gemini_text(resp) is Err,
{
    if 0 <= j < parts.len() && parts[j].text is Some && (forall|k: int|
        j < k < parts.len() ==> (#[trigger] parts[k]).text is None) {
        lemma_last_text_at(parts, j);
    }
    if forall|k: int| 0 <= k < parts.len() ==> (#[trigger] parts[k]).text is None {
        lemma_last_text_none(parts);
    }
}

} // verus!
