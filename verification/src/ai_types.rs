//! Requests to and replies from the model providers, as plain data.
//! Turning them into JSON and back is the transport's part.
use vstd::prelude::*;

verus! {

/// Tokens one model call used. Zero where the provider did not say.
#[derive(Debug, Clone, Copy, PartialEq, Eq)]
pub struct TokenUsage {
    pub prompt_tokens: u64,
    pub completion_tokens: u64,
}

// === Gemini ===

#[derive(Debug, Clone)]
pub struct GeminiRequest {
    pub system_instruction: Option<GeminiContent>,
    pub contents: Vec<GeminiContent>,
    pub generation_config: Option<GeminiGenerationConfig>,
}

#[derive(Debug, Clone)]
pub struct GeminiContent {
    pub role: Option<String>,
    pub parts: Vec<GeminiPart>,
}

#[derive(Debug, Clone)]
pub enum GeminiPart {
    Text { text: String },
    InlineData { inline_data: GeminiInlineData },
}

#[derive(Debug, Clone)]
pub struct GeminiInlineData {
    pub mime_type: String,
    pub data: String,
}

#[derive(Debug, Clone)]
pub struct GeminiGenerationConfig {
    pub thinking_config: Option<GeminiThinkingConfig>,
}

#[derive(Debug, Clone)]
pub struct GeminiThinkingConfig {
    pub include_thoughts: bool,
    pub thinking_level: String,
}

#[derive(Debug, Clone)]
pub struct GeminiResponse {
    pub candidates: Option<Vec<GeminiCandidate>>,
    pub usage_metadata: Option<GeminiUsageMetadata>,
}

#[derive(Debug, Clone, Copy)]
pub struct GeminiUsageMetadata {
    pub prompt_token_count: Option<u64>,
    pub candidates_token_count: Option<u64>,
    pub total_token_count: Option<u64>,
}

#[derive(Debug, Clone)]
pub struct GeminiCandidate {
    pub content: Option<GeminiResponseContent>,
}

#[derive(Debug, Clone)]
pub struct GeminiResponseContent {
    pub parts: Option<Vec<GeminiResponsePart>>,
}

#[derive(Debug, Clone)]
pub struct GeminiResponsePart {
    pub text: Option<String>,
}

// === OpenAI-compatible chat ===

/// A chat-completion request. `chat_template_kwargs` is JSON object text.
#[derive(Debug, Clone)]
pub struct ChatCompletionRequest {
    pub model: String,
    pub messages: Vec<ChatMessage>,
    pub modalities: Option<Vec<String>>,
    pub output_modalities: Option<Vec<String>>,
    pub stream: Option<bool>,
    pub max_tokens: Option<u32>,
    pub stream_options: Option<StreamOptions>,
    pub thinking: Option<ThinkingParam>,
    pub reasoning_effort: Option<String>,
    pub reasoning: Option<OpenRouterReasoning>,
    pub provider: Option<OpenRouterProvider>,
    pub chat_template_kwargs: Option<String>,
}

#[derive(Debug, Clone)]
pub struct ThinkingParam {
    pub thinking_type: String,
}

#[derive(Debug, Clone)]
pub struct OpenRouterReasoning {
    pub effort: String,
}

#[derive(Debug, Clone)]
pub struct OpenRouterProvider {
    pub order: Vec<String>,
    pub allow_fallbacks: bool,
}

#[derive(Debug, Clone)]
pub struct ChatMessage {
    pub role: String,
    pub content: ChatContent,
}

#[derive(Debug, Clone)]
pub enum ChatContent {
    Text(String),
    Parts(Vec<ChatContentPart>),
}

#[derive(Debug, Clone)]
pub enum ChatContentPart {
    InputAudio { input_audio: AudioData },
    AudioUrl { audio_url: AudioUrlData },
    ImageUrl { image_url: ImageUrlData },
}

#[derive(Debug, Clone)]
pub struct AudioData {
    pub audio_type: Option<String>,
    pub data: String,
    pub format: String,
    pub sample_rate: Option<u32>,
}

#[derive(Debug, Clone)]
pub struct AudioUrlData {
    pub url: String,
}

#[derive(Debug, Clone)]
pub struct ImageUrlData {
    pub url: String,
}

#[derive(Debug, Clone)]
pub struct ChatCompletionResponse {
    pub choices: Option<Vec<ChatChoice>>,
    pub usage: Option<ChatUsage>,
}

/// The `usage` of an OpenAI-compatible reply.
#[derive(Debug, Clone, Copy)]
pub struct ChatUsage {
    pub prompt_tokens: Option<u64>,
    pub completion_tokens: Option<u64>,
}

#[derive(Debug, Clone)]
pub struct ChatChoice {
    pub message: Option<ChatResponseMessage>,
}

#[derive(Debug, Clone)]
pub struct ChatResponseMessage {
    pub content: Option<String>,
}

// === Streaming ===

#[derive(Debug, Clone, Copy)]
pub struct StreamOptions {
    pub include_usage: bool,
}

/// One server-sent chunk; the last one carries `usage` when asked for.
#[derive(Debug, Clone)]
pub struct StreamChunk {
    pub choices: Option<Vec<StreamChunkChoice>>,
    pub usage: Option<ChatUsage>,
}

#[derive(Debug, Clone)]
pub struct StreamChunkChoice {
    pub delta: Option<StreamDelta>,
}

#[derive(Debug, Clone)]
pub struct StreamDelta {
    pub content: Option<String>,
}

/// `o`, or 0 when absent.
pub open spec fn or_zero(o: Option<u64>) -> u64 {
    match o {
        Some(v) => v,
        None => 0,
    }
}

/// Output tokens of a Gemini call: the total (which counts thinking) less
/// the prompt, floored at 0; without a total, the candidates' count.
pub open spec fn gemini_completion_tokens(meta: GeminiUsageMetadata) -> u64 {
    let prompt = or_zero(meta.prompt_token_count);
    match meta.total_token_count {
        Some(total) => if total >= prompt {
            (total - prompt) as u64
        } else {
            0
        },
        None => or_zero(meta.candidates_token_count),
    }
}

impl TokenUsage {
    /// No tokens counted.
    pub fn default() -> (u: Self)
        ensures
            u.prompt_tokens == 0,
            u.completion_tokens == 0,
    {
        TokenUsage { prompt_tokens: 0, completion_tokens: 0 }
    }

    /// The usage that Gemini's metadata reports.
    pub fn from_gemini(meta: &GeminiUsageMetadata) -> (u: Self)
        ensures
            u.prompt_tokens == or_zero(meta.prompt_token_count),
            u.completion_tokens == gemini_completion_tokens(*meta),
    {
        let prompt = match meta.prompt_token_count {
            Some(p) => p,
            None => 0,
        };
        let completion = match (meta.total_token_count, meta.candidates_token_count) {
            (Some(total), _) => total.saturating_sub(prompt),
            (None, Some(candidates)) => candidates,
            (None, None) => 0,
        };
        TokenUsage { prompt_tokens: prompt, completion_tokens: completion }
    }

    /// The usage of an OpenAI-compatible reply.
    pub fn from_chat(usage: &ChatUsage) -> (u: Self)
        ensures
            u.prompt_tokens == or_zero(usage.prompt_tokens),
            u.completion_tokens == or_zero(usage.completion_tokens),
    {
        TokenUsage {
            prompt_tokens: match usage.prompt_tokens {
                Some(v) => v,
                None => 0,
            },
            completion_tokens: match usage.completion_tokens {
                Some(v) => v,
                None => 0,
            },
        }
    }
}

/// The usage of a reply, zero when it has none.
pub open spec fn usage_of(usage: Option<ChatUsage>) -> TokenUsage {
    match usage {
        Some(u) => TokenUsage {
            prompt_tokens: or_zero(u.prompt_tokens),
            completion_tokens: or_zero(u.completion_tokens),
        },
        None => TokenUsage { prompt_tokens: 0, completion_tokens: 0 },
    }
}

/// The usage of a reply, zero when it has none.
pub fn usage_or_default(usage: &Option<ChatUsage>) -> (u: TokenUsage)
    ensures
        u == usage_of(*usage),
{
    match usage {
        Some(u) => TokenUsage::from_chat(u),
        None => TokenUsage::default(),
    }
}

} // verus!
