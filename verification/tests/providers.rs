use byetype::ai_types::{
    ChatContent, ChatContentPart, ChatUsage, GeminiUsageMetadata, StreamChunk, StreamChunkChoice,
    StreamDelta, TokenUsage,
};
use byetype::ai_types::usage_or_default;
use byetype::config::ThinkingConfig;
use byetype::providers::{
    build_extract_request, build_thinking_config, build_thinking_params, effective_kwargs,
    merge_stream_chunks, sse_payloads,
};

fn thinking(enabled: bool, level: &str) -> ThinkingConfig {
    ThinkingConfig { enabled, budget: 1024, level: level.to_string() }
}

fn level_of(model: &str, t: &ThinkingConfig) -> Option<String> {
    build_thinking_config(model, t).map(|g| g.thinking_config.unwrap().thinking_level)
}

#[test]
fn preserves_low_reasoning_effort_when_thinking_is_enabled() {
    let (thinking_param, reasoning_effort) = build_thinking_params(&thinking(true, "LOW"), Some("low"));

    assert_eq!(thinking_param.unwrap().thinking_type, "enabled");
    assert_eq!(reasoning_effort.as_deref(), Some("low"));
}

#[test]
fn enabled_thinking_without_effort_asks_for_high() {
    let (_, reasoning_effort) = build_thinking_params(&thinking(true, "LOW"), None);

    assert_eq!(reasoning_effort.as_deref(), Some("high"));
}

#[test]
fn extract_request_sends_inline_png_in_user_message() {
    let request = build_extract_request(
        "deepseek-flash",
        "识别图片里的文字",
        "QUJD",
        &thinking(false, "LOW"),
        None,
    );

    assert_eq!(request.model, "deepseek-flash");
    assert_eq!(request.messages[0].role, "system");
    match &request.messages[0].content {
        ChatContent::Text(t) => assert_eq!(t, "识别图片里的文字"),
        other => panic!("unexpected content {:?}", other),
    }
    assert_eq!(request.messages[1].role, "user");
    match &request.messages[1].content {
        ChatContent::Parts(parts) => match &parts[0] {
            ChatContentPart::ImageUrl { image_url } => {
                assert_eq!(image_url.url, "data:image/png;base64,QUJD")
            }
            other => panic!("unexpected part {:?}", other),
        },
        other => panic!("unexpected content {:?}", other),
    }
}

#[test]
fn extract_request_disables_thinking_by_default() {
    let request = build_extract_request("deepseek-flash", "", "QUJD", &ThinkingConfig::default(), None);

    assert_eq!(request.thinking.unwrap().thinking_type, "disabled");
    assert!(request.reasoning_effort.is_none());
}

#[test]
fn extract_request_uses_configured_reasoning_effort() {
    let request = build_extract_request("deepseek-flash", "", "QUJD", &thinking(true, "LOW"), Some("low"));

    assert_eq!(request.thinking.unwrap().thinking_type, "enabled");
    assert_eq!(request.reasoning_effort.as_deref(), Some("low"));
}

#[test]
fn minimal_downgrades_to_low_on_gemini_3_7() {
    assert_eq!(level_of("gemini-3.7-flash", &thinking(true, "MINIMAL")).as_deref(), Some("low"));
}

#[test]
fn minimal_downgrades_to_low_on_gemini_3_8() {
    assert_eq!(level_of("gemini-3.8-flash", &thinking(true, "MINIMAL")).as_deref(), Some("low"));
}

#[test]
fn minimal_stays_on_older_gemini() {
    assert_eq!(
        level_of("gemini-3.1-flash-lite-preview", &thinking(true, "MINIMAL")).as_deref(),
        Some("minimal")
    );
}

#[test]
fn disabled_still_sends_low_on_gemini_3_7() {
    assert_eq!(level_of("gemini-3.7-flash", &thinking(false, "LOW")).as_deref(), Some("low"));
}

#[test]
fn disabled_still_sends_low_on_gemini_3_8() {
    assert_eq!(level_of("gemini-3.8-flash", &thinking(false, "LOW")).as_deref(), Some("low"));
}

#[test]
fn disabled_sends_nothing_on_optional_thinking_gemini() {
    assert!(build_thinking_config("gemini-3.5-flash-lite", &thinking(false, "LOW")).is_none());
}

#[test]
fn empty_level_thinks_at_medium() {
    assert_eq!(level_of("gemini-3.5-flash", &thinking(true, "  ")).as_deref(), Some("medium"));
}

#[test]
fn thinking_config_never_includes_thoughts() {
    let cfg = build_thinking_config("gemini-3.5-flash", &thinking(true, "HIGH")).unwrap();

    let tc = cfg.thinking_config.unwrap();
    assert!(!tc.include_thoughts);
    assert_eq!(tc.thinking_level, "high");
}

#[test]
fn empty_object_kwargs_is_not_sent() {
    assert!(effective_kwargs(Some(&"{}".to_string())).is_none());
    assert!(effective_kwargs(None).is_none());
}

#[test]
fn non_empty_object_kwargs_is_sent() {
    let kwargs = r#"{"enable_thinking":false}"#.to_string();

    assert_eq!(effective_kwargs(Some(&kwargs)), Some(kwargs.clone()));
}

#[test]
fn kwargs_that_are_not_an_object_are_not_sent() {
    assert!(effective_kwargs(Some(&"[1,2]".to_string())).is_none());
    assert!(effective_kwargs(Some(&"not json".to_string())).is_none());
}

fn chunk_from_json(payload: &str) -> StreamChunk {
    let v: serde_json::Value = serde_json::from_str(payload).unwrap();
    let choices = v.get("choices").and_then(|c| c.as_array()).map(|cs| {
        cs.iter()
            .map(|c| StreamChunkChoice {
                delta: c.get("delta").map(|d| StreamDelta {
                    content: d.get("content").and_then(|t| t.as_str()).map(|t| t.to_string()),
                }),
            })
            .collect()
    });
    let usage = v.get("usage").map(|u| ChatUsage {
        prompt_tokens: u.get("prompt_tokens").and_then(|n| n.as_u64()),
        completion_tokens: u.get("completion_tokens").and_then(|n| n.as_u64()),
    });
    StreamChunk { choices, usage }
}

fn parse_stream(body: &str) -> (String, TokenUsage) {
    let chunks: Vec<StreamChunk> = sse_payloads(body).iter().map(|p| chunk_from_json(p)).collect();
    merge_stream_chunks(&chunks)
}

#[test]
fn extracts_text_and_usage_from_stream() {
    let body = [
        "data: {\"choices\":[{\"delta\":{\"content\":\"你\"}}]}\n\n",
        "data: {\"choices\":[{\"delta\":{\"content\":\"好\"}}]}\n\n",
        "data: {\"choices\":[],\"usage\":{\"prompt_tokens\":25,\"completion_tokens\":8,\"total_tokens\":33}}\n\n",
        "data: [DONE]\n\n",
    ]
    .join("");
    let (text, usage) = parse_stream(&body);
    assert_eq!(text, "你好");
    assert_eq!(usage.prompt_tokens, 25);
    assert_eq!(usage.completion_tokens, 8);
}

#[test]
fn usage_defaults_to_zero_when_missing() {
    let body = "data: {\"choices\":[{\"delta\":{\"content\":\"hi\"}}]}\n\ndata: [DONE]\n\n";
    let (text, usage) = parse_stream(body);
    assert_eq!(text, "hi");
    assert_eq!((usage.prompt_tokens, usage.completion_tokens), (0, 0));
}

#[test]
fn stream_stops_at_done_and_skips_comments() {
    let body = ": keep-alive\n\ndata: {\"a\":1}\n\ndata: [DONE]\n\ndata: {\"b\":2}\n\n";

    assert_eq!(sse_payloads(body), vec!["{\"a\":1}".to_string()]);
}

#[test]
fn parses_gemini_usage_metadata() {
    let meta = GeminiUsageMetadata {
        prompt_token_count: Some(100),
        candidates_token_count: Some(40),
        total_token_count: Some(180),
    };
    let usage = TokenUsage::from_gemini(&meta);
    assert_eq!(usage.prompt_tokens, 100);
    assert_eq!(usage.completion_tokens, 80);
}

#[test]
fn gemini_usage_without_total_falls_back_to_candidates() {
    let meta = GeminiUsageMetadata {
        prompt_token_count: Some(10),
        candidates_token_count: Some(7),
        total_token_count: None,
    };
    let usage = TokenUsage::from_gemini(&meta);
    assert_eq!((usage.prompt_tokens, usage.completion_tokens), (10, 7));
}

#[test]
fn parses_chat_usage_from_stream_chunk() {
    let chunk = chunk_from_json(r#"{"choices":[],"usage":{"prompt_tokens":12,"completion_tokens":34,"total_tokens":46}}"#);
    let usage = TokenUsage::from_chat(chunk.usage.as_ref().unwrap());
    assert_eq!((usage.prompt_tokens, usage.completion_tokens), (12, 34));
}

#[test]
fn missing_usage_defaults_to_zero() {
    let usage = usage_or_default(&None);
    assert_eq!((usage.prompt_tokens, usage.completion_tokens), (0, 0));
}
