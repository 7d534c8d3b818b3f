use byetype::config::AppConfig;
use byetype::config::LocalApiConfig;
use byetype::local_api::{
    check_request_content_type, encode_base64_with_cancel, pipeline_reply, resolve_template,
    LocalApiManager, ServerStep,
};
use base64::Engine;
use tokio_util::sync::CancellationToken;

#[test]
fn missing_template_uses_the_first_shortcut_binding() {
    let config = AppConfig::default();

    assert_eq!(resolve_template(&config, None).unwrap(), Some("voice-optimize".to_string()));
}

#[test]
fn empty_shortcut_template_means_no_template() {
    let mut config = AppConfig::default();
    config.general.shortcut_template = String::new();

    assert_eq!(resolve_template(&config, None), Ok(None));
}

#[test]
fn raw_template_skips_text_optimization() {
    let config = AppConfig::default();

    assert_eq!(resolve_template(&config, Some("raw")), Ok(None));
}

#[test]
fn known_template_is_used() {
    let config = AppConfig::default();

    assert_eq!(
        resolve_template(&config, Some("voice-translate")),
        Ok(Some("voice-translate".to_string()))
    );
}

#[test]
fn unknown_template_is_rejected() {
    let config = AppConfig::default();

    assert_eq!(
        resolve_template(&config, Some("missing")),
        Err("未知语音模板：missing".to_string())
    );
}

#[test]
fn cancelled_base64_conversion_stops_before_encoding() {
    let cancellation = CancellationToken::new();
    cancellation.cancel();

    let error = encode_base64_with_cancel(b"audio".to_vec(), &cancellation).unwrap_err();

    assert_eq!(error, "请求已取消");
}

#[test]
fn base64_conversion_encodes_the_whole_input() {
    let cancellation = CancellationToken::new();
    let data: Vec<u8> = (0..30000u32).map(|i| (i % 251) as u8).collect();

    let encoded = encode_base64_with_cancel(data.clone(), &cancellation).unwrap();

    assert_eq!(encoded, base64::engine::general_purpose::STANDARD.encode(&data));
    assert_eq!(encode_base64_with_cancel(Vec::new(), &cancellation), Ok(String::new()));
}

#[test]
fn content_type_is_checked_before_a_slot_is_taken() {
    let missing = check_request_content_type(None).unwrap_err();
    assert_eq!((missing.status, missing.body.as_str()), (415, "缺少Content-Type请求头"));

    let wrong = check_request_content_type(Some("text/plain")).unwrap_err();
    assert_eq!((wrong.status, wrong.body.as_str()), (415, "不支持的音频格式：text/plain"));

    assert_eq!(
        check_request_content_type(Some("Audio/WAV; charset=binary")).unwrap(),
        "Audio/WAV; charset=binary"
    );
}

#[test]
fn pipeline_outcomes_map_to_http_statuses() {
    let ok = pipeline_reply(Ok("你好".to_string()));
    assert_eq!((ok.status, ok.body.as_str()), (200, "你好"));

    let slow = pipeline_reply(Err("Request timed out".to_string()));
    assert_eq!(slow.status, 504);

    let failed = pipeline_reply(Err("Gemini API error (500): x".to_string()));
    assert_eq!(failed.status, 502);
}

#[test]
fn server_is_started_kept_and_stopped_as_configured() {
    let mut manager = LocalApiManager::new();
    let on = LocalApiConfig { enabled: true, port: 8765 };
    let off = LocalApiConfig { enabled: false, port: 8765 };

    assert_eq!(manager.plan(&off), ServerStep::Stop);
    assert_eq!(manager.plan(&on), ServerStep::Bind(8765));

    let token = CancellationToken::new();
    assert!(manager.started(8765, token.clone()).is_none());
    let status = manager.status();
    assert!(status.running);
    assert_eq!(status.port, Some(8765));
    assert_eq!(manager.plan(&on), ServerStep::Keep);

    let moved = LocalApiConfig { enabled: true, port: 9000 };
    assert_eq!(manager.plan(&moved), ServerStep::Bind(9000));
    let message = manager.bind_failed(9000, "address in use");
    assert_eq!(message, "无法监听127.0.0.1:9000：address in use");
    let status = manager.status();
    assert!(status.running);
    assert_eq!(status.port, Some(8765));
    assert_eq!(status.error, Some(message));
    assert!(!token.is_cancelled());

    let stopped = manager.stop().unwrap();
    stopped.cancel();
    assert!(token.is_cancelled());
    assert!(manager.stop().is_none());
    let status = manager.status();
    assert!(!status.running);
    assert_eq!(status.port, None);
    assert_eq!(status.error, None);
}

#[test]
fn replacing_the_server_stops_the_old_one() {
    let mut manager = LocalApiManager::new();
    let first = CancellationToken::new();
    let second = CancellationToken::new();
    assert!(manager.started(8765, first.clone()).is_none());
    let replaced = manager.started(9000, second.clone()).unwrap();
    assert!(!first.is_cancelled());
    replaced.cancel();

    assert!(first.is_cancelled());
    assert!(!second.is_cancelled());
    assert_eq!(manager.status().port, Some(9000));
}
