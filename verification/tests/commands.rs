use byetype::commands::{
    connectivity_result, connectivity_route, device_list, is_builtin_prompt_path, missing_key_result,
    shortcuts_changed, ConnectivityRoute,
};
use byetype::config::{AppConfig, AudioInputMode};
use byetype::models::ResolvedModel;

fn resolved(protocol: &str, base_url: &str, key: &str) -> ResolvedModel {
    ResolvedModel {
        protocol: protocol.to_string(),
        base_url: base_url.to_string(),
        model: "m".to_string(),
        provider_label: "p".to_string(),
        api_key: key.to_string(),
        audio_input_mode: AudioInputMode::InputAudio,
        chat_template_kwargs: None,
    }
}

#[test]
fn shortcut_changes_are_detected() {
    let old = AppConfig::default().general;
    let mut new = AppConfig::default().general;
    assert!(!shortcuts_changed(&old, &new));
    new.theme = "dark".to_string();
    assert!(!shortcuts_changed(&old, &new));
    new.extract_shortcut2_template = "image-custom".to_string();
    assert!(shortcuts_changed(&old, &new));
}

#[test]
fn devices_start_with_the_system_default() {
    let names = vec!["Mic A".to_string(), "Mic B".to_string()];
    let devices = device_list("Mic B", &names);

    assert_eq!(devices.len(), 3);
    assert_eq!(devices[0].name, "system-default");
    assert!(!devices[0].is_default);
    assert_eq!(devices[1].name, "Mic A");
    assert!(!devices[1].is_default);
    assert!(devices[2].is_default);
}

#[test]
fn connectivity_tests_are_routed_by_protocol() {
    assert_eq!(connectivity_route(&resolved("openai-compat", "https://api.deepseek.com", "k")), ConnectivityRoute::DeepSeek);
    assert_eq!(connectivity_route(&resolved("gemini", "x", "k")), ConnectivityRoute::Gemini);
    assert_eq!(connectivity_route(&resolved("qwen-omni", "x", "k")), ConnectivityRoute::QwenOmni);
    assert_eq!(connectivity_route(&resolved("mimo", "x", "k")), ConnectivityRoute::Mimo);
    assert_eq!(connectivity_route(&resolved("longcat", "x", "k")), ConnectivityRoute::Longcat);
    assert_eq!(connectivity_route(&resolved("openai-compat", "https://openrouter.ai", "k")), ConnectivityRoute::OpenAiCompatible);
}

#[test]
fn missing_key_is_reported_without_a_call() {
    let r = missing_key_result(&resolved("gemini", "x", "")).unwrap();
    assert!(!r.success);
    assert_eq!(r.latency_ms, 0);
    assert_eq!(r.error.as_deref(), Some("请先填写 API Key"));
    assert!(missing_key_result(&resolved("gemini", "x", "k")).is_none());
}

#[test]
fn connectivity_outcome_is_reported() {
    let ok = connectivity_result(Ok(()), 120);
    assert!(ok.success && ok.error.is_none() && ok.latency_ms == 120);
    let err = connectivity_result(Err("boom".to_string()), 7);
    assert!(!err.success);
    assert_eq!(err.error.as_deref(), Some("boom"));
}

#[test]
fn builtin_prompt_paths_lie_in_the_prompts_dir() {
    assert!(is_builtin_prompt_path("/app/prompts/agent.md", "/app/prompts"));
    assert!(!is_builtin_prompt_path("/home/me/agent.md", "/app/prompts"));
}
