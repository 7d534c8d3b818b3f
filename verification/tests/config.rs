use byetype::config::{AppConfig, AudioInputMode, CustomModelEntry, ThinkingConfig};
use byetype::models::{builtin_models, resolve_model, supports_text};

#[test]
fn local_api_is_opt_in_on_the_stable_default_port() {
    let config = AppConfig::default();

    assert!(!config.local_api.enabled);
    assert_eq!(config.local_api.port, 8765);
}

#[test]
fn local_api_rejects_privileged_ports() {
    let mut config = AppConfig::default();
    config.local_api.enabled = true;
    config.local_api.port = 80;

    assert_eq!(
        config.validate(),
        Err("本机接口端口必须在 1024 到 65535 之间".to_string())
    );
}

#[test]
fn local_api_accepts_the_first_unprivileged_port() {
    let mut config = AppConfig::default();
    config.local_api.port = 1024;

    assert_eq!(config.validate(), Ok(()));
}

#[test]
fn default_thinking_is_off() {
    let t = ThinkingConfig::default();

    assert!(!t.enabled);
    assert_eq!(t.budget, 0);
    assert_eq!(t.level, "");
}

#[test]
fn offers_single_deepseek_model() {
    let models = builtin_models();
    let deepseek: Vec<_> = models.iter().filter(|model| model.provider == "DeepSeek").collect();

    assert_eq!(deepseek.len(), 1);
    assert_eq!(deepseek[0].id, "builtin-deepseek-flash");
    assert_eq!(deepseek[0].model, "deepseek-flash");
    assert!(deepseek[0].supports_text);
}

fn audio_only_config() -> AppConfig {
    let mut config = AppConfig::default();
    config.models.custom.push(CustomModelEntry {
        id: "audio-only".to_string(),
        provider: "custom".to_string(),
        model: "audio-only".to_string(),
        protocol: "openai-compat".to_string(),
        base_url: "https://example.com".to_string(),
        api_key: "test".to_string(),
        audio_input_mode: AudioInputMode::InputAudio,
        chat_template_kwargs: "{}".to_string(),
        supports_audio: true,
        supports_text: false,
        supports_vision: false,
    });
    config
}

#[test]
fn reports_custom_audio_only_model_as_not_text_capable() {
    let config = audio_only_config();

    assert!(!supports_text(&config, "audio-only").expect("model should resolve"));
}

#[test]
fn resolves_a_custom_model_with_its_own_key() {
    let config = audio_only_config();
    let resolved = resolve_model(&config, "audio-only").expect("model should resolve");

    assert_eq!(resolved.protocol, "openai-compat");
    assert_eq!(resolved.base_url, "https://example.com");
    assert_eq!(resolved.model, "audio-only");
    assert_eq!(resolved.api_key, "test");
}

#[test]
fn unknown_model_is_reported() {
    let config = AppConfig::default();

    assert!(resolve_model(&config, "no-such-model").is_err());
    assert!(supports_text(&config, "no-such-model").is_err());
}
