//! The application configuration, its defaults and its checks.
use vstd::prelude::*;

verus! {

/// How audio is put into an OpenAI-compatible request.
#[derive(Debug, Clone, Copy, PartialEq, Eq)]
pub enum AudioInputMode {
    InputAudio,
    AudioUrl,
}

/// A copy of an optional string.
pub fn copy_opt_string(s: &Option<String>) -> (r: Option<String>)
    ensures
        r == *s,
{
    match s {
        Some(v) => Some(v.clone()),
        None => None,
    }
}

/// A copy of a list of templates.
pub fn copy_templates(v: &Vec<TemplateEntry>) -> (r: Vec<TemplateEntry>)
    ensures
        r@ == v@,
{
    let mut r: Vec<TemplateEntry> = Vec::new();
    let mut i: usize = 0;
    while i < v.len()
        invariant
            i <= v.len(),
            r@ == v@.take(i as int),
        decreases v.len() - i,
    {
        r.push(v[i].copy());
        assert(r@ =~= v@.take(i + 1));
        i = i + 1;
    }
    assert(v@.take(v.len() as int) =~= v@);
    r
}

/// A copy of a list of user models.
pub fn copy_custom_models(v: &Vec<CustomModelEntry>) -> (r: Vec<CustomModelEntry>)
    ensures
        r@ == v@,
{
    let mut r: Vec<CustomModelEntry> = Vec::new();
    let mut i: usize = 0;
    while i < v.len()
        invariant
            i <= v.len(),
            r@ == v@.take(i as int),
        decreases v.len() - i,
    {
        r.push(v[i].copy());
        assert(r@ =~= v@.take(i + 1));
        i = i + 1;
    }
    assert(v@.take(v.len() as int) =~= v@);
    r
}

/// The local HTTP transcription endpoint: off unless enabled, on `127.0.0.1:port`.
#[derive(Debug, Clone)]
pub struct LocalApiConfig {
    pub enabled: bool,
    pub port: u16,
}

impl LocalApiConfig {
    /// A field-by-field copy.
    pub fn copy(&self) -> (r: Self)
        ensures
            r == *self,
    {
        LocalApiConfig {
            enabled: self.enabled,
            port: self.port,
        }
    }
}

/// Shortcuts, templates bound to them, microphone and general behaviour.
#[derive(Debug, Clone)]
pub struct GeneralConfig {
    pub shortcut: String,
    pub launch_at_login: bool,
    pub theme: String,
    pub max_recording_seconds: u32,
    pub microphone: String,
    pub extract_shortcut: String,
    pub shortcut2: String,
    pub extract_shortcut2: String,
    pub shortcut_template: String,
    pub shortcut2_template: String,
    pub extract_shortcut_template: String,
    pub extract_shortcut2_template: String,
    pub shortcut_label: Option<String>,
    pub shortcut2_label: Option<String>,
    pub extract_shortcut_label: Option<String>,
    pub extract_shortcut2_label: Option<String>,
    pub ptt_mode: bool,
    pub overwrite_clipboard: bool,
}

impl GeneralConfig {
    /// A field-by-field copy.
    pub fn copy(&self) -> (r: Self)
        ensures
            r == *self,
    {
        GeneralConfig {
            shortcut: self.shortcut.clone(),
            launch_at_login: self.launch_at_login,
            theme: self.theme.clone(),
            max_recording_seconds: self.max_recording_seconds,
            microphone: self.microphone.clone(),
            extract_shortcut: self.extract_shortcut.clone(),
            shortcut2: self.shortcut2.clone(),
            extract_shortcut2: self.extract_shortcut2.clone(),
            shortcut_template: self.shortcut_template.clone(),
            shortcut2_template: self.shortcut2_template.clone(),
            extract_shortcut_template: self.extract_shortcut_template.clone(),
            extract_shortcut2_template: self.extract_shortcut2_template.clone(),
            shortcut_label: copy_opt_string(&self.shortcut_label),
            shortcut2_label: copy_opt_string(&self.shortcut2_label),
            extract_shortcut_label: copy_opt_string(&self.extract_shortcut_label),
            extract_shortcut2_label: copy_opt_string(&self.extract_shortcut2_label),
            ptt_mode: self.ptt_mode,
            overwrite_clipboard: self.overwrite_clipboard,
        }
    }
}

/// API keys of the built-in providers.
#[derive(Debug, Clone)]
pub struct BuiltinApiKeys {
    pub gemini: String,
    pub deepseek: String,
    pub dashscope: String,
    pub openrouter: String,
    pub mimo: String,
}

impl BuiltinApiKeys {
    /// A field-by-field copy.
    pub fn copy(&self) -> (r: Self)
        ensures
            r == *self,
    {
        BuiltinApiKeys {
            gemini: self.gemini.clone(),
            deepseek: self.deepseek.clone(),
            dashscope: self.dashscope.clone(),
            openrouter: self.openrouter.clone(),
            mimo: self.mimo.clone(),
        }
    }
}

/// A model the user added. `chat_template_kwargs` is the JSON text of the extra chat-template arguments.
#[derive(Debug, Clone)]
pub struct CustomModelEntry {
    pub id: String,
    pub provider: String,
    pub model: String,
    pub protocol: String,
    pub base_url: String,
    pub api_key: String,
    pub audio_input_mode: AudioInputMode,
    pub chat_template_kwargs: String,
    pub supports_audio: bool,
    pub supports_text: bool,
    pub supports_vision: bool,
}

impl CustomModelEntry {
    /// A field-by-field copy.
    pub fn copy(&self) -> (r: Self)
        ensures
            r == *self,
    {
        CustomModelEntry {
            id: self.id.clone(),
            provider: self.provider.clone(),
            model: self.model.clone(),
            protocol: self.protocol.clone(),
            base_url: self.base_url.clone(),
            api_key: self.api_key.clone(),
            audio_input_mode: self.audio_input_mode,
            chat_template_kwargs: self.chat_template_kwargs.clone(),
            supports_audio: self.supports_audio,
            supports_text: self.supports_text,
            supports_vision: self.supports_vision,
        }
    }
}

/// API keys and user-defined models.
#[derive(Debug, Clone)]
pub struct ModelsConfig {
    pub builtin_api_keys: BuiltinApiKeys,
    pub custom: Vec<CustomModelEntry>,
}

impl ModelsConfig {
    /// Equal field by field, lists by their items.
    pub open spec fn same(self, other: Self) -> bool {
        self.builtin_api_keys == other.builtin_api_keys
        && self.custom@ == other.custom@
    }

    /// A field-by-field copy.
    pub fn copy(&self) -> (r: Self)
        ensures
            r.same(*self),
    {
        ModelsConfig {
            builtin_api_keys: self.builtin_api_keys.copy(),
            custom: copy_custom_models(&self.custom),
        }
    }
}

/// Whether a model may think, and at which level (stored upper-case).
#[derive(Debug, Clone)]
pub struct ThinkingConfig {
    pub enabled: bool,
    pub budget: u32,
    pub level: String,
}

impl ThinkingConfig {
    /// A field-by-field copy.
    pub fn copy(&self) -> (r: Self)
        ensures
            r == *self,
    {
        ThinkingConfig {
            enabled: self.enabled,
            budget: self.budget,
            level: self.level.clone(),
        }
    }
}

/// Custom prompt files of the transcription step (empty: built-in).
#[derive(Debug, Clone)]
pub struct PromptsConfig {
    pub agent: String,
    pub rules: String,
    pub vocabulary: String,
}

impl PromptsConfig {
    /// A field-by-field copy.
    pub fn copy(&self) -> (r: Self)
        ensures
            r == *self,
    {
        PromptsConfig {
            agent: self.agent.clone(),
            rules: self.rules.clone(),
            vocabulary: self.vocabulary.clone(),
        }
    }
}

/// The transcription model, its thinking and its prompt files.
#[derive(Debug, Clone)]
pub struct TranscribeConfig {
    pub model_id: String,
    pub thinking: ThinkingConfig,
    pub prompts: PromptsConfig,
}

impl TranscribeConfig {
    /// A field-by-field copy.
    pub fn copy(&self) -> (r: Self)
        ensures
            r == *self,
    {
        TranscribeConfig {
            model_id: self.model_id.clone(),
            thinking: self.thinking.copy(),
            prompts: self.prompts.copy(),
        }
    }
}

/// An output template with an optional custom prompt file.
#[derive(Debug, Clone)]
pub struct TemplateEntry {
    pub id: String,
    pub name: String,
    pub prompt: String,
}

impl TemplateEntry {
    /// A field-by-field copy.
    pub fn copy(&self) -> (r: Self)
        ensures
            r == *self,
    {
        TemplateEntry {
            id: self.id.clone(),
            name: self.name.clone(),
            prompt: self.prompt.clone(),
        }
    }
}

/// The text-optimization model and the voice templates.
#[derive(Debug, Clone)]
pub struct VoiceTemplatesConfig {
    pub model_id: String,
    pub thinking: ThinkingConfig,
    pub templates: Vec<TemplateEntry>,
    pub deepseek_reasoning_effort: Option<String>,
}

impl VoiceTemplatesConfig {
    /// Equal field by field, lists by their items.
    pub open spec fn same(self, other: Self) -> bool {
        self.model_id == other.model_id
        && self.thinking == other.thinking
        && self.templates@ == other.templates@
        && self.deepseek_reasoning_effort == other.deepseek_reasoning_effort
    }

    /// A field-by-field copy.
    pub fn copy(&self) -> (r: Self)
        ensures
            r.same(*self),
    {
        VoiceTemplatesConfig {
            model_id: self.model_id.clone(),
            thinking: self.thinking.copy(),
            templates: copy_templates(&self.templates),
            deepseek_reasoning_effort: copy_opt_string(&self.deepseek_reasoning_effort),
        }
    }
}

/// The image-recognition model and the image templates.
#[derive(Debug, Clone)]
pub struct ExtractConfig {
    pub model_id: Option<String>,
    pub thinking: Option<ThinkingConfig>,
    pub prompt: String,
    pub templates: Vec<TemplateEntry>,
}

impl ExtractConfig {
    /// Equal field by field, lists by their items.
    pub open spec fn same(self, other: Self) -> bool {
        self.model_id == other.model_id
        && self.thinking == other.thinking
        && self.prompt == other.prompt
        && self.templates@ == other.templates@
    }

    /// A field-by-field copy.
    pub fn copy(&self) -> (r: Self)
        ensures
            r.same(*self),
    {
        ExtractConfig {
            model_id: copy_opt_string(&self.model_id),
            thinking: match &self.thinking { Some(t) => Some(t.copy()), None => None },
            prompt: self.prompt.clone(),
            templates: copy_templates(&self.templates),
        }
    }
}

/// Timeouts, retries, parallelism and proxy.
#[derive(Debug, Clone)]
pub struct AdvancedConfig {
    pub transcribe_timeout: u32,
    pub optimize_timeout: u32,
    pub max_retries: u32,
    pub max_parallel: u32,
    pub proxy_enabled: bool,
    pub proxy_url: String,
}

impl AdvancedConfig {
    /// A field-by-field copy.
    pub fn copy(&self) -> (r: Self)
        ensures
            r == *self,
    {
        AdvancedConfig {
            transcribe_timeout: self.transcribe_timeout,
            optimize_timeout: self.optimize_timeout,
            max_retries: self.max_retries,
            max_parallel: self.max_parallel,
            proxy_enabled: self.proxy_enabled,
            proxy_url: self.proxy_url.clone(),
        }
    }
}

/// Credentials and location of an S3-compatible backup store.
#[derive(Debug, Clone)]
pub struct S3Config {
    pub endpoint: String,
    pub region: String,
    pub bucket: String,
    pub access_key: String,
    pub secret_key: String,
    pub prefix: String,
}

impl S3Config {
    /// A field-by-field copy.
    pub fn copy(&self) -> (r: Self)
        ensures
            r == *self,
    {
        S3Config {
            endpoint: self.endpoint.clone(),
            region: self.region.clone(),
            bucket: self.bucket.clone(),
            access_key: self.access_key.clone(),
            secret_key: self.secret_key.clone(),
            prefix: self.prefix.clone(),
        }
    }
}

/// Backup settings.
#[derive(Debug, Clone)]
pub struct BackupConfig {
    pub s3: S3Config,
}

impl BackupConfig {
    /// A field-by-field copy.
    pub fn copy(&self) -> (r: Self)
        ensures
            r == *self,
    {
        BackupConfig {
            s3: self.s3.copy(),
        }
    }
}

/// The whole application configuration.
#[derive(Debug, Clone)]
pub struct AppConfig {
    pub general: GeneralConfig,
    pub local_api: LocalApiConfig,
    pub models: ModelsConfig,
    pub transcribe: TranscribeConfig,
    pub voice_templates: VoiceTemplatesConfig,
    pub extract: ExtractConfig,
    pub advanced: AdvancedConfig,
    pub backup: BackupConfig,
}

impl AppConfig {
    /// Equal field by field, lists by their items.
    pub open spec fn same(self, other: Self) -> bool {
        self.general == other.general
        && self.local_api == other.local_api
        && self.models.same(other.models)
        && self.transcribe == other.transcribe
        && self.voice_templates.same(other.voice_templates)
        && self.extract.same(other.extract)
        && self.advanced == other.advanced
        && self.backup == other.backup
    }

    /// A field-by-field copy.
    pub fn copy(&self) -> (r: Self)
        ensures
            r.same(*self),
    {
        AppConfig {
            general: self.general.copy(),
            local_api: self.local_api.copy(),
            models: self.models.copy(),
            transcribe: self.transcribe.copy(),
            voice_templates: self.voice_templates.copy(),
            extract: self.extract.copy(),
            advanced: self.advanced.copy(),
            backup: self.backup.copy(),
        }
    }
}

// ---------------------------------------------------------------------------
// Defaults
// ---------------------------------------------------------------------------

pub fn default_true() -> (b: bool)
    ensures
        b,
{
    true
}

pub fn default_max_recording_seconds() -> (n: u32)
    ensures
        n == 180,
{
    180
}

pub fn default_microphone() -> (s: String)
    ensures
        s@ == "system-default"@,
{
    String::from_str("system-default")
}

pub fn default_extract_shortcut() -> (s: String)
    ensures
        s@ == "F6"@,
{
    String::from_str("F6")
}

pub fn default_shortcut2() -> (s: String)
    ensures
        s@ == Seq::<char>::empty(),
{
    String::new()
}

pub fn default_extract_shortcut2() -> (s: String)
    ensures
        s@ == Seq::<char>::empty(),
{
    String::new()
}

pub fn default_shortcut_template() -> (s: String)
    ensures
        s@ == "voice-optimize"@,
{
    String::from_str("voice-optimize")
}

pub fn default_extract_template() -> (s: String)
    ensures
        s@ == "image-extract"@,
{
    String::from_str("image-extract")
}

pub fn default_s3_prefix() -> (s: String)
    ensures
        s@ == "byetype/backups"@,
{
    String::from_str("byetype/backups")
}

/// `t` is the template `id` named `name` with no custom prompt file.
pub open spec fn is_plain_template(t: TemplateEntry, id: Seq<char>, name: Seq<char>) -> bool {
    t.id@ == id && t.name@ == name && t.prompt@ == Seq::<char>::empty()
}

fn plain_template(id: &str, name: &str) -> (t: TemplateEntry)
    ensures
        is_plain_template(t, id@, name@),
{
    TemplateEntry { id: String::from_str(id), name: String::from_str(name), prompt: String::new() }
}

pub open spec fn are_default_voice_templates(v: Seq<TemplateEntry>) -> bool {
    &&& v.len() == 3
    &&& is_plain_template(v[0], "voice-optimize"@, "自动换行"@)
    &&& is_plain_template(v[1], "voice-translate"@, "翻译"@)
    &&& is_plain_template(v[2], "voice-custom"@, "自定义"@)
}

pub open spec fn are_default_image_templates(v: Seq<TemplateEntry>) -> bool {
    &&& v.len() == 3
    &&& is_plain_template(v[0], "image-extract"@, "文字识别"@)
    &&& is_plain_template(v[1], "image-translate"@, "翻译"@)
    &&& is_plain_template(v[2], "image-custom"@, "自定义"@)
}

/// The voice templates: line breaks, translation and a custom one.
pub fn default_voice_templates() -> (v: Vec<TemplateEntry>)
    ensures
        are_default_voice_templates(v@),
{
    let mut v = Vec::new();
    v.push(plain_template("voice-optimize", "自动换行"));
    v.push(plain_template("voice-translate", "翻译"));
    v.push(plain_template("voice-custom", "自定义"));
    v
}

/// The image templates: text recognition, translation and a custom one.
pub fn default_image_templates() -> (v: Vec<TemplateEntry>)
    ensures
        are_default_image_templates(v@),
{
    let mut v = Vec::new();
    v.push(plain_template("image-extract", "文字识别"));
    v.push(plain_template("image-translate", "翻译"));
    v.push(plain_template("image-custom", "自定义"));
    v
}

impl LocalApiConfig {
    /// The local endpoint is off by default, on port 8765.
    pub fn default() -> (c: Self)
        ensures
            !c.enabled,
            c.port == 8765,
    {
        LocalApiConfig { enabled: false, port: 8765 }
    }
}

impl ThinkingConfig {
    /// Thinking off, no budget, no level.
    pub fn default() -> (c: Self)
        ensures
            !c.enabled,
            c.budget == 0,
            c.level@ == Seq::<char>::empty(),
    {
        ThinkingConfig { enabled: false, budget: 0, level: String::new() }
    }
}

impl ExtractConfig {
    /// No model or thinking set, no prompt, the image templates.
    pub fn default() -> (c: Self)
        ensures
            c.model_id is None,
            c.thinking is None,
            c.prompt@ == Seq::<char>::empty(),
            are_default_image_templates(c.templates@),
    {
        ExtractConfig {
            model_id: None,
            thinking: None,
            prompt: String::new(),
            templates: default_image_templates(),
        }
    }
}

impl S3Config {
    /// No store configured, the standard key prefix.
    pub fn default() -> (c: Self)
        ensures
            c.endpoint@ == Seq::<char>::empty(),
            c.region@ == Seq::<char>::empty(),
            c.bucket@ == Seq::<char>::empty(),
            c.access_key@ == Seq::<char>::empty(),
            c.secret_key@ == Seq::<char>::empty(),
            c.prefix@ == "byetype/backups"@,
    {
        S3Config {
            endpoint: String::new(),
            region: String::new(),
            bucket: String::new(),
            access_key: String::new(),
            secret_key: String::new(),
            prefix: default_s3_prefix(),
        }
    }
}

impl BackupConfig {
    pub fn default() -> (c: Self)
        ensures
            c.s3.bucket@ == Seq::<char>::empty(),
            c.s3.prefix@ == "byetype/backups"@,
            c.s3.endpoint@ == Seq::<char>::empty(),
            c.s3.region@ == Seq::<char>::empty(),
            c.s3.access_key@ == Seq::<char>::empty(),
            c.s3.secret_key@ == Seq::<char>::empty(),
    {
        BackupConfig { s3: S3Config::default() }
    }
}

/// Thinking off with a budget of 1024 at level `LOW`.
pub open spec fn is_low_thinking_off(t: ThinkingConfig) -> bool {
    !t.enabled && t.budget == 1024 && t.level@ == "LOW"@
}

fn low_thinking_off() -> (t: ThinkingConfig)
    ensures
        is_low_thinking_off(t),
{
    ThinkingConfig { enabled: false, budget: 1024, level: String::from_str("LOW") }
}

/// The configuration of a fresh installation.
pub open spec fn is_default_config(c: AppConfig) -> bool {
    let g = c.general;
    &&& g.shortcut@ == "F4"@ && !g.launch_at_login && g.theme@ == "system"@
    &&& g.max_recording_seconds == 180 && g.microphone@ == "system-default"@
    &&& g.extract_shortcut@ == "F6"@ && g.shortcut2@ == Seq::<char>::empty()
    &&& g.extract_shortcut2@ == Seq::<char>::empty()
    &&& g.shortcut_template@ == "voice-optimize"@ && g.shortcut2_template@ == "voice-translate"@
    &&& g.extract_shortcut_template@ == "image-extract"@
    &&& g.extract_shortcut2_template@ == "image-translate"@
    &&& g.shortcut_label is None && g.shortcut2_label is None
    &&& g.extract_shortcut_label is None && g.extract_shortcut2_label is None
    &&& !g.ptt_mode && g.overwrite_clipboard
    &&& !c.local_api.enabled && c.local_api.port == 8765
    &&& c.models.builtin_api_keys.gemini@ == Seq::<char>::empty()
    &&& c.models.builtin_api_keys.deepseek@ == Seq::<char>::empty()
    &&& c.models.builtin_api_keys.dashscope@ == Seq::<char>::empty()
    &&& c.models.builtin_api_keys.openrouter@ == Seq::<char>::empty()
    &&& c.models.builtin_api_keys.mimo@ == Seq::<char>::empty()
    &&& c.models.custom@.len() == 0
    &&& c.transcribe.model_id@ == "builtin-gemini-3-flash"@
    &&& is_low_thinking_off(c.transcribe.thinking)
    &&& c.transcribe.prompts.agent@ == Seq::<char>::empty()
    &&& c.transcribe.prompts.rules@ == Seq::<char>::empty()
    &&& c.transcribe.prompts.vocabulary@ == Seq::<char>::empty()
    &&& c.voice_templates.model_id@ == Seq::<char>::empty()
    &&& is_low_thinking_off(c.voice_templates.thinking)
    &&& are_default_voice_templates(c.voice_templates.templates@)
    &&& c.voice_templates.deepseek_reasoning_effort is None
    &&& c.extract.model_id is None && c.extract.thinking is None
    &&& c.extract.prompt@ == Seq::<char>::empty()
    &&& are_default_image_templates(c.extract.templates@)
    &&& c.advanced.transcribe_timeout == 10 && c.advanced.optimize_timeout == 10
    &&& c.advanced.max_retries == 3 && c.advanced.max_parallel == 3
    &&& c.advanced.proxy_enabled && c.advanced.proxy_url@ == Seq::<char>::empty()
    &&& c.backup.s3.endpoint@ == Seq::<char>::empty() && c.backup.s3.region@ == Seq::<char>::empty()
    &&& c.backup.s3.bucket@ == Seq::<char>::empty() && c.backup.s3.access_key@ == Seq::<char>::empty()
    &&& c.backup.s3.secret_key@ == Seq::<char>::empty() && c.backup.s3.prefix@ == "byetype/backups"@
}

/// The message for a local endpoint port below 1024.
pub open spec fn port_error() -> Seq<char> {
    "本机接口端口必须在 1024 到 65535 之间"@
}

impl AppConfig {
    /// The configuration of a fresh installation.
    pub fn default() -> (c: Self)
        ensures
            is_default_config(c),
    {
        AppConfig {
            general: GeneralConfig {
                shortcut: String::from_str("F4"),
                launch_at_login: false,
                theme: String::from_str("system"),
                max_recording_seconds: 180,
                microphone: String::from_str("system-default"),
                extract_shortcut: String::from_str("F6"),
                shortcut2: String::new(),
                extract_shortcut2: String::new(),
                shortcut_template: String::from_str("voice-optimize"),
                shortcut2_template: String::from_str("voice-translate"),
                extract_shortcut_template: String::from_str("image-extract"),
                extract_shortcut2_template: String::from_str("image-translate"),
                shortcut_label: None,
                shortcut2_label: None,
                extract_shortcut_label: None,
                extract_shortcut2_label: None,
                ptt_mode: false,
                overwrite_clipboard: true,
            },
            local_api: LocalApiConfig::default(),
            models: ModelsConfig {
                builtin_api_keys: BuiltinApiKeys {
                    gemini: String::new(),
                    deepseek: String::new(),
                    dashscope: String::new(),
                    openrouter: String::new(),
                    mimo: String::new(),
                },
                custom: Vec::new(),
            },
            transcribe: TranscribeConfig {
                model_id: String::from_str("builtin-gemini-3-flash"),
                thinking: low_thinking_off(),
                prompts: PromptsConfig {
                    agent: String::new(),
                    rules: String::new(),
                    vocabulary: String::new(),
                },
            },
            voice_templates: VoiceTemplatesConfig {
                model_id: String::new(),
                thinking: low_thinking_off(),
                templates: default_voice_templates(),
                deepseek_reasoning_effort: None,
            },
            extract: ExtractConfig::default(),
            advanced: AdvancedConfig {
                transcribe_timeout: 10,
                optimize_timeout: 10,
                max_retries: 3,
                max_parallel: 3,
                proxy_enabled: true,
                proxy_url: String::new(),
            },
            backup: BackupConfig::default(),
        }
    }

    /// A configuration is valid when its local endpoint port is not a
    /// privileged one (below 1024).
    pub fn validate(&self) -> (r: Result<(), String>)
        ensures
            r is Ok <==> self.local_api.port >= 1024,
            r is Err ==> r->Err_0@ == port_error(),
    {
        if self.local_api.port < 1024 {
            return Err(String::from_str("本机接口端口必须在 1024 到 65535 之间"));
        }
        Ok(())
    }
}

/// The configuration in effect and the file it is saved to. Loading and
/// saving the file is the caller's part; `update` is called once the new
/// configuration has been written.
pub struct ConfigManager {
    config_path: String,
    config: AppConfig,
}

impl ConfigManager {
    pub closed spec fn spec_config(&self) -> AppConfig {
        self.config
    }

    pub closed spec fn spec_path(&self) -> Seq<char> {
        self.config_path@
    }

    /// A manager for the configuration `config` saved at `config_path`.
    pub fn new(config_path: String, config: AppConfig) -> (m: Self)
        ensures
            m.spec_config() == config,
            m.spec_path() == config_path@,
    {
        ConfigManager { config_path, config }
    }

    /// A copy of the configuration in effect.
    pub fn get(&self) -> (c: AppConfig)
        ensures
            c.same(self.spec_config()),
    {
        self.config.copy()
    }

    /// The file the configuration is saved to.
    pub fn config_path(&self) -> (p: &String)
        ensures
            p@ == self.spec_path(),
    {
        &self.config_path
    }

    /// Puts `new_config` in effect; what `get` returns next.
    pub fn update(&mut self, new_config: AppConfig)
        ensures
            final(self).spec_config() == new_config,
            final(self).spec_path() == old(self).spec_path(),
    {
        self.config = new_config;
    }
}

} // verus!
