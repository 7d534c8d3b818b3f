//! The built-in models and the resolution of a model id to its endpoint.
use vstd::prelude::*;

use crate::config::{AppConfig, AudioInputMode, CustomModelEntry};
use crate::text::{starts_with, str_eq, str_starts_with};

verus! {

/// A model that ships with the application.
#[derive(Debug, Clone, Copy)]
pub struct BuiltinModel {
    pub id: &'static str,
    pub provider: &'static str,
    pub model: &'static str,
    pub protocol: &'static str,
    pub base_url: &'static str,
    pub supports_text: bool,
}

/// A built-in model as texts: id, provider, model, protocol, base URL.
pub open spec fn builtin_row(m: BuiltinModel) -> (Seq<char>, Seq<char>, Seq<char>, Seq<char>, Seq<char>) {
    (m.id@, m.provider@, m.model@, m.protocol@, m.base_url@)
}

pub open spec fn dashscope_url() -> Seq<char> {
    "https://dashscope.aliyuncs.com/compatible-mode/v1"@
}

pub open spec fn openrouter_url() -> Seq<char> {
    "https://openrouter.ai/api/v1"@
}

/// The built-in models, in the order they are offered.
pub open spec fn spec_builtin_models() -> Seq<(Seq<char>, Seq<char>, Seq<char>, Seq<char>, Seq<char>)> {
    seq![
        ("builtin-qwen-omni-plus"@, "阿里云百炼"@, "qwen3.5-omni-plus"@, "qwen-omni"@, dashscope_url()),
        ("builtin-qwen-omni-flash"@, "阿里云百炼"@, "qwen3.5-omni-flash"@, "qwen-omni"@, dashscope_url()),
        ("builtin-gemini-3.8-flash"@, "Google Gemini"@, "gemini-3.8-flash"@, "gemini"@, "https://generativelanguage.googleapis.com"@),
        ("builtin-mimo-v2.5"@, "XiaoMi"@, "mimo-v2.5"@, "mimo"@, "https://api.xiaomimimo.com/v1"@),
        ("builtin-or-gemini-3.8-flash"@, "OpenRouter"@, "google/gemini-3.8-flash"@, "openai-compat"@, openrouter_url()),
        ("builtin-or-gemini-3.5-flash-lite"@, "OpenRouter"@, "google/gemini-3.5-flash-lite"@, "openai-compat"@, openrouter_url()),
        ("builtin-deepseek-flash"@, "DeepSeek"@, "deepseek-flash"@, "openai-compat"@, "https://api.deepseek.com"@),
    ]
}

fn row(
    id: &'static str,
    provider: &'static str,
    model: &'static str,
    protocol: &'static str,
    base_url: &'static str,
) -> (m: BuiltinModel)
    ensures
        builtin_row(m) == (id@, provider@, model@, protocol@, base_url@),
        m.supports_text,
{
    BuiltinModel { id, provider, model, protocol, base_url, supports_text: true }
}

/// The built-in models; every one of them takes text.
pub fn builtin_models() -> (v: Vec<BuiltinModel>)
    ensures
        v@.map_values(|m: BuiltinModel| builtin_row(m)) == spec_builtin_models(),
        forall|k: int| 0 <= k < v@.len() ==> #[trigger] v@[k].supports_text,
{
    let dash = "https://dashscope.aliyuncs.com/compatible-mode/v1";
    let or = "https://openrouter.ai/api/v1";
    let mut v = Vec::new();
    v.push(row("builtin-qwen-omni-plus", "阿里云百炼", "qwen3.5-omni-plus", "qwen-omni", dash));
    v.push(row("builtin-qwen-omni-flash", "阿里云百炼", "qwen3.5-omni-flash", "qwen-omni", dash));
    v.push(
        row(
            "builtin-gemini-3.8-flash",
            "Google Gemini",
            "gemini-3.8-flash",
            "gemini",
            "https://generativelanguage.googleapis.com",
        ),
    );
    v.push(row("builtin-mimo-v2.5", "XiaoMi", "mimo-v2.5", "mimo", "https://api.xiaomimimo.com/v1"));
    v.push(row("builtin-or-gemini-3.8-flash", "OpenRouter", "google/gemini-3.8-flash", "openai-compat", or));
    v.push(
        row(
            "builtin-or-gemini-3.5-flash-lite",
            "OpenRouter",
            "google/gemini-3.5-flash-lite",
            "openai-compat",
            or,
        ),
    );
    v.push(row("builtin-deepseek-flash", "DeepSeek", "deepseek-flash", "openai-compat", "https://api.deepseek.com"));
    assert(v@.map_values(|m: BuiltinModel| builtin_row(m)) =~= spec_builtin_models());
    v
}

/// The index of the first built-in model with id `id`.
pub open spec fn builtin_index(id: Seq<char>) -> Option<int> {
    let t = spec_builtin_models();
    if exists|k: int| 0 <= k < t.len() && #[trigger] t[k].0 == id {
        Some(choose|k: int| 0 <= k < t.len() && #[trigger] t[k].0 == id && forall|j: int| 0 <= j < k ==> t[j].0 != id)
    } else {
        None
    }
}

/// The index of the first user model with id `id`.
pub open spec fn custom_index(custom: Seq<CustomModelEntry>, id: Seq<char>) -> Option<int> {
    if exists|k: int| 0 <= k < custom.len() && #[trigger] custom[k].id@ == id {
        Some(choose|k: int| 0 <= k < custom.len() && #[trigger] custom[k].id@ == id && forall|j: int| 0 <= j < k ==> custom[j].id@ != id)
    } else {
        None
    }
}

fn find_builtin(models: &Vec<BuiltinModel>, id: &str) -> (r: Option<usize>)
    requires
        models@.map_values(|m: BuiltinModel| builtin_row(m)) == spec_builtin_models(),
    ensures
        match r {
            Some(k) => k < models.len() && builtin_index(id@) == Some(k as int),
            None => builtin_index(id@) is None,
        },
{
    let ghost t = spec_builtin_models();
    let mut i: usize = 0;
    while i < models.len()
        invariant
            i <= models.len() == t.len(),
            t == spec_builtin_models(),
            models@.map_values(|m: BuiltinModel| builtin_row(m)) == t,
            forall|j: int| 0 <= j < i ==> t[j].0 != id@,
        decreases models.len() - i,
    {
        assert(t[i as int].0 == models@[i as int].id@);
        if str_eq(models[i].id, id) {
            assert(exists|k: int| 0 <= k < t.len() && #[trigger] t[k].0 == id@);
            let ghost c = choose|k: int| 0 <= k < t.len() && #[trigger] t[k].0 == id@ && forall|j: int| 0 <= j < k ==> t[j].0 != id@;
            assert(0 <= i < t.len() && t[i as int].0 == id@ && forall|j: int| 0 <= j < i ==> t[j].0 != id@);
            assert(c == i) by {
                if c < i {
                } else if c > i {
                }
            }
            return Some(i);
        }
        i = i + 1;
    }
    None
}

fn find_custom(custom: &Vec<CustomModelEntry>, id: &str) -> (r: Option<usize>)
    ensures
        match r {
            Some(k) => k < custom.len() && custom_index(custom@, id@) == Some(k as int),
            None => custom_index(custom@, id@) is None,
        },
{
    let mut i: usize = 0;
    while i < custom.len()
        invariant
            i <= custom.len(),
            forall|j: int| 0 <= j < i ==> custom@[j].id@ != id@,
        decreases custom.len() - i,
    {
        if str_eq(custom[i].id.as_str(), id) {
            let ghost c = choose|k: int| 0 <= k < custom@.len() && #[trigger] custom@[k].id@ == id@ && forall|j: int| 0 <= j < k ==> custom@[j].id@ != id@;
            assert(0 <= i < custom@.len() && custom@[i as int].id@ == id@);
            assert(c == i) by {
                if c < i {
                } else if c > i {
                }
            }
            return Some(i);
        }
        i = i + 1;
    }
    None
}

/// Where and how to call a model.
#[derive(Debug, Clone)]
pub struct ResolvedModel {
    pub protocol: String,
    pub base_url: String,
    pub model: String,
    /// The provider name shown in usage statistics.
    pub provider_label: String,
    pub api_key: String,
    pub audio_input_mode: AudioInputMode,
    /// JSON text of the chat-template arguments of a user model.
    pub chat_template_kwargs: Option<String>,
}

/// The built-in key that a built-in model uses: OpenRouter's for the
/// `builtin-or-` models, else the key of its protocol's provider.
pub open spec fn builtin_key(config: AppConfig, id: Seq<char>, protocol: Seq<char>) -> Seq<char> {
    let keys = config.models.builtin_api_keys;
    if starts_with(id, "builtin-or-"@) {
        keys.openrouter@
    } else if protocol == "gemini"@ {
        keys.gemini@
    } else if protocol == "openai-compat"@ {
        keys.deepseek@
    } else if protocol == "qwen-omni"@ {
        keys.dashscope@
    } else {
        keys.mimo@
    }
}

/// `r` is the resolution of `id` under `config`.
pub open spec fn resolves_to(config: AppConfig, id: Seq<char>, r: ResolvedModel) -> bool {
    match builtin_index(id) {
        Some(k) => {
            let row = spec_builtin_models()[k];
            &&& r.protocol@ == row.3 && r.base_url@ == row.4 && r.model@ == row.2
            &&& r.provider_label@ == row.1
            &&& r.api_key@ == builtin_key(config, id, row.3)
            &&& r.audio_input_mode == AudioInputMode::InputAudio
            &&& r.chat_template_kwargs is None
        },
        None => match custom_index(config.models.custom@, id) {
            Some(k) => {
                let c = config.models.custom@[k];
                &&& r.protocol@ == c.protocol@ && r.base_url@ == c.base_url@ && r.model@ == c.model@
                &&& r.provider_label@ == c.provider@ && r.api_key@ == c.api_key@
                &&& r.audio_input_mode == c.audio_input_mode
                &&& r.chat_template_kwargs matches Some(k) && k@ == c.chat_template_kwargs@
            },
            None => false,
        },
    }
}

/// `id` names a built-in or a user model.
pub open spec fn is_known_model(config: AppConfig, id: Seq<char>) -> bool {
    builtin_index(id) is Some || custom_index(config.models.custom@, id) is Some
}

pub open spec fn model_not_found(id: Seq<char>) -> Seq<char> {
    "Model not found: "@ + id
}

/// Resolves a model id: built-in models first, then the user's models.
pub fn resolve_model(config: &AppConfig, model_id: &str) -> (r: Result<ResolvedModel, String>)
    ensures
        is_known_model(*config, model_id@) ==> r is Ok && resolves_to(*config, model_id@, r->Ok_0),
        !is_known_model(*config, model_id@) ==> r is Err && r->Err_0@ == model_not_found(model_id@),
{
    let models = builtin_models();
    match find_builtin(&models, model_id) {
        Some(k) => {
            let b = models[k];
            assert(builtin_row(b) == spec_builtin_models()[k as int]);
            let keys = &config.models.builtin_api_keys;
            let api_key = if str_starts_with(model_id, "builtin-or-") {
                keys.openrouter.clone()
            } else if str_eq(b.protocol, "gemini") {
                keys.gemini.clone()
            } else if str_eq(b.protocol, "openai-compat") {
                keys.deepseek.clone()
            } else if str_eq(b.protocol, "qwen-omni") {
                keys.dashscope.clone()
            } else {
                keys.mimo.clone()
            };
            return Ok(ResolvedModel {
                protocol: String::from_str(b.protocol),
                base_url: String::from_str(b.base_url),
                model: String::from_str(b.model),
                provider_label: String::from_str(b.provider),
                api_key,
                audio_input_mode: AudioInputMode::InputAudio,
                chat_template_kwargs: None,
            });
        },
        None => {},
    }
    match find_custom(&config.models.custom, model_id) {
        Some(k) => {
            let c = &config.models.custom[k];
            Ok(ResolvedModel {
                protocol: c.protocol.clone(),
                base_url: c.base_url.clone(),
                model: c.model.clone(),
                provider_label: c.provider.clone(),
                api_key: c.api_key.clone(),
                audio_input_mode: c.audio_input_mode,
                chat_template_kwargs: Some(c.chat_template_kwargs.clone()),
            })
        },
        None => {
            let mut e = String::from_str("Model not found: ");
            e.append(model_id);
            Err(e)
        },
    }
}

/// Whether a model takes text input: every built-in model does; a user
/// model says so itself.
pub fn supports_text(config: &AppConfig, model_id: &str) -> (r: Result<bool, String>)
    ensures
        builtin_index(model_id@) is Some ==> r == Ok::<bool, String>(true),
        builtin_index(model_id@) is None && custom_index(config.models.custom@, model_id@) is Some
            ==> r == Ok::<bool, String>(config.models.custom@[custom_index(config.models.custom@, model_id@)->0].supports_text),
        !is_known_model(*config, model_id@) ==> r is Err && r->Err_0@ == model_not_found(model_id@),
{
    let models = builtin_models();
    match find_builtin(&models, model_id) {
        Some(k) => {
            return Ok(models[k].supports_text);
        },
        None => {},
    }
    match find_custom(&config.models.custom, model_id) {
        Some(k) => Ok(config.models.custom[k].supports_text),
        None => {
            let mut e = String::from_str("Model not found: ");
            e.append(model_id);
            Err(e)
        },
    }
}

/// Whether a resolved model is DeepSeek's, which takes its own thinking
/// switch.
pub fn is_deepseek(model: &ResolvedModel) -> (b: bool)
    ensures
        b == (model.protocol@ == "openai-compat"@ && crate::text::contains(model.base_url@, "api.deepseek.com"@)),
{
    str_eq(model.protocol.as_str(), "openai-compat") && crate::text::str_contains(model.base_url.as_str(), "api.deepseek.com")
}


/// A built-in model is called with the key of the service it is called
/// at: OpenRouter's key for every `builtin-or-` model (which all go to
/// OpenRouter), DeepSeek's at DeepSeek, DashScope's at DashScope, Gemini's
/// at Google, and Xiaomi's at MiMo.
pub proof fn lemma_builtin_key_of_host(config: AppConfig, id: Seq<char>, r: ResolvedModel)
    requires
        builtin_index(id) is Some,
        resolves_to(config, id, r),
    ensures
        ({
            let keys = config.models.builtin_api_keys;
            &&& starts_with(id, "builtin-or-"@) ==> r.base_url@ == openrouter_url() && r.api_key@ == keys.openrouter@
            &&& r.base_url@ == openrouter_url() ==> r.api_key@ == keys.openrouter@
            &&& r.base_url@ == "https://api.deepseek.com"@ ==> r.api_key@ == keys.deepseek@
            &&& r.base_url@ == dashscope_url() ==> r.api_key@ == keys.dashscope@
            &&& r.base_url@ == "https://generativelanguage.googleapis.com"@ ==> r.api_key@ == keys.gemini@
            &&& r.base_url@ == "https://api.xiaomimimo.com/v1"@ ==> r.api_key@ == keys.mimo@
        }),
{
    let t = spec_builtin_models();
    let k = builtin_index(id)->Some_0;
    assert(exists|j: int| 0 <= j < t.len() && #[trigger] t[j].0 == id);
    assert(0 <= k < t.len() && t[k].0 == id);
    reveal_strlit("builtin-or-");
    reveal_strlit("https://openrouter.ai/api/v1");
    reveal_strlit("https://api.deepseek.com");
    reveal_strlit("https://dashscope.aliyuncs.com/compatible-mode/v1");
    reveal_strlit("https://generativelanguage.googleapis.com");
    reveal_strlit("https://api.xiaomimimo.com/v1");
    reveal_strlit("builtin-qwen-omni-plus");
    reveal_strlit("builtin-qwen-omni-flash");
    reveal_strlit("builtin-gemini-3.8-flash");
    reveal_strlit("builtin-mimo-v2.5");
    reveal_strlit("builtin-or-gemini-3.8-flash");
    reveal_strlit("builtin-or-gemini-3.5-flash-lite");
    reveal_strlit("builtin-deepseek-flash");
    reveal_strlit("gemini");
    reveal_strlit("openai-compat");
    reveal_strlit("qwen-omni");
    reveal_strlit("mimo");
    let keys = config.models.builtin_api_keys;
    assert(openrouter_url()[8] == 'o');
    assert("https://api.deepseek.com"@[8] == 'a');
    assert(dashscope_url()[8] == 'd');
    assert("https://generativelanguage.googleapis.com"@[8] == 'g');
    assert("https://api.xiaomimimo.com/v1"@[8] == 'a');
    assert("https://api.xiaomimimo.com/v1"@[12] == 'x');
    assert("https://api.deepseek.com"@[12] == 'd');
    assert(openrouter_url() != "https://api.deepseek.com"@);
    assert(openrouter_url() != dashscope_url());
    assert(openrouter_url() != "https://generativelanguage.googleapis.com"@);
    assert(openrouter_url() != "https://api.xiaomimimo.com/v1"@);
    assert(dashscope_url() != "https://api.deepseek.com"@);
    assert(dashscope_url() != "https://generativelanguage.googleapis.com"@);
    assert(dashscope_url() != "https://api.xiaomimimo.com/v1"@);
    assert("https://generativelanguage.googleapis.com"@ != "https://api.deepseek.com"@);
    assert("https://generativelanguage.googleapis.com"@ != "https://api.xiaomimimo.com/v1"@);
    assert("https://api.xiaomimimo.com/v1"@ != "https://api.deepseek.com"@);
    assert("gemini"@.len() == 6 && "openai-compat"@.len() == 13 && "qwen-omni"@.len() == 9 && "mimo"@.len() == 4);
    assert("gemini"@ != "openai-compat"@);
    assert("qwen-omni"@ != "openai-compat"@ && "qwen-omni"@ != "gemini"@);
    assert("mimo"@ != "openai-compat"@ && "mimo"@ != "gemini"@ && "mimo"@ != "qwen-omni"@);
    if k == 4 || k == 5 {
        assert(id.subrange(0, 11) =~= "builtin-or-"@);
        assert(r.base_url@ == openrouter_url());
        assert(r.api_key@ == keys.openrouter@);
    } else {
        assert(!starts_with(id, "builtin-or-"@)) by {
            if starts_with(id, "builtin-or-"@) {
                assert(id.subrange(0, 11)[8] == 'o');
                assert(id[8] == 'o');
            }
        }
        if k == 0 || k == 1 {
            assert(r.base_url@ == dashscope_url());
            assert(r.api_key@ == keys.dashscope@);
        } else if k == 2 {
            assert(r.base_url@ == "https://generativelanguage.googleapis.com"@);
            assert(r.api_key@ == keys.gemini@);
        } else if k == 3 {
            assert(r.base_url@ == "https://api.xiaomimimo.com/v1"@);
            assert(r.api_key@ == keys.mimo@);
        } else {
            assert(k == 6);
            assert(r.base_url@ == "https://api.deepseek.com"@);
            assert(r.api_key@ == keys.deepseek@);
        }
    }
    assert("https://api.deepseek.com"@[12] == 'd');
}

} // verus!
