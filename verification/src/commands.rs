//! The decisions behind the settings window's commands: when the global
//! shortcuts must be registered again, which microphones are offered, how
//! a connectivity test is routed and reported, and which prompt files are
//! the built-in ones.
use vstd::prelude::*;

use crate::config::GeneralConfig;
use crate::models::ResolvedModel;
use crate::text::{contains, starts_with, str_eq, str_starts_with};

verus! {

/// A microphone offered in the settings.
#[derive(Debug, Clone)]
pub struct AudioDevice {
    pub name: String,
    pub is_default: bool,
}

/// The outcome of a model connectivity test.
#[derive(Debug, Clone)]
pub struct ConnectivityResult {
    pub success: bool,
    pub latency_ms: u64,
    pub error: Option<String>,
}

/// Some shortcut or the template bound to one differs between `old` and
/// `new`.
pub open spec fn spec_shortcuts_changed(old: GeneralConfig, new: GeneralConfig) -> bool {
    ||| old.shortcut@ != new.shortcut@
    ||| old.shortcut2@ != new.shortcut2@
    ||| old.extract_shortcut@ != new.extract_shortcut@
    ||| old.extract_shortcut2@ != new.extract_shortcut2@
    ||| old.shortcut_template@ != new.shortcut_template@
    ||| old.shortcut2_template@ != new.shortcut2_template@
    ||| old.extract_shortcut_template@ != new.extract_shortcut_template@
    ||| old.extract_shortcut2_template@ != new.extract_shortcut2_template@
}

/// Whether saving `new` over `old` requires the global shortcuts to be
/// registered again.
pub fn shortcuts_changed(old: &GeneralConfig, new: &GeneralConfig) -> (b: bool)
    ensures
        b == spec_shortcuts_changed(*old, *new),
{
    !str_eq(old.shortcut.as_str(), new.shortcut.as_str())
        || !str_eq(old.shortcut2.as_str(), new.shortcut2.as_str())
        || !str_eq(old.extract_shortcut.as_str(), new.extract_shortcut.as_str())
        || !str_eq(old.extract_shortcut2.as_str(), new.extract_shortcut2.as_str())
        || !str_eq(old.shortcut_template.as_str(), new.shortcut_template.as_str())
        || !str_eq(old.shortcut2_template.as_str(), new.shortcut2_template.as_str())
        || !str_eq(old.extract_shortcut_template.as_str(), new.extract_shortcut_template.as_str())
        || !str_eq(old.extract_shortcut2_template.as_str(), new.extract_shortcut2_template.as_str())
}

/// The microphones offered: "system-default" first, then each input device
/// by name, marked default when its name is that of the default device.
pub fn device_list(default_name: &str, names: &Vec<String>) -> (r: Vec<AudioDevice>)
    ensures
        r@.len() == names@.len() + 1,
        r@[0].name@ == "system-default"@ && !r@[0].is_default,
        forall|k: int| 0 <= k < names@.len() ==> #[trigger] r@[k + 1].name@ == names@[k]@
            && r@[k + 1].is_default == (names@[k]@ == default_name@),
{
    let mut r: Vec<AudioDevice> = Vec::new();
    r.push(AudioDevice { name: String::from_str("system-default"), is_default: false });
    let mut i: usize = 0;
    while i < names.len()
        invariant
            i <= names.len(),
            r@.len() == i + 1,
            r@[0].name@ == "system-default"@ && !r@[0].is_default,
            forall|k: int| 0 <= k < i ==> #[trigger] r@[k + 1].name@ == names@[k]@ && r@[k + 1].is_default == (
            names@[k]@ == default_name@),
        decreases names.len() - i,
    {
        let name = names[i].clone();
        let is_default = str_eq(name.as_str(), default_name);
        r.push(AudioDevice { name, is_default });
        i = i + 1;
    }
    r
}

/// Which client a connectivity test of a resolved model goes through.
#[derive(Debug, Clone, Copy, PartialEq, Eq)]
pub enum ConnectivityRoute {
    DeepSeek,
    Gemini,
    QwenOmni,
    Mimo,
    Longcat,
    OpenAiCompatible,
}

/// DeepSeek first (an OpenAI-compatible model at `api.deepseek.com`), then
/// by protocol, with OpenAI-compatible for any other protocol.
pub open spec fn spec_route(protocol: Seq<char>, base_url: Seq<char>) -> ConnectivityRoute {
    if protocol == "openai-compat"@ && contains(base_url, "api.deepseek.com"@) {
        ConnectivityRoute::DeepSeek
    } else if protocol == "gemini"@ {
        ConnectivityRoute::Gemini
    } else if protocol == "qwen-omni"@ {
        ConnectivityRoute::QwenOmni
    } else if protocol == "mimo"@ {
        ConnectivityRoute::Mimo
    } else if protocol == "longcat"@ {
        ConnectivityRoute::Longcat
    } else {
        ConnectivityRoute::OpenAiCompatible
    }
}

pub fn connectivity_route(model: &ResolvedModel) -> (r: ConnectivityRoute)
    ensures
        r == spec_route(model.protocol@, model.base_url@),
{
    if crate::models::is_deepseek(model) {
        return ConnectivityRoute::DeepSeek;
    }
    let p = model.protocol.as_str();
    if str_eq(p, "gemini") {
        ConnectivityRoute::Gemini
    } else if str_eq(p, "qwen-omni") {
        ConnectivityRoute::QwenOmni
    } else if str_eq(p, "mimo") {
        ConnectivityRoute::Mimo
    } else if str_eq(p, "longcat") {
        ConnectivityRoute::Longcat
    } else {
        ConnectivityRoute::OpenAiCompatible
    }
}

/// A model without an API key is not tested.
pub fn missing_key_result(model: &ResolvedModel) -> (r: Option<ConnectivityResult>)
    ensures
        model.api_key@.len() == 0 <==> r is Some,
        r is Some ==> !r->Some_0.success && r->Some_0.latency_ms == 0 && (r->Some_0.error
            matches Some(e) && e@ == "请先填写 API Key"@),
{
    if model.api_key.as_str().unicode_len() == 0 {
        return Some(
            ConnectivityResult {
                success: false,
                latency_ms: 0,
                error: Some(String::from_str("请先填写 API Key")),
            },
        );
    }
    None
}

/// The report of a test that ran for `latency_ms`.
pub fn connectivity_result(outcome: Result<(), String>, latency_ms: u64) -> (r: ConnectivityResult)
    ensures
        r.latency_ms == latency_ms,
        r.success == outcome is Ok,
        match outcome {
            Ok(_) => r.error is None,
            Err(e) => r.error == Some(e),
        },
{
    match outcome {
        Ok(()) => ConnectivityResult { success: true, latency_ms, error: None },
        Err(e) => ConnectivityResult { success: false, latency_ms, error: Some(e) },
    }
}

/// A prompt file is a built-in one when its path lies in the built-in
/// prompts directory (the path begins with that directory's path).
pub fn is_builtin_prompt_path(path: &str, prompts_dir: &str) -> (b: bool)
    ensures
        b == starts_with(path@, prompts_dir@),
{
    str_starts_with(path, prompts_dir)
}

} // verus!
