//! Provider kinds and the settings of the model in use.

use vstd::prelude::*;

use crate::constants::DEFAULT_CONTEXT_WINDOW;
use crate::llm::types::ThinkingLevel;
use crate::text::{all_ws, append, is_blank, owned, strip_trailing, strip_trailing_of};

verus! {

/// The wire protocol of a provider.
#[derive(Debug, Clone, Copy, PartialEq, Eq, Structural)]
pub enum ProviderKind {
    Anthropic,
    OpenaiCompat,
}

/// The settings of the model in use.
#[derive(Debug, Clone)]
pub struct ProviderSettings {
    pub kind: ProviderKind,
    pub base_url: String,
    pub model: String,
    pub fallback_model: Option<String>,
    pub context_window: usize,
    pub thinking: ThinkingLevel,
}

/// The default settings: DashScope's OpenAI-compatible endpoint, `qwen-max`
/// with `qwen-plus` as fallback, the default context window, thinking off.
pub open spec fn is_default_settings(r: ProviderSettings) -> bool {
    &&& r.kind == ProviderKind::OpenaiCompat
    &&& r.base_url@ == "https://dashscope.aliyuncs.com/compatible-mode/v1"@
    &&& r.model@ == "qwen-max"@
    &&& r.fallback_model matches Some(f) && f@ == "qwen-plus"@
    &&& r.context_window == DEFAULT_CONTEXT_WINDOW
    &&& r.thinking == ThinkingLevel::Off
}

impl Default for ProviderSettings {
    /// DashScope's OpenAI-compatible endpoint, `qwen-max` with `qwen-plus` as
    /// fallback, the default context window, thinking off.
    fn default() -> (r: ProviderSettings)
        ensures
            is_default_settings(r),
    {
        ProviderSettings {
            kind: ProviderKind::OpenaiCompat,
            base_url: owned("https://dashscope.aliyuncs.com/compatible-mode/v1"),
            model: owned("qwen-max"),
            fallback_model: Some(owned("qwen-plus")),
            context_window: DEFAULT_CONTEXT_WINDOW,
            thinking: ThinkingLevel::Off,
        }
    }
}

/// The service under which API keys are kept in the credential store.
pub const KEY_SERVICE: &'static str = "laver-agent";

/// The credential-store account of the API key of a provider kind.
pub fn account_for(kind: &str) -> (r: String)
    ensures
        r@ == "llm-api-key-"@ + kind@,
{
    let mut s = owned("llm-api-key-");
    append(&mut s, kind);
    s
}

/// Whether a stored API key counts as set: there is one and it is not empty.
pub fn has_api_key(stored: Option<&str>) -> (r: bool)
    ensures
        r == (stored matches Some(k) && k@.len() > 0),
{
    match stored {
        Some(k) => k.unicode_len() > 0,
        None => false,
    }
}

/// The base URL of a provider: trailing `/` removed; an Anthropic provider
/// with a blank one uses the public endpoint.
pub open spec fn base_url_of(kind: ProviderKind, base: Seq<char>) -> Seq<char> {
    if kind == ProviderKind::Anthropic && all_ws(base) {
        "https://api.anthropic.com"@
    } else {
        strip_trailing(base, seq!['/'])
    }
}

/// The URL of a streamed chat call.
pub open spec fn chat_url(kind: ProviderKind, base: Seq<char>) -> Seq<char> {
    base_url_of(kind, base) + if kind == ProviderKind::Anthropic {
        "/v1/messages"@
    } else {
        "/chat/completions"@
    }
}

/// The URL of a streamed chat call.
pub fn chat_endpoint(kind: ProviderKind, base: &str) -> (r: String)
    ensures
        r@ == chat_url(kind, base@),
{
    let mut u = if kind == ProviderKind::Anthropic && is_blank(base) {
        owned("https://api.anthropic.com")
    } else {
        let slash: Vec<char> = vec!['/'];
        assert(slash@ =~= seq!['/']);
        strip_trailing_of(base, &slash)
    };
    if kind == ProviderKind::Anthropic {
        append(&mut u, "/v1/messages");
    } else {
        append(&mut u, "/chat/completions");
    }
    u
}

} // verus!
