//! Conversation-memory settings of the server: how memories are written and how much context
//! a question may use, normalised when a client saves them.
use crate::text::{chars_eq, lower, lower_chars, to_chars, trim, trim_chars};
use vstd::prelude::*;

verus! {

/// The memory fields of the stored settings.
pub struct StoredMemorySettings {
    pub conversation_memory_enabled: Option<bool>,
    pub auto_memory_write: Option<String>,
    pub memory_write_requires_source: Option<bool>,
    pub memory_markdown_export_enabled: Option<bool>,
    pub default_context_budget: Option<String>,
    pub complex_context_budget: Option<String>,
    pub graph_ranking_enabled: Option<bool>,
}

/// Memory settings as a client submits them.
pub struct MemorySettingsDto {
    pub conversation_memory_enabled: bool,
    pub auto_memory_write: String,
    pub memory_write_requires_source: bool,
    pub memory_markdown_export_enabled: bool,
    pub default_context_budget: String,
    pub complex_context_budget: String,
    pub graph_ranking_enabled: bool,
}

/// The automatic memory-writing policy: "off", "auto_low_risk", or "suggest" for anything else
/// (compared in ASCII lower case, around whitespace).
pub open spec fn memory_write_policy(value: Seq<char>) -> Seq<char> {
    let v = lower(trim(value));
    if v == "off"@ {
        "off"@
    } else if v == "auto_low_risk"@ {
        "auto_low_risk"@
    } else {
        "suggest"@
    }
}

pub fn normalize_auto_memory_write(value: &str) -> (r: String)
    ensures
        r@ == memory_write_policy(value@),
{
    let v = lower_chars(&trim_chars(&to_chars(value)));
    if chars_eq(&v, &to_chars("off")) {
        "off".to_owned()
    } else if chars_eq(&v, &to_chars("auto_low_risk")) {
        "auto_low_risk".to_owned()
    } else {
        "suggest".to_owned()
    }
}

/// A context budget: one of "8k", "16k", "32k" and "64k" (compared in ASCII lower case,
/// around whitespace), or `fallback`.
pub open spec fn context_budget(value: Seq<char>, fallback: Seq<char>) -> Seq<char> {
    let v = lower(trim(value));
    if v == "8k"@ || v == "16k"@ || v == "32k"@ || v == "64k"@ {
        v
    } else {
        fallback
    }
}

pub fn normalize_context_budget(value: &str, fallback: &str) -> (r: String)
    ensures
        r@ == context_budget(value@, fallback@),
{
    let v = lower_chars(&trim_chars(&to_chars(value)));
    if chars_eq(&v, &to_chars("8k")) {
        "8k".to_owned()
    } else if chars_eq(&v, &to_chars("16k")) {
        "16k".to_owned()
    } else if chars_eq(&v, &to_chars("32k")) {
        "32k".to_owned()
    } else if chars_eq(&v, &to_chars("64k")) {
        "64k".to_owned()
    } else {
        fallback.to_owned()
    }
}

/// Stores submitted memory settings: switches as given, the write policy and both context
/// budgets normalised (16k and 32k when unrecognised).
pub fn apply_memory_settings(settings: &mut StoredMemorySettings, payload: MemorySettingsDto)
    ensures
        final(settings).conversation_memory_enabled == Some(payload.conversation_memory_enabled),
        final(settings).auto_memory_write matches Some(w) && w@ == memory_write_policy(payload.auto_memory_write@),
        final(settings).memory_write_requires_source == Some(payload.memory_write_requires_source),
        final(settings).memory_markdown_export_enabled == Some(payload.memory_markdown_export_enabled),
        final(settings).default_context_budget matches Some(b) && b@ == context_budget(payload.default_context_budget@, "16k"@),
        final(settings).complex_context_budget matches Some(b) && b@ == context_budget(payload.complex_context_budget@, "32k"@),
        final(settings).graph_ranking_enabled == Some(payload.graph_ranking_enabled),
{
    settings.conversation_memory_enabled = Some(payload.conversation_memory_enabled);
    settings.auto_memory_write = Some(normalize_auto_memory_write(payload.auto_memory_write.as_str()));
    settings.memory_write_requires_source = Some(payload.memory_write_requires_source);
    settings.memory_markdown_export_enabled = Some(payload.memory_markdown_export_enabled);
    settings.default_context_budget = Some(normalize_context_budget(payload.default_context_budget.as_str(), "16k"));
    settings.complex_context_budget = Some(normalize_context_budget(payload.complex_context_budget.as_str(), "32k"));
    settings.graph_ranking_enabled = Some(payload.graph_ranking_enabled);
}

} // verus!
