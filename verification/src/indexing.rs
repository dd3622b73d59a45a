//! The indexing configuration: how the stored settings and a change request are read into
//! a mode, a resource budget and a schedule window, how a configuration is stored back, and
//! the status reported before the engine is running.
use crate::text::{chars_eq, lower, to_chars, trim, trim_chars, trim_lower, from_chars};
use crate::text::{opt_text};
use vstd::prelude::*;

verus! {

/// When the watched folder is indexed.
#[derive(Debug, Clone, Copy, PartialEq, Eq, Structural)]
pub enum IndexingMode {
    Continuous,
    Manual,
    Scheduled,
}

/// How much of the machine indexing may use.
#[derive(Debug, Clone, Copy, PartialEq, Eq, Structural)]
pub enum ResourceBudget {
    Low,
    Balanced,
    Fast,
}

/// The mode a setting names ("manual" or "scheduled", in any ASCII case, around whitespace);
/// continuous indexing otherwise.
pub open spec fn mode_of(value: Seq<char>) -> IndexingMode {
    let v = lower(trim(value));
    if v == "manual"@ {
        IndexingMode::Manual
    } else if v == "scheduled"@ {
        IndexingMode::Scheduled
    } else {
        IndexingMode::Continuous
    }
}

pub open spec fn mode_name(m: IndexingMode) -> Seq<char> {
    match m {
        IndexingMode::Continuous => "continuous"@,
        IndexingMode::Manual => "manual"@,
        IndexingMode::Scheduled => "scheduled"@,
    }
}

/// The budget a setting names ("balanced" or "fast", in any ASCII case, around whitespace);
/// the low budget otherwise.
pub open spec fn budget_of(value: Seq<char>) -> ResourceBudget {
    let v = lower(trim(value));
    if v == "balanced"@ {
        ResourceBudget::Balanced
    } else if v == "fast"@ {
        ResourceBudget::Fast
    } else {
        ResourceBudget::Low
    }
}

pub open spec fn budget_name(b: ResourceBudget) -> Seq<char> {
    match b {
        ResourceBudget::Low => "low"@,
        ResourceBudget::Balanced => "balanced"@,
        ResourceBudget::Fast => "fast"@,
    }
}

impl IndexingMode {
    pub fn from_value(value: &str) -> (r: IndexingMode)
        ensures
            r == mode_of(value@),
    {
        let v = trim_lower(value);
        if chars_eq(&v, &to_chars("manual")) {
            IndexingMode::Manual
        } else if chars_eq(&v, &to_chars("scheduled")) {
            IndexingMode::Scheduled
        } else {
            IndexingMode::Continuous
        }
    }

    pub fn as_str(self) -> (r: &'static str)
        ensures
            r@ == mode_name(self),
    {
        match self {
            IndexingMode::Continuous => "continuous",
            IndexingMode::Manual => "manual",
            IndexingMode::Scheduled => "scheduled",
        }
    }
}

impl ResourceBudget {
    pub fn from_value(value: &str) -> (r: ResourceBudget)
        ensures
            r == budget_of(value@),
    {
        let v = trim_lower(value);
        if chars_eq(&v, &to_chars("balanced")) {
            ResourceBudget::Balanced
        } else if chars_eq(&v, &to_chars("fast")) {
            ResourceBudget::Fast
        } else {
            ResourceBudget::Low
        }
    }

    pub fn as_str(self) -> (r: &'static str)
        ensures
            r@ == budget_name(self),
    {
        match self {
            ResourceBudget::Low => "low",
            ResourceBudget::Balanced => "balanced",
            ResourceBudget::Fast => "fast",
        }
    }
}

/// The daily hours in which scheduled indexing runs.
#[derive(Debug)]
pub struct ScheduleWindow {
    pub start: String,
    pub end: String,
}

#[derive(Debug)]
pub struct IndexingConfig {
    pub mode: IndexingMode,
    pub resource_budget: ResourceBudget,
    pub schedule_window: Option<ScheduleWindow>,
}

/// The indexing fields of the settings file.
#[derive(Debug)]
pub struct StoredIndexingSettings {
    pub indexing_mode: Option<String>,
    pub resource_budget: Option<String>,
    pub schedule_start: Option<String>,
    pub schedule_end: Option<String>,
}

/// A request to change the indexing configuration.
#[derive(Debug)]
pub struct SetIndexingModePayload {
    pub indexing_mode: String,
    pub resource_budget: String,
    pub schedule_start: Option<String>,
    pub schedule_end: Option<String>,
}

/// A configuration as plain values: mode, budget, and the window's start and end.
pub type ConfigView = (IndexingMode, ResourceBudget, Option<(Seq<char>, Seq<char>)>);

pub open spec fn config_view(c: IndexingConfig) -> ConfigView {
    (c.mode, c.resource_budget, match c.schedule_window {
        Some(w) => Some((w.start@, w.end@)),
        None => None,
    })
}

pub open spec fn or_else(v: Option<Seq<char>>, default: Seq<char>) -> Seq<char> {
    match v {
        Some(s) => s,
        None => default,
    }
}

/// The configuration the stored settings describe: continuous indexing and the low budget
/// when unset; a scheduled mode runs from the stored start (00:00 when unset) to the stored
/// end (06:00 when unset).
pub open spec fn stored_config(s: StoredIndexingSettings) -> ConfigView {
    let mode = match s.indexing_mode {
        Some(v) => mode_of(v@),
        None => IndexingMode::Continuous,
    };
    let budget = match s.resource_budget {
        Some(v) => budget_of(v@),
        None => ResourceBudget::Low,
    };
    (mode, budget, if mode == IndexingMode::Scheduled {
        Some((or_else(opt_text(s.schedule_start), "00:00"@), or_else(opt_text(s.schedule_end), "06:00"@)))
    } else {
        None
    })
}

/// The configuration a change request asks for; the window's ends are trimmed.
pub open spec fn requested_config(p: SetIndexingModePayload) -> ConfigView {
    let mode = mode_of(p.indexing_mode@);
    (mode, budget_of(p.resource_budget@), if mode == IndexingMode::Scheduled {
        Some((trim(or_else(opt_text(p.schedule_start), "00:00"@)), trim(or_else(opt_text(p.schedule_end), "06:00"@))))
    } else {
        None
    })
}

fn clone_or(v: &Option<String>, default: &str) -> (r: String)
    ensures
        r@ == or_else(opt_text(*v), default@),
{
    match v {
        Some(s) => from_chars(&to_chars(s.as_str())),
        None => from_chars(&to_chars(default)),
    }
}

/// The indexing configuration of the stored settings.
pub fn resolve_indexing_config(settings: &StoredIndexingSettings) -> (r: IndexingConfig)
    ensures
        config_view(r) == stored_config(*settings),
{
    let mode = match &settings.indexing_mode {
        Some(v) => IndexingMode::from_value(v.as_str()),
        None => IndexingMode::Continuous,
    };
    let resource_budget = match &settings.resource_budget {
        Some(v) => ResourceBudget::from_value(v.as_str()),
        None => ResourceBudget::Low,
    };
    let schedule_window = if mode == IndexingMode::Scheduled {
        Some(
            ScheduleWindow {
                start: clone_or(&settings.schedule_start, "00:00"),
                end: clone_or(&settings.schedule_end, "06:00"),
            },
        )
    } else {
        None
    };
    IndexingConfig { mode, resource_budget, schedule_window }
}

/// The configuration a change request asks for.
pub fn indexing_config_from_payload(payload: &SetIndexingModePayload) -> (r: IndexingConfig)
    ensures
        config_view(r) == requested_config(*payload),
{
    let mode = IndexingMode::from_value(payload.indexing_mode.as_str());
    let resource_budget = ResourceBudget::from_value(payload.resource_budget.as_str());
    let schedule_window = if mode == IndexingMode::Scheduled {
        let start = clone_or(&payload.schedule_start, "00:00");
        let end = clone_or(&payload.schedule_end, "06:00");
        Some(
            ScheduleWindow {
                start: from_chars(&trim_chars(&to_chars(start.as_str()))),
                end: from_chars(&trim_chars(&to_chars(end.as_str()))),
            },
        )
    } else {
        None
    };
    IndexingConfig { mode, resource_budget, schedule_window }
}

/// Writes a configuration into the settings: the mode's and the budget's names, and the
/// window's ends (cleared when there is no window).
pub fn store_indexing_config(settings: &mut StoredIndexingSettings, config: &IndexingConfig)
    ensures
        opt_text(final(settings).indexing_mode) == Some(mode_name(config.mode)),
        opt_text(final(settings).resource_budget) == Some(budget_name(config.resource_budget)),
        opt_text(final(settings).schedule_start) == match config.schedule_window {
            Some(w) => Some(w.start@),
            None => None::<Seq<char>>,
        },
        opt_text(final(settings).schedule_end) == match config.schedule_window {
            Some(w) => Some(w.end@),
            None => None::<Seq<char>>,
        },
{
    settings.indexing_mode = Some(from_chars(&to_chars(config.mode.as_str())));
    settings.resource_budget = Some(from_chars(&to_chars(config.resource_budget.as_str())));
    match &config.schedule_window {
        Some(w) => {
            settings.schedule_start = Some(from_chars(&to_chars(w.start.as_str())));
            settings.schedule_end = Some(from_chars(&to_chars(w.end.as_str())));
        },
        None => {
            settings.schedule_start = None;
            settings.schedule_end = None;
        },
    }
}

proof fn lemma_mode_round_trip(m: IndexingMode)
    ensures
        mode_of(mode_name(m)) == m,
{
    reveal_strlit("continuous");
    reveal_strlit("manual");
    reveal_strlit("scheduled");
    reveal(crate::text::char_whitespace);
    let n = mode_name(m);
    crate::text::lemma_trim_start_id(n);
    crate::text::lemma_trim_end_id(n);
    assert(lower(n) =~= n);
}

proof fn lemma_budget_round_trip(b: ResourceBudget)
    ensures
        budget_of(budget_name(b)) == b,
{
    reveal_strlit("low");
    reveal_strlit("balanced");
    reveal_strlit("fast");
    reveal(crate::text::char_whitespace);
    let n = budget_name(b);
    crate::text::lemma_trim_start_id(n);
    crate::text::lemma_trim_end_id(n);
    assert(lower(n) =~= n);
}

/// Storing the configuration of a change request and reading the settings back gives that
/// configuration again.
pub proof fn law_stored_config_reads_back(before: StoredIndexingSettings, payload: SetIndexingModePayload, after: StoredIndexingSettings)
    requires
        opt_text(after.indexing_mode) == Some(mode_name(requested_config(payload).0)),
        opt_text(after.resource_budget) == Some(budget_name(requested_config(payload).1)),
        opt_text(after.schedule_start) == match requested_config(payload).2 {
            Some(w) => Some(w.0),
            None => None::<Seq<char>>,
        },
        opt_text(after.schedule_end) == match requested_config(payload).2 {
            Some(w) => Some(w.1),
            None => None::<Seq<char>>,
        },
    ensures
        stored_config(after) == requested_config(payload),
{
    lemma_mode_round_trip(requested_config(payload).0);
    lemma_budget_round_trip(requested_config(payload).1);
}

/// The indexing status reported before the engine runs.
#[derive(Debug)]
pub struct IndexingStatus {
    pub phase: String,
    pub indexed_docs: u64,
    pub indexed_chunks: u64,
    pub graphed_chunks: u64,
    pub graph_backlog: u64,
    pub total_docs: u64,
    pub total_chunks: u64,
    pub progress_percent: u64,
    pub last_scan_at: Option<i64>,
    pub last_error: Option<String>,
    pub paused: bool,
    pub mode: IndexingMode,
    pub resource_budget: ResourceBudget,
    pub rebuild_state: String,
    pub rebuild_reason: Option<String>,
    pub index_format_version: u32,
    pub parser_format_version: u32,
}

/// An idle status with nothing indexed, the configured mode and budget, and a rebuild
/// required because the engine is unavailable.
pub fn default_indexing_status(settings: &StoredIndexingSettings) -> (r: IndexingStatus)
    ensures
        r.phase@ == "idle"@,
        r.indexed_docs == 0 && r.indexed_chunks == 0 && r.graphed_chunks == 0 && r.graph_backlog == 0,
        r.total_docs == 0 && r.total_chunks == 0 && r.progress_percent == 0,
        r.last_scan_at is None && r.last_error is None && !r.paused,
        r.mode == stored_config(*settings).0,
        r.resource_budget == stored_config(*settings).1,
        r.rebuild_state@ == "required"@,
        opt_text(r.rebuild_reason) == Some("engine_unavailable"@),
        r.index_format_version == 0 && r.parser_format_version == 0,
{
    let indexing = resolve_indexing_config(settings);
    IndexingStatus {
        phase: from_chars(&to_chars("idle")),
        indexed_docs: 0,
        indexed_chunks: 0,
        graphed_chunks: 0,
        graph_backlog: 0,
        total_docs: 0,
        total_chunks: 0,
        progress_percent: 0,
        last_scan_at: None,
        last_error: None,
        paused: false,
        mode: indexing.mode,
        resource_budget: indexing.resource_budget,
        rebuild_state: from_chars(&to_chars("required")),
        rebuild_reason: Some(from_chars(&to_chars("engine_unavailable"))),
        index_format_version: 0,
        parser_format_version: 0,
    }
}

} // verus!
