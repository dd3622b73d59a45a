//! Checks on the inputs of a retrieval regression run, and the tail of its output that is
//! kept for display.
use crate::chunk_spec::utf8_width;
use crate::chunking::utf8_width_exec;
use crate::text::{
    append_chars, decimal, decimal_chars, decimal_chars_u128, from_chars, str_eq, strings_view, to_chars, trim, trim_chars,
};
use crate::text::{opt_text};
use vstd::prelude::*;

verus! {

/// Most bytes of process output kept for display.
pub const OUTPUT_TAIL_LIMIT: usize = 12000;

/// Whether `value` names a regression mode.
pub open spec fn is_mode(value: Seq<char>) -> bool {
    value == "offline_deterministic"@ || value == "live_embedding"@
}

pub fn validate_mode(value: &str) -> (r: Result<(), String>)
    ensures
        is_mode(value@) <==> r is Ok,
        r matches Err(e) ==> e@ == "unsupported regression mode: "@ + value@,
{
    if str_eq(value, "offline_deterministic") || str_eq(value, "live_embedding") {
        Ok(())
    } else {
        let mut message = "unsupported regression mode: ".to_owned();
        message.append(value);
        Err(message)
    }
}

/// Whether `value` names a regression profile.
pub open spec fn is_profile(value: Seq<char>) -> bool {
    value == "core_docs"@ || value == "repo_mixed"@ || value == "full_live"@
}

pub fn validate_profile(value: &str) -> (r: Result<(), String>)
    ensures
        is_profile(value@) <==> r is Ok,
        r matches Err(e) ==> e@ == "unsupported regression profile: "@ + value@,
{
    if str_eq(value, "core_docs") || str_eq(value, "repo_mixed") || str_eq(value, "full_live") {
        Ok(())
    } else {
        let mut message = "unsupported regression profile: ".to_owned();
        message.append(value);
        Err(message)
    }
}

/// An optional text trimmed, and absent when blank.
pub open spec fn cleaned(value: Option<Seq<char>>) -> Option<Seq<char>> {
    match value {
        Some(v) => if trim(v).len() == 0 { None } else { Some(trim(v)) },
        None => None,
    }
}

pub fn clean_optional(value: Option<String>) -> (r: Option<String>)
    ensures
        match r {
            Some(t) => cleaned(match value { Some(v) => Some(v@), None => None }) == Some(t@),
            None => cleaned(match value { Some(v) => Some(v@), None => None }) is None,
        },
{
    match value {
        Some(v) => {
            let t = trim_chars(&to_chars(v.as_str()));
            if t.len() == 0 {
                None
            } else {
                Some(from_chars(&t))
            }
        },
        None => None,
    }
}

/// Number of UTF-8 bytes of `s`.
pub open spec fn byte_len(s: Seq<char>) -> nat
    decreases s.len(),
{
    if s.len() == 0 {
        0
    } else {
        byte_len(s.drop_last()) + utf8_width(s.last())
    }
}

/// Whether dropping the first `k` characters leaves at most `limit` bytes.
pub open spec fn fits_after(s: Seq<char>, k: int, limit: nat) -> bool {
    byte_len(s) - byte_len(s.take(k)) <= limit
}

/// The shown tail of process output: all of it when it has at most `limit` bytes, otherwise
/// "..." and the longest suffix of whole characters within `limit` bytes.
pub open spec fn output_tail(s: Seq<char>, limit: nat, k: int) -> bool {
    &&& 0 <= k <= s.len()
    &&& fits_after(s, k, limit)
    &&& forall|j: int| 0 <= j < k ==> !fits_after(s, j, limit)
}

proof fn lemma_byte_len_take_monotone(s: Seq<char>, i: int, j: int)
    requires
        0 <= i <= j <= s.len(),
    ensures
        byte_len(s.take(i)) <= byte_len(s.take(j)),
    decreases j - i,
{
    if i < j {
        lemma_byte_len_take_monotone(s, i, j - 1);
        assert(s.take(j).drop_last() =~= s.take(j - 1));
    }
}

/// The last output of a process, for display: the text itself when it has at most
/// `OUTPUT_TAIL_LIMIT` bytes, else "..." followed by the longest tail of whole characters
/// within that many bytes.
pub fn tail_text(text: &str) -> (r: String)
    ensures
        byte_len(text@) <= OUTPUT_TAIL_LIMIT ==> r@ == text@,
        byte_len(text@) > OUTPUT_TAIL_LIMIT ==> exists|k: int|
            output_tail(text@, OUTPUT_TAIL_LIMIT as nat, k) && r@ == "..."@ + text@.skip(k),
{
    let cs = to_chars(text);
    let mut total: u128 = 0;
    let mut i: usize = 0;
    while i < cs.len()
        invariant
            i <= cs.len(),
            cs@ == text@,
            total == byte_len(cs@.take(i as int)),
            total <= 4 * i,
        decreases cs.len() - i,
    {
        assert(cs@.take(i + 1).drop_last() =~= cs@.take(i as int));
        total = total + utf8_width_exec(cs[i]);
        i += 1;
    }
    assert(cs@.take(i as int) =~= cs@);
    if total <= OUTPUT_TAIL_LIMIT as u128 {
        return from_chars(&cs);
    }
    let mut k: usize = 0;
    let mut dropped: u128 = 0;
    assert(cs@.take(0) =~= Seq::<char>::empty());
    while total - dropped > OUTPUT_TAIL_LIMIT as u128
        invariant
            k <= cs.len(),
            cs@ == text@,
            total == byte_len(cs@),
            dropped == byte_len(cs@.take(k as int)),
            dropped <= total,
            forall|j: int| 0 <= j < k ==> !fits_after(cs@, j, OUTPUT_TAIL_LIMIT as nat),
        decreases cs.len() - k,
    {
        proof {
            if k == cs.len() {
                assert(cs@.take(k as int) =~= cs@);
            }
            lemma_byte_len_take_monotone(cs@, k as int, cs.len() as int);
            assert(cs@.take(cs.len() as int) =~= cs@);
        }
        assert(cs@.take(k + 1).drop_last() =~= cs@.take(k as int));
        dropped = dropped + utf8_width_exec(cs[k]);
        k += 1;
        proof {
            lemma_byte_len_take_monotone(cs@, k as int, cs.len() as int);
            assert(cs@.take(cs.len() as int) =~= cs@);
        }
    }
    let mut out = to_chars("...");
    let mut m: usize = k;
    let ghost start = out@;
    while m < cs.len()
        invariant
            k <= m <= cs.len(),
            out@ == start + cs@.subrange(k as int, m as int),
        decreases cs.len() - m,
    {
        out.push(cs[m]);
        m += 1;
        assert(out@ =~= start + cs@.subrange(k as int, m as int));
    }
    assert(cs@.subrange(k as int, cs.len() as int) =~= cs@.skip(k as int));
    assert(output_tail(text@, OUTPUT_TAIL_LIMIT as nat, k as int));
    from_chars(&out)
}


// ---------------------------------------------------------------- runs

/// What a client asks to run.
pub struct RunRetrievalRegressionPayload {
    pub mode: String,
    pub profile: String,
    pub suite: Option<String>,
    pub watch_root: Option<String>,
    pub db_path: Option<String>,
    pub case_filter: Option<String>,
    pub max_index_prep_secs: Option<u64>,
    pub max_case_secs: Option<u64>,
}

/// `flag` and `value` when there is a value.
pub open spec fn flag_arg(flag: Seq<char>, value: Option<Seq<char>>) -> Seq<Seq<char>> {
    match value {
        Some(v) => seq![flag, v],
        None => Seq::empty(),
    }
}

/// `flag` and the decimal number when there is one.
pub open spec fn number_arg(flag: Seq<char>, value: Option<u64>) -> Seq<Seq<char>> {
    match value {
        Some(n) => seq![flag, decimal(n as nat)],
        None => Seq::empty(),
    }
}

/// The arguments of the PowerShell regression script: the fixed options, the mode and
/// profile, then each optional setting that is given (texts trimmed, blank ones left out).
pub open spec fn regression_arguments(p: RunRetrievalRegressionPayload, script: Seq<char>) -> Seq<Seq<char>> {
    seq!["-NoProfile"@, "-ExecutionPolicy"@, "Bypass"@, "-File"@, script, "-Mode"@, p.mode@, "-Profile"@, p.profile@]
        + flag_arg("-Suite"@, cleaned(opt_text(p.suite)))
        + flag_arg("-WatchRoot"@, cleaned(opt_text(p.watch_root)))
        + flag_arg("-DbPath"@, cleaned(opt_text(p.db_path)))
        + flag_arg("-Case"@, cleaned(opt_text(p.case_filter)))
        + number_arg("-MaxIndexPrepSecs"@, p.max_index_prep_secs)
        + number_arg("-MaxCaseSecs"@, p.max_case_secs)
}

fn copy_opt(o: &Option<String>) -> (r: Option<String>)
    ensures
        opt_text(r) == opt_text(*o),
{
    match o {
        Some(s) => Some(s.clone()),
        None => None,
    }
}

fn push_flag(args: &mut Vec<String>, flag: &str, value: Option<String>)
    ensures
        strings_view(final(args)@) == strings_view(old(args)@) + flag_arg(flag@, opt_text(value)),
{
    let ghost before = strings_view(args@);
    match value {
        Some(v) => {
            args.push(flag.to_owned());
            args.push(v);
            assert(strings_view(args@) =~= before + seq![flag@, opt_text(value).unwrap()]);
        },
        None => {
            assert(before + Seq::<Seq<char>>::empty() =~= before);
        },
    }
}

/// The arguments to start the regression script `script` with.
pub fn regression_args(payload: &RunRetrievalRegressionPayload, script: &str) -> (r: Vec<String>)
    ensures
        strings_view(r@) == regression_arguments(*payload, script@),
{
    let mut args: Vec<String> = Vec::new();
    args.push("-NoProfile".to_owned());
    args.push("-ExecutionPolicy".to_owned());
    args.push("Bypass".to_owned());
    args.push("-File".to_owned());
    args.push(script.to_owned());
    args.push("-Mode".to_owned());
    args.push(payload.mode.clone());
    args.push("-Profile".to_owned());
    args.push(payload.profile.clone());
    let ghost base = strings_view(args@);
    assert(base =~= seq!["-NoProfile"@, "-ExecutionPolicy"@, "Bypass"@, "-File"@, script@, "-Mode"@, payload.mode@, "-Profile"@, payload.profile@]);
    push_flag(&mut args, "-Suite", clean_optional(copy_opt(&payload.suite)));
    push_flag(&mut args, "-WatchRoot", clean_optional(copy_opt(&payload.watch_root)));
    push_flag(&mut args, "-DbPath", clean_optional(copy_opt(&payload.db_path)));
    push_flag(&mut args, "-Case", clean_optional(copy_opt(&payload.case_filter)));
    let numbers = match payload.max_index_prep_secs {
        Some(n) => Some(from_chars(&decimal_chars(n))),
        None => None,
    };
    push_flag(&mut args, "-MaxIndexPrepSecs", numbers);
    let numbers = match payload.max_case_secs {
        Some(n) => Some(from_chars(&decimal_chars(n))),
        None => None,
    };
    push_flag(&mut args, "-MaxCaseSecs", numbers);
    args
}

/// The state of a regression run.
pub struct RetrievalRegressionRunState {
    pub id: String,
    pub status: String,
    pub mode: String,
    pub profile: String,
    pub case_filter: Option<String>,
    pub started_at_ms: u128,
    pub finished_at_ms: Option<u128>,
    pub exit_code: Option<i32>,
    pub report_path: Option<String>,
    pub stdout_tail: String,
    pub stderr_tail: String,
    pub error: Option<String>,
}

/// What the finished script process left.
pub struct ProcessResult {
    pub exit_code: Option<i32>,
    pub report_path: Option<String>,
    pub stdout_tail: String,
    pub stderr_tail: String,
}

/// Records the end of a run at `now`: it succeeded when the process exited with code 0;
/// a process that could not be run or exited otherwise failed, with the reason as error.
pub fn finish_regression_run(run: &mut RetrievalRegressionRunState, now: u128, finished: Result<ProcessResult, String>)
    ensures
        final(run).id == old(run).id,
        final(run).mode == old(run).mode,
        final(run).profile == old(run).profile,
        final(run).started_at_ms == old(run).started_at_ms,
        final(run).finished_at_ms == Some(now),
        match finished {
            Ok(p) => {
                &&& final(run).status@ == (if p.exit_code == Some(0i32) { "succeeded"@ } else { "failed"@ })
                &&& final(run).exit_code == p.exit_code
                &&& final(run).report_path == p.report_path
                &&& final(run).stdout_tail == p.stdout_tail
                &&& final(run).stderr_tail == p.stderr_tail
                &&& if p.exit_code == Some(0i32) {
                    final(run).error == old(run).error
                } else {
                    final(run).error matches Some(e) && e@ == "regression process exited with a non-zero code"@
                }
            },
            Err(e) => {
                &&& final(run).status@ == "failed"@
                &&& final(run).error == Some(e)
                &&& final(run).exit_code == old(run).exit_code
                &&& final(run).report_path == old(run).report_path
            },
        },
{
    run.finished_at_ms = Some(now);
    match finished {
        Ok(result) => {
            let succeeded = match result.exit_code {
                Some(code) => code == 0,
                None => false,
            };
            run.status = if succeeded { "succeeded".to_owned() } else { "failed".to_owned() };
            run.exit_code = result.exit_code;
            run.report_path = result.report_path;
            run.stdout_tail = result.stdout_tail;
            run.stderr_tail = result.stderr_tail;
            if !succeeded {
                run.error = Some("regression process exited with a non-zero code".to_owned());
            }
        },
        Err(err) => {
            run.status = "failed".to_owned();
            run.error = Some(err);
        },
    }
}

/// The first run among `runs` that is still running.
pub open spec fn first_running(runs: Seq<RetrievalRegressionRunState>) -> Option<int>
    decreases runs.len(),
{
    if runs.len() == 0 {
        None
    } else {
        match first_running(runs.drop_last()) {
            Some(i) => Some(i),
            None => if runs.last().status@ == "running"@ { Some(runs.len() - 1) } else { None },
        }
    }
}

/// The case filter kept for a run: the one given, unless it is blank.
pub open spec fn kept_filter(value: Option<Seq<char>>) -> Option<Seq<char>> {
    match value {
        Some(v) => if trim(v).len() == 0 { None } else { Some(v) },
        None => None,
    }
}

/// The message refusing a new run while `run` is running.
pub open spec fn active_run_message(run: RetrievalRegressionRunState) -> Seq<char> {
    "a regression run is already active: "@ + run.id@ + " / "@ + run.mode@ + " / "@ + run.profile@
}

/// Starts a run at `now`, given the runs known so far: refused for an unknown mode, then for
/// an unknown profile, then while another run is running; otherwise the new run, running,
/// with the ID `retrieval-{now}`, the requested mode and profile, and the case filter unless
/// it is blank.
pub fn start_regression_run(
    payload: &RunRetrievalRegressionPayload,
    runs: &[RetrievalRegressionRunState],
    now: u128,
) -> (r: Result<RetrievalRegressionRunState, String>)
    ensures
        !is_mode(payload.mode@) ==> (r matches Err(e) && e@ == "unsupported regression mode: "@ + payload.mode@),
        is_mode(payload.mode@) && !is_profile(payload.profile@) ==> (r matches Err(e) && e@
            == "unsupported regression profile: "@ + payload.profile@),
        is_mode(payload.mode@) && is_profile(payload.profile@) ==> match first_running(runs@) {
            Some(i) => r matches Err(e) && e@ == active_run_message(runs@[i]),
            None => r matches Ok(run) && {
                &&& run.id@ == "retrieval-"@ + decimal(now as nat)
                &&& run.status@ == "running"@
                &&& run.mode@ == payload.mode@
                &&& run.profile@ == payload.profile@
                &&& opt_text(run.case_filter) == kept_filter(opt_text(payload.case_filter))
                &&& run.started_at_ms == now
                &&& run.finished_at_ms is None
                &&& run.exit_code is None
                &&& run.report_path is None
                &&& run.stdout_tail@.len() == 0
                &&& run.stderr_tail@.len() == 0
                &&& run.error is None
            },
        },
{
    validate_mode(payload.mode.as_str())?;
    validate_profile(payload.profile.as_str())?;
    let mut k: usize = 0;
    while k < runs.len()
        invariant
            k <= runs.len(),
            is_mode(payload.mode@),
            is_profile(payload.profile@),
            first_running(runs@.take(k as int)) is None,
        decreases runs.len() - k,
    {
        assert(runs@.take(k + 1).drop_last() =~= runs@.take(k as int));
        if str_eq(runs[k].status.as_str(), "running") {
            let run = &runs[k];
            let mut message = "a regression run is already active: ".to_owned();
            message.append(run.id.as_str());
            message.append(" / ");
            message.append(run.mode.as_str());
            message.append(" / ");
            message.append(run.profile.as_str());
            proof {
                assert(first_running(runs@.take(k + 1)) == Some(k as int));
                lemma_first_running_prefix(runs@, k as int + 1);
            }
            return Err(message);
        }
        k += 1;
    }
    assert(runs@.take(k as int) =~= runs@);
    let mut id = to_chars("retrieval-");
    append_chars(&mut id, &decimal_chars_u128(now));
    let case_filter = match &payload.case_filter {
        Some(v) => if trim_chars(&to_chars(v.as_str())).len() == 0 { None } else { Some(v.clone()) },
        None => None,
    };
    Ok(RetrievalRegressionRunState {
        id: from_chars(&id),
        status: "running".to_owned(),
        mode: payload.mode.clone(),
        profile: payload.profile.clone(),
        case_filter,
        started_at_ms: now,
        finished_at_ms: None,
        exit_code: None,
        report_path: None,
        stdout_tail: String::new(),
        stderr_tail: String::new(),
        error: None,
    })
}

proof fn lemma_first_running_prefix(runs: Seq<RetrievalRegressionRunState>, n: int)
    requires
        0 <= n <= runs.len(),
        first_running(runs.take(n)) is Some,
    ensures
        first_running(runs) == first_running(runs.take(n)),
    decreases runs.len() - n,
{
    if n < runs.len() {
        assert(runs.take(n + 1).drop_last() =~= runs.take(n));
        lemma_first_running_prefix(runs, n + 1);
    } else {
        assert(runs.take(n) =~= runs);
    }
}

} // verus!
