use memori_vault::ask::{find_citation, receive_ask, start_ask, AskStart};
use memori_vault::legacy_answer::CitationItem;
use memori_vault::server_metrics::ServerMetrics;
use memori_vault::legacy_answer::AskStatus;
use memori_vault::regression::{start_regression_run, RetrievalRegressionRunState, RunRetrievalRegressionPayload};

fn payload(mode: &str, profile: &str, filter: Option<&str>) -> RunRetrievalRegressionPayload {
    RunRetrievalRegressionPayload {
        mode: mode.to_string(),
        profile: profile.to_string(),
        suite: None,
        watch_root: None,
        db_path: None,
        case_filter: filter.map(|f| f.to_string()),
        max_index_prep_secs: None,
        max_case_secs: None,
    }
}

fn run(id: &str, status: &str) -> RetrievalRegressionRunState {
    RetrievalRegressionRunState {
        id: id.to_string(),
        status: status.to_string(),
        mode: "offline_deterministic".to_string(),
        profile: "core_docs".to_string(),
        case_filter: None,
        started_at_ms: 1,
        finished_at_ms: None,
        exit_code: None,
        report_path: None,
        stdout_tail: String::new(),
        stderr_tail: String::new(),
        error: None,
    }
}

#[test]
fn regression_run_starts_running() {
    let started = start_regression_run(&payload("live_embedding", "repo_mixed", Some(" case-7 ")), &[run("old", "succeeded")], 1234)
        .expect("started");
    assert_eq!(started.id, "retrieval-1234");
    assert_eq!(started.status, "running");
    assert_eq!(started.mode, "live_embedding");
    assert_eq!(started.profile, "repo_mixed");
    assert_eq!(started.case_filter.as_deref(), Some(" case-7 "));
    assert_eq!(started.started_at_ms, 1234);
    assert!(started.finished_at_ms.is_none() && started.error.is_none());
    let blank = start_regression_run(&payload("live_embedding", "repo_mixed", Some("  ")), &[], 5).unwrap();
    assert!(blank.case_filter.is_none());
}

#[test]
fn regression_run_is_refused_while_one_runs() {
    let err = start_regression_run(&payload("live_embedding", "core_docs", None), &[run("a", "failed"), run("b", "running")], 9)
        .err().unwrap();
    assert_eq!(err, "a regression run is already active: b / offline_deterministic / core_docs");
    assert_eq!(
        start_regression_run(&payload("fast", "core_docs", None), &[run("b", "running")], 9).err().unwrap(),
        "unsupported regression mode: fast"
    );
    assert_eq!(
        start_regression_run(&payload("live_embedding", "huge", None), &[], 9).err().unwrap(),
        "unsupported regression profile: huge"
    );
}

#[test]
fn blank_question_is_answered_at_once() {
    match start_ask("   ") {
        AskStart::Blank(resp) => {
            assert_eq!(resp.status, AskStatus::InsufficientEvidence);
            assert!(resp.answer.is_empty() && resp.evidence.is_empty());
        }
        AskStart::Query(_) => panic!("blank query"),
    }
    match start_ask("  what is X? ") {
        AskStart::Query(q) => assert_eq!(q, "what is X?"),
        AskStart::Blank(_) => panic!("real query"),
    }
}

#[test]
fn blank_question_counts_as_failed_request() {
    let mut m = ServerMetrics::new();
    m.ask_latency_total_ms = 40;
    match receive_ask(&mut m, "  ") {
        AskStart::Blank(resp) => assert!(resp.citations.is_empty() && resp.evidence.is_empty()),
        AskStart::Query(_) => panic!("blank query"),
    }
    assert_eq!((m.total_requests, m.ask_requests, m.failed_requests, m.ask_failed, m.ask_latency_total_ms), (1, 1, 1, 1, 40));
    assert!(matches!(receive_ask(&mut m, "why?"), AskStart::Query(_)));
    assert_eq!((m.total_requests, m.ask_requests, m.failed_requests, m.ask_failed), (2, 2, 1, 1));
    m.record_ask_latency(15);
    assert_eq!(m.ask_latency_total_ms, 55);
    m.total_requests = u64::MAX;
    m.record_ask();
    assert_eq!(m.total_requests, 0);
}

#[test]
fn citations_are_found_by_number() {
    let c = |i: usize| CitationItem { index: i, file_path: "a.md".to_string(), chunk_index: 0 };
    let cs = vec![c(2), c(5), c(5)];
    assert_eq!(find_citation(&cs, 5), Some(1));
    assert_eq!(find_citation(&cs, 3), None);
}
