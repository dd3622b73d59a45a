use memori_vault::regression::{
    finish_regression_run, regression_args, ProcessResult, RetrievalRegressionRunState, RunRetrievalRegressionPayload,
};
use memori_vault::window_state::{restore_main_window_state, MonitorArea, SavedWindow};

fn run_state() -> RetrievalRegressionRunState {
    RetrievalRegressionRunState {
        id: "retrieval-1".to_string(),
        status: "running".to_string(),
        mode: "live_embedding".to_string(),
        profile: "core_docs".to_string(),
        case_filter: None,
        started_at_ms: 1,
        finished_at_ms: None,
        exit_code: None,
        report_path: None,
        stdout_tail: String::new(),
        stderr_tail: String::new(),
        error: None,
    }
}

#[test]
fn regression_script_arguments() {
    let payload = RunRetrievalRegressionPayload {
        mode: "offline_deterministic".to_string(),
        profile: "core_docs".to_string(),
        suite: Some("  ".to_string()),
        watch_root: Some(" C:/vault ".to_string()),
        db_path: None,
        case_filter: Some("case-7".to_string()),
        max_index_prep_secs: Some(120),
        max_case_secs: None,
    };
    let args = regression_args(&payload, "scripts/test-retrieval.ps1");
    assert_eq!(
        args,
        vec![
            "-NoProfile", "-ExecutionPolicy", "Bypass", "-File", "scripts/test-retrieval.ps1", "-Mode",
            "offline_deterministic", "-Profile", "core_docs", "-WatchRoot", "C:/vault", "-Case", "case-7",
            "-MaxIndexPrepSecs", "120",
        ]
    );
}

#[test]
fn finished_runs_record_their_outcome() {
    let mut run = run_state();
    finish_regression_run(
        &mut run,
        99,
        Ok(ProcessResult { exit_code: Some(0), report_path: Some("r.json".to_string()), stdout_tail: "ok".to_string(), stderr_tail: String::new() }),
    );
    assert_eq!(run.status, "succeeded");
    assert_eq!(run.finished_at_ms, Some(99));
    assert_eq!(run.report_path.as_deref(), Some("r.json"));
    assert!(run.error.is_none());

    let mut run = run_state();
    finish_regression_run(
        &mut run,
        5,
        Ok(ProcessResult { exit_code: Some(2), report_path: None, stdout_tail: String::new(), stderr_tail: "boom".to_string() }),
    );
    assert_eq!(run.status, "failed");
    assert_eq!(run.error.as_deref(), Some("regression process exited with a non-zero code"));

    let mut run = run_state();
    finish_regression_run(&mut run, 5, Err("regression task join failed: x".to_string()));
    assert_eq!(run.status, "failed");
    assert_eq!(run.error.as_deref(), Some("regression task join failed: x"));
}

#[test]
fn window_is_kept_on_its_monitor() {
    let monitor = MonitorArea { x: 0, y: 0, width: 1920, height: 1080, default_width: 1728, default_height: 950 };
    let saved = SavedWindow { x: Some(5000), y: Some(-50), width: Some(4000), height: Some(700), maximized: Some(true) };
    let p = restore_main_window_state(&saved, Some(&monitor));
    assert_eq!((p.width, p.height), (1888, 700));
    assert_eq!(p.position, Some((32, 0)));
    assert!(!p.center);
    assert!(p.maximize);

    let nothing = SavedWindow { x: None, y: None, width: None, height: None, maximized: None };
    let p = restore_main_window_state(&nothing, Some(&monitor));
    assert_eq!((p.width, p.height), (1728, 950));
    assert_eq!(p.position, Some((96, 65)));

    let small_monitor = MonitorArea { x: 0, y: 0, width: 1366, height: 768, default_width: 1229, default_height: 676 };
    let p = restore_main_window_state(&nothing, Some(&small_monitor));
    assert_eq!((p.width, p.height), (1334, 704));
    assert!(p.center);
    assert!(!p.maximize);

    let small = SavedWindow { x: Some(10), y: Some(20), width: Some(100), height: Some(100), maximized: None };
    let p = restore_main_window_state(&small, None);
    assert_eq!((p.width, p.height), (900, 620));
    assert_eq!(p.position, Some((10, 20)));
    assert!(!p.center);
}
