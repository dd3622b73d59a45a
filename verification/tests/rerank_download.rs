use memori_vault::rerank_download::{already_downloaded, download_needed, DownloadMeter, PROGRESS_EMIT_STEP};

#[test]
fn existing_non_empty_file_is_reused() {
    assert!(!download_needed(Some(10)));
    assert!(download_needed(Some(0)));
    assert!(download_needed(None));
    let p = already_downloaded(10, "/m/r.gguf".to_string());
    assert_eq!((p.downloaded, p.total, p.done), (10, 10, true));
    assert_eq!(p.path.as_deref(), Some("/m/r.gguf"));
}

#[test]
fn progress_is_reported_every_step() {
    let mut meter = DownloadMeter::new();
    assert!(!meter.record_chunk(PROGRESS_EMIT_STEP - 1));
    assert!(meter.record_chunk(1));
    assert_eq!(meter.downloaded(), PROGRESS_EMIT_STEP);
    assert!(!meter.record_chunk(1000));
    assert!(meter.record_chunk(PROGRESS_EMIT_STEP));
    let p = meter.progress(0);
    assert_eq!(p.downloaded, 2 * PROGRESS_EMIT_STEP + 1000);
    assert!(!p.done && p.path.is_none());
    let done = meter.finished(0, "x".to_string());
    assert_eq!(done.total, 2 * PROGRESS_EMIT_STEP + 1000);
    assert!(done.done);
    let done = meter.finished(3 * PROGRESS_EMIT_STEP, "x".to_string());
    assert_eq!(done.total, 3 * PROGRESS_EMIT_STEP);
}
