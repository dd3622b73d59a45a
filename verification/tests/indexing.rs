use memori_vault::clock::{chrono_like_now_token, millis_since_epoch, now_ms, seconds_since_epoch, seconds_token, unix_now_millis, unix_now_secs};
use memori_vault::engine_errors::{describe_engine_error, engine_not_ready_message, map_engine_api_error, ApiError, EngineErrorKind};
use memori_vault::indexing::{
    default_indexing_status, indexing_config_from_payload, resolve_indexing_config, store_indexing_config, IndexingMode,
    ResourceBudget, SetIndexingModePayload, StoredIndexingSettings,
};
use memori_vault::legacy_answer::{format_legacy_answer, format_legacy_references, AskResponseStructured, AskStatus, EvidenceItem};
use memori_vault::model_files::{local_model_names, model_name_of_file};

fn stored(mode: Option<&str>, budget: Option<&str>, start: Option<&str>, end: Option<&str>) -> StoredIndexingSettings {
    StoredIndexingSettings {
        indexing_mode: mode.map(str::to_string),
        resource_budget: budget.map(str::to_string),
        schedule_start: start.map(str::to_string),
        schedule_end: end.map(str::to_string),
    }
}

#[test]
fn unset_indexing_settings_mean_continuous_low() {
    let config = resolve_indexing_config(&stored(None, None, Some("01:00"), None));
    assert_eq!(config.mode, IndexingMode::Continuous);
    assert_eq!(config.resource_budget, ResourceBudget::Low);
    assert!(config.schedule_window.is_none());
}

#[test]
fn scheduled_mode_gets_default_window_ends() {
    let config = resolve_indexing_config(&stored(Some(" Scheduled "), Some("FAST"), None, Some("05:30")));
    assert_eq!(config.mode, IndexingMode::Scheduled);
    assert_eq!(config.resource_budget, ResourceBudget::Fast);
    let window = config.schedule_window.unwrap();
    assert_eq!(window.start, "00:00");
    assert_eq!(window.end, "05:30");
}

#[test]
fn unknown_names_fall_back() {
    assert_eq!(IndexingMode::from_value("hourly"), IndexingMode::Continuous);
    assert_eq!(IndexingMode::from_value("manual"), IndexingMode::Manual);
    assert_eq!(ResourceBudget::from_value(" balanced"), ResourceBudget::Balanced);
    assert_eq!(ResourceBudget::from_value("max"), ResourceBudget::Low);
    assert_eq!(IndexingMode::Scheduled.as_str(), "scheduled");
    assert_eq!(ResourceBudget::Fast.as_str(), "fast");
}

#[test]
fn payload_window_is_trimmed_and_stored_config_reads_back() {
    let payload = SetIndexingModePayload {
        indexing_mode: "scheduled".to_string(),
        resource_budget: "balanced".to_string(),
        schedule_start: Some(" 22:00 ".to_string()),
        schedule_end: None,
    };
    let config = indexing_config_from_payload(&payload);
    let window = config.schedule_window.as_ref().unwrap();
    assert_eq!(window.start, "22:00");
    assert_eq!(window.end, "06:00");
    let mut settings = stored(Some("manual"), None, None, None);
    store_indexing_config(&mut settings, &config);
    assert_eq!(settings.indexing_mode.as_deref(), Some("scheduled"));
    assert_eq!(settings.resource_budget.as_deref(), Some("balanced"));
    let back = resolve_indexing_config(&settings);
    assert_eq!(back.mode, config.mode);
    assert_eq!(back.resource_budget, config.resource_budget);
    let w = back.schedule_window.unwrap();
    assert_eq!((w.start.as_str(), w.end.as_str()), ("22:00", "06:00"));
}

#[test]
fn non_scheduled_payload_clears_window() {
    let payload = SetIndexingModePayload {
        indexing_mode: "manual".to_string(),
        resource_budget: "low".to_string(),
        schedule_start: Some("01:00".to_string()),
        schedule_end: Some("02:00".to_string()),
    };
    let config = indexing_config_from_payload(&payload);
    assert!(config.schedule_window.is_none());
    let mut settings = stored(None, None, Some("x"), Some("y"));
    store_indexing_config(&mut settings, &config);
    assert!(settings.schedule_start.is_none() && settings.schedule_end.is_none());
}

#[test]
fn default_status_is_idle_and_needs_rebuild() {
    let status = default_indexing_status(&stored(Some("manual"), Some("fast"), None, None));
    assert_eq!(status.phase, "idle");
    assert_eq!(status.mode, IndexingMode::Manual);
    assert_eq!(status.resource_budget, ResourceBudget::Fast);
    assert_eq!(status.rebuild_state, "required");
    assert_eq!(status.rebuild_reason.as_deref(), Some("engine_unavailable"));
    assert_eq!(status.indexed_docs + status.total_chunks + status.progress_percent, 0);
    assert!(!status.paused && status.last_error.is_none());
}

#[test]
fn engine_errors_have_their_own_words() {
    assert!(describe_engine_error(EngineErrorKind::IndexUnavailable).starts_with("Index upgrade required."));
    assert!(describe_engine_error(EngineErrorKind::IndexRebuildInProgress).ends_with("（索引升级中，重建完成前暂不可检索）"));
    assert_eq!(describe_engine_error(EngineErrorKind::Other("disk full".to_string())), "disk full");
    let e = map_engine_api_error(EngineErrorKind::IndexUnavailable);
    assert_eq!(e.status, 409);
    assert_eq!(e.message, "Index upgrade required. Search is temporarily unavailable until a full reindex completes.");
    assert_eq!(map_engine_api_error(EngineErrorKind::IndexRebuildInProgress).status, 503);
    let other = map_engine_api_error(EngineErrorKind::Other("boom".to_string()));
    assert_eq!((other.status, other.message.as_str()), (500, "boom"));
}

#[test]
fn api_error_constructors_set_status() {
    assert_eq!(ApiError::bad_request("a".to_string()).status, 400);
    assert_eq!(ApiError::unauthorized("a".to_string()).status, 401);
    assert_eq!(ApiError::forbidden("a".to_string()).status, 403);
    assert_eq!(ApiError::conflict("a".to_string()).status, 409);
    assert_eq!(ApiError::internal("a".to_string()).status, 500);
    assert_eq!(ApiError::service_unavailable("m".to_string()).message, "m");
}

#[test]
fn engine_not_ready_message_names_startup_failure() {
    assert_eq!(engine_not_ready_message(Some("no model")), "引擎初始化失败: no model");
    assert_eq!(engine_not_ready_message(None), "引擎尚在初始化中，请稍后重试。");
}

fn evidence(reason: &str, path: &str, content: &str) -> EvidenceItem {
    EvidenceItem {
        reason: reason.to_string(),
        document_rank: 2,
        chunk_rank: 7,
        file_path: path.to_string(),
        chunk_index: 12,
        content: content.to_string(),
    }
}

#[test]
fn legacy_answer_lists_references() {
    let response = AskResponseStructured {
        status: AskStatus::Answered,
        answer: "The answer.".to_string(),
        citations: vec![],
        evidence: vec![evidence("keyword", "docs/a.md", "alpha"), evidence("semantic", "b.txt", "beta")],
    };
    let sep = "-".repeat(60);
    let refs = format!(
        "#1  命中原因: keyword  文档排序: #2  片段排序: #7\n来源: docs/a.md\n块序号: 12\nalpha\n{sep}\n#2  命中原因: semantic  文档排序: #2  片段排序: #7\n来源: b.txt\n块序号: 12\nbeta\n{sep}"
    );
    assert_eq!(format_legacy_references(&response), refs);
    assert_eq!(format_legacy_answer(&response), format!("The answer.\n\n---\n参考来源：\n{refs}"));
}

#[test]
fn legacy_answer_without_evidence() {
    let mut response = AskResponseStructured { status: AskStatus::Answered, answer: "Only text".to_string(), citations: vec![], evidence: vec![] };
    assert_eq!(format_legacy_answer(&response), "Only text");
    response.status = AskStatus::ModelFailedWithEvidence;
    assert_eq!(format_legacy_answer(&response), "本地大模型答案生成失败，且没有可展示的证据片段。");
    response.status = AskStatus::InsufficientEvidence;
    assert_eq!(format_legacy_answer(&response), "证据不足，当前无法可靠回答这个问题。");
    response.status = AskStatus::ModelFailedWithEvidence;
    response.evidence.push(evidence("r", "p", "c"));
    assert!(format_legacy_answer(&response).starts_with("本地大模型答案生成失败，以下是检索到的相关片段：\n\n#1  命中原因: r"));
}

#[test]
fn clock_readings_are_plausible() {
    assert!(unix_now_secs() > 1_600_000_000);
    assert!(unix_now_millis() > 1_600_000_000_000);
    assert!(now_ms() > 1_600_000_000_000);
    let token = chrono_like_now_token();
    assert!(!token.is_empty() && token.chars().all(|c| c.is_ascii_digit()));
    assert_eq!(seconds_token(1_700_000_123), "1700000123");
    assert_eq!(millis_since_epoch(Some((2, 5_999_999))), Some(2005));
    assert_eq!(millis_since_epoch(None), None);
    assert_eq!(seconds_since_epoch(Some((9, 1))), 9);
    assert_eq!(seconds_since_epoch(None), 0);
}

#[test]
fn gguf_files_name_models() {
    assert_eq!(model_name_of_file("Qwen3-8B.Q4_K_M.GGUF").as_deref(), Some("Qwen3-8B.Q4_K_M"));
    assert_eq!(model_name_of_file(" bge .gguf").as_deref(), Some("bge"));
    assert_eq!(model_name_of_file(".gguf"), None);
    assert_eq!(model_name_of_file("  .gguf"), None);
    assert_eq!(model_name_of_file("model.bin"), None);
    assert_eq!(model_name_of_file("gguf"), None);
}

#[test]
fn local_model_names_are_sorted_and_unique() {
    let files: Vec<String> = ["b.gguf", "a.gguf", "B.gguf", "b.GGUF", "notes.txt", "c"].iter().map(|s| s.to_string()).collect();
    assert_eq!(local_model_names(&files), vec!["B".to_string(), "a".to_string(), "b".to_string()]);
    assert!(local_model_names(&[]).is_empty());
}
