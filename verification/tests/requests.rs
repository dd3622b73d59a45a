use memori_vault::ask::{
    build_answer_question, is_supported_text_file, normalize_language, normalize_scope_paths, normalize_top_k,
    optional_scope_refs, DEFAULT_RETRIEVE_TOP_K,
};
use memori_vault::memory_settings::{
    apply_memory_settings, normalize_auto_memory_write, normalize_context_budget, MemorySettingsDto,
    StoredMemorySettings,
};
use memori_vault::model_catalog::{merge_model_candidates, model_exists};
use memori_vault::regression::{clean_optional, tail_text, validate_mode, validate_profile, OUTPUT_TAIL_LIMIT};

fn strings(v: &[&str]) -> Vec<String> {
    v.iter().map(|s| s.to_string()).collect()
}

#[test]
fn top_k_and_language() {
    assert_eq!(normalize_top_k(Some(50)), 50);
    assert_eq!(normalize_top_k(Some(51)), DEFAULT_RETRIEVE_TOP_K);
    assert_eq!(normalize_top_k(None), 20);
    assert_eq!(normalize_language(Some(" ZH-tw ")), Some("zh-CN"));
    assert_eq!(normalize_language(Some("en")), Some("en-US"));
    assert_eq!(normalize_language(Some("fr")), None);
    assert_eq!(normalize_language(None), None);
    assert_eq!(build_answer_question("q", Some("zh")), "q\n\n请仅使用中文回答。");
    assert_eq!(build_answer_question("q", Some("en-GB")), "q\n\nPlease answer in English only.");
    assert_eq!(build_answer_question("q", Some("de")), "q");
}

#[test]
fn scopes_and_text_files() {
    assert_eq!(normalize_scope_paths(Some(strings(&[" a/b ", "  ", "c"]))), strings(&["a/b", "c"]));
    assert!(normalize_scope_paths(None).is_empty());
    assert!(optional_scope_refs(&[]).is_none());
    assert_eq!(optional_scope_refs(&strings(&["x"])).map(|s| s.len()), Some(1));
    assert!(is_supported_text_file("notes/a.MD"));
    assert!(is_supported_text_file("b.txt"));
    assert!(!is_supported_text_file("c.pdf"));
    assert!(!is_supported_text_file("README"));
}

#[test]
fn regression_inputs() {
    assert!(validate_mode("offline_deterministic").is_ok());
    assert_eq!(validate_mode("fast").unwrap_err(), "unsupported regression mode: fast");
    assert!(validate_profile("repo_mixed").is_ok());
    assert_eq!(validate_profile("x").unwrap_err(), "unsupported regression profile: x");
    assert_eq!(clean_optional(Some("  v ".to_string())), Some("v".to_string()));
    assert_eq!(clean_optional(Some(" ".to_string())), None);
}

#[test]
fn long_output_keeps_a_tail_of_whole_characters() {
    assert_eq!(tail_text("short"), "short");
    let long = format!("{}{}", "x".repeat(10), "é".repeat(OUTPUT_TAIL_LIMIT / 2 + 1));
    let tail = tail_text(&long);
    assert!(tail.starts_with("..."));
    assert!(tail.len() - 3 <= OUTPUT_TAIL_LIMIT);
    assert_eq!(tail[3..].chars().count(), OUTPUT_TAIL_LIMIT / 2);
    assert!(long.ends_with(&tail[3..]));
}

#[test]
fn memory_settings_are_normalised() {
    assert_eq!(normalize_auto_memory_write(" OFF "), "off");
    assert_eq!(normalize_auto_memory_write("whatever"), "suggest");
    assert_eq!(normalize_context_budget("64K", "16k"), "64k");
    assert_eq!(normalize_context_budget("huge", "32k"), "32k");
    let mut stored = StoredMemorySettings {
        conversation_memory_enabled: None,
        auto_memory_write: None,
        memory_write_requires_source: None,
        memory_markdown_export_enabled: None,
        default_context_budget: None,
        complex_context_budget: None,
        graph_ranking_enabled: None,
    };
    apply_memory_settings(
        &mut stored,
        MemorySettingsDto {
            conversation_memory_enabled: true,
            auto_memory_write: "auto_low_risk".to_string(),
            memory_write_requires_source: false,
            memory_markdown_export_enabled: true,
            default_context_budget: "bad".to_string(),
            complex_context_budget: "8k".to_string(),
            graph_ranking_enabled: true,
        },
    );
    assert_eq!(stored.auto_memory_write.as_deref(), Some("auto_low_risk"));
    assert_eq!(stored.default_context_budget.as_deref(), Some("16k"));
    assert_eq!(stored.complex_context_budget.as_deref(), Some("8k"));
    assert_eq!(stored.conversation_memory_enabled, Some(true));
    assert_eq!(stored.memory_write_requires_source, Some(false));
}

#[test]
fn model_candidates_merge_sorted_without_repeats() {
    let merged = merge_model_candidates(strings(&["qwen3:8b", "bge", "Qwen"]), strings(&["bge", "a-model", "qwen3:8b"]));
    assert_eq!(merged.merged, strings(&["Qwen", "a-model", "bge", "qwen3:8b"]));
    assert_eq!(merged.from_folder, strings(&["qwen3:8b", "bge", "Qwen"]));
    assert_eq!(merged.from_service.len(), 3);
    let models = strings(&["llama3:latest", "qwen3:8b"]);
    assert!(model_exists(&models, " llama3 "));
    assert!(model_exists(&models, "qwen3:8b"));
    assert!(!model_exists(&models, "qwen3"));
    assert!(!model_exists(&models, "  "));
}
