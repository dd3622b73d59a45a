use memori_vault::model_endpoints::{
    dedupe_local_endpoints, default_local_endpoint_for_role, endpoint_host_port, ensure_distinct_local_endpoints,
    normalize_chat_api_format, normalize_endpoint, normalize_local_endpoint_for_role, normalize_optional_text,
    normalize_performance_preset, normalize_remote_protocol, provider_to_string, same_endpoint_target,
    strip_openai_compatible_request_path, ModelProvider,
};

#[test]
fn collapsed_local_endpoints_self_heal_to_role_defaults() {
    let (chat, graph, embed, rerank) = dedupe_local_endpoints(
        "http://localhost:18001".to_string(),
        "http://localhost:18001".to_string(),
        "http://localhost:18001".to_string(),
        "http://localhost:18001".to_string(),
    );
    assert_eq!(chat, "http://localhost:18001");
    assert_eq!(graph, "http://localhost:18002");
    assert_eq!(embed, "http://localhost:18003");
    assert_eq!(rerank, "http://localhost:18004");
}

#[test]
fn distinct_local_endpoints_are_left_untouched() {
    let (chat, graph, embed, rerank) = dedupe_local_endpoints(
        "http://localhost:18001".to_string(),
        "http://localhost:18002".to_string(),
        "http://localhost:18003".to_string(),
        "http://localhost:18004".to_string(),
    );
    assert_eq!(
        (chat.as_str(), graph.as_str(), embed.as_str(), rerank.as_str()),
        (
            "http://localhost:18001",
            "http://localhost:18002",
            "http://localhost:18003",
            "http://localhost:18004",
        )
    );
}

#[test]
fn empty_local_endpoint_falls_back_to_role_default_not_chat() {
    assert_eq!(normalize_local_endpoint_for_role("graph", "   "), "http://localhost:18002");
    assert_eq!(normalize_local_endpoint_for_role("embed", ""), "http://localhost:18003");
    assert_eq!(normalize_local_endpoint_for_role("rerank", ""), "http://localhost:18004");
}

#[test]
fn saving_same_port_for_multiple_roles_is_rejected() {
    let err = ensure_distinct_local_endpoints(
        "http://localhost:18001",
        "http://localhost:18001",
        "http://localhost:18003",
        "http://localhost:18004",
    )
    .unwrap_err();
    assert!(err.contains("不同的端口"));
    assert!(ensure_distinct_local_endpoints(
        "http://localhost:18001",
        "http://localhost:18002",
        "http://localhost:18003",
        "http://localhost:18004",
    )
    .is_ok());
}

#[test]
fn model_settings_openai_compatible_endpoint_strips_full_request_path() {
    assert_eq!(
        normalize_endpoint(ModelProvider::OpenAiCompatible, "https://api.example.com/v1"),
        "https://api.example.com"
    );
    assert_eq!(
        normalize_endpoint(ModelProvider::OpenAiCompatible, "https://api.example.com/v1/models"),
        "https://api.example.com"
    );
    assert_eq!(
        normalize_endpoint(ModelProvider::OpenAiCompatible, "https://api.example.com/v1/chat/completions"),
        "https://api.example.com"
    );
}

#[test]
fn endpoint_with_trailing_slash_or_hash_is_kept_as_given() {
    assert_eq!(
        normalize_endpoint(ModelProvider::OpenAiCompatible, " https://api.example.com/v1/ "),
        "https://api.example.com/v1/"
    );
    assert_eq!(
        normalize_endpoint(ModelProvider::OpenAiCompatible, "https://api.example.com/v1#"),
        "https://api.example.com/v1#"
    );
    assert_eq!(normalize_endpoint(ModelProvider::LlamaCppLocal, "  "), "http://localhost:18001");
    assert_eq!(normalize_endpoint(ModelProvider::LlamaCppLocal, " http://h:1/v1 "), "http://h:1/v1");
}

#[test]
fn request_path_is_stripped_without_regard_to_case() {
    assert_eq!(strip_openai_compatible_request_path("https://x.test/V1/Embeddings//"), "https://x.test");
    assert_eq!(strip_openai_compatible_request_path("https://x.test/v1/responses"), "https://x.test");
    assert_eq!(strip_openai_compatible_request_path("https://x.test/api"), "https://x.test/api");
}

#[test]
fn role_defaults_and_unknown_roles() {
    assert_eq!(default_local_endpoint_for_role("chat"), "http://localhost:18001");
    assert_eq!(default_local_endpoint_for_role("other"), "http://localhost:18001");
    assert_eq!(default_local_endpoint_for_role("embed"), "http://localhost:18003");
    assert_eq!(normalize_local_endpoint_for_role("graph", " http://h:9 "), "http://h:9");
}

#[test]
fn same_target_compares_host_and_port() {
    assert!(same_endpoint_target("http://localhost:18001", "http://LOCALHOST:18001/v1"));
    assert!(!same_endpoint_target("http://localhost:18001", "http://localhost:18002"));
    assert!(same_endpoint_target("http://example.com", "http://example.com:80"));
    assert!(same_endpoint_target("not a url", " not a url "));
    assert!(!same_endpoint_target("not a url", "another"));
    assert_eq!(endpoint_host_port("https://example.com"), Some(("example.com".chars().collect(), 443)));
    assert_eq!(endpoint_host_port("nonsense"), None);
}

#[test]
fn partly_collapsed_endpoints_only_move_the_colliding_roles() {
    let (chat, graph, embed, rerank) = dedupe_local_endpoints(
        "http://localhost:18001".to_string(),
        "http://localhost:18002".to_string(),
        "http://localhost:18002".to_string(),
        "http://localhost:18004".to_string(),
    );
    assert_eq!(chat, "http://localhost:18001");
    assert_eq!(graph, "http://localhost:18002");
    assert_eq!(embed, "http://localhost:18003");
    assert_eq!(rerank, "http://localhost:18004");
}

#[test]
fn provider_names_and_options() {
    assert_eq!(ModelProvider::from_value(" OpenAI_Compatible "), ModelProvider::OpenAiCompatible);
    assert_eq!(ModelProvider::from_value("llama_cpp_local"), ModelProvider::LlamaCppLocal);
    assert_eq!(provider_to_string(ModelProvider::OpenAiCompatible), "openai_compatible");
    assert_eq!(normalize_optional_text(Some("  x ".to_string())), Some("x".to_string()));
    assert_eq!(normalize_optional_text(Some("   ".to_string())), None);
    assert_eq!(normalize_optional_text(None), None);
    assert_eq!(normalize_remote_protocol(Some(" OpenAI_Responses ")), "openai_responses");
    assert_eq!(normalize_remote_protocol(None), "openai_chat_completions");
    assert_eq!(normalize_chat_api_format(Some("responses")), "responses");
    assert_eq!(normalize_chat_api_format(Some("weird")), "chat");
    assert_eq!(normalize_performance_preset(Some("Low-VRAM".to_string())), Some("low_vram".to_string()));
    assert_eq!(normalize_performance_preset(None), Some("compat".to_string()));
}
