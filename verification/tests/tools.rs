use memori_vault::desktop_settings::runtime_configured;
use memori_vault::desktop_settings::ActiveRuntimeModelSettings as DesktopRuntime;
use memori_vault::json::Json;
use memori_vault::mcp::{list_tools, schema_json};
use memori_vault::mcp_tools::{tool_of, unknown_tool_error, McpTool};
use memori_vault::model_endpoints::ModelProvider;
use memori_vault::model_env::{desktop_model_env, server_model_env, EnvChange};
use memori_vault::server_settings::ActiveRuntimeModelSettings as ServerRuntime;

fn pairs(changes: &[EnvChange]) -> Vec<(String, Option<String>)> {
    changes.iter().map(|c| (c.name.clone(), c.value.clone())).collect()
}

fn set(name: &str, value: &str) -> (String, Option<String>) {
    (name.to_string(), Some(value.to_string()))
}

fn clear(name: &str) -> (String, Option<String>) {
    (name.to_string(), None)
}

#[test]
fn desktop_env_sets_every_role_and_clears_unset_tuning() {
    let settings = DesktopRuntime {
        provider: ModelProvider::LlamaCppLocal,
        protocol: "openai_chat_completions".to_string(),
        api_format: "chat".to_string(),
        chat_endpoint: "http://localhost:18001".to_string(),
        graph_endpoint: "http://localhost:18002".to_string(),
        embed_endpoint: "http://localhost:18003".to_string(),
        api_key: None,
        models_root: None,
        chat_model: "qwen".to_string(),
        graph_model: "qwen-small".to_string(),
        embed_model: "bge".to_string(),
        chat_context_length: Some(16384),
        graph_context_length: None,
        embed_context_length: Some(8192),
        chat_concurrency: None,
        graph_concurrency: Some(2),
        embed_concurrency: None,
        rerank_endpoint: "http://localhost:18004".to_string(),
        rerank_model: "reranker".to_string(),
        rerank_enabled: true,
    };
    assert_eq!(
        pairs(&desktop_model_env(&settings)),
        vec![
            set("MEMORI_MODEL_PROVIDER", "llama_cpp_local"),
            set("MEMORI_MODEL_PROTOCOL", "openai_chat_completions"),
            set("MEMORI_CHAT_API_FORMAT", "chat"),
            set("MEMORI_MODEL_ENDPOINT", "http://localhost:18001"),
            set("MEMORI_CHAT_ENDPOINT", "http://localhost:18001"),
            set("MEMORI_GRAPH_ENDPOINT", "http://localhost:18002"),
            set("MEMORI_EMBED_ENDPOINT", "http://localhost:18003"),
            set("MEMORI_CHAT_MODEL", "qwen"),
            set("MEMORI_GRAPH_MODEL", "qwen-small"),
            set("MEMORI_EMBED_MODEL", "bge"),
            set("MEMORI_RERANK_ENDPOINT", "http://localhost:18004"),
            set("MEMORI_RERANK_MODEL", "reranker"),
            set("MEMORI_RERANK_ENABLED", "1"),
            clear("MEMORI_MODEL_API_KEY"),
            set("MEMORI_CHAT_CONTEXT_LENGTH", "16384"),
            clear("MEMORI_GRAPH_CONTEXT_LENGTH"),
            set("MEMORI_EMBED_CONTEXT_LENGTH", "8192"),
            clear("MEMORI_CHAT_CONCURRENCY"),
            set("MEMORI_GRAPH_CONCURRENCY", "2"),
            clear("MEMORI_EMBED_CONCURRENCY"),
        ]
    );
}

#[test]
fn server_env_has_no_reranker_and_keeps_api_key() {
    let settings = ServerRuntime {
        provider: ModelProvider::OpenAiCompatible,
        protocol: "openai_responses".to_string(),
        chat_endpoint: "https://api.example.com".to_string(),
        graph_endpoint: "https://api.example.com".to_string(),
        embed_endpoint: "https://embed.example.com".to_string(),
        api_key: Some("sk-test".to_string()),
        models_root: None,
        chat_model: "gpt".to_string(),
        graph_model: "gpt-mini".to_string(),
        embed_model: "emb".to_string(),
        chat_context_length: None,
        graph_context_length: None,
        embed_context_length: None,
        chat_concurrency: Some(4),
        graph_concurrency: None,
        embed_concurrency: None,
    };
    let changes = pairs(&server_model_env(&settings));
    assert_eq!(changes.len(), 16);
    assert_eq!(changes[0], set("MEMORI_MODEL_PROVIDER", "openai_compatible"));
    assert_eq!(changes[2], set("MEMORI_MODEL_ENDPOINT", "https://api.example.com"));
    assert_eq!(changes[9], set("MEMORI_MODEL_API_KEY", "sk-test"));
    assert_eq!(changes[13], set("MEMORI_CHAT_CONCURRENCY", "4"));
    assert!(!changes.iter().any(|(name, _)| name.starts_with("MEMORI_RERANK")));
}

#[test]
fn tool_names_route_to_tools() {
    assert_eq!(tool_of("ask"), Some(McpTool::Ask));
    assert_eq!(tool_of("memory_get_source"), Some(McpTool::MemoryGetSource));
    assert_eq!(tool_of("rank_settings"), Some(McpTool::RankSettings));
    assert_eq!(tool_of("Ask"), None);
    assert_eq!(tool_of(""), None);
}

#[test]
fn every_listed_tool_is_callable() {
    for tool in list_tools().tools {
        assert!(tool_of(&tool.name).is_some(), "{}", tool.name);
    }
}

#[test]
fn unknown_tool_is_method_not_found() {
    let e = unknown_tool_error("fly");
    assert_eq!(e.code, -32601);
    assert_eq!(e.message, "unknown tool: fly");
}

use memori_vault::preview::{plan_file_preview, preview_path, preview_too_large, PreviewSource};

#[test]
fn preview_path_must_not_be_blank() {
    assert_eq!(preview_path("  /tmp/a.md ").unwrap(), "/tmp/a.md");
    assert_eq!(preview_path("   ").unwrap_err(), "文件路径为空");
}

#[test]
fn preview_plans_by_extension() {
    let md = plan_file_preview("/notes/Readme.MD").unwrap();
    assert_eq!((md.extension.as_str(), md.source, md.format.as_str()), ("md", PreviewSource::PlainText, "markdown"));
    let pdf = plan_file_preview("/docs/report.pdf").unwrap();
    assert_eq!((pdf.source, pdf.format.as_str()), (PreviewSource::ExtractedText, "document"));
    let rs = plan_file_preview("src/main.rs").unwrap();
    assert_eq!(rs.format, "text");
    assert_eq!(plan_file_preview("/bin/tool.exe").unwrap_err(), "不支持预览的文件类型: .exe");
    assert_eq!(plan_file_preview("/etc/hosts").unwrap_err(), "不支持预览的文件类型: .");
    assert_eq!(plan_file_preview("/home/u/.log").unwrap_err(), "不支持预览的文件类型: .");
}

#[test]
fn preview_size_limit_is_five_mebibytes() {
    assert!(!preview_too_large(5 * 1024 * 1024));
    assert!(preview_too_large(5 * 1024 * 1024 + 1));
}

use memori_vault::search_scopes::{order_scope_entries, scope_entry_kind};

#[test]
fn scope_entries_list_folders_first_then_by_name() {
    let entries: Vec<(String, bool)> = [("b.md", false), ("zeta", true), ("a.txt", false), ("Alpha", true), ("b.md", false), ("docs", true)]
        .iter()
        .map(|(n, d)| (n.to_string(), *d))
        .collect();
    assert_eq!(order_scope_entries(&entries), vec![3, 5, 1, 2, 0, 4]);
    assert!(order_scope_entries(&[]).is_empty());
}

#[test]
fn scope_entries_are_folders_and_text_files() {
    assert_eq!(scope_entry_kind(true, false, "/v/docs"), Some(true));
    assert_eq!(scope_entry_kind(false, true, "/v/notes.MD"), Some(false));
    assert_eq!(scope_entry_kind(false, true, "/v/image.png"), None);
    assert_eq!(scope_entry_kind(false, false, "/v/fifo.txt"), None);
}

use memori_vault::reports::{
    check_report_path, json_scalar_string, json_string, latest_report_index, order_reports_newest_first, report_case_count,
};

fn report() -> Json {
    Json::Object(vec![
        ("app_version".to_string(), Json::Str("1.2.0".to_string())),
        ("suite_version".to_string(), Json::UInt(3)),
        ("flag".to_string(), Json::Bool(true)),
        ("list".to_string(), Json::Array(vec![])),
        ("summary".to_string(), Json::Object(vec![("case_count".to_string(), Json::UInt(42))])),
    ])
}

#[test]
fn report_fields_read_as_text() {
    let r = report();
    assert_eq!(json_string(&r, "app_version"), "1.2.0");
    assert_eq!(json_string(&r, "suite_version"), "");
    assert_eq!(json_string(&r, "missing"), "");
    assert_eq!(json_scalar_string(&r, "suite_version").as_deref(), Some("3"));
    assert_eq!(json_scalar_string(&r, "flag").as_deref(), Some("true"));
    assert_eq!(json_scalar_string(&r, "app_version").as_deref(), Some("1.2.0"));
    assert_eq!(json_scalar_string(&r, "missing").as_deref(), Some(""));
    assert_eq!(json_scalar_string(&r, "list"), None);
    assert_eq!(report_case_count(&r), 42);
    assert_eq!(report_case_count(&Json::Null), 0);
}

#[test]
fn reports_are_listed_newest_first() {
    assert_eq!(order_reports_newest_first(&[5, 9, 5, 1, 9]), vec![1, 4, 0, 2, 3]);
}

#[test]
fn latest_report_is_the_last_of_the_newest() {
    let reports: Vec<(String, u128)> = [
        ("live_embedding-core_docs-a", 7),
        ("offline_deterministic-core_docs-b", 99),
        ("live_embedding-core_docs-c", 7),
        ("live_embedding-core_docs-d", 3),
    ]
    .iter()
    .map(|(n, t)| (n.to_string(), *t))
    .collect();
    assert_eq!(latest_report_index(&reports, "live_embedding", "core_docs"), Some(2));
    assert_eq!(latest_report_index(&reports, "live_embedding", "repo_mixed"), None);
}

#[test]
fn report_paths_must_stay_under_the_root() {
    assert!(check_report_path("/repo/target/retrieval-regression", "/repo/target/retrieval-regression/run1/report.json").is_ok());
    assert!(check_report_path("/repo/target/retrieval-regression", "/repo/target/retrieval-regression").is_ok());
    assert_eq!(
        check_report_path("/repo/target/retrieval-regression", "/repo/target/retrieval-regression-x/report.json").unwrap_err(),
        "report path must stay under target/retrieval-regression"
    );
    assert!(check_report_path("/repo/target/retrieval-regression", "/etc/passwd").is_err());
}

use memori_vault::watch_root::{watch_root_choice, watch_root_input};

#[test]
fn watch_root_prefers_settings_then_environment() {
    assert_eq!(watch_root_choice(Some(" /vault "), Some("/env")).as_deref(), Some("/vault"));
    assert_eq!(watch_root_choice(Some("  "), Some(" /env ")).as_deref(), Some("/env"));
    assert_eq!(watch_root_choice(None, Some("")), None);
    assert_eq!(watch_root_input(" /data ").unwrap(), "/data");
    assert_eq!(watch_root_input(" ").unwrap_err(), "目录路径为空，无法保存。");
}

use memori_vault::model_catalog::missing_model_roles;

#[test]
fn missing_roles_are_listed_in_role_order() {
    let models: Vec<String> = ["qwen3:14b", "bge-m3:latest", "llama"].iter().map(|s| s.to_string()).collect();
    assert_eq!(missing_model_roles(&models, "qwen3:14b", "mistral", "bge-m3", false), vec!["graph".to_string()]);
    assert_eq!(missing_model_roles(&models, "", "llama", "nope", false), vec!["chat".to_string(), "embed".to_string()]);
    assert_eq!(missing_model_roles(&models, "", "llama", "nope", true), vec!["embed".to_string()]);
}

#[test]
fn runtime_needs_every_role_and_a_remote_key() {
    let mut a = DesktopRuntime {
        provider: ModelProvider::OpenAiCompatible,
        protocol: "openai_chat_completions".to_string(),
        api_format: "chat".to_string(),
        chat_endpoint: "https://x".to_string(),
        graph_endpoint: "https://x".to_string(),
        embed_endpoint: "https://x".to_string(),
        api_key: Some(" ".to_string()),
        models_root: None,
        chat_model: "c".to_string(),
        graph_model: "g".to_string(),
        embed_model: "e".to_string(),
        chat_context_length: None,
        graph_context_length: None,
        embed_context_length: None,
        chat_concurrency: None,
        graph_concurrency: None,
        embed_concurrency: None,
        rerank_endpoint: String::new(),
        rerank_model: String::new(),
        rerank_enabled: false,
    };
    assert!(!runtime_configured(&a));
    a.api_key = Some("sk".to_string());
    assert!(runtime_configured(&a));
    a.provider = ModelProvider::LlamaCppLocal;
    a.api_key = None;
    assert!(runtime_configured(&a));
    a.graph_model = "  ".to_string();
    assert!(!runtime_configured(&a));
}

use memori_vault::audit::{audit_query_page, page_window};
use memori_vault::enterprise_policy::{allowed_models, policy_settings_update, resolve_auth_config, StoredAuthSettings};

#[test]
fn auth_config_defaults_fill_unset_fields() {
    let auth = resolve_auth_config(&StoredAuthSettings {
        oidc_issuer: Some("https://id.corp".to_string()),
        oidc_client_id: None,
        oidc_redirect_uri: None,
        oidc_roles_claim: Some("groups".to_string()),
    });
    assert_eq!(auth.issuer, "https://id.corp");
    assert_eq!(auth.client_id, "memori-vault-enterprise");
    assert_eq!(auth.redirect_uri, "http://localhost:3757/api/auth/oidc/login");
    assert_eq!(auth.roles_claim, "groups");
}

#[test]
fn allowed_models_are_trimmed_sorted_and_unique() {
    let stored = Some(vec![" qwen ".to_string(), "".to_string(), "bge".to_string(), "qwen".to_string()]);
    assert_eq!(allowed_models(&stored), vec!["bge".to_string(), "qwen".to_string()]);
    assert!(allowed_models(&None).is_empty());
}

#[test]
fn policy_update_cleans_entries() {
    let update = policy_settings_update(
        &vec![" HTTP://Models.Local/ ".to_string(), "  ".to_string()],
        &vec![" m1 ".to_string(), "".to_string(), "m1".to_string()],
        " https://idp ".to_string(),
        "   ".to_string(),
        "cb".to_string(),
        "roles".to_string(),
    );
    assert_eq!(update.allowed_model_endpoints, vec!["http://models.local/".to_string()]);
    assert_eq!(update.allowed_models, vec!["m1".to_string(), "m1".to_string()]);
    assert_eq!(update.auth.oidc_issuer.as_deref(), Some("https://idp"));
    assert_eq!(update.auth.oidc_client_id, None);
}

#[test]
fn audit_listing_pages_are_bounded() {
    assert_eq!(audit_query_page(None, None), (1, 50));
    assert_eq!(audit_query_page(Some(0), Some(1000)), (1, 200));
    assert_eq!(audit_query_page(Some(3), Some(0)), (3, 1));
    assert_eq!(page_window(120, 2, 50), Some((50, 100)));
    assert_eq!(page_window(120, 3, 50), Some((100, 120)));
    assert_eq!(page_window(100, 3, 50), None);
}

#[test]
fn tool_schemas_render_as_closed_objects() {
    let tools = list_tools().tools;
    assert_eq!(tools.len(), 29);
    for t in &tools {
        let schema = schema_json(&t.input_schema);
        assert_eq!(schema.get("type").and_then(|v| v.as_str()), Some("object"));
        assert!(matches!(schema.get("additionalProperties"), Some(Json::Bool(false))));
        let required: Vec<&str> = match schema.get("required") {
            Some(Json::Array(items)) => items.iter().map(|v| v.as_str().unwrap()).collect(),
            _ => panic!("required is an array"),
        };
        let properties: Vec<&str> = match schema.get("properties") {
            Some(Json::Object(members)) => members.iter().map(|(k, _)| k.as_str()).collect(),
            _ => panic!("properties is an object"),
        };
        assert_eq!(required, properties);
    }
    let search = tools.iter().find(|t| t.name == "ask").unwrap();
    let schema = schema_json(&search.input_schema);
    let query = schema.get("properties").and_then(|p| p.get("query")).unwrap();
    assert_eq!(query.get("type").and_then(|v| v.as_str()), Some("string"));
    assert_eq!(query.get("description").and_then(|v| v.as_str()), Some("Natural language query"));
}
