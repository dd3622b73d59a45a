use memori_vault::json::Json;
use memori_vault::logs::{
    classify_log_category, contains_mcp_marker, format_log_message, humanize_key, humanize_message,
    json_value_contains_mcp, parse_log_line, select_log_entries, simple_json_value, LogEntry,
};

fn s(text: &str) -> Json {
    Json::Str(text.to_string())
}

fn obj(members: Vec<(&str, Json)>) -> Json {
    Json::Object(members.into_iter().map(|(k, v)| (k.to_string(), v)).collect())
}

fn entry(level: &str, message: &str) -> LogEntry {
    LogEntry {
        timestamp: String::new(),
        level: level.to_string(),
        category: "SYSTEM".to_string(),
        target: String::new(),
        message: message.to_string(),
        file: None,
        line: None,
        thread_id: None,
    }
}

#[test]
fn mcp_markers_are_found_without_regard_to_case() {
    assert!(contains_mcp_marker("memori_server::MCP::transport"));
    assert!(contains_mcp_marker("Model Context Protocol session"));
    assert!(contains_mcp_marker("JSON-RPC request"));
    assert!(contains_mcp_marker("jsonrpc"));
    assert!(!contains_mcp_marker("search completed"));
}

#[test]
fn nested_json_values_are_searched_for_markers() {
    let nested = Json::Array(vec![Json::UInt(3), obj(vec![("inner", Json::Array(vec![s("via mcp")]))])]);
    assert!(json_value_contains_mcp(&nested));
    assert!(json_value_contains_mcp(&obj(vec![("jsonrpc_id", Json::Null)])));
    assert!(!json_value_contains_mcp(&obj(vec![("a", s("b")), ("c", Json::Bool(true))])));
}

#[test]
fn file_paths_and_fields_classify_records() {
    assert_eq!(classify_log_category("memori", "started", Some("src\\mcp\\mod.rs"), None), "MCP");
    assert_eq!(classify_log_category("memori", "started", Some("src/main.rs"), None), "SYSTEM");
    let fields = vec![("method".to_string(), s("tools/call via JSON-RPC"))];
    assert_eq!(classify_log_category("memori", "call", None, Some(&fields)), "MCP");
}

#[test]
fn field_values_and_labels() {
    assert_eq!(simple_json_value(&s("  x  ")), Some("x".to_string()));
    assert_eq!(simple_json_value(&s("   ")), None);
    assert_eq!(simple_json_value(&Json::UInt(42)), Some("42".to_string()));
    assert_eq!(simple_json_value(&Json::NegInt(-7)), Some("-7".to_string()));
    assert_eq!(simple_json_value(&Json::Fraction("1.5".to_string())), Some("1.5".to_string()));
    assert_eq!(simple_json_value(&Json::Bool(false)), Some("false".to_string()));
    assert_eq!(simple_json_value(&Json::Null), None);
    assert_eq!(humanize_key("doc_count"), "文档数");
    assert_eq!(humanize_key("other"), "other");
    assert_eq!(humanize_message("search completed"), "搜索完成");
    assert_eq!(humanize_message("unknown event"), "unknown event");
}

#[test]
fn message_lists_known_fields_in_order() {
    let fields = vec![
        ("ms".to_string(), Json::UInt(12)),
        ("message".to_string(), s("search completed")),
        ("role".to_string(), s("chat")),
        ("ignored".to_string(), s("x")),
        ("error".to_string(), s("  ")),
    ];
    assert_eq!(format_log_message(&fields), "搜索完成 | 角色=chat | 耗时ms=12");
    assert_eq!(format_log_message(&Vec::new()), "日志事件");
}

#[test]
fn log_line_becomes_entry() {
    let line = obj(vec![
        ("timestamp", s("2025-01-01T00:00:00Z")),
        ("level", s("WARN")),
        ("target", s("memori_desktop")),
        ("fields", obj(vec![("message", s("search failed")), ("reason", s("timeout"))])),
        ("file", s("src/lib.rs")),
        ("line", Json::UInt(4294967296 + 17)),
        ("threadId", s("ThreadId(3)")),
    ]);
    let e = parse_log_line(&line);
    assert_eq!(e.timestamp, "2025-01-01T00:00:00Z");
    assert_eq!(e.level, "WARN");
    assert_eq!(e.target, "memori_desktop");
    assert_eq!(e.message, "搜索失败 | 原因=timeout");
    assert_eq!(e.category, "SYSTEM");
    assert_eq!(e.file.as_deref(), Some("src/lib.rs"));
    assert_eq!(e.line, Some(17));
    assert_eq!(e.thread_id.as_deref(), Some("ThreadId(3)"));

    let bare = parse_log_line(&obj(vec![("message", s("mcp ready"))]));
    assert_eq!(bare.level, "INFO");
    assert_eq!(bare.message, "mcp ready");
    assert_eq!(bare.category, "MCP");
    assert_eq!(bare.line, None);
}

#[test]
fn newest_matching_entries_are_shown_oldest_first() {
    let newest_first = vec![entry("INFO", "e5"), entry("warn", "e4"), entry("INFO", "e3"), entry("WARN", "e2"), entry("INFO", "e1")];
    let shown = select_log_entries(&newest_first, Some(2), Some("Warn"));
    assert_eq!(shown.iter().map(|e| e.message.as_str()).collect::<Vec<_>>(), vec!["e2", "e4"]);
    let shown = select_log_entries(&newest_first, Some(3), None);
    assert_eq!(shown.iter().map(|e| e.message.as_str()).collect::<Vec<_>>(), vec!["e3", "e4", "e5"]);
    let shown = select_log_entries(&newest_first, Some(0), None);
    assert_eq!(shown.len(), 1);
    assert_eq!(select_log_entries(&newest_first, None, None).len(), 5);
    assert!(select_log_entries(&newest_first, None, Some("ERROR")).is_empty());
}
