use memori_vault::audit::{audit_keep_count, audit_page, MAX_AUDIT_PAGE_SCAN_EVENTS};
use memori_vault::mcp::{route_request, McpRoute};

#[test]
fn read_audit_events_page_only_keeps_requested_window() {
    let timestamps: Vec<i64> = (0..6).collect();
    let (total, items) = audit_page(&timestamps, 1, 2, 2);
    assert_eq!(total, 6);
    assert_eq!(items.len(), 2);
    assert_eq!(timestamps[items[0]], 5);
    assert_eq!(timestamps[items[1]], 4);
}

#[test]
fn audit_pages_are_newest_first_with_ties_in_reading_order() {
    let timestamps = vec![10, 30, 20, 30, 5];
    let (total, items) = audit_page(&timestamps, 1, 10, 10);
    assert_eq!(total, 5);
    assert_eq!(items, vec![1, 3, 2, 0, 4]);
    let (_, second) = audit_page(&timestamps, 2, 2, 10);
    assert_eq!(second, vec![2, 0]);
    let (_, beyond) = audit_page(&timestamps, 9, 2, 10);
    assert!(beyond.is_empty());
    let (_, kept_all) = audit_page(&timestamps, 1, 10, 0);
    assert_eq!(kept_all.len(), 5);
}

#[test]
fn keep_count_covers_the_requested_pages() {
    assert_eq!(audit_keep_count(3, 20), 60);
    assert_eq!(audit_keep_count(0, 20), 20);
    assert_eq!(audit_keep_count(1, 0), 1);
    assert_eq!(audit_keep_count(usize::MAX, 5), MAX_AUDIT_PAGE_SCAN_EVENTS);
}

#[test]
fn json_rpc_requests_are_routed_by_method() {
    assert!(matches!(route_request("2.0", "initialize", false), McpRoute::Initialize));
    assert!(matches!(route_request("2.0", "tools/call", false), McpRoute::CallTool));
    assert!(matches!(route_request("2.0", "ping", false), McpRoute::Pong));
    assert!(matches!(route_request("2.0", "ping", true), McpRoute::Silent));
    assert!(matches!(route_request("2.0", "notifications/initialized", true), McpRoute::Silent));
    assert!(matches!(route_request("2.0", "bogus", true), McpRoute::Silent));
    match route_request("2.0", "bogus", false) {
        McpRoute::Reject(e) => {
            assert_eq!(e.code, -32601);
            assert_eq!(e.message, "unsupported MCP method: bogus");
        }
        other => panic!("unexpected {other:?}"),
    }
    match route_request("1.0", "ping", false) {
        McpRoute::Reject(e) => {
            assert_eq!(e.code, -32600);
            assert_eq!(e.message, "jsonrpc must be 2.0");
        }
        other => panic!("unexpected {other:?}"),
    }
}

#[test]
fn health_returns_ok_with_generated_request_id() {
    let request_id = memori_vault::request_id::request_id(None);
    assert!(!request_id.is_empty(), "generated request id should be non-empty");
    assert_eq!(request_id.len(), 36);
}

#[test]
fn request_id_is_injected_into_extensions() {
    assert_eq!(memori_vault::request_id::request_id(Some("client-trace-xyz")), "client-trace-xyz");
}

#[test]
fn request_id_is_propagated_from_client() {
    assert_eq!(memori_vault::request_id::request_id(Some(" client-trace-xyz ")), "client-trace-xyz");
    assert_eq!(memori_vault::request_id::request_id_from_header(Some("   ")), None);
    assert_eq!(memori_vault::request_id::request_id_from_header(Some("ид")), None);
    let long = "a".repeat(201);
    assert_eq!(memori_vault::request_id::request_id_from_header(Some(&long)), None);
    assert_ne!(memori_vault::request_id::new_session_token(), memori_vault::request_id::new_session_token());
}

#[test]
fn reading_the_log_keeps_only_the_last_events() {
    let mut recent = std::collections::VecDeque::new();
    for event in 1..=7 {
        memori_vault::audit::keep_recent(&mut recent, event, 3);
    }
    assert_eq!(recent.into_iter().collect::<Vec<_>>(), vec![5, 6, 7]);
    let mut all = std::collections::VecDeque::new();
    for event in 1..=4 {
        memori_vault::audit::keep_recent(&mut all, event, 0);
    }
    assert_eq!(all.into_iter().collect::<Vec<_>>(), vec![1, 2, 3, 4]);
}
