use memori_vault::auth::{constant_time_eq, enforce_session_cap, extract_bearer_token, Role, SessionInfo, SessionStore};

fn session_at(issued_at: i64, expires_at: i64) -> SessionInfo {
    SessionInfo { subject: format!("s{issued_at}"), role: Role::Viewer, issued_at, expires_at }
}

#[test]
fn enforce_session_cap_drops_expired_then_oldest() {
    let now = 1_000;
    let mut sessions = SessionStore::new();
    sessions.insert("expired", session_at(100, now - 1));
    sessions.insert("old", session_at(200, now + 10_000));
    sessions.insert("mid", session_at(300, now + 10_000));
    sessions.insert("new", session_at(400, now + 10_000));

    enforce_session_cap(&mut sessions, now, 3);

    assert!(!sessions.contains_key("expired"), "过期会话应被清掉");
    assert!(!sessions.contains_key("old"), "达上限应淘汰最早签发的");
    assert!(sessions.contains_key("mid"));
    assert!(sessions.contains_key("new"));
    assert!(sessions.len() < 3, "淘汰后应低于 cap，为新会话留位");
}

#[test]
fn cap_of_zero_empties_the_store_and_large_cap_keeps_unexpired() {
    let mut sessions = SessionStore::new();
    sessions.insert("a", session_at(1, 50));
    sessions.insert("b", session_at(2, 5));
    enforce_session_cap(&mut sessions, 10, 100);
    assert_eq!(sessions.len(), 1);
    assert!(sessions.contains_key("a"));
    enforce_session_cap(&mut sessions, 10, 0);
    assert_eq!(sessions.len(), 0);
}

#[test]
fn store_insert_replaces_and_remove_forgets() {
    let mut sessions = SessionStore::new();
    sessions.insert("t", session_at(1, 100));
    sessions.insert("t", session_at(2, 200));
    assert_eq!(sessions.len(), 1);
    assert_eq!(sessions.get("t").map(|s| s.issued_at), Some(2));
    sessions.remove("t");
    assert!(!sessions.contains_key("t"));
    assert!(sessions.get("t").is_none());
}

#[test]
fn roles_parse_and_order() {
    assert_eq!(Role::from_value(" ADMIN "), Role::Admin);
    assert_eq!(Role::from_value("operator"), Role::Operator);
    assert_eq!(Role::from_value("Viewer"), Role::Viewer);
    assert_eq!(Role::from_value("someone"), Role::User);
    assert!(Role::Admin.at_least(Role::Operator));
    assert!(!Role::Viewer.at_least(Role::User));
    assert!(Role::User.at_least(Role::User));
}

#[test]
fn bearer_token_extraction() {
    assert_eq!(extract_bearer_token(Some("  Bearer abc  ")), Some("abc".to_string()));
    assert_eq!(extract_bearer_token(Some("bearer xyz")), Some("xyz".to_string()));
    assert_eq!(extract_bearer_token(Some("Bearer    ")), None);
    assert_eq!(extract_bearer_token(Some("Basic abc")), None);
    assert_eq!(extract_bearer_token(None), None);
}

#[test]
fn constant_time_comparison() {
    assert!(constant_time_eq(b"secret", b"secret"));
    assert!(!constant_time_eq(b"secret", b"secreT"));
    assert!(!constant_time_eq(b"secret", b"secrets"));
    assert!(constant_time_eq(b"", b""));
}
