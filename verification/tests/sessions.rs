use memori_vault::auth::{Role, SessionStore};
use memori_vault::json::Json;
use memori_vault::oidc_verify::{
    OidcVerification,
    begin_oidc_verification, check_token_signature, is_allowed_oidc_alg, plan_oidc_verification, select_jwk,
};
use memori_vault::sessions::{
    end_session, login_token, open_session, require_session, session_role, session_subject, DEFAULT_SESSION_TTL_SECS,
};

use base64::Engine;

fn s(text: &str) -> Json {
    Json::Str(text.to_string())
}

fn obj(members: Vec<(&str, Json)>) -> Json {
    Json::Object(members.into_iter().map(|(k, v)| (k.to_string(), v)).collect())
}

const ADMIN: &str = "0123456789abcdef0123456789";

#[test]
fn login_prefers_id_token() {
    assert_eq!(login_token(Some("id"), Some("access")).unwrap(), "id");
    assert_eq!(login_token(None, Some("access")).unwrap(), "access");
    let e = login_token(None, None).unwrap_err();
    assert_eq!((e.status, e.message.as_str()), (400, "OIDC login requires id_token or access_token"));
}

#[test]
fn subject_is_sub_else_email() {
    assert_eq!(session_subject(&obj(vec![("sub", s(" u1 ")), ("email", s("a@b"))])).unwrap(), "u1");
    assert_eq!(session_subject(&obj(vec![("sub", s("  ")), ("email", s(" a@b "))])).unwrap(), "a@b");
    let e = session_subject(&obj(vec![("sub", Json::UInt(3))])).unwrap_err();
    assert_eq!((e.status, e.message.as_str()), (400, "OIDC token is missing subject"));
}

#[test]
fn role_comes_from_the_roles_claim() {
    let claims = obj(vec![("roles", Json::Array(vec![s("viewer"), s("Admin"), s("user")])), ("group", s("operator"))]);
    assert_eq!(session_role(&claims, "roles"), Role::Admin);
    assert_eq!(session_role(&claims, "group"), Role::Operator);
    assert_eq!(session_role(&claims, "missing"), Role::User);
    assert_eq!(session_role(&obj(vec![("roles", Json::Bool(true))]), "roles"), Role::User);
}

#[test]
fn opened_session_is_admitted_until_it_expires() {
    let mut sessions = SessionStore::new();
    let opened = open_session(&mut sessions, "tok", "alice".to_string(), Role::Operator, 1000, 16);
    assert_eq!(opened.expires_at, 1000 + DEFAULT_SESSION_TTL_SECS);
    assert_eq!(opened.issued_at, 1000);
    let ok = require_session(&mut sessions, Some("Bearer tok"), None, Role::User, 2000).unwrap();
    assert_eq!((ok.subject.as_str(), ok.role), ("alice", Role::Operator));
    let denied = require_session(&mut sessions, Some("Bearer tok"), None, Role::Admin, 2000).unwrap_err();
    assert_eq!((denied.status, denied.message.as_str()), (403, "insufficient permissions"));
    let expired =
        require_session(&mut sessions, Some("bearer tok"), None, Role::Viewer, 1000 + DEFAULT_SESSION_TTL_SECS).unwrap_err();
    assert_eq!((expired.status, expired.message.as_str()), (401, "session expired, please log in again"));
    assert_eq!(sessions.len(), 0);
}

#[test]
fn missing_bearer_token_is_unauthorized() {
    let mut sessions = SessionStore::new();
    let e = require_session(&mut sessions, None, Some(ADMIN), Role::Viewer, 5).unwrap_err();
    assert_eq!((e.status, e.message.as_str()), (401, "missing bearer token, please log in first"));
    let e = require_session(&mut sessions, Some("Basic abc"), None, Role::Viewer, 5).unwrap_err();
    assert_eq!(e.status, 401);
}

#[test]
fn admin_token_is_an_admin_session() {
    let mut sessions = SessionStore::new();
    let header = format!("Bearer {ADMIN}");
    let session = require_session(&mut sessions, Some(&header), Some(ADMIN), Role::Admin, 100).unwrap();
    assert_eq!(session.subject, "server-admin-token");
    assert_eq!(session.role, Role::Admin);
    assert_eq!(session.expires_at, 100 + DEFAULT_SESSION_TTL_SECS);
    let short = require_session(&mut sessions, Some("Bearer short"), Some("short"), Role::Viewer, 100).unwrap_err();
    assert_eq!(short.status, 401);
}

#[test]
fn ended_session_is_refused() {
    let mut sessions = SessionStore::new();
    open_session(&mut sessions, "t1", "bob".to_string(), Role::User, 10, 16);
    open_session(&mut sessions, "t2", "carol".to_string(), Role::User, 11, 16);
    let ended = end_session(&mut sessions, Some("Bearer t1")).unwrap().unwrap();
    assert_eq!(ended.subject, "bob");
    assert!(end_session(&mut sessions, Some("Bearer t1")).unwrap().is_none());
    let e = require_session(&mut sessions, Some("Bearer t1"), None, Role::Viewer, 20).unwrap_err();
    assert_eq!(e.status, 401);
    assert!(require_session(&mut sessions, Some("Bearer t2"), None, Role::Viewer, 20).is_ok());
    let e = end_session(&mut sessions, Some("  ")).unwrap_err();
    assert_eq!((e.status, e.message.as_str()), (401, "missing bearer token, nothing to log out"));
}

#[test]
fn session_cap_drops_the_earliest() {
    let mut sessions = SessionStore::new();
    open_session(&mut sessions, "a", "a".to_string(), Role::User, 1, 2);
    open_session(&mut sessions, "b", "b".to_string(), Role::User, 2, 2);
    assert_eq!(sessions.len(), 2);
    open_session(&mut sessions, "c", "c".to_string(), Role::User, 3, 2);
    assert_eq!(sessions.len(), 2);
    assert!(!sessions.contains_key("a"));
    assert!(sessions.contains_key("b") && sessions.contains_key("c"));
}

#[test]
fn allowed_algorithms_are_rsa_and_ecdsa() {
    for alg in ["RS256", "RS384", "RS512", "PS256", "PS384", "PS512", "ES256", "ES384"] {
        assert!(is_allowed_oidc_alg(alg));
    }
    for alg in ["HS256", "HS384", "HS512", "EdDSA", "none", "rs256"] {
        assert!(!is_allowed_oidc_alg(alg));
    }
}

fn header_ok(alg: &str, kid: Option<&str>) -> Result<(String, Option<String>), String> {
    Ok((alg.to_string(), kid.map(str::to_string)))
}

#[test]
fn verification_plan_trims_issuer_and_audience() {
    let plan = plan_oidc_verification(header_ok("RS256", Some(" key-1 ")), " https://id.example.com/// ", " client ").unwrap();
    assert_eq!(plan.issuer, "https://id.example.com");
    assert_eq!(plan.audience, "client");
    assert_eq!(plan.alg, "RS256");
    assert_eq!(plan.kid, "key-1");
    assert_eq!(plan.discovery_url, "https://id.example.com/.well-known/openid-configuration");
}

#[test]
fn verification_plan_errors_in_order() {
    let err = |h, i, a| plan_oidc_verification(h, i, a).err().unwrap();
    assert_eq!(err(header_ok("RS256", Some("k")), " / ", "c"), "OIDC issuer is not configured");
    assert_eq!(err(header_ok("RS256", Some("k")), "https://i", " "), "OIDC client_id is not configured");
    assert_eq!(err(Err("InvalidToken".to_string()), "https://i", "c"), "invalid JWT header: InvalidToken");
    assert_eq!(err(header_ok("HS256", Some("k")), "https://i", "c"), "OIDC token alg is not allowed: HS256");
    assert_eq!(err(header_ok("ES256", None), "https://i", "c"), "OIDC token header is missing kid");
    assert_eq!(err(header_ok("ES256", Some("  ")), "https://i", "c"), "OIDC token header is missing kid");
}

fn b64(text: &str) -> String {
    base64::engine::general_purpose::URL_SAFE_NO_PAD.encode(text.as_bytes())
}

#[test]
fn verification_reads_the_token_header() {
    let token = format!("{}.{}.c2ln", b64(r#"{"alg":"RS256","kid":"k1","typ":"JWT"}"#), b64(r#"{"sub":"u"}"#));
    let plan = begin_oidc_verification(&token, "https://issuer", "aud").unwrap();
    assert_eq!(plan.alg, "RS256");
    assert_eq!(plan.kid, "k1");
    let hs = format!("{}.{}.c2ln", b64(r#"{"alg":"HS256","kid":"k1"}"#), b64("{}"));
    assert_eq!(begin_oidc_verification(&hs, "https://issuer", "aud").err().unwrap(), "OIDC token alg is not allowed: HS256");
    let bad = begin_oidc_verification("not-a-token", "https://issuer", "aud").err().unwrap();
    assert!(bad.starts_with("invalid JWT header: "));
}

#[test]
fn jwk_is_selected_by_key_id() {
    let ids = vec![None, Some("a".to_string()), Some("k1".to_string()), Some("k1".to_string())];
    assert_eq!(select_jwk(&ids, "k1"), Ok(2));
    assert_eq!(select_jwk(&ids, "zz").err().unwrap(), "OIDC JWKS does not contain token kid");
}

#[test]
fn signature_check_rejects_a_wrong_key() {
    let token = format!("{}.{}.c2ln", b64(r#"{"alg":"RS256","kid":"k1"}"#), b64(r#"{"sub":"u"}"#));
    let plan = begin_oidc_verification(&token, "https://issuer", "aud").unwrap();
    let jwk = r#"{"kty":"oct","kid":"k1","k":"c2VjcmV0"}"#;
    let err = check_token_signature(&token, jwk, &plan).unwrap_err();
    assert!(err.starts_with("OIDC token signature verification failed: "), "{err}");
}

#[test]
fn signature_check_reports_an_unusable_key() {
    let token = format!("{}.{}.c2ln", b64(r#"{"alg":"RS256","kid":"k1"}"#), b64(r#"{"sub":"u"}"#));
    let plan = begin_oidc_verification(&token, "https://issuer", "aud").unwrap();
    let err = check_token_signature(&token, r#"{"kty":"RSA","kid":"k1"}"#, &plan).unwrap_err();
    assert!(err.starts_with("invalid OIDC JWK: "), "{err}");
    let err = check_token_signature(&token, "not json", &plan).unwrap_err();
    assert!(err.starts_with("invalid OIDC JWK: "), "{err}");
}

#[test]
fn signature_check_accepts_a_valid_signature() {
    let header = jsonwebtoken::Header::new(jsonwebtoken::Algorithm::HS256);
    let mut claims = std::collections::HashMap::new();
    claims.insert("sub", "u");
    let token = jsonwebtoken::encode(&header, &claims, &jsonwebtoken::EncodingKey::from_secret(b"secret")).unwrap();
    let plan = OidcVerification {
        issuer: "https://issuer".to_string(),
        audience: "aud".to_string(),
        alg: "HS256".to_string(),
        kid: String::new(),
        discovery_url: String::new(),
    };
    let key = format!(r#"{{"kty":"oct","k":"{}"}}"#, base64::engine::general_purpose::URL_SAFE_NO_PAD.encode(b"secret"));
    assert_eq!(check_token_signature(&token, &key, &plan), Ok(()));
    let wrong = format!(r#"{{"kty":"oct","k":"{}"}}"#, base64::engine::general_purpose::URL_SAFE_NO_PAD.encode(b"other"));
    assert!(check_token_signature(&token, &wrong, &plan).unwrap_err().starts_with("OIDC token signature verification failed: "));
}
