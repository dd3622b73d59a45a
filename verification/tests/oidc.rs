use memori_vault::auth::Role;
use memori_vault::json::Json;
use memori_vault::oidc::{
    allow_insecure_oidc_dev_login, check_jwt_header, claim_matches_audience, decode_jwt_segment,
    extract_role_from_claims, is_configured_admin_token, jwt_segments, validate_oidc_claims,
};

use base64::Engine;

fn s(text: &str) -> Json {
    Json::Str(text.to_string())
}

fn obj(members: Vec<(&str, Json)>) -> Json {
    Json::Object(members.into_iter().map(|(k, v)| (k.to_string(), v)).collect())
}

fn claims(aud: Json, azp: Option<&str>, exp: i64, iat: i64) -> Json {
    let mut members = vec![("iss", s("https://issuer.test")), ("aud", aud), ("exp", num(exp)), ("iat", num(iat))];
    if let Some(a) = azp {
        members.push(("azp", s(a)));
    }
    obj(members)
}

fn num(n: i64) -> Json {
    if n >= 0 { Json::UInt(n as u64) } else { Json::NegInt(n) }
}

#[test]
fn decode_jwt_claims_rejects_alg_none() {
    let header = base64::engine::general_purpose::URL_SAFE_NO_PAD.encode(r#"{"alg":"none"}"#);
    let payload = base64::engine::general_purpose::URL_SAFE_NO_PAD.encode(r#"{"sub":"demo"}"#);
    let token = format!("{header}.{payload}.sig");
    let (h, _p) = jwt_segments(&token).expect("three segments");
    let err = decode_jwt_segment(&h, "header").unwrap_err();
    assert!(err.contains("invalid JWT"));
    let parsed_header = obj(vec![("alg", s("NONE"))]);
    assert_eq!(check_jwt_header(&parsed_header).unwrap_err(), "invalid JWT: alg=none is not allowed");
    assert!(check_jwt_header(&obj(vec![("alg", s("RS256"))])).is_ok());
}

#[test]
fn token_segments_are_checked() {
    assert_eq!(jwt_segments("abc").unwrap_err(), "invalid JWT: missing payload");
    assert_eq!(jwt_segments("a.b").unwrap_err(), "invalid JWT: missing signature");
    assert_eq!(jwt_segments("a.b.c.d").unwrap_err(), "invalid JWT: expected exactly 3 segments");
    assert_eq!(jwt_segments("a.b.  ").unwrap_err(), "invalid JWT: empty signature");
    assert_eq!(jwt_segments("h.p.s").unwrap(), ("h".to_string(), "p".to_string()));
    assert_eq!(decode_jwt_segment("  ", "payload").unwrap_err(), "invalid JWT: empty payload");
    assert_eq!(decode_jwt_segment("eyJhIjoxfQ==", "payload").map(|_| ()).unwrap_err().starts_with("invalid JWT: failed to decode payload: "), true);
    assert_eq!(decode_jwt_segment("YWJj", "payload").unwrap(), b"abc".to_vec());
}

#[test]
fn validate_oidc_claims_accepts_audience_array() {
    let now = 1_700_000_000;
    let c = claims(Json::Array(vec![s("memori-client"), s("other")]), Some("memori-client"), now + 60, now);
    validate_oidc_claims(&c, "https://issuer.test", "memori-client", now).unwrap();
}

#[test]
fn claims_are_refused_in_order() {
    let now = 1_000;
    let ok = claims(s("client"), None, now + 60, now);
    assert!(validate_oidc_claims(&ok, " https://issuer.test ", "client", now).is_ok());
    assert_eq!(validate_oidc_claims(&ok, "https://other", "client", now).unwrap_err(), "OIDC token issuer does not match policy");
    assert_eq!(validate_oidc_claims(&ok, "", "someone", now).unwrap_err(), "OIDC token audience does not match policy");
    let expired = claims(s("client"), None, now, now);
    assert_eq!(validate_oidc_claims(&expired, "", "client", now).unwrap_err(), "OIDC token has expired");
    let future = claims(s("client"), None, now + 600, now + 301);
    assert_eq!(validate_oidc_claims(&future, "", "client", now).unwrap_err(), "OIDC token issued-at is in the future");
    let wrong_azp = claims(s("client"), Some("x"), now + 60, now);
    assert_eq!(validate_oidc_claims(&wrong_azp, "", "client", now).unwrap_err(), "OIDC token authorized party does not match policy");
    let many = claims(Json::Array(vec![s("client"), s("b")]), None, now + 60, now);
    assert_eq!(
        validate_oidc_claims(&many, "", "client", now).unwrap_err(),
        "OIDC token with multiple audiences must include matching azp"
    );
    let missing = obj(vec![("aud", s("client"))]);
    assert_eq!(validate_oidc_claims(&missing, "https://issuer.test", "client", now).unwrap_err(), "OIDC token is missing issuer");
    assert_eq!(validate_oidc_claims(&missing, "", "client", now).unwrap_err(), "OIDC token is missing expiration");
    let not_yet = obj(vec![("exp", num(now + 900)), ("nbf", num(now + 301)), ("iat", num(now))]);
    assert_eq!(validate_oidc_claims(&not_yet, "", "", now).unwrap_err(), "OIDC token is not active yet");
}

#[test]
fn audience_and_roles() {
    assert!(claim_matches_audience(Some(&s(" client ")), "client"));
    assert!(claim_matches_audience(Some(&Json::Array(vec![Json::UInt(1), s("client")])), "client"));
    assert!(!claim_matches_audience(Some(&Json::UInt(1)), "client"));
    assert!(!claim_matches_audience(None, "client"));
    assert_eq!(extract_role_from_claims(&s("admin")), Some(Role::Admin));
    assert_eq!(extract_role_from_claims(&Json::Array(vec![s("viewer"), Json::Null, s("operator"), s("user")])), Some(Role::Operator));
    assert_eq!(extract_role_from_claims(&Json::Array(vec![Json::Null])), None);
    assert_eq!(extract_role_from_claims(&Json::Bool(true)), None);
}

#[test]
fn insecure_oidc_dev_login_defaults_to_disabled() {
    assert!(!allow_insecure_oidc_dev_login(None));
    assert!(allow_insecure_oidc_dev_login(Some(" Yes ")));
    assert!(!allow_insecure_oidc_dev_login(Some("off")));
}

#[test]
fn admin_token_needs_a_long_configured_value() {
    let token = "0123456789abcdef01234567";
    assert!(is_configured_admin_token(&format!(" {token} "), Some(token)));
    assert!(!is_configured_admin_token("short", Some("short")));
    assert!(!is_configured_admin_token(token, None));
    assert!(!is_configured_admin_token("0123456789abcdef01234568", Some(token)));
}
