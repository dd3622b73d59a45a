//! Verifying an OIDC token's signature: what is checked before the identity provider is
//! asked for its keys, which of its keys signs the token, and the signature check itself.
//! Fetching the discovery document and the key set is the caller's part.
use crate::text::{
    append_chars, from_chars, str_eq, to_chars, trim, trim_chars, without_trailing_slashes,
    without_trailing_slashes_chars,
};
use vstd::prelude::*;

verus! {

/// What `jsonwebtoken::decode_header` reads from a token: the name of its header's algorithm
/// (as the algorithm's `Debug` form writes it) and its key ID, or the text of the error it
/// reports.
pub uninterp spec fn jwt_header(token: Seq<char>) -> Result<(Seq<char>, Option<Seq<char>>), Seq<char>>;

pub open spec fn header_view(h: Result<(String, Option<String>), String>) -> Result<(Seq<char>, Option<Seq<char>>), Seq<char>> {
    match h {
        Ok((alg, kid)) => Ok(
            (alg@, match kid {
                Some(k) => Some(k@),
                None => None,
            }),
        ),
        Err(e) => Err(e@),
    }
}

/// `jsonwebtoken::decode_header`: the header's algorithm by name, its key ID, or the error's
/// text.
#[verifier::external_body]
fn decode_token_header(token: &str) -> (r: Result<(String, Option<String>), String>)
    ensures
        header_view(r) == jwt_header(token@),
{
    match jsonwebtoken::decode_header(token) {
        Ok(header) => Ok((format!("{:?}", header.alg), header.kid)),
        Err(err) => Err(err.to_string()),
    }
}

/// The algorithms accepted for OIDC tokens: RSA (PKCS#1 v1.5 and PSS) and ECDSA; neither the
/// shared-secret HMAC algorithms nor EdDSA.
pub open spec fn allowed_alg(alg: Seq<char>) -> bool {
    ||| alg == "RS256"@
    ||| alg == "RS384"@
    ||| alg == "RS512"@
    ||| alg == "PS256"@
    ||| alg == "PS384"@
    ||| alg == "PS512"@
    ||| alg == "ES256"@
    ||| alg == "ES384"@
}

/// Whether the algorithm named `alg` is accepted for OIDC tokens.
pub fn is_allowed_oidc_alg(alg: &str) -> (r: bool)
    ensures
        r == allowed_alg(alg@),
{
    str_eq(alg, "RS256") || str_eq(alg, "RS384") || str_eq(alg, "RS512") || str_eq(alg, "PS256") || str_eq(alg, "PS384")
        || str_eq(alg, "PS512") || str_eq(alg, "ES256") || str_eq(alg, "ES384")
}

/// What the provider is asked and what the token must be signed with.
#[derive(Debug)]
pub struct OidcVerification {
    /// The issuer, trimmed and without trailing '/'.
    pub issuer: String,
    /// The client ID the token must be meant for, trimmed.
    pub audience: String,
    /// The name of the algorithm the token is signed with.
    pub alg: String,
    /// The ID of the key that signed the token, trimmed.
    pub kid: String,
    /// Where the provider's discovery document is.
    pub discovery_url: String,
}

pub struct VerificationView {
    pub issuer: Seq<char>,
    pub audience: Seq<char>,
    pub alg: Seq<char>,
    pub kid: Seq<char>,
    pub discovery_url: Seq<char>,
}

pub open spec fn verification_view(v: OidcVerification) -> VerificationView {
    VerificationView { issuer: v.issuer@, audience: v.audience@, alg: v.alg@, kid: v.kid@, discovery_url: v.discovery_url@ }
}

/// The verification a token calls for, given its header as `jsonwebtoken` reads it: the
/// issuer and the client ID must be configured, the header readable, its algorithm accepted,
/// and its key ID present.
pub open spec fn verification_plan(
    header: Result<(Seq<char>, Option<Seq<char>>), Seq<char>>,
    issuer: Seq<char>,
    audience: Seq<char>,
) -> Result<VerificationView, Seq<char>> {
    let iss = without_trailing_slashes(trim(issuer));
    let aud = trim(audience);
    if iss.len() == 0 {
        Err("OIDC issuer is not configured"@)
    } else if aud.len() == 0 {
        Err("OIDC client_id is not configured"@)
    } else {
        match header {
            Err(e) => Err("invalid JWT header: "@ + e),
            Ok((alg, kid)) => if !allowed_alg(alg) {
                Err("OIDC token alg is not allowed: "@ + alg)
            } else {
                match kid {
                    Some(k) => if trim(k).len() > 0 {
                        Ok(
                            VerificationView {
                                issuer: iss,
                                audience: aud,
                                alg,
                                kid: trim(k),
                                discovery_url: iss + "/.well-known/openid-configuration"@,
                            },
                        )
                    } else {
                        Err("OIDC token header is missing kid"@)
                    },
                    None => Err("OIDC token header is missing kid"@),
                }
            },
        }
    }
}

pub open spec fn plan_view(r: Result<OidcVerification, String>) -> Result<VerificationView, Seq<char>> {
    match r {
        Ok(v) => Ok(verification_view(v)),
        Err(e) => Err(e@),
    }
}

fn error_text(prefix: &str, detail: &[char]) -> (r: String)
    ensures
        r@ == prefix@ + detail@,
{
    let mut out = to_chars(prefix);
    append_chars(&mut out, detail);
    from_chars(&out)
}

/// The verification a token calls for, given its header as `jsonwebtoken` reads it.
pub fn plan_oidc_verification(
    header: Result<(String, Option<String>), String>,
    issuer: &str,
    audience: &str,
) -> (r: Result<OidcVerification, String>)
    ensures
        plan_view(r) == verification_plan(header_view(header), issuer@, audience@),
{
    let iss = without_trailing_slashes_chars(&trim_chars(&to_chars(issuer)));
    let aud = trim_chars(&to_chars(audience));
    if iss.len() == 0 {
        return Err(from_chars(&to_chars("OIDC issuer is not configured")));
    }
    if aud.len() == 0 {
        return Err(from_chars(&to_chars("OIDC client_id is not configured")));
    }
    let (alg, kid) = match header {
        Err(e) => return Err(error_text("invalid JWT header: ", &to_chars(e.as_str()))),
        Ok(h) => h,
    };
    if !is_allowed_oidc_alg(alg.as_str()) {
        return Err(error_text("OIDC token alg is not allowed: ", &to_chars(alg.as_str())));
    }
    let kid = match kid {
        Some(k) => trim_chars(&to_chars(k.as_str())),
        None => return Err(from_chars(&to_chars("OIDC token header is missing kid"))),
    };
    if kid.len() == 0 {
        return Err(from_chars(&to_chars("OIDC token header is missing kid")));
    }
    let mut url = iss.clone();
    append_chars(&mut url, &to_chars("/.well-known/openid-configuration"));
    Ok(
        OidcVerification {
            issuer: from_chars(&iss),
            audience: from_chars(&aud),
            alg,
            kid: from_chars(&kid),
            discovery_url: from_chars(&url),
        },
    )
}

/// The verification `token` calls for: its header is read with `jsonwebtoken`.
pub fn begin_oidc_verification(token: &str, issuer: &str, audience: &str) -> (r: Result<OidcVerification, String>)
    ensures
        plan_view(r) == verification_plan(jwt_header(token@), issuer@, audience@),
{
    let header = decode_token_header(token);
    plan_oidc_verification(header, issuer, audience)
}

/// The first key of the provider's key set whose ID is `kid`.
pub open spec fn key_position(key_ids: Seq<Option<Seq<char>>>, kid: Seq<char>) -> Option<int>
    decreases key_ids.len(),
{
    if key_ids.len() == 0 {
        None
    } else {
        match key_position(key_ids.drop_last(), kid) {
            Some(i) => Some(i),
            None => if key_ids.last() == Some(kid) { Some(key_ids.len() - 1) } else { None },
        }
    }
}

pub open spec fn key_ids_view(ids: Seq<Option<String>>) -> Seq<Option<Seq<char>>> {
    ids.map_values(|k: Option<String>| match k {
        Some(s) => Some(s@),
        None => None,
    })
}

proof fn lemma_key_position_prefix(ids: Seq<Option<Seq<char>>>, kid: Seq<char>, n: int)
    requires
        0 <= n <= ids.len(),
        key_position(ids.take(n), kid) is Some,
    ensures
        key_position(ids, kid) == key_position(ids.take(n), kid),
    decreases ids.len() - n,
{
    if n < ids.len() {
        assert(ids.take(n + 1).drop_last() =~= ids.take(n));
        lemma_key_position_prefix(ids, kid, n + 1);
    } else {
        assert(ids.take(n) =~= ids);
    }
}

/// The position of the key that signed the token, among the IDs of the provider's keys.
pub fn select_jwk(key_ids: &[Option<String>], kid: &str) -> (r: Result<usize, String>)
    ensures
        match key_position(key_ids_view(key_ids@), kid@) {
            Some(i) => r == Ok::<usize, String>(i as usize) && i < key_ids.len(),
            None => r matches Err(e) && e@ == "OIDC JWKS does not contain token kid"@,
        },
{
    let ghost ids = key_ids_view(key_ids@);
    let mut k: usize = 0;
    while k < key_ids.len()
        invariant
            k <= key_ids.len(),
            ids == key_ids_view(key_ids@),
            key_position(ids.take(k as int), kid@) is None,
        decreases key_ids.len() - k,
    {
        assert(ids.take(k + 1).drop_last() =~= ids.take(k as int));
        assert(ids.take(k + 1).last() == ids[k as int]);
        let same = match &key_ids[k] {
            Some(id) => str_eq(id.as_str(), kid),
            None => false,
        };
        if same {
            assert(ids[k as int] == Some(kid@));
            proof {
                lemma_key_position_prefix(ids, kid@, k as int + 1);
            }
            return Ok(k);
        }
        k += 1;
    }
    assert(ids.take(k as int) =~= ids);
    Err(from_chars(&to_chars("OIDC JWKS does not contain token kid")))
}

/// Whether `jsonwebtoken::DecodingKey::from_jwk` accepts the JSON Web Key written as the JSON
/// text `jwk_json` (read as a `jsonwebtoken::jwk::Jwk`). The outcome depends on the text alone.
pub uninterp spec fn jwk_usable(jwk_json: Seq<char>) -> bool;

/// Whether `jsonwebtoken::decode` accepts `token` with the key that `DecodingKey::from_jwk`
/// makes of `jwk_json`, for the one algorithm named `alg`, with the audience, expiry and
/// not-before checks and the required claims switched off: whether the signature is valid.
/// The outcome depends on these three texts alone.
pub uninterp spec fn signature_accepts(token: Seq<char>, jwk_json: Seq<char>, alg: Seq<char>) -> bool;

/// Why a signature check failed: the key could not be used, or the token was refused.
pub enum SignatureFailure {
    Key(String),
    Signature(String),
}

/// Reads the key `jwk_json` as a `jsonwebtoken::jwk::Jwk`, makes a key of it with
/// `DecodingKey::from_jwk`, and checks `token` with `jsonwebtoken::decode` for the algorithm
/// named `alg` (audience, expiry, not-before and required claims switched off). A key that
/// cannot be read or used is a `Key` failure; a refused token a `Signature` failure. `decode`
/// reads the header with `decode_header` first and refuses a header that names another
/// algorithm, so success means the header reads as `alg`.
#[verifier::external_body]
fn verify_token_signature(token: &str, jwk_json: &str, alg: &str) -> (r: Result<(), SignatureFailure>)
    ensures
        (r matches Err(SignatureFailure::Key(_))) <==> !jwk_usable(jwk_json@),
        r is Ok <==> (jwk_usable(jwk_json@) && signature_accepts(token@, jwk_json@, alg@)),
        r is Ok ==> (jwt_header(token@) matches Ok(h) && h.0 == alg@),
{
    let key = serde_json::from_str::<jsonwebtoken::jwk::Jwk>(jwk_json).map_err(|e| e.to_string())
        .and_then(|jwk| jsonwebtoken::DecodingKey::from_jwk(&jwk).map_err(|e| e.to_string()))
        .map_err(SignatureFailure::Key)?;
    let fail = |e: jsonwebtoken::errors::Error| SignatureFailure::Signature(e.to_string());
    let mut validation = jsonwebtoken::Validation::new(alg.parse().map_err(fail)?);
    validation.validate_aud = false;
    validation.validate_exp = false;
    validation.validate_nbf = false;
    validation.required_spec_claims.clear();
    jsonwebtoken::decode::<serde_json::Value>(token, &key, &validation).map(|_| ()).map_err(fail)
}

/// Checks the token's signature with the provider's key, given as the JSON text `jwk_json`,
/// for the algorithm of the token's header. The token is accepted exactly when the key is
/// usable and the signature valid; an unusable key and a bad signature are reported with
/// their own prefix.
pub fn check_token_signature(token: &str, jwk_json: &str, plan: &OidcVerification) -> (r: Result<(), String>)
    ensures
        r is Ok <==> (jwk_usable(jwk_json@) && signature_accepts(token@, jwk_json@, plan.alg@)),
        !jwk_usable(jwk_json@) ==> (r matches Err(e) && exists|d: Seq<char>| e@ == "invalid OIDC JWK: "@ + d),
        jwk_usable(jwk_json@) && !signature_accepts(token@, jwk_json@, plan.alg@) ==> (r matches Err(e)
            && exists|d: Seq<char>| e@ == "OIDC token signature verification failed: "@ + d),
        r is Ok ==> (jwt_header(token@) matches Ok(h) && h.0 == plan.alg@),
{
    match verify_token_signature(token, jwk_json, plan.alg.as_str()) {
        Ok(()) => Ok(()),
        Err(SignatureFailure::Key(e)) => {
            let d = to_chars(e.as_str());
            let r = error_text("invalid OIDC JWK: ", &d);
            assert(r@ == "invalid OIDC JWK: "@ + d@);
            Err(r)
        },
        Err(SignatureFailure::Signature(e)) => {
            let d = to_chars(e.as_str());
            let r = error_text("OIDC token signature verification failed: ", &d);
            assert(r@ == "OIDC token signature verification failed: "@ + d@);
            Err(r)
        },
    }
}

} // verus!
