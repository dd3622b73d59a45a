//! OpenID Connect identity tokens: splitting and decoding the segments of a JWT, refusing an
//! unsigned one, checking the claims against the configured issuer and client, reading the
//! role a token grants, and the switches read from the environment.
use base64::Engine;
use crate::auth::{constant_time_eq, role_of, role_rank, Role};
use crate::json::{field, signed_of, text_of, Json};
use crate::text::{chars_eq, from_chars, lower, lower_chars, split_chars, split_on, to_chars, trim, trim_chars, trim_str};
use vstd::prelude::*;

verus! {

/// Seconds a token's not-before and issued-at times may lie ahead of the server clock.
pub const OIDC_CLOCK_SKEW_SECS: i64 = 300;

// ---------------------------------------------------------------- JWT segments

/// The header and payload segments of a token, or why it is malformed: it must have exactly
/// three dot-separated segments and a non-blank signature.
pub open spec fn jwt_parts(token: Seq<char>) -> Result<(Seq<char>, Seq<char>), Seq<char>> {
    let parts = split_on(token, '.');
    if parts.len() < 2 {
        Err("invalid JWT: missing payload"@)
    } else if parts.len() < 3 {
        Err("invalid JWT: missing signature"@)
    } else if parts.len() > 3 {
        Err("invalid JWT: expected exactly 3 segments"@)
    } else if trim(parts[2]).len() == 0 {
        Err("invalid JWT: empty signature"@)
    } else {
        Ok((parts[0], parts[1]))
    }
}

/// Splits a token into its header and payload segments.
pub fn jwt_segments(token: &str) -> (r: Result<(String, String), String>)
    ensures
        match r {
            Ok((h, p)) => jwt_parts(token@) == Ok::<(Seq<char>, Seq<char>), Seq<char>>((h@, p@)),
            Err(e) => jwt_parts(token@) == Err::<(Seq<char>, Seq<char>), Seq<char>>(e@),
        },
{
    let pieces = split_chars(&to_chars(token), '.');
    let ghost all = split_on(token@, '.');
    assert(all.len() == pieces.len());
    if pieces.len() < 2 {
        return Err("invalid JWT: missing payload".to_owned());
    }
    if pieces.len() < 3 {
        return Err("invalid JWT: missing signature".to_owned());
    }
    if pieces.len() > 3 {
        return Err("invalid JWT: expected exactly 3 segments".to_owned());
    }
    assert(all[0] == pieces@[0]@);
    assert(all[1] == pieces@[1]@);
    assert(all[2] == pieces@[2]@);
    if trim_chars(&pieces[2]).len() == 0 {
        return Err("invalid JWT: empty signature".to_owned());
    }
    Ok((from_chars(&pieces[0]), from_chars(&pieces[1])))
}

/// What the URL-safe, unpadded base64 engine decodes `input` to, or its error text.
pub uninterp spec fn url_safe_base64(input: Seq<u8>) -> Result<Seq<u8>, Seq<char>>;

/// Calls `base64::engine::general_purpose::URL_SAFE_NO_PAD.decode`. The contract names its
/// result, and states that input holding a '=' byte is refused: '=' is outside the URL-safe
/// alphabet, and this engine requires padding to be absent.
#[verifier::external_body]
fn url_safe_no_pad_decode(input: &[u8]) -> (r: Result<Vec<u8>, String>)
    ensures
        match r {
            Ok(v) => url_safe_base64(input@) == Ok::<Seq<u8>, Seq<char>>(v@),
            Err(e) => url_safe_base64(input@) == Err::<Seq<u8>, Seq<char>>(e@),
        },
        input@.contains(61u8) ==> r is Err,
{
    match base64::engine::general_purpose::URL_SAFE_NO_PAD.decode(input) {
        Ok(bytes) => Ok(bytes),
        Err(err) => Err(err.to_string()),
    }
}

/// The '=' bytes that bring a length to a multiple of four.
pub open spec fn padding_for(len: nat) -> Seq<u8> {
    Seq::new(((4 - len % 4) % 4) as nat, |i: int| 61u8)
}

/// The bytes of a trimmed segment, padded with '=' to a multiple of four bytes.
pub open spec fn padded_segment(segment: Seq<char>) -> Seq<u8> {
    let bytes = vstd::utf8::encode_utf8(trim(segment));
    bytes + padding_for(bytes.len())
}

/// The decoded bytes of one token segment, or why it could not be decoded.
pub open spec fn segment_bytes(segment: Seq<char>, name: Seq<char>) -> Result<Seq<u8>, Seq<char>> {
    if trim(segment).len() == 0 {
        Err("invalid JWT: empty "@ + name)
    } else {
        match url_safe_base64(padded_segment(segment)) {
            Ok(b) => Ok(b),
            Err(e) => Err("invalid JWT: failed to decode "@ + name + ": "@ + e),
        }
    }
}

/// Decodes one base64url segment of a token (`name` says which, for the error text). The
/// segment is trimmed and padded with '=' to a multiple of four bytes before decoding.
pub fn decode_jwt_segment(segment: &str, name: &str) -> (r: Result<Vec<u8>, String>)
    ensures
        match r {
            Ok(v) => segment_bytes(segment@, name@) == Ok::<Seq<u8>, Seq<char>>(v@),
            Err(e) => segment_bytes(segment@, name@) == Err::<Seq<u8>, Seq<char>>(e@),
        },
{
    let text = trim_str(segment);
    if text.as_str().is_empty() {
        let mut message = "invalid JWT: empty ".to_owned();
        message.append(name);
        return Err(message);
    }
    let source = text.as_str().as_bytes();
    let mut bytes: Vec<u8> = Vec::new();
    let mut k: usize = 0;
    while k < source.len()
        invariant
            k <= source.len(),
            bytes@ == source@.take(k as int),
        decreases source.len() - k,
    {
        bytes.push(source[k]);
        k += 1;
        assert(bytes@ =~= source@.take(k as int));
    }
    assert(source@.take(k as int) =~= source@);
    let ghost plain = bytes@;
    while bytes.len() % 4 != 0
        invariant
            plain.len() <= bytes.len() <= plain.len() + 3,
            bytes@ == plain + Seq::new((bytes.len() - plain.len()) as nat, |i: int| 61u8),
            (bytes.len() - plain.len()) <= (4 - plain.len() % 4) % 4,
        decreases plain.len() + 4 - bytes.len(),
    {
        bytes.push(61u8);
        assert(bytes@ =~= plain + Seq::new((bytes.len() - plain.len()) as nat, |i: int| 61u8));
    }
    assert(bytes.len() - plain.len() == (4 - plain.len() % 4) % 4);
    assert(bytes@ =~= padded_segment(segment@));
    match url_safe_no_pad_decode(&bytes) {
        Ok(decoded) => Ok(decoded),
        Err(err) => {
            let mut message = "invalid JWT: failed to decode ".to_owned();
            message.append(name);
            message.append(": ");
            message.append(err.as_str());
            Err(message)
        },
    }
}

/// A token header that names the "none" algorithm (in any ASCII case) is refused.
pub open spec fn header_verdict(header: Json) -> Result<(), Seq<char>> {
    match text_of(field(header, "alg"@)) {
        Some(alg) => if lower(alg) == "none"@ {
            Err("invalid JWT: alg=none is not allowed"@)
        } else {
            Ok(())
        },
        None => Ok(()),
    }
}

pub fn check_jwt_header(header: &Json) -> (r: Result<(), String>)
    ensures
        match r {
            Ok(()) => header_verdict(*header) is Ok,
            Err(e) => header_verdict(*header) == Err::<(), Seq<char>>(e@),
        },
{
    match header.get("alg") {
        Some(v) => match v.as_str() {
            Some(alg) => {
                if chars_eq(&lower_chars(&to_chars(alg)), &to_chars("none")) {
                    Err("invalid JWT: alg=none is not allowed".to_owned())
                } else {
                    Ok(())
                }
            },
            None => Ok(()),
        },
        None => Ok(()),
    }
}


// ---------------------------------------------------------------- claims

/// Whether an "aud" claim names `expected`: a string equal to it once trimmed, or an array
/// with such a string.
pub open spec fn audience_matches(value: Option<Json>, expected: Seq<char>) -> bool {
    match value {
        Some(Json::Str(t)) => trim(t@) == expected,
        Some(Json::Array(items)) => exists|i: int|
            0 <= i < items.len() && (#[trigger] items[i] matches Json::Str(t) && trim(t@) == expected),
        _ => false,
    }
}

pub fn claim_matches_audience(value: Option<&Json>, expected: &str) -> (r: bool)
    ensures
        r == audience_matches(
            match value {
                Some(v) => Some(*v),
                None => None,
            },
            expected@,
        ),
{
    match value {
        Some(Json::Str(t)) => chars_eq(&trim_chars(&to_chars(t.as_str())), &to_chars(expected)),
        Some(Json::Array(items)) => {
            let mut i: usize = 0;
            while i < items.len()
                invariant
                    i <= items.len(),
                    forall|j: int| 0 <= j < i ==> !(#[trigger] items[j] matches Json::Str(t) && trim(t@) == expected@),
                    audience_matches(
                        match value {
                            Some(v) => Some(*v),
                            None => None,
                        },
                        expected@,
                    ) == (exists|j: int| 0 <= j < items.len() && (#[trigger] items[j] matches Json::Str(t) && trim(t@) == expected@)),
                decreases items.len() - i,
            {
                match &items[i] {
                    Json::Str(t) => {
                        if chars_eq(&trim_chars(&to_chars(t.as_str())), &to_chars(expected)) {
                            assert(items[i as int] matches Json::Str(t) && trim(t@) == expected@);
                            return true;
                        }
                    },
                    _ => {},
                }
                i += 1;
            }
            false
        },
        _ => false,
    }
}

/// Whether an "aud" claim is an array of more than one audience.
pub open spec fn several_audiences(value: Option<Json>) -> bool {
    match value {
        Some(Json::Array(items)) => items.len() > 1,
        _ => false,
    }
}

/// The verdict on a token's claims, checked in this order: the issuer (when one is
/// configured), the audience (when a client is configured), expiry, not-before and
/// issued-at (allowing the clock skew), the authorized party, and that a token for several
/// audiences names this client as its authorized party.
pub open spec fn claims_verdict(claims: Json, issuer: Seq<char>, audience: Seq<char>, now: int) -> Result<(), Seq<char>> {
    let expected_issuer = trim(issuer);
    let expected_audience = trim(audience);
    let issuer_text = text_of(field(claims, "iss"@));
    let exp = signed_of(field(claims, "exp"@));
    let nbf = signed_of(field(claims, "nbf"@));
    let iat = signed_of(field(claims, "iat"@));
    let azp = text_of(field(claims, "azp"@));
    if expected_issuer.len() > 0 && issuer_text is None {
        Err("OIDC token is missing issuer"@)
    } else if expected_issuer.len() > 0 && trim(issuer_text.unwrap()) != expected_issuer {
        Err("OIDC token issuer does not match policy"@)
    } else if expected_audience.len() > 0 && !audience_matches(field(claims, "aud"@), expected_audience) {
        Err("OIDC token audience does not match policy"@)
    } else if exp is None {
        Err("OIDC token is missing expiration"@)
    } else if exp.unwrap() <= now {
        Err("OIDC token has expired"@)
    } else if nbf is Some && nbf.unwrap() > now + OIDC_CLOCK_SKEW_SECS {
        Err("OIDC token is not active yet"@)
    } else if iat is None {
        Err("OIDC token is missing issued-at"@)
    } else if iat.unwrap() > now + OIDC_CLOCK_SKEW_SECS {
        Err("OIDC token issued-at is in the future"@)
    } else if azp is Some && expected_audience.len() > 0 && trim(azp.unwrap()) != expected_audience {
        Err("OIDC token authorized party does not match policy"@)
    } else if several_audiences(field(claims, "aud"@)) && (azp is None || trim(azp.unwrap()) != expected_audience) {
        Err("OIDC token with multiple audiences must include matching azp"@)
    } else {
        Ok(())
    }
}

fn text_field<'a>(claims: &'a Json, key: &str) -> (r: Option<&'a str>)
    ensures
        match r {
            Some(t) => text_of(field(*claims, key@)) == Some(t@),
            None => text_of(field(*claims, key@)) is None,
        },
{
    match claims.get(key) {
        Some(v) => v.as_str(),
        None => None,
    }
}

fn signed_field(claims: &Json, key: &str) -> (r: Option<i64>)
    ensures
        r == signed_of(field(*claims, key@)),
{
    match claims.get(key) {
        Some(v) => v.as_i64(),
        None => None,
    }
}

/// Checks the claims of a verified token against the configured issuer and client id at
/// time `now` (seconds since the epoch).
pub fn validate_oidc_claims(claims: &Json, issuer: &str, audience: &str, now: i64) -> (r: Result<(), String>)
    requires
        now <= i64::MAX - OIDC_CLOCK_SKEW_SECS,
    ensures
        match r {
            Ok(()) => claims_verdict(*claims, issuer@, audience@, now as int) is Ok,
            Err(e) => claims_verdict(*claims, issuer@, audience@, now as int) == Err::<(), Seq<char>>(e@),
        },
{
    let expected_issuer = trim_chars(&to_chars(issuer));
    if expected_issuer.len() > 0 {
        match text_field(claims, "iss") {
            None => return Err("OIDC token is missing issuer".to_owned()),
            Some(actual) => {
                if !chars_eq(&trim_chars(&to_chars(actual)), &expected_issuer) {
                    return Err("OIDC token issuer does not match policy".to_owned());
                }
            },
        }
    }
    let expected_audience = trim_str(audience);
    if !expected_audience.as_str().is_empty() && !claim_matches_audience(claims.get("aud"), expected_audience.as_str()) {
        return Err("OIDC token audience does not match policy".to_owned());
    }
    let exp = match signed_field(claims, "exp") {
        Some(v) => v,
        None => return Err("OIDC token is missing expiration".to_owned()),
    };
    if exp <= now {
        return Err("OIDC token has expired".to_owned());
    }
    match signed_field(claims, "nbf") {
        Some(nbf) => {
            if nbf > now + OIDC_CLOCK_SKEW_SECS {
                return Err("OIDC token is not active yet".to_owned());
            }
        },
        None => {},
    }
    let iat = match signed_field(claims, "iat") {
        Some(v) => v,
        None => return Err("OIDC token is missing issued-at".to_owned()),
    };
    if iat > now + OIDC_CLOCK_SKEW_SECS {
        return Err("OIDC token issued-at is in the future".to_owned());
    }
    let expected = to_chars(expected_audience.as_str());
    let azp = text_field(claims, "azp");
    match azp {
        Some(a) => {
            if expected.len() > 0 && !chars_eq(&trim_chars(&to_chars(a)), &expected) {
                return Err("OIDC token authorized party does not match policy".to_owned());
            }
        },
        None => {},
    }
    let several = match claims.get("aud") {
        Some(Json::Array(items)) => items.len() > 1,
        _ => false,
    };
    if several {
        let matching = match azp {
            Some(a) => chars_eq(&trim_chars(&to_chars(a)), &expected),
            None => false,
        };
        if !matching {
            return Err("OIDC token with multiple audiences must include matching azp".to_owned());
        }
    }
    Ok(())
}

/// The higher of two optional roles.
pub open spec fn higher_role(a: Option<Role>, b: Role) -> Role {
    match a {
        Some(x) => if role_rank(x) >= role_rank(b) { x } else { b },
        None => b,
    }
}

/// The highest role named by the string items of `items`.
pub open spec fn highest_role(items: Seq<Json>) -> Option<Role>
    decreases items.len(),
{
    if items.len() == 0 {
        None
    } else {
        let rest = highest_role(items.drop_last());
        match items.last() {
            Json::Str(t) => Some(higher_role(rest, role_of(t@))),
            _ => rest,
        }
    }
}

/// The role a claim grants: the role a string names, or the highest role named in an array
/// of strings; nothing for other values.
pub open spec fn claimed_role(value: Json) -> Option<Role> {
    match value {
        Json::Str(t) => Some(role_of(t@)),
        Json::Array(items) => highest_role(items@),
        _ => None,
    }
}

pub fn extract_role_from_claims(value: &Json) -> (r: Option<Role>)
    ensures
        r == claimed_role(*value),
{
    match value {
        Json::Str(t) => Some(Role::from_value(t.as_str())),
        Json::Array(items) => {
            let mut best: Option<Role> = None;
            let mut i: usize = 0;
            while i < items.len()
                invariant
                    i <= items.len(),
                    best == highest_role(items@.take(i as int)),
                decreases items.len() - i,
            {
                assert(items@.take(i + 1).drop_last() =~= items@.take(i as int));
                assert(items@.take(i + 1).last() == items@[i as int]);
                match &items[i] {
                    Json::Str(t) => {
                        let role = Role::from_value(t.as_str());
                        best = match best {
                            Some(x) => if x.rank() >= role.rank() { Some(x) } else { Some(role) },
                            None => Some(role),
                        };
                    },
                    _ => {},
                }
                i += 1;
            }
            assert(items@.take(i as int) =~= items@);
            best
        },
        _ => None,
    }
}

// ---------------------------------------------------------------- switches

/// Whether the insecure development login is switched on: the setting reads "1", "true",
/// "yes" or "on" (in any ASCII case, around whitespace). It is off when unset.
pub open spec fn dev_login_switch(value: Option<Seq<char>>) -> bool {
    match value {
        Some(v) => {
            let n = lower(trim(v));
            n == "1"@ || n == "true"@ || n == "yes"@ || n == "on"@
        },
        None => false,
    }
}

pub fn allow_insecure_oidc_dev_login(setting: Option<&str>) -> (r: bool)
    ensures
        r == dev_login_switch(
            match setting {
                Some(v) => Some(v@),
                None => None,
            },
        ),
{
    match setting {
        Some(v) => {
            let n = lower_chars(&trim_chars(&to_chars(v)));
            chars_eq(&n, &to_chars("1")) || chars_eq(&n, &to_chars("true")) || chars_eq(&n, &to_chars("yes"))
                || chars_eq(&n, &to_chars("on"))
        },
        None => false,
    }
}

/// Whether `token` is the configured administrator token: one is configured with at least
/// 24 bytes once trimmed, and the trimmed token has the same bytes.
pub open spec fn admin_token_matches(token: Seq<char>, configured: Option<Seq<char>>) -> bool {
    match configured {
        Some(c) => {
            let expected = vstd::utf8::encode_utf8(trim(c));
            expected.len() >= 24 && vstd::utf8::encode_utf8(trim(token)) == expected
        },
        None => false,
    }
}

pub fn is_configured_admin_token(token: &str, configured: Option<&str>) -> (r: bool)
    ensures
        r == admin_token_matches(
            token@,
            match configured {
                Some(c) => Some(c@),
                None => None,
            },
        ),
{
    match configured {
        Some(c) => {
            let expected = trim_str(c);
            let expected_bytes = expected.as_str().as_bytes();
            if expected_bytes.len() < 24 {
                return false;
            }
            let given = trim_str(token);
            constant_time_eq(given.as_str().as_bytes(), expected_bytes)
        },
        None => false,
    }
}


// ---------------------------------------------------------------- laws

/// An accepted token has not expired, was not issued in the future (beyond the clock skew),
/// comes from the configured issuer and names the configured client among its audiences.
pub proof fn law_accepted_claims(claims: Json, issuer: Seq<char>, audience: Seq<char>, now: int)
    requires
        claims_verdict(claims, issuer, audience, now) is Ok,
    ensures
        signed_of(field(claims, "exp"@)) matches Some(exp) && exp > now,
        signed_of(field(claims, "iat"@)) matches Some(iat) && iat <= now + OIDC_CLOCK_SKEW_SECS,
        trim(issuer).len() > 0 ==> (text_of(field(claims, "iss"@)) matches Some(iss) && trim(iss) == trim(issuer)),
        trim(audience).len() > 0 ==> audience_matches(field(claims, "aud"@), trim(audience)),
{
}

/// A token whose header names the "none" algorithm, in any case, is refused.
pub proof fn law_unsigned_tokens_refused(header: Json)
    requires
        text_of(field(header, "alg"@)) matches Some(alg) && lower(alg) == "none"@,
    ensures
        header_verdict(header) is Err,
{
}

/// A token meant for one audience needs no authorized party: claims whose "aud" is an array
/// holding only the configured client, from the configured issuer, not yet expired, without
/// "nbf", issued by now, and without "azp", are accepted.
pub proof fn law_single_audience_needs_no_azp(claims: Json, issuer: Seq<char>, audience: Seq<char>, now: int)
    requires
        field(claims, "aud"@) matches Some(Json::Array(items)) && items@.len() == 1
            && (items@[0] matches Json::Str(t) && trim(t@) == trim(audience)),
        text_of(field(claims, "iss"@)) matches Some(iss) && trim(iss) == trim(issuer),
        signed_of(field(claims, "exp"@)) matches Some(exp) && exp > now,
        field(claims, "nbf"@) is None,
        signed_of(field(claims, "iat"@)) matches Some(iat) && iat <= now,
        field(claims, "azp"@) is None,
    ensures
        claims_verdict(claims, issuer, audience, now) is Ok,
{
    let aud = field(claims, "aud"@);
    if let Some(Json::Array(items)) = aud {
        assert(items@[0] matches Json::Str(t) && trim(t@) == trim(audience));
        assert(audience_matches(aud, trim(audience)));
    }
}

/// A token is refused for lacking a matching authorized party only when its "aud" claim is an
/// array of two or more audiences.
pub proof fn law_azp_demanded_only_for_several_audiences(claims: Json, issuer: Seq<char>, audience: Seq<char>, now: int)
    requires
        claims_verdict(claims, issuer, audience, now) == Err::<(), Seq<char>>("OIDC token with multiple audiences must include matching azp"@),
    ensures
        field(claims, "aud"@) matches Some(Json::Array(items)) && items@.len() >= 2,
{
    reveal_strlit("OIDC token with multiple audiences must include matching azp");
    reveal_strlit("OIDC token is missing issuer");
    reveal_strlit("OIDC token issuer does not match policy");
    reveal_strlit("OIDC token audience does not match policy");
    reveal_strlit("OIDC token is missing expiration");
    reveal_strlit("OIDC token has expired");
    reveal_strlit("OIDC token is not active yet");
    reveal_strlit("OIDC token is missing issued-at");
    reveal_strlit("OIDC token issued-at is in the future");
    reveal_strlit("OIDC token authorized party does not match policy");
    let target = "OIDC token with multiple audiences must include matching azp"@;
    assert("OIDC token is missing issuer"@.len() != target.len());
    assert("OIDC token issuer does not match policy"@.len() != target.len());
    assert("OIDC token audience does not match policy"@.len() != target.len());
    assert("OIDC token is missing expiration"@.len() != target.len());
    assert("OIDC token has expired"@.len() != target.len());
    assert("OIDC token is not active yet"@.len() != target.len());
    assert("OIDC token is missing issued-at"@.len() != target.len());
    assert("OIDC token issued-at is in the future"@.len() != target.len());
    assert("OIDC token authorized party does not match policy"@.len() != target.len());
}

} // verus!
