//! The id that ties the log lines and the audit record of one HTTP request together: the
//! client's own, when it sends a usable one, or a fresh random one.
use crate::text::{from_chars, to_chars, trim, trim_chars};
use vstd::prelude::*;

verus! {

/// The header that carries a request's id.
pub const REQUEST_ID_HEADER: &'static str = "x-request-id";

/// Whether every character of `s` is ASCII.
pub open spec fn all_ascii(s: Seq<char>) -> bool {
    forall|i: int| 0 <= i < s.len() ==> s[i] < '\u{80}'
}

/// The client's id, trimmed, when it is not blank, at most 200 characters long and ASCII.
pub open spec fn client_request_id(header: Option<Seq<char>>) -> Option<Seq<char>> {
    match header {
        Some(h) => {
            let t = trim(h);
            if t.len() > 0 && t.len() <= 200 && all_ascii(t) { Some(t) } else { None }
        },
        None => None,
    }
}

/// The id the client sent in the request-id header, if it is usable.
pub fn request_id_from_header(header: Option<&str>) -> (r: Option<String>)
    ensures
        match r {
            Some(t) => client_request_id(match header { Some(h) => Some(h@), None => None }) == Some(t@),
            None => client_request_id(match header { Some(h) => Some(h@), None => None }) is None,
        },
{
    let h = match header {
        Some(h) => h,
        None => return None,
    };
    let t = trim_chars(&to_chars(h));
    if t.len() == 0 || t.len() > 200 {
        return None;
    }
    let mut k: usize = 0;
    while k < t.len()
        invariant
            k <= t.len(),
            0 < t.len() <= 200,
            header == Some(h),
            t@ == trim(h@),
            forall|i: int| 0 <= i < k ==> t@[i] < '\u{80}',
        decreases t.len() - k,
    {
        if !(t[k] < '\u{80}') {
            return None;
        }
        k += 1;
    }
    Some(from_chars(&t))
}

/// `uuid::Uuid::new_v4().to_string()`: a random UUID in its hyphenated form, which is 36
/// characters long. Being random, nothing else is stated of it.
#[verifier::external_body]
fn random_uuid_text() -> (r: String)
    ensures
        r@.len() == 36,
{
    uuid::Uuid::new_v4().to_string()
}

/// The id of a request: the client's usable id, else a fresh random UUID.
pub fn request_id(header: Option<&str>) -> (r: String)
    ensures
        match client_request_id(match header { Some(h) => Some(h@), None => None }) {
            Some(t) => r@ == t,
            None => r@.len() == 36,
        },
{
    match request_id_from_header(header) {
        Some(t) => t,
        None => random_uuid_text(),
    }
}

/// A fresh session token: a random UUID.
pub fn new_session_token() -> (r: String)
    ensures
        r@.len() == 36,
{
    random_uuid_text()
}

} // verus!
