//! Logging in and out of the server and checking a request's session: which token a login
//! presents, the subject and role it yields, opening a session, admitting a bearer token,
//! and ending a session.
use crate::auth::{
    enforce_session_cap, extract_bearer_token, holds, role_rank, bearer_token, Role, SessionInfo, SessionStore,
    SessionView, EntryView, distinct_tokens,
};
use crate::engine_errors::{ApiError, BAD_REQUEST, FORBIDDEN, UNAUTHORIZED};
use crate::json::{field, Json};
use crate::oidc::{admin_token_matches, claimed_role, extract_role_from_claims, is_configured_admin_token};
use crate::text::{from_chars, to_chars, trim, trim_chars};
use crate::text::{opt_str_text};
use vstd::prelude::*;

verus! {

/// How long a session lasts: eight hours.
pub const DEFAULT_SESSION_TTL_SECS: i64 = 28800;

/// The token a login presents: the ID token, else the access token.
pub fn login_token(id_token: Option<&str>, access_token: Option<&str>) -> (r: Result<String, ApiError>)
    ensures
        match (id_token, access_token) {
            (Some(t), _) => r matches Ok(s) && s@ == t@,
            (None, Some(t)) => r matches Ok(s) && s@ == t@,
            (None, None) => r matches Err(e) && e.status == BAD_REQUEST && e.message@
                == "OIDC login requires id_token or access_token"@,
        },
{
    match id_token {
        Some(t) => Ok(from_chars(&to_chars(t))),
        None => match access_token {
            Some(t) => Ok(from_chars(&to_chars(t))),
            None => Err(ApiError::bad_request(from_chars(&to_chars("OIDC login requires id_token or access_token")))),
        },
    }
}

/// A claim's text, trimmed, when it is a string that is not blank.
pub open spec fn text_claim(claims: Json, key: Seq<char>) -> Option<Seq<char>> {
    match field(claims, key) {
        Some(Json::Str(s)) => if trim(s@).len() > 0 { Some(trim(s@)) } else { None },
        _ => None,
    }
}

/// Who logs in: the subject claim, else the e-mail claim.
pub open spec fn subject_of(claims: Json) -> Option<Seq<char>> {
    match text_claim(claims, "sub"@) {
        Some(s) => Some(s),
        None => text_claim(claims, "email"@),
    }
}

fn text_claim_exec(claims: &Json, key: &str) -> (r: Option<String>)
    ensures
        match r {
            Some(s) => text_claim(*claims, key@) == Some(s@),
            None => text_claim(*claims, key@) is None,
        },
{
    match claims.get(key) {
        Some(Json::Str(s)) => {
            let t = trim_chars(&to_chars(s.as_str()));
            if t.len() > 0 {
                Some(from_chars(&t))
            } else {
                None
            }
        },
        _ => None,
    }
}

/// The subject of a login's claims.
pub fn session_subject(claims: &Json) -> (r: Result<String, ApiError>)
    ensures
        match subject_of(*claims) {
            Some(s) => r matches Ok(t) && t@ == s,
            None => r matches Err(e) && e.status == BAD_REQUEST && e.message@ == "OIDC token is missing subject"@,
        },
{
    match text_claim_exec(claims, "sub") {
        Some(s) => Ok(s),
        None => match text_claim_exec(claims, "email") {
            Some(s) => Ok(s),
            None => Err(ApiError::bad_request(from_chars(&to_chars("OIDC token is missing subject")))),
        },
    }
}

/// The role a login's claims grant through the claim `roles_claim`; an ordinary user when
/// that claim grants none.
pub open spec fn role_from_claims(claims: Json, roles_claim: Seq<char>) -> Role {
    match field(claims, roles_claim) {
        Some(v) => match claimed_role(v) {
            Some(r) => r,
            None => Role::User,
        },
        None => Role::User,
    }
}

pub fn session_role(claims: &Json, roles_claim: &str) -> (r: Role)
    ensures
        r == role_from_claims(*claims, roles_claim@),
{
    match claims.get(roles_claim) {
        Some(v) => match extract_role_from_claims(v) {
            Some(r) => r,
            None => Role::User,
        },
        None => Role::User,
    }
}

/// The session a login opens at `now`.
pub open spec fn new_session(subject: Seq<char>, role: Role, now: i64) -> SessionView {
    SessionView { subject, role, issued_at: now, expires_at: (now + DEFAULT_SESSION_TTL_SECS) as i64 }
}

/// Opens a session for `subject` with `role` under `token` at `now`: expired sessions and,
/// beyond the cap, the earliest issued ones are dropped first.
pub fn open_session(sessions: &mut SessionStore, token: &str, subject: String, role: Role, now: i64, cap: usize) -> (r:
    SessionInfo)
    requires
        old(sessions).wf(),
        now <= i64::MAX - DEFAULT_SESSION_TTL_SECS,
    ensures
        final(sessions).wf(),
        r@ == new_session(subject@, role, now),
        holds(final(sessions)@, (token@, r@)),
        forall|e: EntryView| holds(final(sessions)@, e) && e.0 == token@ ==> e.1 == r@,
        forall|e: EntryView| holds(final(sessions)@, e) && e.0 != token@ ==> holds(old(sessions)@, e) && e.1.expires_at > now,
{
    enforce_session_cap(sessions, now, cap);
    let session = SessionInfo { subject, role, issued_at: now, expires_at: now + DEFAULT_SESSION_TTL_SECS };
    sessions.insert(token, session.clone_session());
    session
}

/// Whether a session under `token` is still running at `now`.
pub open spec fn live_session(entries: Seq<EntryView>, token: Seq<char>, now: i64) -> bool {
    exists|s: SessionView| holds(entries, (token, s)) && s.expires_at > now
}

/// Whether a session under `token`, still running at `now`, grants at least `minimum`.
pub open spec fn admits(entries: Seq<EntryView>, token: Seq<char>, now: i64, minimum: Role) -> bool {
    exists|s: SessionView| holds(entries, (token, s)) && s.expires_at > now && role_rank(s.role) >= role_rank(minimum)
}

/// The session of the configured administrator token.
pub open spec fn admin_session(now: i64) -> SessionView {
    new_session("server-admin-token"@, Role::Admin, now)
}

proof fn lemma_one_session_per_token(entries: Seq<EntryView>, token: Seq<char>, a: SessionView, b: SessionView)
    requires
        distinct_tokens(entries),
        holds(entries, (token, a)),
        holds(entries, (token, b)),
    ensures
        a == b,
{
    let i = choose|i: int| 0 <= i < entries.len() && entries[i] == (token, a);
    let j = choose|j: int| 0 <= j < entries.len() && entries[j] == (token, b);
    if i != j {
        if i < j {
            assert(entries[i].0 != entries[j].0);
        } else {
            assert(entries[j].0 != entries[i].0);
        }
    }
}

/// The session of a request with the `Authorization` header `authorization`, which must
/// grant at least `minimum_role`: the configured administrator token is an administrator
/// session; otherwise expired sessions are dropped and the token's session is looked up.
pub fn require_session(
    sessions: &mut SessionStore,
    authorization: Option<&str>,
    admin_token: Option<&str>,
    minimum_role: Role,
    now: i64,
) -> (r: Result<SessionInfo, ApiError>)
    requires
        old(sessions).wf(),
        now <= i64::MAX - DEFAULT_SESSION_TTL_SECS,
    ensures
        final(sessions).wf(),
        match bearer_token(opt_str_text(authorization)) {
            None => {
                &&& final(sessions)@ == old(sessions)@
                &&& r matches Err(e) && e.status == UNAUTHORIZED && e.message@ == "missing bearer token, please log in first"@
            },
            Some(t) => if admin_token_matches(t, opt_str_text(admin_token)) {
                &&& final(sessions)@ == old(sessions)@
                &&& r matches Ok(s) && s@ == admin_session(now)
            } else {
                &&& forall|e: EntryView| holds(final(sessions)@, e) <==> holds(old(sessions)@, e) && e.1.expires_at > now
                &&& (r is Ok <==> admits(old(sessions)@, t, now, minimum_role))
                &&& match r {
                    Ok(s) => holds(old(sessions)@, (t, s@)) && s@.expires_at > now,
                    Err(e) => if live_session(old(sessions)@, t, now) {
                        e.status == FORBIDDEN && e.message@ == "insufficient permissions"@
                    } else {
                        e.status == UNAUTHORIZED && e.message@ == "session expired, please log in again"@
                    },
                }
            },
        },
{
    let token = match extract_bearer_token(authorization) {
        Some(t) => t,
        None => {
            return Err(ApiError::unauthorized(from_chars(&to_chars("missing bearer token, please log in first"))));
        },
    };
    if is_configured_admin_token(token.as_str(), admin_token) {
        return Ok(
            SessionInfo {
                subject: from_chars(&to_chars("server-admin-token")),
                role: Role::Admin,
                issued_at: now,
                expires_at: now + DEFAULT_SESSION_TTL_SECS,
            },
        );
    }
    let ghost before = sessions@;
    sessions.retain_unexpired(now);
    match sessions.get(token.as_str()) {
        None => {
            proof {
                if live_session(before, token@, now) {
                    let s = choose|s: SessionView| holds(before, (token@, s)) && s.expires_at > now;
                    assert(holds(sessions@, (token@, s)));
                    let i = choose|i: int| 0 <= i < sessions@.len() && sessions@[i] == (token@, s);
                    assert(sessions@[i].0 != token@);
                }
                if admits(before, token@, now, minimum_role) {
                    let s = choose|s: SessionView| holds(before, (token@, s)) && s.expires_at > now && role_rank(s.role) >= role_rank(minimum_role);
                    assert(live_session(before, token@, now));
                }
            }
            Err(ApiError::unauthorized(from_chars(&to_chars("session expired, please log in again"))))
        },
        Some(s) => {
            assert(holds(before, (token@, s@)) && s@.expires_at > now);
            assert(live_session(before, token@, now));
            if !s.role.at_least(minimum_role) {
                proof {
                    if admits(before, token@, now, minimum_role) {
                        let o = choose|o: SessionView| holds(before, (token@, o)) && o.expires_at > now && role_rank(o.role) >= role_rank(minimum_role);
                        assert(holds(sessions@, (token@, o)));
                        sessions.lemma_wf_distinct();
                        lemma_one_session_per_token(sessions@, token@, o, s@);
                    }
                }
                Err(ApiError::forbidden(from_chars(&to_chars("insufficient permissions"))))
            } else {
                Ok(s)
            }
        },
    }
}

/// Ends the session of the request's bearer token; ending one that does not exist is no
/// error. Gives the ended session, if there was one.
pub fn end_session(sessions: &mut SessionStore, authorization: Option<&str>) -> (r: Result<Option<SessionInfo>, ApiError>)
    requires
        old(sessions).wf(),
    ensures
        final(sessions).wf(),
        match bearer_token(opt_str_text(authorization)) {
            None => {
                &&& final(sessions)@ == old(sessions)@
                &&& r matches Err(e) && e.status == UNAUTHORIZED && e.message@ == "missing bearer token, nothing to log out"@
            },
            Some(t) => {
                &&& forall|e: EntryView| holds(final(sessions)@, e) <==> holds(old(sessions)@, e) && e.0 != t
                &&& match r {
                    Ok(Some(s)) => holds(old(sessions)@, (t, s@)),
                    Ok(None) => forall|s: SessionView| !holds(old(sessions)@, (t, s)),
                    Err(_) => false,
                }
            },
        },
{
    let token = match extract_bearer_token(authorization) {
        Some(t) => t,
        None => {
            return Err(ApiError::unauthorized(from_chars(&to_chars("missing bearer token, nothing to log out"))));
        },
    };
    let ghost before = sessions@;
    let removed = sessions.get(token.as_str());
    proof {
        if removed is None {
            assert forall|s: SessionView| !holds(before, (token@, s)) by {
                if holds(before, (token@, s)) {
                    let i = choose|i: int| 0 <= i < before.len() && before[i] == (token@, s);
                    assert(before[i].0 != token@);
                }
            }
        }
    }
    sessions.remove(token.as_str());
    Ok(removed)
}

/// After a session has ended, its token is no longer admitted: a request that presents it
/// is refused as unauthenticated, unless the token is the administrator token.
pub proof fn law_ended_session_refused(
    ended: Seq<EntryView>,
    after: Seq<EntryView>,
    token: Seq<char>,
    now: i64,
    minimum_role: Role,
)
    requires
        forall|e: EntryView| holds(ended, e) ==> e.0 != token,
        forall|e: EntryView| holds(after, e) <==> holds(ended, e) && e.1.expires_at > now,
    ensures
        !live_session(ended, token, now),
        !admits(ended, token, now, minimum_role),
        forall|s: SessionView| !holds(after, (token, s)),
{
    if live_session(ended, token, now) {
        let s = choose|s: SessionView| holds(ended, (token, s)) && s.expires_at > now;
        assert(holds(ended, (token, s)));
    }
    if admits(ended, token, now, minimum_role) {
        let s = choose|s: SessionView| holds(ended, (token, s)) && s.expires_at > now && role_rank(s.role) >= role_rank(minimum_role);
        assert(holds(ended, (token, s)));
    }
    assert forall|s: SessionView| !holds(after, (token, s)) by {
        if holds(after, (token, s)) {
            assert(holds(ended, (token, s)));
        }
    }
}

/// A session opened at `opened` admits its token, for any role up to the session's, at
/// every time before it expires.
pub proof fn law_opened_session_admitted(
    entries: Seq<EntryView>,
    token: Seq<char>,
    subject: Seq<char>,
    role: Role,
    opened: i64,
    now: i64,
    minimum_role: Role,
)
    requires
        opened <= i64::MAX - DEFAULT_SESSION_TTL_SECS,
        holds(entries, (token, new_session(subject, role, opened))),
        now < opened + DEFAULT_SESSION_TTL_SECS,
        role_rank(minimum_role) <= role_rank(role),
    ensures
        live_session(entries, token, now),
        admits(entries, token, now, minimum_role),
{
    let s = new_session(subject, role, opened);
    assert(holds(entries, (token, s)) && s.expires_at > now);
}

} // verus!
