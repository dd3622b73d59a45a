//! Sessions and credentials of the server: roles, the cap on active sessions, bearer
//! tokens, constant-time comparison of secrets, and the checks on OIDC identity claims.
use crate::text::{chars_eq, copy_range, from_chars, lower, starts_with, starts_with_chars, str_eq, to_chars, trim, trim_chars, trim_lower};
use vstd::prelude::*;

verus! {

/// Access roles, from least to most privileged.
#[derive(Debug, Clone, Copy, PartialEq, Eq, Structural)]
pub enum Role {
    Viewer,
    User,
    Operator,
    Admin,
}

pub open spec fn role_rank(r: Role) -> nat {
    match r {
        Role::Viewer => 0,
        Role::User => 1,
        Role::Operator => 2,
        Role::Admin => 3,
    }
}

/// The role a setting or claim names: "admin", "operator" or "viewer" (in any case, around
/// whitespace); anything else is an ordinary user.
pub open spec fn role_of(value: Seq<char>) -> Role {
    let v = lower(trim(value));
    if v == "admin"@ {
        Role::Admin
    } else if v == "operator"@ {
        Role::Operator
    } else if v == "viewer"@ {
        Role::Viewer
    } else {
        Role::User
    }
}

impl Role {
    pub fn from_value(value: &str) -> (r: Role)
        ensures
            r == role_of(value@),
    {
        let v = trim_lower(value);
        if chars_eq(&v, &to_chars("admin")) {
            Role::Admin
        } else if chars_eq(&v, &to_chars("operator")) {
            Role::Operator
        } else if chars_eq(&v, &to_chars("viewer")) {
            Role::Viewer
        } else {
            Role::User
        }
    }

    /// The role's position in the order of privilege.
    pub fn rank(self) -> (r: u8)
        ensures
            r == role_rank(self),
    {
        match self {
            Role::Viewer => 0,
            Role::User => 1,
            Role::Operator => 2,
            Role::Admin => 3,
        }
    }

    /// Whether this role grants at least the privileges of `minimum`.
    pub fn at_least(self, minimum: Role) -> (r: bool)
        ensures
            r == (role_rank(self) >= role_rank(minimum)),
    {
        self.rank() >= minimum.rank()
    }
}

/// A logged-in session.
#[derive(Debug, Clone)]
pub struct SessionInfo {
    pub subject: String,
    pub role: Role,
    pub issued_at: i64,
    pub expires_at: i64,
}

pub struct SessionView {
    pub subject: Seq<char>,
    pub role: Role,
    pub issued_at: i64,
    pub expires_at: i64,
}

impl View for SessionInfo {
    type V = SessionView;

    open spec fn view(&self) -> SessionView {
        SessionView { subject: self.subject@, role: self.role, issued_at: self.issued_at, expires_at: self.expires_at }
    }
}

pub type EntryView = (Seq<char>, SessionView);

/// Whether the entries hold the pair (`token`, `session`).
pub open spec fn holds(entries: Seq<EntryView>, e: EntryView) -> bool {
    exists|i: int| 0 <= i < entries.len() && entries[i] == e
}

/// Whether no two entries share a token.
pub open spec fn distinct_tokens(entries: Seq<EntryView>) -> bool {
    forall|i: int, j: int| 0 <= i < j < entries.len() ==> entries[i].0 != entries[j].0
}

/// The sessions, keyed by token.
pub struct SessionStore {
    entries: Vec<(String, SessionInfo)>,
}

impl View for SessionStore {
    type V = Seq<EntryView>;

    closed spec fn view(&self) -> Seq<EntryView> {
        self.entries@.map_values(|e: (String, SessionInfo)| (e.0@, e.1@))
    }
}

impl SessionStore {
    pub closed spec fn wf(&self) -> bool {
        distinct_tokens(self@)
    }

    /// A well-formed store holds at most one session per token.
    pub proof fn lemma_wf_distinct(&self)
        requires
            self.wf(),
        ensures
            distinct_tokens(self@),
    {
    }

    pub fn new() -> (r: SessionStore)
        ensures
            r@.len() == 0,
            r.wf(),
    {
        let r = SessionStore { entries: Vec::new() };
        assert(r@ =~= Seq::<EntryView>::empty());
        r
    }

    /// Number of sessions.
    pub fn len(&self) -> (r: usize)
        ensures
            r == self@.len(),
    {
        self.entries.len()
    }

    fn position(&self, token: &str) -> (r: Option<usize>)
        ensures
            match r {
                Some(i) => i < self@.len() && self@[i as int].0 == token@,
                None => forall|i: int| 0 <= i < self@.len() ==> self@[i].0 != token@,
            },
    {
        let mut k: usize = 0;
        while k < self.entries.len()
            invariant
                k <= self.entries.len(),
                forall|i: int| 0 <= i < k ==> self@[i].0 != token@,
            decreases self.entries.len() - k,
        {
            if str_eq(self.entries[k].0.as_str(), token) {
                return Some(k);
            }
            k += 1;
        }
        None
    }

    /// Whether a session has the token `token`.
    pub fn contains_key(&self, token: &str) -> (r: bool)
        ensures
            r == exists|i: int| 0 <= i < self@.len() && self@[i].0 == token@,
    {
        self.position(token).is_some()
    }

    /// The session of the token `token`.
    pub fn get(&self, token: &str) -> (r: Option<SessionInfo>)
        requires
            self.wf(),
        ensures
            match r {
                Some(s) => holds(self@, (token@, s@)),
                None => forall|i: int| 0 <= i < self@.len() ==> self@[i].0 != token@,
            },
    {
        match self.position(token) {
            Some(i) => {
                let s = self.entries[i].1.clone_session();
                assert(self@[i as int] == (token@, s@));
                Some(s)
            },
            None => None,
        }
    }

    /// Records `session` under `token`, replacing any session that had it.
    pub fn insert(&mut self, token: &str, session: SessionInfo)
        requires
            old(self).wf(),
        ensures
            final(self).wf(),
            holds(final(self)@, (token@, session@)),
            forall|e: EntryView| e.0 != token@ ==> (holds(final(self)@, e) <==> holds(old(self)@, e)),
            forall|e: EntryView| holds(final(self)@, e) && e.0 == token@ ==> e.1 == session@,
    {
        let ghost sv = session@;
        match self.position(token) {
            Some(i) => {
                let ghost before = self@;
                self.entries.set(i, (token.to_owned(), session));
                assert(self@ =~= before.update(i as int, (token@, sv)));
                assert(self@[i as int] == (token@, sv));
                assert forall|e: EntryView| e.0 != token@ implies (holds(self@, e) <==> holds(before, e)) by {
                    if holds(before, e) {
                        let j = choose|j: int| 0 <= j < before.len() && before[j] == e;
                        assert(self@[j] == e);
                    }
                    if holds(self@, e) {
                        let j = choose|j: int| 0 <= j < self@.len() && self@[j] == e;
                        assert(before[j] == e);
                    }
                }
            },
            None => {
                let ghost before = self@;
                self.entries.push((token.to_owned(), session));
                assert(self@ =~= before.push((token@, sv)));
                assert(self@[before.len() as int] == (token@, sv));
                assert forall|e: EntryView| e.0 != token@ implies (holds(self@, e) <==> holds(before, e)) by {
                    if holds(before, e) {
                        let j = choose|j: int| 0 <= j < before.len() && before[j] == e;
                        assert(self@[j] == e);
                    }
                }
            },
        }
    }

    /// Keeps the sessions that expire after `now`.
    pub fn retain_unexpired(&mut self, now: i64)
        requires
            old(self).wf(),
        ensures
            final(self).wf(),
            forall|e: EntryView| holds(final(self)@, e) <==> holds(old(self)@, e) && e.1.expires_at > now,
            final(self)@.len() == unexpired_count(old(self)@, now),
    {
        let ghost before = self@;
        let mut kept: Vec<(String, SessionInfo)> = Vec::new();
        let mut k: usize = 0;
        let ghost mut src: Seq<int> = Seq::empty();
        while k < self.entries.len()
            invariant
                k <= self.entries.len(),
                before == self@,
                distinct_tokens(before),
                src.len() == kept@.len(),
                forall|m: int| 0 <= m < src.len() ==> 0 <= #[trigger] src[m] < k,
                forall|m: int, n: int| 0 <= m < n < src.len() ==> src[m] < src[n],
                forall|m: int| 0 <= m < src.len() ==> (kept@[m].0@, kept@[m].1@) == #[trigger] before[src[m]],
                forall|m: int| 0 <= m < src.len() ==> before[#[trigger] src[m]].1.expires_at > now,
                forall|j: int| 0 <= j < k && before[j].1.expires_at > now ==> exists|m: int| 0 <= m < src.len() && src[m] == j,
                kept@.len() == unexpired_count(before.take(k as int), now),
            decreases self.entries.len() - k,
        {
            proof {
                assert(before.take(k + 1).drop_last() =~= before.take(k as int));
            }
            if self.entries[k].1.expires_at > now {
                let ghost old_src = src;
                proof {
                    src = src.push(k as int);
                }
                kept.push((self.entries[k].0.clone(), self.entries[k].1.clone_session()));
                assert forall|j: int| 0 <= j < k + 1 && before[j].1.expires_at > now implies exists|m: int| 0 <= m < src.len() && src[m] == j by {
                    if j == k {
                        assert(src[src.len() - 1] == j);
                    } else {
                        let m = choose|m: int| 0 <= m < old_src.len() && old_src[m] == j;
                        assert(src[m] == j);
                    }
                }
            }
            k += 1;
        }
        assert(before.take(k as int) =~= before);
        self.entries = kept;
        let ghost after = self@;
        assert forall|i: int, j: int| 0 <= i < j < after.len() implies after[i].0 != after[j].0 by {
            assert(after[i] == before[src[i]]);
            assert(after[j] == before[src[j]]);
        }
        assert forall|e: EntryView| holds(after, e) <==> holds(before, e) && e.1.expires_at > now by {
            if holds(after, e) {
                let m = choose|m: int| 0 <= m < after.len() && after[m] == e;
                assert(before[src[m]] == e);
            }
            if holds(before, e) && e.1.expires_at > now {
                let j = choose|j: int| 0 <= j < before.len() && before[j] == e;
                let m = choose|m: int| 0 <= m < src.len() && src[m] == j;
                assert(after[m] == e);
            }
        }
    }

    /// Removes the session of the token `token`.
    pub fn remove(&mut self, token: &str)
        requires
            old(self).wf(),
        ensures
            final(self).wf(),
            forall|e: EntryView| holds(final(self)@, e) <==> holds(old(self)@, e) && e.0 != token@,
    {
        match self.position(token) {
            Some(i) => {
                let ghost before = self@;
                self.entries.remove(i);
                assert(self@ =~= before.remove(i as int));
                proof {
                    lemma_remove_holds(before, i as int);
                }
                assert forall|e: EntryView| holds(self@, e) <==> holds(before, e) && e.0 != token@ by {
                    if holds(before, e) && e.0 != token@ {
                        let j = choose|j: int| 0 <= j < before.len() && before[j] == e;
                        assert(j != i);
                    }
                }
            },
            None => {
                assert forall|e: EntryView| holds(self@, e) <==> holds(self@, e) && e.0 != token@ by {
                    if holds(self@, e) {
                        let j = choose|j: int| 0 <= j < self@.len() && self@[j] == e;
                    }
                }
            },
        }
    }
}

impl SessionInfo {
    /// A copy of the session.
    pub fn clone_session(&self) -> (r: SessionInfo)
        ensures
            r@ == self@,
    {
        SessionInfo { subject: self.subject.clone(), role: self.role, issued_at: self.issued_at, expires_at: self.expires_at }
    }
}

/// Removing the entry at `i` keeps the others, and keeps tokens distinct.
proof fn lemma_remove_holds(s: Seq<EntryView>, i: int)
    requires
        0 <= i < s.len(),
        distinct_tokens(s),
    ensures
        distinct_tokens(s.remove(i)),
        forall|e: EntryView| holds(s.remove(i), e) <==> holds(s, e) && e != s[i],
        forall|e: EntryView| holds(s, e) && e.0 != s[i].0 ==> holds(s.remove(i), e),
{
    let r = s.remove(i);
    assert forall|a: int, b: int| 0 <= a < b < r.len() implies r[a].0 != r[b].0 by {
        let a2 = if a < i { a } else { a + 1 };
        let b2 = if b < i { b } else { b + 1 };
        assert(r[a] == s[a2]);
        assert(r[b] == s[b2]);
    }
    assert forall|e: EntryView| holds(r, e) <==> holds(s, e) && e != s[i] by {
        if holds(r, e) {
            let j = choose|j: int| 0 <= j < r.len() && r[j] == e;
            let j2 = if j < i { j } else { j + 1 };
            assert(s[j2] == e);
            assert(j2 != i);
            if e == s[i] {
                assert(s[j2].0 == s[i].0);
            }
        }
        if holds(s, e) && e != s[i] {
            let j = choose|j: int| 0 <= j < s.len() && s[j] == e;
            assert(j != i);
            let j2 = if j < i { j } else { j - 1 };
            assert(r[j2] == e);
        }
    }
}

/// Number of entries that expire after `now`.
pub open spec fn unexpired_count(s: Seq<EntryView>, now: i64) -> nat
    decreases s.len(),
{
    if s.len() == 0 {
        0
    } else {
        unexpired_count(s.drop_last(), now) + if s.last().1.expires_at > now { 1nat } else { 0nat }
    }
}

/// The number of sessions left by `enforce_session_cap`: room for one more below `cap`.
pub open spec fn capped_count(unexpired: nat, cap: nat) -> nat {
    if cap == 0 {
        0
    } else if unexpired < cap {
        unexpired
    } else {
        (cap - 1) as nat
    }
}

fn oldest_index(store: &SessionStore) -> (r: usize)
    requires
        store@.len() > 0,
    ensures
        r < store@.len(),
        forall|j: int| 0 <= j < store@.len() ==> store@[r as int].1.issued_at <= store@[j].1.issued_at,
{
    let mut best: usize = 0;
    let mut k: usize = 1;
    while k < store.entries.len()
        invariant
            1 <= k <= store.entries.len(),
            best < k,
            forall|j: int| 0 <= j < k ==> store@[best as int].1.issued_at <= store@[j].1.issued_at,
        decreases store.entries.len() - k,
    {
        if store.entries[k].1.issued_at < store.entries[best].1.issued_at {
            best = k;
        }
        k += 1;
    }
    best
}

/// Drops expired sessions, then the earliest issued ones, until a new session fits below
/// `cap`.
pub fn enforce_session_cap(sessions: &mut SessionStore, now: i64, cap: usize)
    requires
        old(sessions).wf(),
    ensures
        final(sessions).wf(),
        final(sessions)@.len() == capped_count(unexpired_count(old(sessions)@, now), cap as nat),
        cap > 0 ==> final(sessions)@.len() < cap,
        forall|e: EntryView| holds(final(sessions)@, e) ==> holds(old(sessions)@, e) && e.1.expires_at > now,
        forall|e: EntryView, f: EntryView|
            holds(old(sessions)@, e) && e.1.expires_at > now && !holds(final(sessions)@, e) && holds(final(sessions)@, f)
                ==> e.1.issued_at <= f.1.issued_at,
{
    let ghost original = sessions@;
    sessions.retain_unexpired(now);
    let ghost unexpired = sessions@;
    let ghost mut dropped: Seq<EntryView> = Seq::empty();
    while sessions.entries.len() >= cap && sessions.entries.len() > 0
        invariant
            sessions.wf(),
            forall|e: EntryView| holds(unexpired, e) <==> holds(original, e) && e.1.expires_at > now,
            unexpired.len() == unexpired_count(original, now),
            forall|e: EntryView| holds(sessions@, e) ==> holds(unexpired, e),
            forall|e: EntryView| holds(unexpired, e) ==> holds(sessions@, e) || holds(dropped, e),
            forall|e: EntryView, f: EntryView| holds(dropped, e) && holds(sessions@, f) ==> e.1.issued_at <= f.1.issued_at,
            forall|e: EntryView| holds(dropped, e) ==> !holds(sessions@, e),
            sessions@.len() <= unexpired.len(),
            sessions@.len() < unexpired.len() ==> sessions@.len() + 1 >= cap,
        decreases sessions.entries.len(),
    {
        let i = oldest_index(sessions);
        let ghost before = sessions@;
        let ghost gone = before[i as int];
        sessions.entries.remove(i);
        assert(sessions@ =~= before.remove(i as int));
        proof {
            lemma_remove_holds(before, i as int);
            let old_dropped = dropped;
            dropped = dropped.push(gone);
            assert(holds(dropped, gone)) by {
                assert(dropped[dropped.len() - 1] == gone);
            }
            assert forall|e: EntryView| holds(dropped, e) implies holds(old_dropped, e) || e == gone by {
                let j = choose|j: int| 0 <= j < dropped.len() && dropped[j] == e;
                if j < old_dropped.len() {
                    assert(old_dropped[j] == e);
                }
            }
            assert forall|e: EntryView| holds(old_dropped, e) implies holds(dropped, e) by {
                let j = choose|j: int| 0 <= j < old_dropped.len() && old_dropped[j] == e;
                assert(dropped[j] == e);
            }
            assert forall|e: EntryView, f: EntryView| holds(dropped, e) && holds(sessions@, f) implies e.1.issued_at
                <= f.1.issued_at by {
                let j = choose|j: int| 0 <= j < sessions@.len() && sessions@[j] == f;
                assert(holds(before, f));
                let k = choose|k: int| 0 <= k < before.len() && before[k] == f;
                if e == gone {
                } else {
                    assert(holds(old_dropped, e));
                }
            }
        }
    }
    proof {
        assert forall|e: EntryView, f: EntryView|
            holds(original, e) && e.1.expires_at > now && !holds(sessions@, e) && holds(sessions@, f) implies e.1.issued_at
                <= f.1.issued_at by {
            assert(holds(unexpired, e));
        }
        assert forall|e: EntryView| holds(sessions@, e) implies holds(original, e) && e.1.expires_at > now by {
            assert(holds(unexpired, e));
        }
    }
}

// ---------------------------------------------------------------- secrets and tokens

/// Compares two byte strings in time that depends only on their lengths.
pub fn constant_time_eq(left: &[u8], right: &[u8]) -> (r: bool)
    ensures
        r == (left@ == right@),
{
    if left.len() != right.len() {
        return false;
    }
    let mut diff: u8 = 0;
    let mut k: usize = 0;
    while k < left.len()
        invariant
            k <= left.len() == right.len(),
            (diff == 0) == (forall|j: int| 0 <= j < k ==> left@[j] == right@[j]),
        decreases left.len() - k,
    {
        let a = left[k];
        let b = right[k];
        assert(((diff | (a ^ b)) == 0) == (diff == 0 && a == b)) by (bit_vector);
        diff = diff | (a ^ b);
        k += 1;
    }
    if diff == 0 {
        assert(left@ =~= right@);
    }
    diff == 0
}

/// The bearer token of an `Authorization` header value: after "Bearer " or "bearer " in
/// the trimmed value, itself trimmed, and present only when not blank.
pub open spec fn bearer_token(header: Option<Seq<char>>) -> Option<Seq<char>> {
    match header {
        None => None,
        Some(h) => {
            let text = trim(h);
            let rest = if starts_with(text, "Bearer "@) {
                Some(text.skip(7))
            } else if starts_with(text, "bearer "@) {
                Some(text.skip(7))
            } else {
                None
            };
            match rest {
                Some(t) => if trim(t).len() == 0 { None } else { Some(trim(t)) },
                None => None,
            }
        },
    }
}

/// Extracts the bearer token from the value of the `Authorization` header (`None` when the
/// header is missing or not text).
pub fn extract_bearer_token(authorization: Option<&str>) -> (r: Option<String>)
    ensures
        match r {
            Some(t) => bearer_token(match authorization { Some(h) => Some(h@), None => None }) == Some(t@),
            None => bearer_token(match authorization { Some(h) => Some(h@), None => None }) is None,
        },
{
    let header = match authorization {
        Some(h) => h,
        None => return None,
    };
    let text = trim_chars(&to_chars(header));
    let upper = to_chars("Bearer ");
    let lower_prefix = to_chars("bearer ");
    proof {
        reveal_strlit("Bearer ");
        reveal_strlit("bearer ");
    }
    let rest = if starts_with_chars(&text, &upper) || starts_with_chars(&text, &lower_prefix) {
        let r = copy_range(&text, 7, text.len());
        assert(r@ =~= text@.skip(7));
        r
    } else {
        return None;
    };
    let token = trim_chars(&rest);
    if token.len() == 0 {
        None
    } else {
        Some(from_chars(&token))
    }
}


} // verus!
