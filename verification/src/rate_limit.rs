//! Per-client rate limiting with fixed windows: login and administration paths count in a
//! stricter bucket than the rest, and each (bucket, client address) pair counts alone.
use crate::engine_errors::ApiError;
use crate::text::{chars_eq, decimal, decimal_chars, from_chars, lower, starts_with, starts_with_chars, to_chars, trim, trim_lower};
use vstd::prelude::*;

verus! {

/// The counting bucket of a request.
#[derive(Debug, Clone, Copy, PartialEq, Eq, Structural)]
pub enum RateBucket {
    /// Login and administration paths.
    Sensitive,
    /// Everything else.
    General,
}

pub open spec fn bucket_for_path(path: Seq<char>) -> RateBucket {
    if starts_with(path, "/api/auth"@) || starts_with(path, "/api/admin"@) {
        RateBucket::Sensitive
    } else {
        RateBucket::General
    }
}

pub open spec fn bucket_key(b: RateBucket) -> u8 {
    match b {
        RateBucket::Sensitive => 0,
        RateBucket::General => 1,
    }
}

impl RateBucket {
    /// Login and administration paths use the sensitive bucket, all others the general one.
    pub fn for_path(path: &str) -> (r: RateBucket)
        ensures
            r == bucket_for_path(path@),
    {
        let p = to_chars(path);
        if starts_with_chars(&p, &to_chars("/api/auth")) || starts_with_chars(&p, &to_chars("/api/admin")) {
            RateBucket::Sensitive
        } else {
            RateBucket::General
        }
    }

    pub fn as_key(self) -> (r: u8)
        ensures
            r == bucket_key(self),
    {
        match self {
            RateBucket::Sensitive => 0,
            RateBucket::General => 1,
        }
    }
}

/// A client address: an IPv4 address (its 32 bits) or an IPv6 address (its 128 bits).
#[derive(Debug, Clone, Copy, PartialEq, Eq, Structural)]
pub struct ClientAddr {
    pub v6: bool,
    pub bits: u128,
}

/// The start of the current window and the requests counted in it.
#[derive(Debug, Clone, Copy, PartialEq, Eq, Structural)]
pub struct WindowCounter {
    pub window_start_ms: u64,
    pub count: u32,
}

/// Window length and the requests allowed in one window.
#[derive(Debug, Clone, Copy, PartialEq, Eq, Structural)]
pub struct BucketConfig {
    pub window_ms: u64,
    pub max_requests: u32,
}

pub type CounterKey = (u8, ClientAddr);

/// Fixed-window limiter, counting per (bucket, client address).
pub struct RateLimiter {
    enabled: bool,
    sensitive: BucketConfig,
    general: BucketConfig,
    counters: Vec<(CounterKey, WindowCounter)>,
}

/// The counter stored for `key`, the last one stored if several.
pub open spec fn lookup(entries: Seq<(CounterKey, WindowCounter)>, key: CounterKey) -> Option<WindowCounter>
    decreases entries.len(),
{
    if entries.len() == 0 {
        None
    } else if entries.last().0 == key {
        Some(entries.last().1)
    } else {
        lookup(entries.drop_last(), key)
    }
}

/// Entries count at most once each key.
pub open spec fn distinct_keys(entries: Seq<(CounterKey, WindowCounter)>) -> bool {
    forall|i: int, j: int| 0 <= i < j < entries.len() ==> entries[i].0 != entries[j].0
}

/// Milliseconds from `start` to `now`, 0 when `now` is earlier.
pub open spec fn elapsed(now: u64, start: u64) -> int {
    if now >= start { now - start } else { 0 }
}

/// The counter as it stands at `now`: a fresh window when none was open or the open one has
/// run out.
pub open spec fn current_counter(found: Option<WindowCounter>, now: u64, window_ms: u64) -> WindowCounter {
    let c = match found {
        Some(c) => c,
        None => WindowCounter { window_start_ms: now, count: 0 },
    };
    if elapsed(now, c.window_start_ms) >= window_ms {
        WindowCounter { window_start_ms: now, count: 0 }
    } else {
        c
    }
}

/// `found` if its window is still open at `now`, else nothing.
pub open spec fn still_open(found: Option<WindowCounter>, now: u64, window_ms: u64) -> Option<WindowCounter> {
    match found {
        Some(c) => if elapsed(now, c.window_start_ms) < window_ms { Some(c) } else { None },
        None => None,
    }
}

/// Number of stored counters above which expired ones are swept.
pub open spec fn sweep_threshold() -> nat {
    4096
}

/// The counter of `key` after the sweep that precedes a check at `now` with windows of
/// `window_ms`: when more counters than the threshold are stored, those whose window has run
/// out are dropped.
pub open spec fn swept_counter(l: RateLimiter, key: CounterKey, now: u64, window_ms: u64) -> Option<WindowCounter> {
    if l.counter_count() > sweep_threshold() {
        still_open(l.counter(key), now, window_ms)
    } else {
        l.counter(key)
    }
}

/// What a check of `ip` in `bucket` at `now` answers and does: the client's current counter
/// (afresh when its window ran out) is compared with the bucket's limit, and counts the
/// request when it is allowed; every other counter only undergoes the sweep.
pub open spec fn check_effect(
    before: RateLimiter,
    after: RateLimiter,
    bucket: RateBucket,
    ip: ClientAddr,
    now: u64,
    allowed: bool,
) -> bool {
    let key = (bucket_key(bucket), ip);
    let config = before.config_of(bucket);
    let c = current_counter(swept_counter(before, key, now, config.window_ms), now, config.window_ms);
    &&& allowed == (c.count < config.max_requests)
    &&& after.counter(key) == Some(if allowed { WindowCounter { count: (c.count + 1) as u32, ..c } } else { c })
    &&& forall|k: CounterKey| k != key ==> #[trigger] after.counter(k) == swept_counter(before, k, now, config.window_ms)
}

impl RateLimiter {
    /// Whether limiting is switched on.
    pub closed spec fn is_enabled(&self) -> bool {
        self.enabled
    }

    /// Whether limiting is switched on.
    pub fn enabled(&self) -> (r: bool)
        ensures
            r == self.is_enabled(),
    {
        self.enabled
    }

    /// The window and limit of `bucket`.
    pub closed spec fn config_of(&self, bucket: RateBucket) -> BucketConfig {
        match bucket {
            RateBucket::Sensitive => self.sensitive,
            RateBucket::General => self.general,
        }
    }

    /// The counter of `key`.
    pub closed spec fn counter(&self, key: CounterKey) -> Option<WindowCounter> {
        lookup(self.counters@, key)
    }

    /// Number of stored counters.
    pub closed spec fn counter_count(&self) -> nat {
        self.counters@.len()
    }

    /// Counters have distinct keys, and no counter exceeds the limit of its bucket.
    pub closed spec fn wf(&self) -> bool {
        &&& distinct_keys(self.counters@)
        &&& forall|i: int| 0 <= i < self.counters@.len() ==> {
            let (k, c) = #[trigger] self.counters@[i];
            &&& (k.0 == 0 ==> c.count <= self.sensitive.max_requests)
            &&& (k.0 == 1 ==> c.count <= self.general.max_requests)
            &&& (k.0 == 0 || k.0 == 1)
        }
        &&& self.sensitive.max_requests >= 1
        &&& self.general.max_requests >= 1
    }

    /// A limiter with one-minute windows; limits below 1 are raised to 1.
    pub fn new(enabled: bool, general_max: u32, sensitive_max: u32) -> (r: RateLimiter)
        ensures
            r.wf(),
            r.is_enabled() == enabled,
            r.config_of(RateBucket::Sensitive) == (BucketConfig {
                window_ms: 60000,
                max_requests: if sensitive_max >= 1 { sensitive_max } else { 1 },
            }),
            r.config_of(RateBucket::General) == (BucketConfig {
                window_ms: 60000,
                max_requests: if general_max >= 1 { general_max } else { 1 },
            }),
            forall|k: CounterKey| r.counter(k) is None,
            r.counter_count() == 0,
    {
        RateLimiter {
            enabled,
            sensitive: BucketConfig { window_ms: 60000, max_requests: if sensitive_max >= 1 { sensitive_max } else { 1 } },
            general: BucketConfig { window_ms: 60000, max_requests: if general_max >= 1 { general_max } else { 1 } },
            counters: Vec::new(),
        }
    }

    pub fn config(&self, bucket: RateBucket) -> (r: BucketConfig)
        ensures
            r == self.config_of(bucket),
    {
        match bucket {
            RateBucket::Sensitive => self.sensitive,
            RateBucket::General => self.general,
        }
    }

    /// The window of `bucket` in whole seconds, at least 1 (for a `Retry-After` header).
    pub fn window_secs(&self, bucket: RateBucket) -> (r: u64)
        ensures
            r == if self.config_of(bucket).window_ms / 1000 >= 1 { self.config_of(bucket).window_ms / 1000 } else { 1 },
    {
        let secs = self.config(bucket).window_ms / 1000;
        if secs >= 1 { secs } else { 1 }
    }

    /// What the rate-limit middleware decides for a request to `path` from `ip` at `now_ms`:
    /// let it through (`None`) or refuse it with the seconds to wait. With limiting switched
    /// off every request goes through and nothing is counted; otherwise the request is
    /// checked in the bucket of its path, and a refusal carries that bucket's window.
    pub fn admit_request(&mut self, path: &str, ip: ClientAddr, now_ms: u64) -> (r: Option<u64>)
        requires
            old(self).wf(),
        ensures
            final(self).wf(),
            !old(self).is_enabled() ==> r is None && *final(self) == *old(self),
            old(self).is_enabled() ==> {
                let bucket = bucket_for_path(path@);
                let config = old(self).config_of(bucket);
                &&& check_effect(*old(self), *final(self), bucket, ip, now_ms, r is None)
                &&& final(self).is_enabled()
                &&& final(self).config_of(RateBucket::Sensitive) == old(self).config_of(RateBucket::Sensitive)
                &&& final(self).config_of(RateBucket::General) == old(self).config_of(RateBucket::General)
                &&& r matches Some(secs) ==> secs == if config.window_ms / 1000 >= 1 { config.window_ms / 1000 } else { 1 }
            },
    {
        if !self.enabled() {
            return None;
        }
        let bucket = RateBucket::for_path(path);
        if self.check(bucket, ip, now_ms) {
            None
        } else {
            Some(self.window_secs(bucket))
        }
    }

    /// The rate-limit middleware's answer to a request to `path` from `ip` at `now_ms`: as
    /// `admit_request` decides, nothing to let it through, or the refusal (status 429, its
    /// message, and the bucket's window in seconds for the `retry-after` header).
    pub fn refuse_request(&mut self, path: &str, ip: ClientAddr, now_ms: u64) -> (r: Option<RateLimitRefusal>)
        requires
            old(self).wf(),
        ensures
            final(self).wf(),
            !old(self).is_enabled() ==> r is None && *final(self) == *old(self),
            old(self).is_enabled() ==> {
                let bucket = bucket_for_path(path@);
                let config = old(self).config_of(bucket);
                let secs = if config.window_ms / 1000 >= 1 { config.window_ms / 1000 } else { 1 };
                &&& check_effect(*old(self), *final(self), bucket, ip, now_ms, r is None)
                &&& final(self).is_enabled()
                &&& final(self).config_of(RateBucket::Sensitive) == old(self).config_of(RateBucket::Sensitive)
                &&& final(self).config_of(RateBucket::General) == old(self).config_of(RateBucket::General)
                &&& r matches Some(refusal) ==> refusal.error.status == TOO_MANY_REQUESTS
                    && refusal.error.message@ == "rate limit exceeded, please retry later"@
                    && refusal.retry_after@ == decimal(secs as nat)
            },
    {
        match self.admit_request(path, ip, now_ms) {
            Some(secs) => Some(refusal_response(secs)),
            None => None,
        }
    }

    fn sweep(&mut self, now_ms: u64, window_ms: u64)
        requires
            old(self).wf(),
        ensures
            final(self).wf(),
            final(self).is_enabled() == old(self).is_enabled(),
            final(self).sensitive == old(self).sensitive,
            final(self).general == old(self).general,
            forall|k: CounterKey| #[trigger] final(self).counter(k) == still_open(old(self).counter(k), now_ms, window_ms),
    {
        let ghost before = self.counters@;
        let mut kept: Vec<(CounterKey, WindowCounter)> = Vec::new();
        let mut k: usize = 0;
        while k < self.counters.len()
            invariant
                k <= self.counters.len(),
                before == self.counters@,
                self.wf(),
                distinct_keys(kept@),
                forall|i: int| 0 <= i < kept@.len() ==> exists|j: int| 0 <= j < k && before[j] == #[trigger] kept@[i],
                forall|key: CounterKey| #[trigger] lookup(kept@, key) == still_open(lookup(before.take(k as int), key), now_ms, window_ms),
            decreases self.counters.len() - k,
        {
            let e = self.counters[k];
            proof {
                assert(before.take(k + 1).drop_last() =~= before.take(k as int));
                assert(before.take(k + 1).last() == e);
                lemma_lookup_absent(before.take(k as int), e.0, before, k as int);
            }
            let fresh = if now_ms >= e.1.window_start_ms { now_ms - e.1.window_start_ms < window_ms } else { 0 < window_ms };
            if fresh {
                let ghost old_kept = kept@;
                kept.push(e);
                proof {
                    assert forall|i: int, j: int| 0 <= i < j < kept@.len() implies kept@[i].0 != kept@[j].0 by {
                        if j == kept@.len() - 1 {
                            let jj = choose|jj: int| 0 <= jj < k && before[jj] == #[trigger] old_kept[i];
                            assert(before[jj].0 != before[k as int].0);
                        }
                    }
                    assert forall|i: int| 0 <= i < kept@.len() implies exists|j: int| 0 <= j < k + 1 && before[j] == #[trigger] kept@[i] by {
                        if i == kept@.len() - 1 {
                            assert(before[k as int] == kept@[i]);
                        } else {
                            assert(kept@[i] == old_kept[i]);
                        }
                    }
                    assert forall|key: CounterKey| #[trigger] lookup(kept@, key) == still_open(lookup(before.take(k + 1), key), now_ms, window_ms) by {
                        assert(kept@.drop_last() =~= old_kept);
                        assert(before.take(k + 1).drop_last() =~= before.take(k as int));
                        assert(before.take(k + 1).last() == e);
                        if key != e.0 {
                            assert(lookup(kept@, key) == lookup(old_kept, key));
                            assert(lookup(before.take(k + 1), key) == lookup(before.take(k as int), key));
                        }
                    }
                }
            } else {
                proof {
                    assert forall|key: CounterKey| #[trigger] lookup(kept@, key) == still_open(lookup(before.take(k + 1), key), now_ms, window_ms) by {
                        assert(before.take(k + 1).drop_last() =~= before.take(k as int));
                        assert(before.take(k + 1).last() == e);
                        if key == e.0 {
                            assert(lookup(before.take(k + 1), key) == Some(e.1));
                            lemma_lookup_none_of_absent(kept@, key, before, k as int);
                        } else {
                            assert(lookup(before.take(k + 1), key) == lookup(before.take(k as int), key));
                        }
                    }
                }
            }
            k += 1;
        }
        assert(before.take(k as int) =~= before);
        proof {
            assert forall|i: int| 0 <= i < kept@.len() implies {
                let (kk, c) = #[trigger] kept@[i];
                &&& (kk.0 == 0 ==> c.count <= self.sensitive.max_requests)
                &&& (kk.0 == 1 ==> c.count <= self.general.max_requests)
                &&& (kk.0 == 0 || kk.0 == 1)
            } by {
                let j = choose|j: int| 0 <= j < k && before[j] == #[trigger] kept@[i];
                let _ = self.counters@[j];
            }
        }
        self.counters = kept;
    }

    /// Counts a request of client `ip` in `bucket` at time `now_ms` and says whether it is
    /// allowed. A window that has run out starts afresh at `now_ms`; a request beyond the
    /// bucket's limit is refused and not counted. When more than 4096 counters are stored,
    /// those whose window has run out (by the window of `bucket`) are dropped first.
    pub fn check(&mut self, bucket: RateBucket, ip: ClientAddr, now_ms: u64) -> (r: bool)
        requires
            old(self).wf(),
        ensures
            final(self).wf(),
            final(self).is_enabled() == old(self).is_enabled(),
            final(self).config_of(RateBucket::Sensitive) == old(self).config_of(RateBucket::Sensitive),
            final(self).config_of(RateBucket::General) == old(self).config_of(RateBucket::General),
            check_effect(*old(self), *final(self), bucket, ip, now_ms, r),
    {
        let config = self.config(bucket);
        let ghost swept = |k: CounterKey| if old(self).counter_count() > sweep_threshold() {
            still_open(old(self).counter(k), now_ms, config.window_ms)
        } else {
            old(self).counter(k)
        };
        if self.counters.len() > 4096 {
            self.sweep(now_ms, config.window_ms);
        }
        assert forall|k: CounterKey| #[trigger] self.counter(k) == swept(k) by {}
        let key: CounterKey = (bucket.as_key(), ip);
        let mut idx: usize = 0;
        let mut found: Option<usize> = None;
        while idx < self.counters.len()
            invariant
                idx <= self.counters.len(),
                self.wf(),
                forall|k: CounterKey| #[trigger] self.counter(k) == swept(k),
                found is None ==> forall|j: int| 0 <= j < idx ==> self.counters@[j].0 != key,
                found matches Some(f) ==> f < self.counters.len() && self.counters@[f as int].0 == key,
            decreases self.counters.len() - idx,
        {
            let stored_key = self.counters[idx].0;
            if found.is_none() && stored_key.0 == key.0 && stored_key.1 == key.1 {
                found = Some(idx);
            }
            idx += 1;
        }
        let ghost before = self.counters@;
        assert forall|k: CounterKey| #[trigger] lookup(before, k) == swept(k) by {
            assert(self.counter(k) == swept(k));
        }
        proof {
            match found {
                Some(f) => lemma_lookup_distinct(before, key, f as int),
                None => lemma_lookup_missing(before, key),
            }
        }
        let stored = match found {
            Some(f) => self.counters[f].1,
            None => WindowCounter { window_start_ms: now_ms, count: 0 },
        };
        let expired = if now_ms >= stored.window_start_ms {
            now_ms - stored.window_start_ms >= config.window_ms
        } else {
            0 >= config.window_ms
        };
        let mut c = if expired { WindowCounter { window_start_ms: now_ms, count: 0 } } else { stored };
        let allowed = c.count < config.max_requests;
        if allowed {
            c.count = c.count + 1;
        }
        match found {
            Some(f) => {
                self.counters.set(f, (key, c));
                proof {
                    lemma_lookup_update(before, key, f as int, c);
                }
            },
            None => {
                self.counters.push((key, c));
                proof {
                    lemma_lookup_push(before, key, c);
                }
            },
        }
        proof {
            let ghost cur = current_counter(swept(key), now_ms, config.window_ms);
            assert(lookup(before, key) == swept(key));
            assert(c.count == if allowed { cur.count + 1 } else { cur.count as int });
            assert(allowed == (cur.count < config.max_requests));
            assert(self.counter(key) == Some(c));
            assert forall|k: CounterKey| k != key implies #[trigger] self.counter(k) == swept(k) by {
                assert(lookup(before, k) == swept(k));
            }
            assert forall|i: int| 0 <= i < self.counters@.len() implies {
                let (kk, cc) = #[trigger] self.counters@[i];
                &&& (kk.0 == 0 ==> cc.count <= self.sensitive.max_requests)
                &&& (kk.0 == 1 ==> cc.count <= self.general.max_requests)
                &&& (kk.0 == 0 || kk.0 == 1)
            } by {
                if i < before.len() && before[i].0 != key {
                    let _ = before[i];
                }
            }
        }
        allowed
    }
}

proof fn lemma_lookup_absent(prefix: Seq<(CounterKey, WindowCounter)>, key: CounterKey, all: Seq<(CounterKey, WindowCounter)>, k: int)
    requires
        0 <= k < all.len(),
        prefix == all.take(k),
        distinct_keys(all),
        key == all[k].0,
    ensures
        lookup(prefix, key) is None,
{
    lemma_lookup_missing(prefix, key);
}

proof fn lemma_lookup_none_of_absent(kept: Seq<(CounterKey, WindowCounter)>, key: CounterKey, all: Seq<(CounterKey, WindowCounter)>, k: int)
    requires
        0 <= k < all.len(),
        distinct_keys(all),
        key == all[k].0,
        forall|i: int| 0 <= i < kept.len() ==> exists|j: int| 0 <= j < k && all[j] == #[trigger] kept[i],
    ensures
        lookup(kept, key) is None,
{
    assert forall|i: int| 0 <= i < kept.len() implies kept[i].0 != key by {
        let j = choose|j: int| 0 <= j < k && all[j] == #[trigger] kept[i];
        assert(all[j].0 != all[k].0);
    }
    lemma_lookup_missing(kept, key);
}

proof fn lemma_lookup_missing(entries: Seq<(CounterKey, WindowCounter)>, key: CounterKey)
    ensures
        (forall|i: int| 0 <= i < entries.len() ==> entries[i].0 != key) ==> lookup(entries, key) is None,
        lookup(entries, key) is None ==> forall|i: int| 0 <= i < entries.len() ==> entries[i].0 != key,
    decreases entries.len(),
{
    if entries.len() > 0 {
        lemma_lookup_missing(entries.drop_last(), key);
        if lookup(entries, key) is None {
            assert forall|i: int| 0 <= i < entries.len() implies entries[i].0 != key by {
                if i < entries.len() - 1 {
                    assert(entries.drop_last()[i] == entries[i]);
                }
            }
        }
    }
}

proof fn lemma_lookup_distinct(entries: Seq<(CounterKey, WindowCounter)>, key: CounterKey, f: int)
    requires
        0 <= f < entries.len(),
        distinct_keys(entries),
        entries[f].0 == key,
    ensures
        lookup(entries, key) == Some(entries[f].1),
    decreases entries.len(),
{
    if f < entries.len() - 1 {
        assert(entries.last().0 != key);
        lemma_lookup_distinct(entries.drop_last(), key, f);
    }
}

proof fn lemma_lookup_update(entries: Seq<(CounterKey, WindowCounter)>, key: CounterKey, f: int, c: WindowCounter)
    requires
        0 <= f < entries.len(),
        distinct_keys(entries),
        entries[f].0 == key,
    ensures
        distinct_keys(entries.update(f, (key, c))),
        lookup(entries.update(f, (key, c)), key) == Some(c),
        forall|k: CounterKey| k != key ==> lookup(entries.update(f, (key, c)), k) == lookup(entries, k),
    decreases entries.len(),
{
    let u = entries.update(f, (key, c));
    assert forall|i: int, j: int| 0 <= i < j < u.len() implies u[i].0 != u[j].0 by {
        assert(entries[i].0 != entries[j].0);
    }
    lemma_lookup_distinct(u, key, f);
    assert forall|k: CounterKey| k != key implies lookup(u, k) == lookup(entries, k) by {
        lemma_lookup_other(entries, key, f, c, k);
    }
}

proof fn lemma_lookup_other(entries: Seq<(CounterKey, WindowCounter)>, key: CounterKey, f: int, c: WindowCounter, k: CounterKey)
    requires
        0 <= f < entries.len(),
        entries[f].0 == key,
        k != key,
    ensures
        lookup(entries.update(f, (key, c)), k) == lookup(entries, k),
    decreases entries.len(),
{
    let u = entries.update(f, (key, c));
    if f < entries.len() - 1 {
        assert(u.drop_last() =~= entries.drop_last().update(f, (key, c)));
        lemma_lookup_other(entries.drop_last(), key, f, c, k);
    } else {
        assert(u.drop_last() =~= entries.drop_last());
    }
}

proof fn lemma_lookup_push(entries: Seq<(CounterKey, WindowCounter)>, key: CounterKey, c: WindowCounter)
    requires
        distinct_keys(entries),
        forall|i: int| 0 <= i < entries.len() ==> entries[i].0 != key,
    ensures
        distinct_keys(entries.push((key, c))),
        lookup(entries.push((key, c)), key) == Some(c),
        forall|k: CounterKey| k != key ==> lookup(entries.push((key, c)), k) == lookup(entries, k),
{
    let u = entries.push((key, c));
    assert(u.drop_last() =~= entries);
}


// ---------------------------------------------------------------- laws

/// The limit of the bucket whose key is `k`.
pub open spec fn limit_of(l: RateLimiter, k: u8) -> u32 {
    if k == 0 {
        l.config_of(RateBucket::Sensitive).max_requests
    } else {
        l.config_of(RateBucket::General).max_requests
    }
}

proof fn lemma_lookup_found(entries: Seq<(CounterKey, WindowCounter)>, key: CounterKey)
    ensures
        lookup(entries, key) matches Some(c) ==> exists|i: int| 0 <= i < entries.len() && entries[i] == (key, c),
    decreases entries.len(),
{
    if entries.len() > 0 {
        lemma_lookup_found(entries.drop_last(), key);
        if entries.last().0 != key {
            match lookup(entries, key) {
                Some(c) => {
                    let i = choose|i: int| 0 <= i < entries.drop_last().len() && entries.drop_last()[i] == (key, c);
                    assert(entries[i] == (key, c));
                },
                None => {},
            }
        } else {
            assert(entries[entries.len() - 1] == entries.last());
        }
    }
}

/// No client ever has more requests counted in a window than its bucket allows.
pub proof fn law_counts_within_limit(l: RateLimiter, key: CounterKey)
    requires
        l.wf(),
    ensures
        l.counter(key) matches Some(c) ==> c.count <= limit_of(l, key.0),
{
    lemma_lookup_found(l.counters@, key);
    match l.counter(key) {
        Some(c) => {
            let i = choose|i: int| 0 <= i < l.counters@.len() && l.counters@[i] == (key, c);
            let _ = l.counters@[i];
        },
        None => {},
    }
}

/// The first request of a client in a bucket is allowed, and opens a window at that time.
pub proof fn law_first_request_allowed(before: RateLimiter, after: RateLimiter, bucket: RateBucket, ip: ClientAddr, now: u64, allowed: bool)
    requires
        before.wf(),
        check_effect(before, after, bucket, ip, now, allowed),
        before.counter((bucket_key(bucket), ip)) is None,
    ensures
        allowed,
        after.counter((bucket_key(bucket), ip)) == Some(WindowCounter { window_start_ms: now, count: 1 }),
{
}

/// A request after its client's window has run out is allowed, and opens a new window.
pub proof fn law_expired_window_restarts(before: RateLimiter, after: RateLimiter, bucket: RateBucket, ip: ClientAddr, now: u64, allowed: bool)
    requires
        before.wf(),
        check_effect(before, after, bucket, ip, now, allowed),
        before.counter((bucket_key(bucket), ip)) matches Some(c) && elapsed(now, c.window_start_ms) >= before.config_of(bucket).window_ms,
    ensures
        allowed,
        after.counter((bucket_key(bucket), ip)) == Some(WindowCounter { window_start_ms: now, count: 1 }),
{
}

/// A refused request leaves its client at the limit, in a window that is still open at the
/// time of the request.
pub proof fn law_refusal_leaves_counter_at_limit(before: RateLimiter, after: RateLimiter, bucket: RateBucket, ip: ClientAddr, now: u64)
    requires
        before.wf(),
        check_effect(before, after, bucket, ip, now, false),
    ensures
        after.counter((bucket_key(bucket), ip)) matches Some(c) && c.count >= before.config_of(bucket).max_requests
            && elapsed(now, c.window_start_ms) < before.config_of(bucket).window_ms,
{
}

/// While the window of a client at the limit is open, every further request is refused and
/// leaves the counter as it was.
pub proof fn law_limit_holds_for_the_window(before: RateLimiter, after: RateLimiter, bucket: RateBucket, ip: ClientAddr, now: u64, allowed: bool)
    requires
        before.wf(),
        check_effect(before, after, bucket, ip, now, allowed),
        before.counter((bucket_key(bucket), ip)) matches Some(c) && c.count >= before.config_of(bucket).max_requests
            && elapsed(now, c.window_start_ms) < before.config_of(bucket).window_ms,
    ensures
        !allowed,
        after.counter((bucket_key(bucket), ip)) == before.counter((bucket_key(bucket), ip)),
{
}

/// A request counts only against its own client and bucket: any other counter afterwards is
/// one that was there before.
pub proof fn law_other_counters_untouched(
    before: RateLimiter,
    after: RateLimiter,
    bucket: RateBucket,
    ip: ClientAddr,
    now: u64,
    allowed: bool,
    other: CounterKey,
)
    requires
        before.wf(),
        check_effect(before, after, bucket, ip, now, allowed),
        other != (bucket_key(bucket), ip),
    ensures
        after.counter(other) matches Some(c) ==> before.counter(other) == Some(c),
{
    assert(after.counter(other) == swept_counter(before, other, now, before.config_of(bucket).window_ms));
}

/// The counter key of a call `(bucket, client, time)`.
pub open spec fn call_key(call: (RateBucket, ClientAddr, u64)) -> CounterKey {
    (bucket_key(call.0), call.1)
}

/// A run of checks from `states[0]`: call `j` takes `states[j]` to `states[j + 1]` and is
/// answered `answers[j]`, the buckets' settings staying as they were.
pub open spec fn check_run(states: Seq<RateLimiter>, calls: Seq<(RateBucket, ClientAddr, u64)>, answers: Seq<bool>) -> bool {
    &&& states.len() == calls.len() + 1
    &&& answers.len() == calls.len()
    &&& forall|j: int| 0 <= j < calls.len() ==> #[trigger] check_effect(states[j], states[j + 1], calls[j].0, calls[j].1, calls[j].2, answers[j])
    &&& forall|j: int| 0 <= j < calls.len() ==> (#[trigger] states[j + 1]).config_of(RateBucket::Sensitive) == states[j].config_of(RateBucket::Sensitive)
        && states[j + 1].config_of(RateBucket::General) == states[j].config_of(RateBucket::General)
}

/// How many of the calls `from..to` are for `key`.
pub open spec fn key_calls(calls: Seq<(RateBucket, ClientAddr, u64)>, key: CounterKey, from: int, to: int) -> nat
    decreases to - from,
{
    if to <= from {
        0
    } else {
        key_calls(calls, key, from, to - 1) + if call_key(calls[to - 1]) == key { 1nat } else { 0nat }
    }
}

spec fn capped(n: nat, limit: u32) -> nat {
    if n < limit { n } else { limit as nat }
}

proof fn lemma_bucket_key_injective(a: RateBucket, b: RateBucket)
    ensures
        bucket_key(a) == bucket_key(b) ==> a == b,
{
}

/// The state of a client's counter along a run whose calls all come before its first call's
/// window ends.
proof fn lemma_run_counter(
    states: Seq<RateLimiter>,
    calls: Seq<(RateBucket, ClientAddr, u64)>,
    answers: Seq<bool>,
    key: CounterKey,
    first: int,
    j: int,
)
    requires
        check_run(states, calls, answers),
        forall|k: CounterKey| #[trigger] states[0].counter(k) is None,
        states[0].config_of(RateBucket::Sensitive).window_ms == 60000,
        states[0].config_of(RateBucket::General).window_ms == 60000,
        0 <= first < calls.len(),
        call_key(calls[first]) == key,
        forall|i: int| 0 <= i < first ==> call_key(#[trigger] calls[i]) != key,
        forall|i: int| first <= i < calls.len() ==> (#[trigger] calls[i]).2 < calls[first].2 + 60000,
        0 <= j <= calls.len(),
    ensures
        states[j].config_of(RateBucket::Sensitive) == states[0].config_of(RateBucket::Sensitive),
        states[j].config_of(RateBucket::General) == states[0].config_of(RateBucket::General),
        j <= first ==> states[j].counter(key) is None,
        j > first ==> states[j].counter(key) == Some(WindowCounter {
            window_start_ms: calls[first].2,
            count: capped(key_calls(calls, key, first, j), states[0].config_of(calls[first].0).max_requests) as u32,
        }),
    decreases j,
{
    if j > 0 {
        let p = j - 1;
        lemma_run_counter(states, calls, answers, key, first, p);
        let call = calls[p];
        let before = states[p];
        let after = states[p + 1];
        assert(check_effect(before, after, call.0, call.1, call.2, answers[p]));
        assert(after.config_of(RateBucket::Sensitive) == before.config_of(RateBucket::Sensitive));
        let window = before.config_of(call.0).window_ms;
        assert(window == 60000);
        let limit = states[0].config_of(calls[first].0).max_requests;
        if call_key(call) == key {
            lemma_bucket_key_injective(call.0, calls[first].0);
            assert(before.config_of(call.0) == states[0].config_of(calls[first].0));
            if p == first {
                assert(before.counter(key) is None);
                assert(key_calls(calls, key, first, first) == 0);
                assert(key_calls(calls, key, first, j) == 1);
            } else {
                assert(call.2 < calls[first].2 + 60000);
                assert(key_calls(calls, key, first, j) == key_calls(calls, key, first, p) + 1);
            }
        } else {
            assert(after.counter(key) == swept_counter(before, key, call.2, window));
            if p > first {
                assert(call.2 < calls[first].2 + 60000);
                assert(key_calls(calls, key, first, j) == key_calls(calls, key, first, p));
            } else if p == first {
                assert(false);
            }
        }
    }
}

/// Within one window, a client's requests in a bucket are allowed up to the bucket's limit
/// and refused after it, however many requests of other clients or buckets come between:
/// the k-th request of a fresh client (counting from its first one) is allowed exactly when
/// k is at most the limit. The run starts from a limiter with no counters and one-minute
/// windows, and every request of the run falls within a minute of the client's first one.
pub proof fn law_requests_allowed_up_to_limit(
    states: Seq<RateLimiter>,
    calls: Seq<(RateBucket, ClientAddr, u64)>,
    answers: Seq<bool>,
    first: int,
)
    requires
        check_run(states, calls, answers),
        forall|k: CounterKey| #[trigger] states[0].counter(k) is None,
        states[0].config_of(RateBucket::Sensitive).window_ms == 60000,
        states[0].config_of(RateBucket::General).window_ms == 60000,
        0 <= first < calls.len(),
        forall|i: int| 0 <= i < first ==> call_key(#[trigger] calls[i]) != call_key(calls[first]),
        forall|i: int| first <= i < calls.len() ==> (#[trigger] calls[i]).2 < calls[first].2 + 60000,
    ensures
        forall|j: int|
            first <= j < calls.len() && #[trigger] call_key(calls[j]) == call_key(calls[first]) ==> (answers[j] <==> key_calls(
                calls,
                call_key(calls[first]),
                first,
                j + 1,
            ) <= states[0].config_of(calls[first].0).max_requests),
{
    let key = call_key(calls[first]);
    let limit = states[0].config_of(calls[first].0).max_requests;
    assert forall|j: int| first <= j < calls.len() && #[trigger] call_key(calls[j]) == key implies (answers[j] <==> key_calls(
        calls,
        key,
        first,
        j + 1,
    ) <= limit) by {
        lemma_run_counter(states, calls, answers, key, first, j);
        lemma_bucket_key_injective(calls[j].0, calls[first].0);
        let before = states[j];
        assert(check_effect(before, states[j + 1], calls[j].0, calls[j].1, calls[j].2, answers[j]));
        assert(before.config_of(calls[j].0) == states[0].config_of(calls[first].0));
        assert(key_calls(calls, key, first, j + 1) == key_calls(calls, key, first, j) + 1);
        if j == first {
            assert(key_calls(calls, key, first, j) == 0);
        }
    }
}

/// The same law for a limiter as `RateLimiter::new(enabled, general_max, sensitive_max)`
/// makes it, driven by `check` calls (whose contract is a step of `check_run`): within a
/// minute of a client's first request in a bucket, its k-th request there is allowed exactly
/// when k is at most that bucket's maximum (sensitive or general), taken as at least 1.
pub proof fn law_fresh_limiter_allows_up_to_limit(
    states: Seq<RateLimiter>,
    calls: Seq<(RateBucket, ClientAddr, u64)>,
    answers: Seq<bool>,
    first: int,
    general_max: u32,
    sensitive_max: u32,
)
    requires
        check_run(states, calls, answers),
        forall|k: CounterKey| #[trigger] states[0].counter(k) is None,
        states[0].config_of(RateBucket::Sensitive) == (BucketConfig {
            window_ms: 60000,
            max_requests: if sensitive_max >= 1 { sensitive_max } else { 1 },
        }),
        states[0].config_of(RateBucket::General) == (BucketConfig {
            window_ms: 60000,
            max_requests: if general_max >= 1 { general_max } else { 1 },
        }),
        0 <= first < calls.len(),
        forall|i: int| 0 <= i < first ==> call_key(#[trigger] calls[i]) != call_key(calls[first]),
        forall|i: int| first <= i < calls.len() ==> (#[trigger] calls[i]).2 < calls[first].2 + 60000,
    ensures
        forall|j: int|
            first <= j < calls.len() && #[trigger] call_key(calls[j]) == call_key(calls[first]) ==> (answers[j] <==> key_calls(
                calls,
                call_key(calls[first]),
                first,
                j + 1,
            ) <= ({
                let lim = if calls[first].0 == RateBucket::Sensitive { sensitive_max } else { general_max };
                if lim >= 1 { lim } else { 1 }
            })),
{
    law_requests_allowed_up_to_limit(states, calls, answers, first);
}

/// Whether a setting value turns limiting off: "0", "false", "off" or "no", around
/// whitespace and in any ASCII case.
pub open spec fn turns_off(value: Seq<char>) -> bool {
    let v = lower(trim(value));
    v == "0"@ || v == "false"@ || v == "off"@ || v == "no"@
}

/// The switch turns limiting off exactly for the words "0", "false", "off" and "no", in any
/// ASCII case and with any whitespace around them; every other value, and no value at all,
/// leaves it on.
pub proof fn law_switch_off_words(value: Seq<char>)
    ensures
        turns_off(value) <==> set!["0"@, "false"@, "off"@, "no"@].contains(lower(trim(value))),
{
}

/// Whether limiting is on for the setting `value`: on unless it is set and turns it off.
pub fn limiting_switched_on(value: Option<&str>) -> (r: bool)
    ensures
        r == !(value matches Some(v) && turns_off(v@)),
{
    match value {
        Some(v) => {
            let t = trim_lower(v);
            proof {
                reveal_strlit("0");
                reveal_strlit("false");
                reveal_strlit("off");
                reveal_strlit("no");
            }
            !(chars_eq(&t, &to_chars("0")) || chars_eq(&t, &to_chars("false")) || chars_eq(&t, &to_chars("off"))
                || chars_eq(&t, &to_chars("no")))
        },
        None => true,
    }
}

/// The HTTP status of a refused request.
pub const TOO_MANY_REQUESTS: u16 = 429;

/// The answer to a refused request: status 429 with the message below, and the seconds to
/// wait in its `retry-after` header.
pub struct RateLimitRefusal {
    pub error: ApiError,
    pub retry_after: String,
}

/// The refusal of a request that must wait `retry_after_secs` seconds.
pub fn refusal_response(retry_after_secs: u64) -> (r: RateLimitRefusal)
    ensures
        r.error.status == TOO_MANY_REQUESTS,
        r.error.message@ == "rate limit exceeded, please retry later"@,
        r.retry_after@ == decimal(retry_after_secs as nat),
{
    RateLimitRefusal {
        error: ApiError { status: TOO_MANY_REQUESTS, message: "rate limit exceeded, please retry later".to_owned() },
        retry_after: from_chars(&decimal_chars(retry_after_secs)),
    }
}

} // verus!
