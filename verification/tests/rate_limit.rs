use memori_vault::auth::SessionStore;
use memori_vault::rate_limit::{ClientAddr, RateBucket, RateLimiter};
use memori_vault::sessions::end_session;

fn ip(n: u8) -> ClientAddr {
    ClientAddr { v6: false, bits: u128::from(u32::from_be_bytes([10, 0, 0, n])) }
}

#[test]
fn allows_up_to_limit_then_blocks_within_window() {
    let mut limiter = RateLimiter::new(true, 600, 3);
    let now = 1_000_000;
    assert!(limiter.check(RateBucket::Sensitive, ip(1), now));
    assert!(limiter.check(RateBucket::Sensitive, ip(1), now + 1));
    assert!(limiter.check(RateBucket::Sensitive, ip(1), now + 2));
    assert!(!limiter.check(RateBucket::Sensitive, ip(1), now + 3));
}

#[test]
fn window_resets_after_expiry() {
    let mut limiter = RateLimiter::new(true, 600, 2);
    let now = 1_000_000;
    assert!(limiter.check(RateBucket::Sensitive, ip(1), now));
    assert!(limiter.check(RateBucket::Sensitive, ip(1), now + 1));
    assert!(!limiter.check(RateBucket::Sensitive, ip(1), now + 2));
    assert!(limiter.check(RateBucket::Sensitive, ip(1), now + 60_001));
}

#[test]
fn buckets_and_ips_are_independent() {
    let mut limiter = RateLimiter::new(true, 600, 1);
    let now = 1_000_000;
    assert!(limiter.check(RateBucket::Sensitive, ip(1), now));
    assert!(limiter.check(RateBucket::General, ip(1), now));
    assert!(!limiter.check(RateBucket::Sensitive, ip(1), now + 1));
    assert!(limiter.check(RateBucket::Sensitive, ip(2), now + 1));
}

#[test]
fn sensitive_paths_use_sensitive_bucket() {
    assert_eq!(RateBucket::for_path("/api/auth/oidc/login"), RateBucket::Sensitive);
    assert_eq!(RateBucket::for_path("/api/admin/metrics"), RateBucket::Sensitive);
    assert_eq!(RateBucket::for_path("/api/ask"), RateBucket::General);
    assert_eq!(RateBucket::for_path("/api/health"), RateBucket::General);
}

#[test]
fn limits_below_one_are_raised_and_window_is_a_minute() {
    let mut limiter = RateLimiter::new(false, 0, 0);
    assert!(!limiter.enabled());
    assert_eq!(limiter.config(RateBucket::General).max_requests, 1);
    assert_eq!(limiter.config(RateBucket::Sensitive).window_ms, 60_000);
    assert_eq!(limiter.window_secs(RateBucket::Sensitive), 60);
    assert!(limiter.check(RateBucket::General, ip(3), 5));
    assert!(!limiter.check(RateBucket::General, ip(3), 6));
}

#[test]
fn refused_requests_are_not_counted_and_v6_addresses_are_separate() {
    let mut limiter = RateLimiter::new(true, 2, 2);
    let v6 = ClientAddr { v6: true, bits: u128::from(u32::from_be_bytes([10, 0, 0, 1])) };
    for t in 0..2 {
        assert!(limiter.check(RateBucket::General, ip(1), t));
    }
    for t in 2..10 {
        assert!(!limiter.check(RateBucket::General, ip(1), t));
    }
    assert!(limiter.check(RateBucket::General, v6, 10));
    assert!(limiter.check(RateBucket::General, ip(1), 60_000));
}

/// The status a request to `path` without credentials gets: 429 when the limiter refuses it,
/// otherwise what the logout handler answers.
fn logout_status(limiter: &mut RateLimiter, sessions: &mut SessionStore, path: &str, now_ms: u64) -> u16 {
    if limiter.enabled() {
        let bucket = RateBucket::for_path(path);
        if !limiter.check(bucket, ClientAddr { v6: false, bits: 0 }, now_ms) {
            return 429;
        }
    }
    match end_session(sessions, None) {
        Ok(_) => 200,
        Err(e) => e.status,
    }
}

#[test]
fn sensitive_endpoint_rate_limited_after_threshold() {
    let mut limiter = RateLimiter::new(true, 600, 2);
    let mut sessions = SessionStore::new();
    let statuses: Vec<u16> =
        (0..3).map(|i| logout_status(&mut limiter, &mut sessions, "/api/auth/logout", 1_000 + i)).collect();
    assert_eq!(statuses[0], 401);
    assert_eq!(statuses[1], 401);
    assert_eq!(statuses[2], 429);
}

#[test]
fn rate_limit_disabled_lets_all_through() {
    let mut limiter = RateLimiter::new(false, 600, 1);
    let mut sessions = SessionStore::new();
    for i in 0..5 {
        assert_ne!(logout_status(&mut limiter, &mut sessions, "/api/auth/logout", 1_000 + i), 429);
    }
}

#[test]
fn interleaved_clients_do_not_share_a_window() {
    let mut limiter = RateLimiter::new(true, 3, 1);
    let a = ClientAddr { v6: false, bits: 1 };
    let b = ClientAddr { v6: false, bits: 2 };
    let mut answers = Vec::new();
    for (k, t) in [0u64, 10, 20, 30, 40].iter().enumerate() {
        answers.push(limiter.check(RateBucket::General, a, *t));
        assert!(limiter.check(RateBucket::General, b, *t + 1) == (k < 3));
        limiter.check(RateBucket::Sensitive, a, *t + 2);
    }
    assert_eq!(answers, vec![true, true, true, false, false]);
}

#[test]
fn limiting_switch_and_admission() {
    assert!(memori_vault::rate_limit::limiting_switched_on(None));
    assert!(memori_vault::rate_limit::limiting_switched_on(Some("yes")));
    assert!(!memori_vault::rate_limit::limiting_switched_on(Some(" OFF ")));
    assert!(!memori_vault::rate_limit::limiting_switched_on(Some("0")));
    let mut off = RateLimiter::new(false, 1, 1);
    for t in 0..5u64 {
        assert_eq!(off.admit_request("/api/auth/oidc/login", ip(1), t), None);
    }
    let mut on = RateLimiter::new(true, 600, 1);
    assert_eq!(on.admit_request("/api/auth/oidc/login", ip(1), 0), None);
    assert_eq!(on.admit_request("/api/auth/oidc/login", ip(1), 1), Some(60));
    assert_eq!(on.admit_request("/api/ask", ip(1), 2), None);
}

#[test]
fn refusal_carries_status_message_and_retry_after() {
    let r = memori_vault::rate_limit::refusal_response(60);
    assert_eq!(r.error.status, 429);
    assert_eq!(r.error.message, "rate limit exceeded, please retry later");
    assert_eq!(r.retry_after, "60");
}

#[test]
fn middleware_refuses_with_429_after_the_limit() {
    let mut on = RateLimiter::new(true, 600, 2);
    assert!(on.refuse_request("/api/auth/oidc/login", ip(3), 0).is_none());
    assert!(on.refuse_request("/api/auth/oidc/login", ip(3), 10).is_none());
    let refusal = on.refuse_request("/api/auth/oidc/login", ip(3), 20).expect("refused");
    assert_eq!(refusal.error.status, 429);
    assert_eq!(refusal.error.message, "rate limit exceeded, please retry later");
    assert_eq!(refusal.retry_after, "60");
    let mut off = RateLimiter::new(false, 1, 1);
    for t in 0..5u64 {
        assert!(off.refuse_request("/api/auth/oidc/login", ip(3), t).is_none());
    }
}
