//! Wall-clock readings as plain numbers: seconds and milliseconds since the Unix epoch, and
//! the decimal token built from the seconds.
use crate::text::{decimal, decimal_chars, from_chars};
use vstd::prelude::*;

verus! {

#[verifier::external_type_specification]
#[verifier::external_body]
pub struct ExSystemTime(std::time::SystemTime);

/// `SystemTime::now`: the current time of the system clock. It depends on the clock, so
/// nothing is stated of it.
#[verifier::external_body]
fn system_now() -> (r: std::time::SystemTime) {
    std::time::SystemTime::now()
}

/// `SystemTime::duration_since(UNIX_EPOCH)`: the time since the Unix epoch as whole seconds
/// and the nanoseconds beyond them, or `None` for a time before the epoch. A `SystemTime` is
/// opaque here, so which duration comes back is not stated, only that the nanoseconds stay
/// below one second, as `Duration` keeps them.
#[verifier::external_body]
fn since_unix_epoch(time: std::time::SystemTime) -> (r: Option<(u64, u32)>)
    ensures
        r matches Some(d) ==> d.1 < 1_000_000_000,
{
    time.duration_since(std::time::UNIX_EPOCH).ok().map(|d| (d.as_secs(), d.subsec_nanos()))
}

/// Whole milliseconds of a duration of `secs` seconds and `nanos` nanoseconds.
pub open spec fn millis(secs: u64, nanos: u32) -> int {
    secs as int * 1000 + nanos as int / 1_000_000
}

/// The milliseconds of a time since the epoch, when it is not before the epoch.
pub fn millis_since_epoch(elapsed: Option<(u64, u32)>) -> (r: Option<u128>)
    ensures
        match elapsed {
            Some(d) => r == Some(millis(d.0, d.1) as u128),
            None => r is None,
        },
{
    match elapsed {
        Some(d) => {
            let secs: u128 = d.0 as u128;
            let nanos: u128 = d.1 as u128;
            assert(secs * 1000 + nanos / 1_000_000 <= u128::MAX) by (nonlinear_arith)
                requires
                    secs <= u64::MAX,
                    nanos <= u32::MAX,
            ;
            Some(secs * 1000 + nanos / 1_000_000)
        },
        None => None,
    }
}

/// Milliseconds from the Unix epoch to `time`, or `None` for a time before the epoch. A
/// `SystemTime` is opaque here, so which reading comes back is not stated: only that it is
/// the whole milliseconds of some duration.
pub fn system_time_ms(time: std::time::SystemTime) -> (r: Option<u128>)
    ensures
        r matches Some(ms) ==> exists|s: u64, n: u32| n < 1_000_000_000 && ms == millis(s, n),
        r matches Some(ms) ==> ms <= u64::MAX as int * 1000 + 999,
{
    let elapsed = since_unix_epoch(time);
    millis_since_epoch(elapsed)
}

/// Milliseconds from the Unix epoch to now, 0 when the clock is before the epoch. The
/// reading depends on the clock: only its form is stated.
pub fn now_ms() -> (r: u128)
    ensures
        exists|s: u64, n: u32| n < 1_000_000_000 && r == millis(s, n),
        r <= u64::MAX as int * 1000 + 999,
{
    match system_time_ms(system_now()) {
        Some(ms) => ms,
        None => {
            assert(0 == millis(0, 0));
            0
        },
    }
}

/// Milliseconds from the Unix epoch to now, truncated to 64 bits as `as u64` does; 0 when
/// the clock is before the epoch.
pub fn unix_now_millis() -> (r: u64) {
    let ms: u128 = now_ms();
    ms as u64
}

/// The whole seconds of a time since the epoch; 0 when it is before the epoch.
pub fn seconds_since_epoch(elapsed: Option<(u64, u32)>) -> (r: u64)
    ensures
        r == match elapsed {
            Some(d) => d.0,
            None => 0,
        },
{
    match elapsed {
        Some(d) => d.0,
        None => 0,
    }
}

/// Seconds from the Unix epoch to now, as a signed number the way `as i64` converts them;
/// 0 when the clock is before the epoch.
pub fn unix_now_secs() -> (r: i64) {
    let secs = seconds_since_epoch(since_unix_epoch(system_now()));
    secs as i64
}

/// The token for a time in seconds: its decimal notation.
pub fn seconds_token(secs: u64) -> (r: String)
    ensures
        r@ == decimal(secs as nat),
{
    from_chars(&decimal_chars(secs))
}

/// A token that orders by time: the seconds from the Unix epoch to now, in decimal.
pub fn chrono_like_now_token() -> (r: String)
    ensures
        exists|secs: u64| r@ == decimal(secs as nat),
{
    let secs = seconds_since_epoch(since_unix_epoch(system_now()));
    seconds_token(secs)
}

} // verus!
