//! The request counters of the HTTP service: how many requests came, how many failed, how
//! many asked a question, and the time spent answering. Counters wrap around at 2^64, as the
//! service's atomic counters do.
use vstd::prelude::*;

verus! {

/// `x + y` wrapped around at 2^64.
pub open spec fn wrap_add(x: u64, y: u64) -> u64 {
    if x + y > u64::MAX {
        (x + y - 18446744073709551616int) as u64
    } else {
        (x + y) as u64
    }
}

fn wrapping_sum(x: u64, y: u64) -> (r: u64)
    ensures
        r == wrap_add(x, y),
{
    if x > u64::MAX - y {
        y - (u64::MAX - x) - 1
    } else {
        x + y
    }
}

/// The service's counters.
#[derive(Debug, Clone, Copy, PartialEq, Eq, Structural)]
pub struct ServerMetrics {
    pub total_requests: u64,
    pub failed_requests: u64,
    pub ask_requests: u64,
    pub ask_failed: u64,
    pub ask_latency_total_ms: u64,
}

impl ServerMetrics {
    /// All counters at zero.
    pub fn new() -> (r: ServerMetrics)
        ensures
            r == (ServerMetrics { total_requests: 0, failed_requests: 0, ask_requests: 0, ask_failed: 0, ask_latency_total_ms: 0 }),
    {
        ServerMetrics { total_requests: 0, failed_requests: 0, ask_requests: 0, ask_failed: 0, ask_latency_total_ms: 0 }
    }

    /// A question arrives: one more request and one more question.
    pub fn record_ask(&mut self)
        ensures
            *final(self) == (ServerMetrics {
                total_requests: wrap_add(old(self).total_requests, 1),
                ask_requests: wrap_add(old(self).ask_requests, 1),
                ..*old(self)
            }),
    {
        self.total_requests = wrapping_sum(self.total_requests, 1);
        self.ask_requests = wrapping_sum(self.ask_requests, 1);
    }

    /// A question failed: one more failed request and one more failed question.
    pub fn record_ask_failure(&mut self)
        ensures
            *final(self) == (ServerMetrics {
                failed_requests: wrap_add(old(self).failed_requests, 1),
                ask_failed: wrap_add(old(self).ask_failed, 1),
                ..*old(self)
            }),
    {
        self.failed_requests = wrapping_sum(self.failed_requests, 1);
        self.ask_failed = wrapping_sum(self.ask_failed, 1);
    }

    /// A blank question: it is counted as a request, a question, a failed request and a
    /// failed question; the answering time is unchanged.
    pub fn record_blank_ask(&mut self)
        ensures
            final(self).total_requests == wrap_add(old(self).total_requests, 1),
            final(self).ask_requests == wrap_add(old(self).ask_requests, 1),
            final(self).failed_requests == wrap_add(old(self).failed_requests, 1),
            final(self).ask_failed == wrap_add(old(self).ask_failed, 1),
            final(self).ask_latency_total_ms == old(self).ask_latency_total_ms,
    {
        self.record_ask();
        self.record_ask_failure();
    }

    /// An answered question took `elapsed_ms`.
    pub fn record_ask_latency(&mut self, elapsed_ms: u64)
        ensures
            *final(self) == (ServerMetrics {
                ask_latency_total_ms: wrap_add(old(self).ask_latency_total_ms, elapsed_ms),
                ..*old(self)
            }),
    {
        self.ask_latency_total_ms = wrapping_sum(self.ask_latency_total_ms, elapsed_ms);
    }
}

} // verus!
