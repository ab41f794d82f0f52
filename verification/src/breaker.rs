//! The circuit breaker of the main lane.
//!
//! One connection failure opens it; while it is open and the cooldown has not
//! passed, requests are answered without contacting the upstream. The first
//! request after the cooldown closes it again and goes through as a probe.

use vstd::prelude::*;

verus! {

/// Seconds during which an open breaker keeps requests from the upstream.
pub const COOLDOWN_SECS: u64 = 3;

/// Whether the upstream is taken to be reachable, and when it last failed
/// (seconds since the epoch).
#[derive(Clone, Copy, PartialEq, Eq, Structural, Debug)]
pub struct CircuitBreaker {
    pub available: bool,
    pub last_failure: u64,
}

impl CircuitBreaker {
    /// Seconds from the recorded failure to `now`; 0 where the clock has gone back.
    pub open spec fn elapsed(self, now: u64) -> int {
        if now >= self.last_failure {
            now - self.last_failure
        } else {
            0
        }
    }

    /// A request arriving at `now` is answered without contacting the upstream.
    pub open spec fn fast_fails_at(self, now: u64) -> bool {
        !self.available && self.elapsed(now) < COOLDOWN_SECS
    }

    /// The breaker after a request arriving at `now` has consulted it.
    pub open spec fn after_check(self, now: u64) -> CircuitBreaker {
        if self.fast_fails_at(now) {
            self
        } else {
            CircuitBreaker { available: true, last_failure: self.last_failure }
        }
    }

    /// The breaker after a connection failure seen at `now`.
    pub open spec fn after_failure(self, now: u64) -> CircuitBreaker {
        CircuitBreaker { available: false, last_failure: now }
    }

    /// The breaker after a forwarding attempt that succeeded.
    pub open spec fn after_success(self) -> CircuitBreaker {
        CircuitBreaker { available: true, last_failure: self.last_failure }
    }

    /// A closed breaker that has seen no failure.
    pub fn new() -> (breaker: CircuitBreaker)
        ensures
            breaker == (CircuitBreaker { available: true, last_failure: 0 }),
    {
        CircuitBreaker { available: true, last_failure: 0 }
    }

    /// Consults the breaker for a request arriving at `now`. Returns `true`
    /// where the request must be answered without a forwarding attempt; where
    /// it returns `false` the breaker is closed afterwards.
    pub fn should_fast_fail(&mut self, now: u64) -> (fast_fail: bool)
        ensures
            fast_fail == old(self).fast_fails_at(now),
            *final(self) == old(self).after_check(now),
    {
        if self.available {
            return false;
        }
        let elapsed: u64 = now.saturating_sub(self.last_failure);
        if elapsed >= COOLDOWN_SECS {
            self.mark_available();
            false
        } else {
            true
        }
    }

    /// Records a connection failure seen at `now`.
    pub fn mark_unavailable(&mut self, now: u64)
        ensures
            *final(self) == old(self).after_failure(now),
    {
        self.available = false;
        self.last_failure = now;
    }

    /// Records a forwarding attempt that succeeded.
    pub fn mark_available(&mut self)
        ensures
            *final(self) == old(self).after_success(),
    {
        self.available = true;
    }
}

/// After a failure at `failed_at`, every request within the cooldown is
/// answered without a forwarding attempt and leaves the breaker as it is; the
/// first request at or after the end of the cooldown is let through and
/// closes the breaker, so that requests after it are let through as well.
pub proof fn lemma_cooldown(breaker: CircuitBreaker, failed_at: u64, now: u64, later: u64)
    requires
        failed_at <= now,
    ensures
        now - failed_at < COOLDOWN_SECS ==> {
            &&& breaker.after_failure(failed_at).fast_fails_at(now)
            &&& breaker.after_failure(failed_at).after_check(now) == breaker.after_failure(
                failed_at,
            )
        },
        now - failed_at >= COOLDOWN_SECS ==> {
            &&& !breaker.after_failure(failed_at).fast_fails_at(now)
            &&& breaker.after_failure(failed_at).after_check(now).available
            &&& !breaker.after_failure(failed_at).after_check(now).fast_fails_at(later)
        },
{
}

} // verus!
