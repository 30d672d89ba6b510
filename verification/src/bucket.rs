//! The token bucket: per-entity mutable state checked against a `Quota`.
//!
//! A bucket holds a scaled token count (one token is `period_nanos` scaled
//! units, see `quota`) and the timestamp of the last admitted request. A
//! check refills the bucket from the time elapsed since that timestamp,
//! capped at the burst capacity, then admits the request exactly when one
//! whole token is available. A denied request neither consumes tokens nor
//! advances the timestamp, so accumulated fractional refill is preserved
//! across any number of denials.

use vstd::prelude::*;

use crate::quota::Quota;

verus! {

/// Per-entity token-bucket state.
#[derive(Clone, Copy, Debug, PartialEq, Eq, Structural)]
pub struct Bucket {
    /// Tokens on hand, in scaled units (one token = `quota.period_nanos`).
    pub tokens_scaled: u128,
    /// Time of the last admitted request, in nanoseconds.
    pub last_update: u64,
}

/// Nanoseconds elapsed from `last` to `now`, clamped to zero so that clock
/// jitter never produces a negative refill.
pub open spec fn elapsed_nanos(last: u64, now: u64) -> int {
    if now >= last {
        now - last
    } else {
        0
    }
}

impl Bucket {
    /// The bucket never holds more than the burst capacity.
    pub open spec fn inv(self, q: Quota) -> bool {
        self.tokens_scaled as int <= q.cap_scaled()
    }

    /// The scaled token count after refilling at `now`: the elapsed time
    /// times the rate is added and the result is capped at the burst
    /// capacity. The stored count is also clamped to the capacity, so the
    /// refill is total; under `inv` the clamp is the identity.
    pub open spec fn refilled(self, q: Quota, now: u64) -> int {
        let base = if self.tokens_scaled as int <= q.cap_scaled() {
            self.tokens_scaled as int
        } else {
            q.cap_scaled()
        };
        let filled = base + elapsed_nanos(self.last_update, now) * q.count as int;
        if filled <= q.cap_scaled() {
            filled
        } else {
            q.cap_scaled()
        }
    }

    /// A check at `now` admits the request exactly when the refilled bucket
    /// holds at least one whole token.
    pub open spec fn allows(self, q: Quota, now: u64) -> bool {
        self.refilled(q, now) >= q.one_token()
    }

    /// The bucket after a check at `now`: on admission one token is taken
    /// from the refilled count and the timestamp advances; on denial the
    /// bucket is left exactly as it was.
    pub open spec fn after_check(self, q: Quota, now: u64) -> Bucket {
        if self.allows(q, now) {
            Bucket { tokens_scaled: (self.refilled(q, now) - q.one_token()) as u128, last_update: now }
        } else {
            self
        }
    }

    /// A bucket created at `now` holding the full burst capacity.
    pub open spec fn full_spec(q: Quota, now: u64) -> Bucket {
        Bucket { tokens_scaled: q.cap_scaled() as u128, last_update: now }
    }

    /// A new bucket, created full so that the first `burst` requests are
    /// admitted immediately.
    pub fn new_full(q: &Quota, now: u64) -> (b: Bucket)
        ensures
            b == Bucket::full_spec(*q, now),
            b.inv(*q),
    {
        proof {
            lemma_cap_fits(*q);
        }
        let cap: u128 = (q.burst as u128) * (q.period_nanos as u128);
        Bucket { tokens_scaled: cap, last_update: now }
    }

    /// One rate-limit decision: refill from elapsed time, admit if a whole
    /// token is on hand, and commit the new state only on admission.
    pub fn check(&mut self, q: &Quota, now: u64) -> (allowed: bool)
        ensures
            allowed == old(self).allows(*q, now),
            *final(self) == old(self).after_check(*q, now),
            old(self).inv(*q) ==> final(self).inv(*q),
            allowed ==> final(self).inv(*q),
    {
        proof {
            lemma_cap_fits(*q);
        }
        let cap: u128 = (q.burst as u128) * (q.period_nanos as u128);
        let elapsed: u64 = if now >= self.last_update {
            now - self.last_update
        } else {
            0
        };
        proof {
            lemma_refill_fits(elapsed, q.count);
        }
        let added: u128 = (elapsed as u128) * (q.count as u128);
        let base: u128 = if self.tokens_scaled <= cap {
            self.tokens_scaled
        } else {
            cap
        };
        let filled: u128 = base + added;
        let refilled: u128 = if filled <= cap {
            filled
        } else {
            cap
        };
        let one: u128 = q.period_nanos as u128;
        if refilled >= one {
            self.tokens_scaled = refilled - one;
            self.last_update = now;
            true
        } else {
            false
        }
    }
}

/// The burst capacity in scaled units fits comfortably below 2^96.
pub proof fn lemma_cap_fits(q: Quota)
    ensures
        0 <= q.cap_scaled(),
        q.cap_scaled() < 0x1000000000000000000000000,
{
    assert((q.burst as int) * (q.period_nanos as int) < 0x1000000000000000000000000) by (nonlinear_arith)
        requires
            0 <= q.burst as int,
            q.burst as int <= 0xffffffff,
            0 <= q.period_nanos as int,
            q.period_nanos as int <= 0xffffffffffffffff;
    assert((q.burst as int) * (q.period_nanos as int) >= 0) by (nonlinear_arith)
        requires
            0 <= q.burst as int,
            0 <= q.period_nanos as int;
}

/// The refill added over any elapsed time fits comfortably below 2^96.
proof fn lemma_refill_fits(elapsed: u64, count: u32)
    ensures
        0 <= (elapsed as int) * (count as int),
        (elapsed as int) * (count as int) < 0x1000000000000000000000000,
{
    assert((elapsed as int) * (count as int) < 0x1000000000000000000000000) by (nonlinear_arith)
        requires
            0 <= elapsed as int,
            elapsed as int <= 0xffffffffffffffff,
            0 <= count as int,
            count as int <= 0xffffffff;
    assert((elapsed as int) * (count as int) >= 0) by (nonlinear_arith)
        requires
            0 <= elapsed as int,
            0 <= count as int;
}

} // verus!
