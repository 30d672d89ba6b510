//! The quota: an immutable rate-plus-burst specification.
//!
//! A quota says that `count` tokens are replenished every `period_nanos`
//! nanoseconds and that at most `burst` tokens may be held at once. Token
//! amounts are kept scaled by `period_nanos` so that refill stays exact
//! rational arithmetic: one token is `period_nanos` scaled units, and a
//! refill over `e` nanoseconds adds `e * count` scaled units.

use vstd::prelude::*;

verus! {

pub const NANOS_PER_SECOND: u64 = 1_000_000_000;
pub const NANOS_PER_MINUTE: u64 = 60_000_000_000;

/// A rate-limit quota: `count` tokens per `period_nanos` nanoseconds, with a
/// burst capacity of `burst` tokens.
#[derive(Clone, Copy, Debug, PartialEq, Eq, Structural)]
pub struct Quota {
    /// Tokens replenished per period.
    pub count: u32,
    /// Length of the replenish period, in nanoseconds.
    pub period_nanos: u64,
    /// Largest number of tokens the bucket may hold.
    pub burst: u32,
}

impl Quota {
    /// A quota is usable when its rate and burst are both positive.
    pub open spec fn valid(self) -> bool {
        &&& self.count >= 1
        &&& self.period_nanos >= 1
        &&& self.burst >= 1
    }

    /// The bucket capacity in scaled units: `burst` whole tokens.
    pub open spec fn cap_scaled(self) -> int {
        self.burst as int * self.period_nanos as int
    }

    /// One whole token in scaled units.
    pub open spec fn one_token(self) -> int {
        self.period_nanos as int
    }

    /// A quota of `count` tokens per second; the burst capacity defaults to
    /// the per-period count.
    pub fn per_second(count: u32) -> (q: Quota)
        ensures
            q == (Quota { count, period_nanos: NANOS_PER_SECOND, burst: count }),
    {
        Quota { count, period_nanos: NANOS_PER_SECOND, burst: count }
    }

    /// A quota of `count` tokens per minute; the burst capacity defaults to
    /// the per-period count.
    pub fn per_minute(count: u32) -> (q: Quota)
        ensures
            q == (Quota { count, period_nanos: NANOS_PER_MINUTE, burst: count }),
    {
        Quota { count, period_nanos: NANOS_PER_MINUTE, burst: count }
    }

    /// The same rate with the burst capacity replaced by `burst`.
    pub fn allow_burst(self, burst: u32) -> (q: Quota)
        ensures
            q == (Quota { burst, ..self }),
    {
        Quota { burst, ..self }
    }

    /// Runtime mirror of `valid`, so that an unverified caller can reject a
    /// bad quota before building an engine from it.
    pub fn is_valid(&self) -> (b: bool)
        ensures
            b == self.valid(),
    {
        self.count >= 1 && self.period_nanos >= 1 && self.burst >= 1
    }
}

} // verus!
