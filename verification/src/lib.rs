//! A rate-limiting decision engine: a quota (steady refill rate plus burst
//! capacity) is checked against per-entity token buckets, either one global
//! bucket ("direct") or one bucket per derived key ("keyed"), with periodic
//! eviction of idle per-key state.
//!
//! All times are plain nanosecond counts supplied by the caller; the engine
//! itself never reads a clock, sleeps, or spawns tasks. A host wires it to a
//! real clock and a timer for the sweep.

use vstd::prelude::*;

pub mod bucket;
pub mod laws;
pub mod policy;
pub mod quota;
pub mod store;

verus! {

/// The outcomes the engine reports: a denied check, or a quota that could
/// not be built.
#[derive(Clone, Copy, Debug, PartialEq, Eq, Structural)]
pub enum GovernorError {
    /// Construction-time violation: a zero rate or burst, or no rate at all.
    InvalidQuota,
    /// The normal "deny" outcome of a check.
    RateLimited,
}

impl GovernorError {
    /// A short human-readable description of the error.
    pub fn message(&self) -> (s: &'static str)
        ensures
            *self is RateLimited ==> s@ == "rate limit exceeded"@,
            *self is InvalidQuota ==> s@ == "invalid quota"@,
    {
        match self {
            GovernorError::InvalidQuota => "invalid quota",
            GovernorError::RateLimited => "rate limit exceeded",
        }
    }
}

} // verus!
