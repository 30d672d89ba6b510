//! The engine facade and its two limiter variants.
//!
//! A `GovernorPolicy` holds either one global bucket (`DirectPolicy`) or a
//! per-key store (`KeyedPolicy`) and exposes the single decision call
//! `check`. The reaper lifecycle is split into two idempotent operations the
//! host drives: `start_gc_if_needed` tells the host whether a sweep task
//! still has to be spawned, and `sweep_idle` is the body of one sweep tick.

use vstd::prelude::*;
use vstd::pervasive::arbitrary;

use crate::GovernorError;
use crate::bucket::Bucket;
use crate::quota::{Quota, NANOS_PER_MINUTE, NANOS_PER_SECOND};
use crate::store::{keyed_after, keyed_allows, swept_map, KeyedStore, Slot};

verus! {

/// The sweep interval (and retention threshold) used when none is set:
/// sixty seconds.
pub const DEFAULT_GC_INTERVAL_NANOS: u64 = 60_000_000_000;

/// The direct limiter: one bucket shared by every request, so any key hint
/// is ignored.
#[derive(Clone, Copy, Debug)]
pub struct DirectPolicy {
    pub bucket: Bucket,
    pub quota: Quota,
    pub gc_interval_nanos: u64,
}

impl DirectPolicy {
    /// A usable quota and a bucket within its burst capacity.
    pub open spec fn wf(self) -> bool {
        &&& self.quota.valid()
        &&& self.bucket.inv(self.quota)
    }

    /// One decision on the shared bucket.
    pub fn check(&mut self, now_nanos: u64) -> (allowed: bool)
        ensures
            allowed == old(self).bucket.allows(old(self).quota, now_nanos),
            final(self).bucket == old(self).bucket.after_check(old(self).quota, now_nanos),
            final(self).quota == old(self).quota,
            final(self).gc_interval_nanos == old(self).gc_interval_nanos,
            old(self).wf() ==> final(self).wf(),
    {
        let q = self.quota;
        let mut b = self.bucket;
        let allowed = b.check(&q, now_nanos);
        self.bucket = b;
        allowed
    }
}

/// The capability a keyed limiter offers once its key type has been erased:
/// a per-key decision, the idempotent reaper start, and the sweep itself.
pub trait AnyKeyedPolicy: Sized {
    /// The per-key slots.
    spec fn key_map(&self) -> Map<Seq<char>, Slot>;

    /// The quota every bucket is checked against.
    spec fn quota_spec(&self) -> Quota;

    /// The sweep interval, which is also the retention threshold.
    spec fn gc_interval_spec(&self) -> u64;

    /// Whether the reaper has been handed out already.
    spec fn gc_started_spec(&self) -> bool;

    /// The limiter's invariant.
    spec fn wf_spec(&self) -> bool;

    /// The limiter with its reaper-start flag set and nothing else changed.
    spec fn gc_marked(&self) -> Self;

    /// One keyed decision: `Err(())` is the deny outcome.
    fn check_key(&mut self, key_str: &str, now_nanos: u64) -> (r: Result<(), ()>)
        ensures
            old(self).wf_spec() ==> (r is Ok) == keyed_allows(
                old(self).key_map(),
                old(self).quota_spec(),
                key_str@,
                now_nanos,
            ),
            old(self).wf_spec() ==> final(self).key_map() == keyed_after(
                old(self).key_map(),
                old(self).quota_spec(),
                key_str@,
                now_nanos,
            ),
            old(self).wf_spec() ==> final(self).wf_spec(),
            final(self).quota_spec() == old(self).quota_spec(),
            final(self).gc_interval_spec() == old(self).gc_interval_spec(),
            final(self).gc_started_spec() == old(self).gc_started_spec(),
    ;

    /// Claim the one reaper start: true exactly on the first call, so that
    /// however many callers race to start the sweep, exactly one is told to.
    fn start_gc_if_needed(&mut self) -> (started: bool)
        ensures
            started == !old(self).gc_started_spec(),
            *final(self) == old(self).gc_marked(),
            final(self).gc_started_spec(),
            final(self).key_map() == old(self).key_map(),
            final(self).quota_spec() == old(self).quota_spec(),
            final(self).gc_interval_spec() == old(self).gc_interval_spec(),
            old(self).wf_spec() ==> final(self).wf_spec(),
    ;

    /// One sweep tick: drop every key idle past the retention threshold.
    fn sweep_idle(&mut self, now_nanos: u64)
        ensures
            old(self).wf_spec() ==> final(self).key_map() == swept_map(
                old(self).key_map(),
                now_nanos,
                old(self).gc_interval_spec(),
            ),
            old(self).wf_spec() ==> final(self).wf_spec(),
            final(self).quota_spec() == old(self).quota_spec(),
            final(self).gc_interval_spec() == old(self).gc_interval_spec(),
            final(self).gc_started_spec() == old(self).gc_started_spec(),
    ;

    /// The sweep interval in nanoseconds.
    fn gc_interval(&self) -> (nanos: u64)
        ensures
            nanos == self.gc_interval_spec(),
    ;
}

/// The keyed limiter: a bucket per key, plus the reaper bookkeeping.
#[derive(Debug)]
pub struct KeyedPolicy {
    pub store: KeyedStore,
    pub gc_interval_nanos: u64,
    pub gc_started: bool,
}

impl AnyKeyedPolicy for KeyedPolicy {
    open spec fn key_map(&self) -> Map<Seq<char>, Slot> {
        self.store@
    }

    open spec fn quota_spec(&self) -> Quota {
        self.store.quota
    }

    open spec fn gc_interval_spec(&self) -> u64 {
        self.gc_interval_nanos
    }

    open spec fn gc_started_spec(&self) -> bool {
        self.gc_started
    }

    open spec fn wf_spec(&self) -> bool {
        self.store.wf()
    }

    open spec fn gc_marked(&self) -> KeyedPolicy {
        KeyedPolicy { gc_started: true, ..*self }
    }

    fn check_key(&mut self, key_str: &str, now_nanos: u64) -> (r: Result<(), ()>) {
        let allowed = self.store.check_key(key_str, now_nanos);
        if allowed {
            Ok(())
        } else {
            Err(())
        }
    }

    fn start_gc_if_needed(&mut self) -> (started: bool) {
        let started = !self.gc_started;
        self.gc_started = true;
        started
    }

    fn sweep_idle(&mut self, now_nanos: u64) {
        let retention = self.gc_interval_nanos;
        self.store.sweep(now_nanos, retention);
    }

    fn gc_interval(&self) -> (nanos: u64) {
        self.gc_interval_nanos
    }
}

/// The engine facade: exactly one of the two limiter variants.
#[derive(Debug)]
pub enum GovernorPolicy {
    /// One global bucket.
    Direct(DirectPolicy),
    /// One bucket per derived key.
    Keyed(KeyedPolicy),
}

impl GovernorPolicy {
    /// The invariant of whichever variant is held.
    pub open spec fn wf(self) -> bool {
        match self {
            GovernorPolicy::Direct(p) => p.wf(),
            GovernorPolicy::Keyed(p) => p.wf_spec(),
        }
    }

    /// The quota in force.
    pub open spec fn quota_of(self) -> Quota {
        match self {
            GovernorPolicy::Direct(p) => p.quota,
            GovernorPolicy::Keyed(p) => p.quota_spec(),
        }
    }

    /// The per-key slots; a direct engine has none.
    pub open spec fn key_map_of(self) -> Map<Seq<char>, Slot> {
        match self {
            GovernorPolicy::Direct(_) => Map::empty(),
            GovernorPolicy::Keyed(p) => p.key_map(),
        }
    }

    /// The shared bucket of a direct engine.
    pub open spec fn direct_bucket_of(self) -> Bucket {
        match self {
            GovernorPolicy::Direct(p) => p.bucket,
            GovernorPolicy::Keyed(_) => arbitrary(),
        }
    }

    /// The sweep interval (and retention threshold) in force.
    pub open spec fn gc_interval_of(self) -> u64 {
        match self {
            GovernorPolicy::Direct(p) => p.gc_interval_nanos,
            GovernorPolicy::Keyed(p) => p.gc_interval_spec(),
        }
    }

    /// Whether the one reaper start has been claimed. A direct engine needs
    /// no reaper, so its flag always reads as claimed.
    pub open spec fn gc_started_of(self) -> bool {
        match self {
            GovernorPolicy::Direct(_) => true,
            GovernorPolicy::Keyed(p) => p.gc_started_spec(),
        }
    }

    /// Whether an attempt to start the reaper would claim the one start.
    pub open spec fn gc_start_claims(self) -> bool {
        !self.gc_started_of()
    }

    /// The engine after an attempt to start the reaper: a keyed engine's
    /// flag is set, a direct engine is untouched.
    pub open spec fn after_gc_start(self) -> GovernorPolicy {
        match self {
            GovernorPolicy::Direct(p) => GovernorPolicy::Direct(p),
            GovernorPolicy::Keyed(p) => GovernorPolicy::Keyed(p.gc_marked()),
        }
    }

    /// Whether a check at `now_nanos` with the given key hint is admitted.
    pub open spec fn allows_at(self, key: Seq<char>, now_nanos: u64) -> bool {
        match self {
            GovernorPolicy::Direct(p) => p.bucket.allows(p.quota, now_nanos),
            GovernorPolicy::Keyed(p) => keyed_allows(p.key_map(), p.quota_spec(), key, now_nanos),
        }
    }

    /// A fresh builder.
    pub fn builder() -> (b: GovernorPolicyBuilder)
        ensures
            b == (GovernorPolicyBuilder {
                quota: None::<Quota>,
                gc_interval_nanos: DEFAULT_GC_INTERVAL_NANOS,
            }),
    {
        GovernorPolicyBuilder { quota: None, gc_interval_nanos: DEFAULT_GC_INTERVAL_NANOS }
    }

    /// The single decision call: admit the request, or deny it with
    /// `RateLimited`. A direct engine ignores the key hint; a keyed engine
    /// uses it as the key.
    pub fn check(&mut self, key_hint: &str, now_nanos: u64) -> (r: Result<(), GovernorError>)
        ensures
            (old(self).wf() || (*old(self)) is Direct) ==> r == (if old(self).allows_at(
                key_hint@,
                now_nanos,
            ) {
                Ok::<(), GovernorError>(())
            } else {
                Err::<(), GovernorError>(GovernorError::RateLimited)
            }),
            (*old(self)) is Direct <==> (*final(self)) is Direct,
            final(self).quota_of() == old(self).quota_of(),
            final(self).gc_interval_of() == old(self).gc_interval_of(),
            final(self).gc_started_of() == old(self).gc_started_of(),
            (*old(self)) is Direct ==> final(self).direct_bucket_of() == old(
                self,
            ).direct_bucket_of().after_check(old(self).quota_of(), now_nanos),
            ((*old(self)) is Keyed && old(self).wf()) ==> final(self).key_map_of() == keyed_after(
                old(self).key_map_of(),
                old(self).quota_of(),
                key_hint@,
                now_nanos,
            ),
            old(self).wf() ==> final(self).wf(),
    {
        match self {
            GovernorPolicy::Direct(p) => {
                let allowed = p.check(now_nanos);
                if allowed {
                    Ok(())
                } else {
                    Err(GovernorError::RateLimited)
                }
            },
            GovernorPolicy::Keyed(p) => {
                match p.check_key(key_hint, now_nanos) {
                    Ok(()) => Ok(()),
                    Err(()) => Err(GovernorError::RateLimited),
                }
            },
        }
    }

    /// Claim the one reaper start for this engine instance: true exactly
    /// when the claim was still free. A direct engine has no per-key state
    /// to sweep, so it never asks for a reaper.
    pub fn start_gc_if_needed(&mut self) -> (started: bool)
        ensures
            started == old(self).gc_start_claims(),
            *final(self) == old(self).after_gc_start(),
            final(self).gc_started_of(),
            old(self).wf() ==> final(self).wf(),
    {
        match self {
            GovernorPolicy::Direct(_) => false,
            GovernorPolicy::Keyed(p) => p.start_gc_if_needed(),
        }
    }

    /// One sweep tick: a keyed engine drops every key idle longer than its
    /// interval; a direct engine has nothing to reclaim.
    pub fn sweep_idle(&mut self, now_nanos: u64)
        ensures
            ((*old(self)) is Keyed && old(self).wf()) ==> final(self).key_map_of() == swept_map(
                old(self).key_map_of(),
                now_nanos,
                old(self).gc_interval_of(),
            ),
            (*old(self)) is Direct ==> *final(self) == *old(self),
            (*old(self)) is Direct <==> (*final(self)) is Direct,
            final(self).quota_of() == old(self).quota_of(),
            final(self).gc_interval_of() == old(self).gc_interval_of(),
            final(self).gc_started_of() == old(self).gc_started_of(),
            old(self).wf() ==> final(self).wf(),
    {
        match self {
            GovernorPolicy::Direct(_) => {},
            GovernorPolicy::Keyed(p) => p.sweep_idle(now_nanos),
        }
    }

    /// The sweep interval in force, in nanoseconds.
    pub fn gc_interval_nanos(&self) -> (nanos: u64)
        ensures
            nanos == self.gc_interval_of(),
    {
        match self {
            GovernorPolicy::Direct(p) => p.gc_interval_nanos,
            GovernorPolicy::Keyed(p) => p.gc_interval(),
        }
    }
}

/// Marker types for a type-state flavoured builder surface; the builder
/// itself validates at build time, so these carry no data.
pub struct Uninitialized;

pub struct Initialized;

/// Builder for a `GovernorPolicy`: pick a rate, optionally a burst size and
/// a sweep interval, then build the direct or the keyed engine. Building
/// without a rate, or with a zero rate or burst, reports `InvalidQuota`.
#[derive(Clone, Copy, Debug)]
pub struct GovernorPolicyBuilder {
    pub quota: Option<Quota>,
    pub gc_interval_nanos: u64,
}

impl Default for GovernorPolicyBuilder {
    /// Same as `new`: no rate chosen yet, sweep interval of one minute.
    fn default() -> (b: Self)
        ensures
            b == (GovernorPolicyBuilder {
                quota: None::<Quota>,
                gc_interval_nanos: DEFAULT_GC_INTERVAL_NANOS,
            }),
    {
        GovernorPolicyBuilder { quota: None, gc_interval_nanos: DEFAULT_GC_INTERVAL_NANOS }
    }
}

impl GovernorPolicyBuilder {
    /// The direct engine this builder describes: a full bucket under the
    /// chosen quota, or `InvalidQuota` when no positive rate and burst were
    /// chosen.
    pub open spec fn build_direct_spec(self) -> Result<GovernorPolicy, GovernorError> {
        match self.quota {
            None => Err(GovernorError::InvalidQuota),
            Some(q) => if q.valid() {
                Ok(
                    GovernorPolicy::Direct(
                        DirectPolicy {
                            bucket: Bucket::full_spec(q, 0),
                            quota: q,
                            gc_interval_nanos: self.gc_interval_nanos,
                        },
                    ),
                )
            } else {
                Err(GovernorError::InvalidQuota)
            },
        }
    }

    /// A fresh builder: no rate chosen yet, sweep interval of one minute.
    pub fn new() -> (b: Self)
        ensures
            b == (GovernorPolicyBuilder {
                quota: None::<Quota>,
                gc_interval_nanos: DEFAULT_GC_INTERVAL_NANOS,
            }),
    {
        GovernorPolicyBuilder { quota: None, gc_interval_nanos: DEFAULT_GC_INTERVAL_NANOS }
    }

    /// Choose a rate of `count` requests per second; the burst capacity
    /// defaults to `count`.
    pub fn per_second(self, count: u32) -> (b: Self)
        ensures
            b == (GovernorPolicyBuilder {
                quota: Some(
                    Quota { count, period_nanos: NANOS_PER_SECOND, burst: count },
                ),
                gc_interval_nanos: self.gc_interval_nanos,
            }),
    {
        GovernorPolicyBuilder {
            quota: Some(Quota::per_second(count)),
            gc_interval_nanos: self.gc_interval_nanos,
        }
    }

    /// Choose a rate of `count` requests per minute; the burst capacity
    /// defaults to `count`.
    pub fn per_minute(self, count: u32) -> (b: Self)
        ensures
            b == (GovernorPolicyBuilder {
                quota: Some(
                    Quota { count, period_nanos: NANOS_PER_MINUTE, burst: count },
                ),
                gc_interval_nanos: self.gc_interval_nanos,
            }),
    {
        GovernorPolicyBuilder {
            quota: Some(Quota::per_minute(count)),
            gc_interval_nanos: self.gc_interval_nanos,
        }
    }

    /// Replace the burst capacity; without a rate chosen yet this changes
    /// nothing.
    pub fn burst_size(self, size: u32) -> (b: Self)
        ensures
            b.gc_interval_nanos == self.gc_interval_nanos,
            self.quota is None ==> b.quota is None,
            self.quota matches Some(q) ==> b.quota == Some(Quota { burst: size, ..q }),
    {
        match self.quota {
            Some(q) => GovernorPolicyBuilder {
                quota: Some(q.allow_burst(size)),
                gc_interval_nanos: self.gc_interval_nanos,
            },
            None => GovernorPolicyBuilder { quota: None, gc_interval_nanos: self.gc_interval_nanos },
        }
    }

    /// Choose the sweep interval (and retention threshold).
    pub fn gc_interval(self, interval_nanos: u64) -> (b: Self)
        ensures
            b == (GovernorPolicyBuilder { quota: self.quota, gc_interval_nanos: interval_nanos }),
    {
        GovernorPolicyBuilder { quota: self.quota, gc_interval_nanos: interval_nanos }
    }

    /// Build the direct engine: one bucket, created full, shared by every
    /// request.
    pub fn build(self) -> (r: Result<GovernorPolicy, GovernorError>)
        ensures
            r == self.build_direct_spec(),
            r matches Ok(p) ==> p.wf(),
    {
        match self.quota {
            None => Err(GovernorError::InvalidQuota),
            Some(q) => {
                if q.is_valid() {
                    let bucket = Bucket::new_full(&q, 0);
                    Ok(
                        GovernorPolicy::Direct(
                            DirectPolicy { bucket, quota: q, gc_interval_nanos: self.gc_interval_nanos },
                        ),
                    )
                } else {
                    Err(GovernorError::InvalidQuota)
                }
            },
        }
    }

    /// Build the keyed engine: an empty store whose buckets are created on
    /// first sight of each key. The caller derives the key handed to
    /// `check`.
    pub fn build_keyed(self) -> (r: Result<GovernorPolicy, GovernorError>)
        ensures
            (r is Ok) == (self.quota matches Some(q) && q.valid()),
            r is Err ==> r == Err::<GovernorPolicy, GovernorError>(GovernorError::InvalidQuota),
            r matches Ok(p) ==> {
                &&& p is Keyed
                &&& p.wf()
                &&& p.key_map_of() == Map::<Seq<char>, Slot>::empty()
                &&& Some(p.quota_of()) == self.quota
                &&& p.gc_interval_of() == self.gc_interval_nanos
                &&& p.gc_started_of() == false
            },
    {
        match self.quota {
            None => Err(GovernorError::InvalidQuota),
            Some(q) => {
                if q.is_valid() {
                    Ok(
                        GovernorPolicy::Keyed(
                            KeyedPolicy {
                                store: KeyedStore::new(q),
                                gc_interval_nanos: self.gc_interval_nanos,
                                gc_started: false,
                            },
                        ),
                    )
                } else {
                    Err(GovernorError::InvalidQuota)
                }
            },
        }
    }
}

} // verus!
