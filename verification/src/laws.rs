//! The engine's guarantees, stated and proved once and for all: a fresh
//! bucket admits exactly its burst and no more, a partial refill grants
//! exactly one further admission, distinct keys never share capacity, the
//! sweep evicts exactly the idle keys, and the reaper start can be claimed
//! only once.

use vstd::prelude::*;

use crate::bucket::Bucket;
use crate::policy::GovernorPolicy;
use crate::quota::Quota;
use crate::store::{effective_slot, keyed_after, keyed_allows, swept_map, Slot};

verus! {

/// The bucket after `n` consecutive checks at the same instant `now`.
pub open spec fn bucket_after_checks(b: Bucket, q: Quota, now: u64, n: nat) -> Bucket
    decreases n,
{
    if n == 0 {
        b
    } else {
        bucket_after_checks(b, q, now, (n - 1) as nat).after_check(q, now)
    }
}

/// How many of `n` consecutive checks at the same instant `now` are admitted.
pub open spec fn allow_count(b: Bucket, q: Quota, now: u64, n: nat) -> nat
    decreases n,
{
    if n == 0 {
        0
    } else {
        allow_count(b, q, now, (n - 1) as nat) + (if bucket_after_checks(
            b,
            q,
            now,
            (n - 1) as nat,
        ).allows(q, now) {
            1nat
        } else {
            0nat
        })
    }
}

/// Capacity facts every law below leans on: the capacity is `burst` whole
/// tokens, at least one whole token, and nonnegative.
proof fn lemma_cap_facts(q: Quota)
    requires
        q.valid(),
    ensures
        q.cap_scaled() == (q.burst as int) * q.one_token(),
        q.cap_scaled() >= q.one_token(),
        q.one_token() >= 1,
{
    assert((q.burst as int) * (q.period_nanos as int) >= q.period_nanos as int)
        by (nonlinear_arith)
        requires
            q.burst as int >= 1,
            q.period_nanos as int >= 0;
}

/// After `n <= burst` checks at one instant on a full bucket, every check
/// was admitted and exactly `n` whole tokens are gone.
pub proof fn lemma_burst_state(q: Quota, now: u64, n: nat)
    requires
        q.valid(),
        n <= q.burst,
    ensures
        bucket_after_checks(Bucket::full_spec(q, now), q, now, n) == (Bucket {
            tokens_scaled: (q.cap_scaled() - n * q.one_token()) as u128,
            last_update: now,
        }),
        allow_count(Bucket::full_spec(q, now), q, now, n) == n,
    decreases n,
{
    let full = Bucket::full_spec(q, now);
    let p = q.one_token();
    let cap = q.cap_scaled();
    lemma_cap_facts(q);
    if n == 0 {
        assert(n * p == 0) by (nonlinear_arith)
            requires
                n == 0;
        crate::bucket::lemma_cap_fits(q);
        assert(full == (Bucket { tokens_scaled: (cap - n * p) as u128, last_update: now }));
    } else {
        lemma_burst_state(q, now, (n - 1) as nat);
        let m: int = n - 1;
        assert(m * p >= 0) by (nonlinear_arith)
            requires
                m >= 0,
                p >= 0;
        assert(n * p == m * p + p) by (nonlinear_arith)
            requires
                m == n - 1;
        assert(n * p <= (q.burst as int) * p) by (nonlinear_arith)
            requires
                n <= q.burst as int,
                p >= 0;
        assert(m * p <= n * p) by (nonlinear_arith)
            requires
                m <= n,
                p >= 0;
        crate::bucket::lemma_cap_fits(q);
        let prev = bucket_after_checks(full, q, now, (n - 1) as nat);
        assert((prev.tokens_scaled as int) == cap - m * p);
        assert(prev.refilled(q, now) == cap - m * p);
        assert(cap - m * p >= p);
        assert(prev.allows(q, now));
    }
}

/// Once the burst is spent, further checks at the same instant change
/// nothing and admit nothing.
proof fn lemma_saturated(q: Quota, now: u64, n: nat)
    requires
        q.valid(),
        n >= q.burst,
    ensures
        bucket_after_checks(Bucket::full_spec(q, now), q, now, n) == (Bucket {
            tokens_scaled: 0u128,
            last_update: now,
        }),
        allow_count(Bucket::full_spec(q, now), q, now, n) == q.burst,
    decreases n - q.burst,
{
    let p = q.one_token();
    let cap = q.cap_scaled();
    lemma_cap_facts(q);
    if n == q.burst {
        lemma_burst_state(q, now, n);
        assert(n * p == cap);
        assert(cap - n * p == 0);
    } else {
        lemma_saturated(q, now, (n - 1) as nat);
        let prev = bucket_after_checks(Bucket::full_spec(q, now), q, now, (n - 1) as nat);
        assert(prev.refilled(q, now) == 0);
        assert(!prev.allows(q, now));
    }
}

/// No over-grant: out of any `n` checks at one instant against a fresh full
/// bucket of burst `B`, exactly `min(n, B)` are admitted — the first `B`
/// all pass and every later one is denied.
pub proof fn lemma_no_overgrant(q: Quota, now: u64, n: nat)
    requires
        q.valid(),
    ensures
        allow_count(Bucket::full_spec(q, now), q, now, n) == if n <= q.burst {
            n
        } else {
            q.burst as nat
        },
{
    if n <= q.burst {
        lemma_burst_state(q, now, n);
    } else {
        lemma_saturated(q, now, n);
    }
}

/// Each of the first `burst` checks on a fresh full bucket is admitted.
pub proof fn lemma_first_burst_allows(q: Quota, now: u64, n: nat)
    requires
        q.valid(),
        n < q.burst,
    ensures
        bucket_after_checks(Bucket::full_spec(q, now), q, now, n).allows(q, now),
{
    lemma_no_overgrant(q, now, n + 1);
    lemma_no_overgrant(q, now, n);
}

/// The check right after the burst is spent is denied.
pub proof fn lemma_burst_exhausted(q: Quota, now: u64)
    requires
        q.valid(),
    ensures
        !bucket_after_checks(Bucket::full_spec(q, now), q, now, q.burst as nat).allows(q, now),
{
    lemma_saturated(q, now, q.burst as nat);
    lemma_cap_facts(q);
}

/// Partial refill grants exactly one admission: after a denial, waiting
/// long enough that the refill reaches one whole token — but strictly less
/// than two — admits exactly one more check. Fractional refill accumulates
/// from the last admission, so nothing is lost to truncation across calls.
pub proof fn lemma_partial_refill(b: Bucket, q: Quota, now: u64, wait: u64)
    requires
        q.valid(),
        b.inv(q),
        b.last_update <= now,
        !b.allows(q, now),
        q.one_token() <= (wait as int) * (q.count as int),
        b.refilled(q, now) + (wait as int) * (q.count as int) < 2 * q.one_token(),
        (now as int) + (wait as int) <= u64::MAX as int,
    ensures
        b.allows(q, (now + wait) as u64),
        !b.after_check(q, (now + wait) as u64).allows(q, (now + wait) as u64),
{
    let p = q.one_token();
    let cap = q.cap_scaled();
    let c = q.count as int;
    let t2: u64 = (now + wait) as u64;
    lemma_cap_facts(q);
    let e0 = now - b.last_update;
    let e2 = t2 - b.last_update;
    assert(e2 == e0 + wait);
    assert((e0 + wait as int) * c == e0 * c + (wait as int) * c) by (nonlinear_arith);
    assert(e0 * c >= 0) by (nonlinear_arith)
        requires
            e0 >= 0,
            c >= 0;
    // Denied at `now`, so the refilled count was below one token and the
    // capacity clamp was not hit.
    assert(b.refilled(q, now) == (b.tokens_scaled as int) + e0 * c);
    assert(b.refilled(q, t2) >= p);
    let b2 = b.after_check(q, t2);
    assert((b2.tokens_scaled as int) == b.refilled(q, t2) - p);
    assert((b2.tokens_scaled as int) < p);
    assert(b2.refilled(q, t2) == (b2.tokens_scaled as int));
}

/// Distinct keys never share capacity: a check for one key leaves every
/// other key's slot, and hence every other key's future decisions,
/// untouched.
pub proof fn lemma_keyed_isolation(
    m: Map<Seq<char>, Slot>,
    q: Quota,
    k1: Seq<char>,
    k2: Seq<char>,
    now: u64,
    t: u64,
)
    requires
        k1 != k2,
    ensures
        keyed_after(m, q, k1, now).dom().contains(k2) == m.dom().contains(k2),
        m.dom().contains(k2) ==> keyed_after(m, q, k1, now)[k2] == m[k2],
        keyed_allows(keyed_after(m, q, k1, now), q, k2, t) == keyed_allows(m, q, k2, t),
{
}

/// A key idle past the retention threshold is evicted by the sweep, and its
/// next check behaves as on first sight: a fresh full bucket, which always
/// admits.
pub proof fn lemma_sweep_evicts(
    m: Map<Seq<char>, Slot>,
    now: u64,
    retention: u64,
    q: Quota,
    k: Seq<char>,
    t: u64,
)
    requires
        q.valid(),
        m.dom().contains(k),
        (m[k].last_access as int) + (retention as int) < now as int,
    ensures
        !swept_map(m, now, retention).dom().contains(k),
        effective_slot(swept_map(m, now, retention), q, k, t) == (Slot {
            bucket: Bucket::full_spec(q, t),
            last_access: t,
        }),
        keyed_allows(swept_map(m, now, retention), q, k, t),
{
    lemma_cap_facts(q);
    crate::bucket::lemma_cap_fits(q);
    let fresh = Bucket::full_spec(q, t);
    assert(crate::bucket::elapsed_nanos(t, t) == 0);
    assert(crate::bucket::elapsed_nanos(t, t) * (q.count as int) == 0) by (nonlinear_arith)
        requires
            crate::bucket::elapsed_nanos(t, t) == 0;
    assert(fresh.refilled(q, t) == q.cap_scaled());
}

/// A key accessed within the retention window is never evicted: the sweep
/// keeps its slot unchanged.
pub proof fn lemma_sweep_retains(m: Map<Seq<char>, Slot>, now: u64, retention: u64, k: Seq<char>)
    requires
        m.dom().contains(k),
        now as int <= (m[k].last_access as int) + (retention as int),
    ensures
        swept_map(m, now, retention).dom().contains(k),
        swept_map(m, now, retention)[k] == m[k],
{
}

/// The reaper start is claimed at most once per engine: after any start
/// attempt the claim is spent, and a second attempt neither claims nor
/// changes the engine further.
pub proof fn lemma_reaper_start_idempotent(p: GovernorPolicy)
    ensures
        !p.after_gc_start().gc_start_claims(),
        p.after_gc_start().after_gc_start() == p.after_gc_start(),
{
    match p {
        GovernorPolicy::Direct(_) => {
        },
        GovernorPolicy::Keyed(_) => {
        },
    }
}

} // verus!
