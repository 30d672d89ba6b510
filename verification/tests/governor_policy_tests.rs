use governor_policy::policy::{AnyKeyedPolicy, GovernorPolicy, GovernorPolicyBuilder, KeyedPolicy};
use governor_policy::store::KeyedStore;
use governor_policy::quota::Quota;
use governor_policy::GovernorError;

const SECOND: u64 = 1_000_000_000;

fn build_direct(per_second: u32, burst: u32) -> GovernorPolicy {
    GovernorPolicy::builder().per_second(per_second).burst_size(burst).build().unwrap()
}

fn build_keyed(per_second: u32, burst: u32, gc_interval: u64) -> GovernorPolicy {
    GovernorPolicy::builder()
        .per_second(per_second)
        .burst_size(burst)
        .gc_interval(gc_interval)
        .build_keyed()
        .unwrap()
}

#[test]
fn test_governor_policy() {
    let mut policy = GovernorPolicy::builder().per_second(10).burst_size(2).build().unwrap();

    // First two requests should succeed
    let result1 = policy.check("default", 0);
    let result2 = policy.check("default", 0);

    match result1 {
        Ok(()) => {}
        _ => panic!("Expected Ready"),
    }

    match result2 {
        Ok(()) => {}
        _ => panic!("Expected Ready"),
    }

    // Third request should be rate limited
    let result3 = policy.check("default", 0);
    match result3 {
        Err(GovernorError::RateLimited) => {}
        _ => panic!("Expected Abort"),
    }
}

#[test]
fn direct_first_burst_allows_then_denies() {
    // quota = 3/sec, burst = 5: calls 1-5 allow, call 6 immediately denies,
    // and after one second call 7 allows again.
    let mut policy = build_direct(3, 5);
    for _ in 0..5 {
        assert_eq!(policy.check("", 0), Ok(()));
    }
    assert_eq!(policy.check("", 0), Err(GovernorError::RateLimited));
    assert_eq!(policy.check("", SECOND), Ok(()));
}

#[test]
fn direct_partial_refill_grants_exactly_one() {
    // 2 tokens/sec, burst 1: after exhaustion, waiting 1/R = half a second
    // admits exactly one more check.
    let mut policy = build_direct(2, 1);
    assert_eq!(policy.check("", 0), Ok(()));
    assert_eq!(policy.check("", 0), Err(GovernorError::RateLimited));
    let half = SECOND / 2;
    assert_eq!(policy.check("", half), Ok(()));
    assert_eq!(policy.check("", half), Err(GovernorError::RateLimited));
}

#[test]
fn direct_fractional_refill_accumulates_across_denials() {
    // 1 token/sec, burst 1: denied checks must not reset the refill, so two
    // 0.4 s waits still add up to a full token at the 1 s mark.
    let mut policy = build_direct(1, 1);
    assert_eq!(policy.check("", 0), Ok(()));
    assert_eq!(policy.check("", 400_000_000), Err(GovernorError::RateLimited));
    assert_eq!(policy.check("", 800_000_000), Err(GovernorError::RateLimited));
    assert_eq!(policy.check("", SECOND), Ok(()));
}

#[test]
fn direct_sequential_burst_no_overgrant() {
    // Exactly B checks against a fresh bucket of burst B all pass and the
    // next one is denied, however tightly they are packed.
    let burst = 7u32;
    let mut policy = build_direct(1, burst);
    for _ in 0..burst {
        assert_eq!(policy.check("", 0), Ok(()));
    }
    assert_eq!(policy.check("", 0), Err(GovernorError::RateLimited));
}

#[test]
fn keyed_keys_do_not_share_capacity() {
    let mut policy = build_keyed(1, 1, 60 * SECOND);
    assert_eq!(policy.check("a", 0), Ok(()));
    assert_eq!(policy.check("a", 0), Err(GovernorError::RateLimited));
    // Key "a" is exhausted; key "b" is untouched.
    assert_eq!(policy.check("b", 0), Ok(()));
    assert_eq!(policy.check("b", 0), Err(GovernorError::RateLimited));
}

#[test]
fn keyed_sweep_evicts_idle_and_keeps_recent() {
    let gc = 10 * SECOND;
    let mut policy = build_keyed(1, 1, gc);
    assert_eq!(policy.check("a", 0), Ok(()));
    assert_eq!(policy.check("b", 15 * SECOND), Ok(()));
    // At 15.2 s, "a" has been idle for more than the 10 s threshold and is
    // evicted; "b" was just seen and stays.
    policy.sweep_idle(15 * SECOND + 200_000_000);
    match &policy {
        GovernorPolicy::Keyed(p) => {
            assert!(!p.store.contains_key("a"));
            assert!(p.store.contains_key("b"));
        }
        _ => panic!("expected a keyed policy"),
    }
    // "b" kept its exhausted bucket: half a second of refill is not enough.
    assert_eq!(
        policy.check("b", 15 * SECOND + 500_000_000),
        Err(GovernorError::RateLimited)
    );
    // "a" starts over with a full bucket, as if seen for the first time.
    assert_eq!(policy.check("a", 15 * SECOND + 500_000_000), Ok(()));
}

#[test]
fn keyed_key_within_retention_never_evicted() {
    let gc = 10 * SECOND;
    let mut policy = build_keyed(1, 1, gc);
    assert_eq!(policy.check("a", 0), Ok(()));
    policy.sweep_idle(9 * SECOND);
    match &policy {
        GovernorPolicy::Keyed(p) => assert!(p.store.contains_key("a")),
        _ => panic!("expected a keyed policy"),
    }
}

#[test]
fn reaper_start_claimed_exactly_once() {
    let mut policy = build_keyed(1, 1, 60 * SECOND);
    assert!(policy.start_gc_if_needed());
    assert!(!policy.start_gc_if_needed());
    assert!(!policy.start_gc_if_needed());
}

#[test]
fn direct_engine_never_asks_for_reaper() {
    let mut policy = build_direct(1, 1);
    assert!(!policy.start_gc_if_needed());
    assert!(!policy.start_gc_if_needed());
}

#[test]
fn direct_sweep_is_a_no_op() {
    let mut policy = build_direct(2, 1);
    assert_eq!(policy.check("", 0), Ok(()));
    policy.sweep_idle(100 * SECOND);
    // The shared bucket is untouched by the sweep: it refills as usual.
    assert_eq!(policy.check("", 100 * SECOND), Ok(()));
}

#[test]
fn build_without_rate_is_invalid() {
    assert_eq!(
        GovernorPolicyBuilder::new().build().err(),
        Some(GovernorError::InvalidQuota)
    );
    assert_eq!(
        GovernorPolicyBuilder::new().build_keyed().err(),
        Some(GovernorError::InvalidQuota)
    );
}

#[test]
fn zero_rate_is_invalid() {
    assert_eq!(
        GovernorPolicy::builder().per_second(0).build().err(),
        Some(GovernorError::InvalidQuota)
    );
    assert_eq!(
        GovernorPolicy::builder().per_minute(0).build_keyed().err(),
        Some(GovernorError::InvalidQuota)
    );
}

#[test]
fn zero_burst_is_invalid() {
    assert_eq!(
        GovernorPolicy::builder().per_second(5).burst_size(0).build().err(),
        Some(GovernorError::InvalidQuota)
    );
}

#[test]
fn burst_before_rate_is_dropped() {
    // Setting a burst before any rate changes nothing: the rate then brings
    // its own default burst.
    let mut policy = GovernorPolicyBuilder::new()
        .burst_size(9)
        .per_second(2)
        .build()
        .unwrap();
    assert_eq!(policy.check("", 0), Ok(()));
    assert_eq!(policy.check("", 0), Ok(()));
    assert_eq!(policy.check("", 0), Err(GovernorError::RateLimited));
}

#[test]
fn per_minute_rate_refills_once_a_minute() {
    let mut policy = GovernorPolicy::builder().per_minute(1).build().unwrap();
    assert_eq!(policy.check("", 0), Ok(()));
    assert_eq!(policy.check("", 30 * SECOND), Err(GovernorError::RateLimited));
    assert_eq!(policy.check("", 60 * SECOND), Ok(()));
}

#[test]
fn default_builder_matches_new() {
    let a = GovernorPolicyBuilder::default();
    let b = GovernorPolicyBuilder::new();
    assert!(a.quota.is_none());
    assert!(b.quota.is_none());
    assert_eq!(a.gc_interval_nanos, b.gc_interval_nanos);
}

#[test]
fn gc_interval_is_kept() {
    let policy = GovernorPolicy::builder()
        .per_second(1)
        .gc_interval(5 * SECOND)
        .build_keyed()
        .unwrap();
    assert_eq!(policy.gc_interval_nanos(), 5 * SECOND);
}

#[test]
fn error_messages() {
    assert_eq!(GovernorError::RateLimited.message(), "rate limit exceeded");
    assert_eq!(GovernorError::InvalidQuota.message(), "invalid quota");
}

#[test]
fn keyed_policy_through_erased_trait() {
    let quota = Quota::per_second(1);
    let mut policy = KeyedPolicy {
        store: KeyedStore::new(quota),
        gc_interval_nanos: 60 * SECOND,
        gc_started: false,
    };
    assert_eq!(AnyKeyedPolicy::check_key(&mut policy, "k", 0), Ok(()));
    assert_eq!(AnyKeyedPolicy::check_key(&mut policy, "k", 0), Err(()));
    assert_eq!(AnyKeyedPolicy::gc_interval(&policy), 60 * SECOND);
    assert!(AnyKeyedPolicy::start_gc_if_needed(&mut policy));
    assert!(!AnyKeyedPolicy::start_gc_if_needed(&mut policy));
    AnyKeyedPolicy::sweep_idle(&mut policy, 120 * SECOND);
    assert!(!policy.store.contains_key("k"));
}

#[test]
fn clock_jitter_is_tolerated() {
    // A check whose timestamp lies before the bucket's last update is
    // treated as zero elapsed time rather than a negative refill.
    let mut policy = build_direct(1, 1);
    assert_eq!(policy.check("", SECOND), Ok(()));
    assert_eq!(policy.check("", 0), Err(GovernorError::RateLimited));
    assert_eq!(policy.check("", 2 * SECOND), Ok(()));
}
