use jaeb::duration::Duration;
use jaeb::retry::{RetryDecision, RetryTracker};
use jaeb::types::{AsyncSubscriptionPolicy, RetryStrategy};

fn ms(n: u64) -> Duration {
    Duration::from_millis(n)
}

#[test]
fn fixed_delay_is_constant() {
    let s = RetryStrategy::Fixed(ms(50));
    assert_eq!(s.delay_for_attempt(0).as_millis(), 50);
    assert_eq!(s.delay_for_attempt(7).as_millis(), 50);
}

#[test]
fn exponential_delay_doubles_until_cap() {
    let s = RetryStrategy::Exponential { base: ms(100), max: ms(1000) };
    assert_eq!(s.delay_for_attempt(0).as_millis(), 100);
    assert_eq!(s.delay_for_attempt(1).as_millis(), 200);
    assert_eq!(s.delay_for_attempt(2).as_millis(), 400);
    assert_eq!(s.delay_for_attempt(3).as_millis(), 800);
    assert_eq!(s.delay_for_attempt(4).as_millis(), 1000);
    assert_eq!(s.delay_for_attempt(40).as_millis(), 1000);
}

#[test]
fn exponential_delay_doubles_past_thirty_one() {
    let s = RetryStrategy::Exponential { base: Duration::from_nanos(1), max: Duration::max_value() };
    assert_eq!(s.delay_for_attempt(31).as_nanos(), 1u128 << 31);
    assert_eq!(s.delay_for_attempt(32).as_nanos(), 1u128 << 32);
    assert_eq!(s.delay_for_attempt(40).as_nanos(), 1u128 << 40);
    assert_eq!(s.delay_for_attempt(93).as_nanos(), 1u128 << 93);
    assert_eq!(s.delay_for_attempt(100).as_nanos(), Duration::max_value().as_nanos());
    assert_eq!(s.delay_for_attempt(usize::MAX).as_nanos(), Duration::max_value().as_nanos());
    let zero = RetryStrategy::Exponential { base: Duration::zero(), max: Duration::max_value() };
    assert_eq!(zero.delay_for_attempt(usize::MAX).as_nanos(), 0);
}

#[test]
fn jittered_delay_stays_within_cap() {
    let s = RetryStrategy::ExponentialWithJitter { base: ms(10), max: ms(30) };
    for attempt in 0..6 {
        let cap = std::cmp::min(10u128 << attempt, 30) * 1_000_000;
        for _ in 0..20 {
            assert!(s.delay_for_attempt(attempt).as_nanos() <= cap);
        }
    }
}

#[test]
fn jitter_with_given_entropy_is_exact() {
    let s = RetryStrategy::ExponentialWithJitter { base: Duration::from_nanos(10), max: Duration::from_nanos(100) };
    // cap at attempt 1 is 20 ns: the delay is entropy mod 21.
    assert_eq!(s.delay_with_entropy(1, 25).as_nanos(), 4);
    assert_eq!(s.delay_with_entropy(1, 20).as_nanos(), 20);
    let zero = RetryStrategy::ExponentialWithJitter { base: Duration::zero(), max: ms(5) };
    assert_eq!(zero.delay_with_entropy(3, 12345).as_nanos(), 0);
}

#[test]
fn tracker_gives_up_after_all_retries() {
    let policy = AsyncSubscriptionPolicy::default_policy().with_max_retries(2);
    let mut t = RetryTracker::new(policy);
    t.start_attempt();
    assert_eq!(t.on_failure(), RetryDecision::Retry(None));
    t.start_attempt();
    assert_eq!(t.on_failure(), RetryDecision::Retry(None));
    t.start_attempt();
    assert_eq!(t.on_failure(), RetryDecision::GiveUp(3));
    assert_eq!(t.attempts_made(), 3);
}

#[test]
fn tracker_waits_strategy_delay_between_attempts() {
    let policy = AsyncSubscriptionPolicy::default_policy()
        .with_max_retries(2)
        .with_retry_strategy(RetryStrategy::Exponential { base: ms(10), max: ms(1000) });
    let mut t = RetryTracker::new(policy);
    t.start_attempt();
    assert_eq!(t.on_failure(), RetryDecision::Retry(Some(ms(10))));
    t.start_attempt();
    assert_eq!(t.on_failure(), RetryDecision::Retry(Some(ms(20))));
    t.start_attempt();
    assert_eq!(t.on_failure(), RetryDecision::GiveUp(3));
}

#[test]
fn tracker_success_ends_invocation() {
    let mut t = RetryTracker::new(AsyncSubscriptionPolicy::default_policy().with_max_retries(5));
    t.start_attempt();
    t.on_success();
    assert_eq!(t.attempts_made(), 1);
}

#[test]
fn no_retries_gives_up_after_first_failure() {
    let mut t = RetryTracker::new(AsyncSubscriptionPolicy::default_policy());
    t.start_attempt();
    assert_eq!(t.on_failure(), RetryDecision::GiveUp(1));
}

#[test]
fn policy_builders_set_fields() {
    let p = AsyncSubscriptionPolicy::default()
        .with_max_retries(4)
        .with_retry_strategy(RetryStrategy::Fixed(ms(5)))
        .with_dead_letter(false);
    assert_eq!(p.max_retries, 4);
    assert_eq!(p.retry_strategy, Some(RetryStrategy::Fixed(ms(5))));
    assert!(!p.dead_letter);
    let d = AsyncSubscriptionPolicy::default();
    assert_eq!(d.max_retries, 0);
    assert_eq!(d.retry_strategy, None);
    assert!(d.dead_letter);
}
