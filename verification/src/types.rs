//! Subscription identifiers, retry strategies and subscription policies.
use vstd::arithmetic::power2::pow2;
use vstd::arithmetic::power2::{lemma2_to64, lemma_pow2_pos, lemma_pow2_strictly_increases, lemma_pow2_unfold};
use vstd::prelude::*;

use crate::duration::{max_nanos, min_nat, Duration};

verus! {

/// Unique identifier for a listener or middleware registration.
///
/// Assigned by the bus at subscription time and stable for the lifetime of
/// the registration.
#[derive(Debug, Clone, Copy, PartialEq, Eq, Hash, Structural)]
pub struct SubscriptionId(pub(crate) u64);

impl View for SubscriptionId {
    type V = u64;

    closed spec fn view(&self) -> u64 {
        self.0
    }
}

/// The identifier built from `n` has the numeric value `n`.
pub(crate) broadcast proof fn lemma_id_view_of(n: u64)
    ensures
        #[trigger] SubscriptionId(n)@ == n,
{
}

/// Identifiers with the same numeric value are the same identifier.
pub broadcast proof fn lemma_id_view_injective(a: SubscriptionId, b: SubscriptionId)
    ensures
        #[trigger] a@ == #[trigger] b@ <==> a == b,
{
}

impl SubscriptionId {
    /// The raw numeric value of the identifier.
    pub fn as_u64(self) -> (r: u64)
        ensures
            r == self@,
    {
        self.0
    }

    /// Decimal rendering of the identifier.
    pub fn to_decimal(self) -> (r: String)
        ensures
            r@ == crate::text::decimal(self@ as nat),
    {
        crate::text::u64_to_decimal(self.0)
    }
}

/// Source of the identifiers handed out by a bus: the first one is 1 and
/// each later one is the previous plus one.
pub struct IdAllocator {
    next: u64,
}

impl View for IdAllocator {
    type V = u64;

    closed spec fn view(&self) -> u64 {
        self.next
    }
}

impl IdAllocator {
    /// An allocator whose first identifier is 1.
    pub fn new() -> (r: IdAllocator)
        ensures
            r@ == 1,
    {
        IdAllocator { next: 1 }
    }

    /// Whether another identifier can be handed out.
    pub fn has_next(&self) -> (r: bool)
        ensures
            r == (self@ < u64::MAX),
    {
        self.next < u64::MAX
    }

    /// Hands out the next identifier.
    pub fn next_id(&mut self) -> (r: SubscriptionId)
        requires
            old(self)@ < u64::MAX,
        ensures
            r@ == old(self)@,
            final(self)@ == old(self)@ + 1,
    {
        let id = SubscriptionId(self.next);
        self.next = self.next + 1;
        id
    }
}

/// The identifiers handed out by successive calls of
/// [`next_id`](IdAllocator::next_id) on a fresh allocator are 1, 2, 3, ...:
/// the call numbered `k` from zero hands out `k + 1`, so identifiers rise
/// with each call and no two are equal. `states` are the allocator before
/// each call and after the last, `ids` what each call handed out.
pub proof fn law_identifier_sequence(states: Seq<IdAllocator>, ids: Seq<SubscriptionId>)
    requires
        states.len() == ids.len() + 1,
        states[0]@ == 1,
        forall|k: int|
            0 <= k < ids.len() ==> #[trigger] ids[k]@ == states[k]@ && states[k + 1]@ == states[k]@
                + 1,
    ensures
        forall|k: int| 0 <= k < ids.len() ==> #[trigger] ids[k]@ == k + 1,
        forall|i: int, j: int| 0 <= i < j < ids.len() ==> ids[i]@ < ids[j]@,
{
    assert forall|k: int| 0 <= k <= ids.len() implies #[trigger] states[k]@ == k + 1 by {
        lemma_state_at(states, ids, k);
    }
    assert forall|k: int| 0 <= k < ids.len() implies #[trigger] ids[k]@ == k + 1 by {
        lemma_state_at(states, ids, k);
    }
    assert forall|i: int, j: int| 0 <= i < j < ids.len() implies ids[i]@ < ids[j]@ by {
        lemma_state_at(states, ids, i);
        lemma_state_at(states, ids, j);
    }
}

/// After `k` calls, the allocator's view is `k + 1`.
proof fn lemma_state_at(states: Seq<IdAllocator>, ids: Seq<SubscriptionId>, k: int)
    requires
        states.len() == ids.len() + 1,
        states[0]@ == 1,
        forall|m: int|
            0 <= m < ids.len() ==> #[trigger] ids[m]@ == states[m]@ && states[m + 1]@ == states[m]@
                + 1,
        0 <= k <= ids.len(),
    ensures
        states[k]@ == k + 1,
        k < ids.len() ==> ids[k]@ == k + 1,
    decreases k,
{
    if k > 0 {
        lemma_state_at(states, ids, k - 1);
        assert(ids[k - 1]@ == states[k - 1]@);
    }
    if k < ids.len() {
        assert(ids[k]@ == states[k]@);
    }
}

/// Strategy for computing the delay between retry attempts.
#[derive(Debug, Clone, Copy, PartialEq, Eq, Structural)]
pub enum RetryStrategy {
    /// Wait a fixed duration between each retry.
    Fixed(Duration),
    /// Exponential back-off: attempt `n` waits `min(base * 2^n, max)`.
    Exponential { base: Duration, max: Duration },
    /// Exponential back-off with random jitter: attempt `n` waits a random
    /// span of at most `min(base * 2^n, max)`.
    ExponentialWithJitter { base: Duration, max: Duration },
}

/// `base * 2^attempt` saturated at the longest span, then capped at `max`.
pub open spec fn capped_backoff(base: nat, max: nat, attempt: usize) -> nat {
    min_nat(min_nat(base * pow2(attempt as nat), max_nanos()), max)
}

/// The jittered delay, in nanoseconds, picked by `entropy` below `cap`
/// (`cap` taken modulo 2^64, as a 64-bit count of nanoseconds).
pub open spec fn jitter_nanos(cap: nat, entropy: u64) -> nat {
    let truncated = cap % 0x1_0000_0000_0000_0000;
    if truncated == 0 {
        0
    } else {
        entropy as nat % (truncated + 1)
    }
}

impl RetryStrategy {
    /// The delay before retry `attempt` when it does not depend on chance,
    /// or the upper bound of the random delay for jittered back-off.
    pub open spec fn delay_bound(self, attempt: usize) -> nat {
        match self {
            RetryStrategy::Fixed(d) => d@,
            RetryStrategy::Exponential { base, max } => capped_backoff(base@, max@, attempt),
            RetryStrategy::ExponentialWithJitter { base, max } => capped_backoff(
                base@,
                max@,
                attempt,
            ),
        }
    }

    /// The delay for `attempt` given the random value `entropy`; it does
    /// not depend on `entropy` unless the strategy is jittered.
    pub open spec fn delay_spec(self, attempt: usize, entropy: u64) -> nat {
        match self {
            RetryStrategy::ExponentialWithJitter { .. } => jitter_nanos(
                self.delay_bound(attempt),
                entropy,
            ),
            _ => self.delay_bound(attempt),
        }
    }

    /// The jittered strategy draws below `bound + 1` with the bound taken
    /// as a 64-bit count of nanoseconds; that count must leave room for the
    /// `+ 1`.
    pub open spec fn delay_defined(self, attempt: usize) -> bool {
        match self {
            RetryStrategy::ExponentialWithJitter { .. } => self.delay_bound(attempt)
                % 0x1_0000_0000_0000_0000 != 0xffff_ffff_ffff_ffff,
            _ => true,
        }
    }

    /// `base * 2^attempt`, saturating at the longest span.
    fn doubled(base: Duration, attempt: usize) -> (r: Duration)
        ensures
            r@ == min_nat(base@ * pow2(attempt as nat), max_nanos()),
    {
        let _ = base.as_nanos();
        let top = Duration::max_value();
        let mut d = base;
        let mut i: usize = 0;
        proof {
            lemma2_to64();
        }
        while i < attempt
            invariant_except_break
                i <= attempt,
            invariant
                base@ <= max_nanos(),
                top@ == max_nanos(),
                d@ == min_nat(base@ * pow2(i as nat), max_nanos()),
            ensures
                d@ == min_nat(base@ * pow2(attempt as nat), max_nanos()),
            decreases attempt - i,
        {
            if d.is_zero() || top.le(&d) {
                proof {
                    lemma_pow2_pos(i as nat);
                    lemma_pow2_strictly_increases(i as nat, attempt as nat);
                    let pi = pow2(i as nat);
                    let pa = pow2(attempt as nat);
                    assert(base@ * pi <= base@ * pa) by (nonlinear_arith)
                        requires
                            pi <= pa,
                    ;
                    if d@ == 0 {
                        assert(base@ == 0) by (nonlinear_arith)
                            requires
                                base@ * pi == 0,
                                pi > 0,
                        ;
                        assert(base@ * pa == 0) by (nonlinear_arith)
                            requires
                                base@ == 0,
                        ;
                    }
                }
                break;
            }
            d = d.saturating_mul(2);
            proof {
                lemma_pow2_unfold((i + 1) as nat);
                let pi = pow2(i as nat);
                assert(base@ * pow2((i + 1) as nat) == 2 * (base@ * pi)) by (nonlinear_arith)
                    requires
                        pow2((i + 1) as nat) == 2 * pi,
                ;
            }
            i = i + 1;
        }
        d
    }

    /// `min(base * 2^attempt, max)`, the product saturating at the longest
    /// span.
    fn capped_exponential(base: Duration, max: Duration, attempt: usize) -> (r: Duration)
        ensures
            r@ == capped_backoff(base@, max@, attempt),
    {
        let delay = Self::doubled(base, attempt);
        if max.lt(&delay) {
            max
        } else {
            delay
        }
    }

    /// Whether the delay for `attempt` can be computed; see
    /// [`delay_defined`](Self::delay_defined).
    pub fn delay_is_defined(&self, attempt: usize) -> (r: bool)
        ensures
            r == self.delay_defined(attempt),
    {
        match *self {
            RetryStrategy::ExponentialWithJitter { base, max } => {
                let capped = Self::capped_exponential(base, max, attempt);
                capped.as_nanos() % 0x1_0000_0000_0000_0000u128 != 0xffff_ffff_ffff_ffffu128
            },
            _ => true,
        }
    }

    /// The delay for a zero-based retry `attempt`, with `entropy` the
    /// random value that a jittered strategy draws from.
    pub fn delay_with_entropy(&self, attempt: usize, entropy: u64) -> (r: Duration)
        requires
            self.delay_defined(attempt),
        ensures
            r@ == self.delay_spec(attempt, entropy),
    {
        match *self {
            RetryStrategy::Fixed(d) => d,
            RetryStrategy::Exponential { base, max } => Self::capped_exponential(base, max, attempt),
            RetryStrategy::ExponentialWithJitter { base, max } => {
                let capped = Self::capped_exponential(base, max, attempt);
                let wide: u128 = capped.as_nanos();
                let nanos: u64 = (wide % 0x1_0000_0000_0000_0000u128) as u64;
                if nanos == 0 {
                    Duration::zero()
                } else {
                    Duration::from_nanos(entropy % (nanos + 1))
                }
            },
        }
    }

    /// The delay for a zero-based retry `attempt`.
    ///
    /// Fixed and exponential strategies give an exact delay; the jittered
    /// strategy draws a random delay of at most its cap.
    pub fn delay_for_attempt(&self, attempt: usize) -> (r: Duration)
        requires
            self.delay_defined(attempt),
        ensures
            exists|entropy: u64| r@ == #[trigger] self.delay_spec(attempt, entropy),
            r@ <= self.delay_bound(attempt),
            !(self is ExponentialWithJitter) ==> r@ == self.delay_bound(attempt),
    {
        let entropy = crate::entropy::fresh_entropy();
        let r = self.delay_with_entropy(attempt, entropy);
        proof {
            assert(r@ == self.delay_spec(attempt, entropy));
            if self is ExponentialWithJitter {
                let b = self.delay_bound(attempt);
                let t = b % 0x1_0000_0000_0000_0000;
                if t != 0 {
                    assert(entropy as nat % (t + 1) <= t);
                }
            }
        }
        r
    }
}

/// Exponential back-off waits exactly `min(base * 2^attempt, max)` for
/// every attempt, the jittered strategy drawing below the same cap.
pub proof fn law_exponential_delay_formula(base: Duration, max: Duration, attempt: usize)
    requires
        max@ <= max_nanos(),
    ensures
        (RetryStrategy::Exponential { base, max }).delay_bound(attempt) == min_nat(
            base@ * pow2(attempt as nat),
            max@,
        ),
        (RetryStrategy::ExponentialWithJitter { base, max }).delay_bound(attempt) == min_nat(
            base@ * pow2(attempt as nat),
            max@,
        ),
{
}

/// Exponential back-off never shrinks from one attempt to a later one.
pub proof fn law_backoff_monotone(base: Duration, max: Duration, a: usize, b: usize)
    requires
        a <= b,
    ensures
        capped_backoff(base@, max@, a) <= capped_backoff(base@, max@, b),
{
    let fa = pow2(a as nat);
    let fb = pow2(b as nat);
    if a < b {
        lemma_pow2_strictly_increases(a as nat, b as nat);
    }
    assert(base@ * fa <= base@ * fb) by (nonlinear_arith)
        requires
            fa <= fb,
    ;
}

/// Subscription policy for asynchronous handlers.
#[derive(Debug, Clone, Copy, PartialEq, Eq, Structural)]
pub struct AsyncSubscriptionPolicy {
    /// Number of additional attempts after the first failure.
    pub max_retries: usize,
    /// Optional back-off between attempts; `None` retries immediately.
    pub retry_strategy: Option<RetryStrategy>,
    /// Emit a dead letter once all attempts are exhausted.
    pub dead_letter: bool,
}

impl AsyncSubscriptionPolicy {
    /// No retries, no back-off, dead letters on.
    pub fn default_policy() -> (r: AsyncSubscriptionPolicy)
        ensures
            r.max_retries == 0,
            r.retry_strategy is None,
            r.dead_letter,
    {
        AsyncSubscriptionPolicy { max_retries: 0, retry_strategy: None, dead_letter: true }
    }

    /// Sets the number of retries.
    pub fn with_max_retries(self, max_retries: usize) -> (r: AsyncSubscriptionPolicy)
        ensures
            r == (AsyncSubscriptionPolicy { max_retries, ..self }),
    {
        AsyncSubscriptionPolicy { max_retries, ..self }
    }

    /// Sets the back-off strategy.
    pub fn with_retry_strategy(self, strategy: RetryStrategy) -> (r: AsyncSubscriptionPolicy)
        ensures
            r == (AsyncSubscriptionPolicy { retry_strategy: Some(strategy), ..self }),
    {
        AsyncSubscriptionPolicy { retry_strategy: Some(strategy), ..self }
    }

    /// Turns dead-letter emission on or off.
    pub fn with_dead_letter(self, dead_letter: bool) -> (r: AsyncSubscriptionPolicy)
        ensures
            r == (AsyncSubscriptionPolicy { dead_letter, ..self }),
    {
        AsyncSubscriptionPolicy { dead_letter, ..self }
    }
}

impl Default for AsyncSubscriptionPolicy {
    fn default() -> (r: AsyncSubscriptionPolicy)
        ensures
            r.max_retries == 0,
            r.retry_strategy is None,
            r.dead_letter,
    {
        Self::default_policy()
    }
}

/// Subscription policy for synchronous handlers.
#[derive(Debug, Clone, Copy, PartialEq, Eq, Structural)]
pub struct SyncSubscriptionPolicy {
    /// Ordering hint within the sync lane: higher runs first.
    pub priority: i32,
    /// Emit a dead letter when the handler fails.
    pub dead_letter: bool,
}

impl SyncSubscriptionPolicy {
    /// Priority 0, dead letters on.
    pub fn default_policy() -> (r: SyncSubscriptionPolicy)
        ensures
            r.priority == 0,
            r.dead_letter,
    {
        SyncSubscriptionPolicy { priority: 0, dead_letter: true }
    }

    /// Sets the priority.
    pub fn with_priority(self, priority: i32) -> (r: SyncSubscriptionPolicy)
        ensures
            r == (SyncSubscriptionPolicy { priority, ..self }),
    {
        SyncSubscriptionPolicy { priority, ..self }
    }

    /// Turns dead-letter emission on or off.
    pub fn with_dead_letter(self, dead_letter: bool) -> (r: SyncSubscriptionPolicy)
        ensures
            r == (SyncSubscriptionPolicy { dead_letter, ..self }),
    {
        SyncSubscriptionPolicy { dead_letter, ..self }
    }
}

impl Default for SyncSubscriptionPolicy {
    fn default() -> (r: SyncSubscriptionPolicy)
        ensures
            r.priority == 0,
            r.dead_letter,
    {
        Self::default_policy()
    }
}

/// Fallback policies: `policy` for async subscriptions, `sync_policy` for
/// sync ones.
#[derive(Debug, Clone, Copy, PartialEq, Eq, Structural)]
pub struct SubscriptionDefaults {
    /// Default for async handlers.
    pub policy: AsyncSubscriptionPolicy,
    /// Default for sync handlers.
    pub sync_policy: SyncSubscriptionPolicy,
}

impl Default for SubscriptionDefaults {
    fn default() -> (r: SubscriptionDefaults)
        ensures
            r.policy.max_retries == 0,
            r.policy.retry_strategy is None,
            r.policy.dead_letter,
            r.sync_policy.priority == 0,
            r.sync_policy.dead_letter,
    {
        SubscriptionDefaults {
            policy: AsyncSubscriptionPolicy::default_policy(),
            sync_policy: SyncSubscriptionPolicy::default_policy(),
        }
    }
}

/// Marker for values that can be published: any `Send + Sync + 'static`
/// type is an event.
pub trait Event: Send + Sync + 'static {}

impl<T: Send + Sync + 'static> Event for T {}

/// A registered handler as reported by [`BusStats`](crate::registry::BusStats).
#[derive(Debug, Clone, Copy, PartialEq, Eq)]
pub struct HandlerInfo {
    /// The subscription identifier.
    pub subscription_id: SubscriptionId,
    /// Human-readable name, if the handler has one.
    pub name: Option<&'static str>,
}

} // verus!
