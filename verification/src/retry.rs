//! The retry rule of async listeners: how many attempts are made, how long
//! to wait between them, and when the listener has failed for good.
use vstd::prelude::*;

use crate::duration::Duration;
use crate::types::{AsyncSubscriptionPolicy, RetryStrategy};

verus! {

/// What to do after a failed attempt.
#[derive(Debug, Clone, Copy, PartialEq, Eq, Structural)]
pub enum RetryDecision {
    /// Try again, after the delay if there is one.
    Retry(Option<Duration>),
    /// Give up; the listener failed after this many attempts.
    GiveUp(usize),
}

/// Tracks the attempts of one async listener invocation.
pub struct RetryTracker {
    policy: AsyncSubscriptionPolicy,
    attempts: usize,
    retries_left: usize,
    in_attempt: bool,
    done: bool,
}

impl RetryTracker {
    /// The policy the invocation follows.
    pub closed spec fn policy(self) -> AsyncSubscriptionPolicy {
        self.policy
    }

    /// Attempts started so far.
    pub closed spec fn attempts(self) -> nat {
        self.attempts as nat
    }

    /// Retries still allowed.
    pub closed spec fn retries_left(self) -> nat {
        self.retries_left as nat
    }

    /// Whether an attempt was started and its result not yet taken.
    pub closed spec fn in_attempt(self) -> bool {
        self.in_attempt
    }

    /// Whether the invocation is over: it succeeded or gave up.
    pub closed spec fn done(self) -> bool {
        self.done
    }

    /// The tracker's invariant: until the invocation is over, every retry
    /// used is an attempt started.
    pub closed spec fn wf(self) -> bool {
        &&& self.in_attempt ==> self.attempts >= 1 && !self.done
        &&& !self.done ==> self.attempts + self.retries_left == self.policy.max_retries + (
        if self.in_attempt {
            1int
        } else {
            0int
        })
    }

    /// A tracker before the first attempt.
    pub fn new(policy: AsyncSubscriptionPolicy) -> (r: RetryTracker)
        ensures
            r.wf(),
            r.policy() == policy,
            r.attempts() == 0,
            r.retries_left() == policy.max_retries,
            !r.in_attempt(),
            !r.done(),
    {
        RetryTracker {
            policy,
            attempts: 0,
            retries_left: policy.max_retries,
            in_attempt: false,
            done: false,
        }
    }

    /// Attempts started so far.
    pub fn attempts_made(&self) -> (r: usize)
        ensures
            r == self.attempts(),
    {
        self.attempts
    }

    /// Retries still allowed.
    pub fn retries_remaining(&self) -> (r: usize)
        ensures
            r == self.retries_left(),
    {
        self.retries_left
    }

    /// Starts an attempt.
    pub fn start_attempt(&mut self)
        requires
            old(self).wf(),
            !old(self).in_attempt(),
            !old(self).done(),
            old(self).attempts() < usize::MAX,
        ensures
            final(self).wf(),
            final(self).in_attempt(),
            !final(self).done(),
            final(self).policy() == old(self).policy(),
            final(self).attempts() == old(self).attempts() + 1,
            final(self).retries_left() == old(self).retries_left(),
    {
        self.attempts = self.attempts + 1;
        self.in_attempt = true;
    }

    /// The attempt succeeded: nothing more to do.
    pub fn on_success(&mut self)
        requires
            old(self).wf(),
            old(self).in_attempt(),
        ensures
            final(self).wf(),
            !final(self).in_attempt(),
            final(self).done(),
            final(self).policy() == old(self).policy(),
            final(self).attempts() == old(self).attempts(),
    {
        self.in_attempt = false;
        self.done = true;
    }

    /// Whether the delay before the next retry can be computed; see
    /// [`RetryStrategy::delay_defined`].
    pub fn next_delay_defined(&self) -> (r: bool)
        requires
            self.wf(),
            self.in_attempt(),
        ensures
            r == (self.policy().retry_strategy matches Some(s) ==> s.delay_defined(
                (self.attempts() - 1) as usize,
            )),
    {
        match self.policy.retry_strategy {
            Some(s) => s.delay_is_defined(self.attempts - 1),
            None => true,
        }
    }

    /// The attempt failed: retry while retries are left, waiting the
    /// strategy's delay for this retry, or give up.
    pub fn on_failure(&mut self) -> (r: RetryDecision)
        requires
            old(self).wf(),
            old(self).in_attempt(),
            old(self).retries_left() > 0 ==> (old(self).policy().retry_strategy matches Some(s)
                ==> s.delay_defined((old(self).attempts() - 1) as usize)),
        ensures
            final(self).wf(),
            !final(self).in_attempt(),
            final(self).done() == (old(self).retries_left() == 0),
            final(self).policy() == old(self).policy(),
            final(self).attempts() == old(self).attempts(),
            old(self).retries_left() == 0 ==> r == RetryDecision::GiveUp(old(self).attempts() as usize)
                && old(self).attempts() == old(self).policy().max_retries + 1
                && final(self).retries_left() == 0,
            old(self).retries_left() > 0 ==> final(self).retries_left() == old(self).retries_left()
                - 1 && r is Retry,
            old(self).retries_left() > 0 ==> match r {
                RetryDecision::Retry(None) => old(self).policy().retry_strategy is None,
                RetryDecision::Retry(Some(d)) => old(self).policy().retry_strategy matches Some(s)
                    && (exists|entropy: u64|
                    d@ == #[trigger] s.delay_spec((old(self).attempts() - 1) as usize, entropy))
                    && d@ <= s.delay_bound((old(self).attempts() - 1) as usize) && (!(s is ExponentialWithJitter) ==> d@ == s.delay_bound(
                    (old(self).attempts() - 1) as usize,
                )),
                RetryDecision::GiveUp(_) => false,
            },
    {
        self.in_attempt = false;
        if self.retries_left == 0 {
            self.done = true;
            return RetryDecision::GiveUp(self.attempts);
        }
        self.retries_left = self.retries_left - 1;
        match self.policy.retry_strategy {
            Some(strategy) => RetryDecision::Retry(Some(strategy.delay_for_attempt(self.attempts - 1))),
            None => RetryDecision::Retry(None),
        }
    }
}

/// Under persistent failure a listener with `max_retries` retries is
/// attempted `max_retries + 1` times: it keeps being retried while fewer
/// attempts were made, and gives up at that count.
pub proof fn law_attempt_budget(t: RetryTracker)
    requires
        t.wf(),
        t.in_attempt(),
    ensures
        !t.done(),
        t.retries_left() == 0 <==> t.attempts() == t.policy().max_retries + 1,
        t.attempts() <= t.policy().max_retries + 1,
{
}

} // verus!
