//! Bus configuration and the policies a subscription gets by default.
use vstd::prelude::*;

use crate::duration::Duration;
use crate::error::{ConfigError, EventBusError};
use crate::registry::ListenerPolicy;
use crate::types::{AsyncSubscriptionPolicy, SubscriptionDefaults, SyncSubscriptionPolicy};

verus! {

/// Configuration of a bus, set builder-style.
#[derive(Debug, Clone, Copy)]
pub struct BusConfig {
    /// Per-invocation timeout of async handlers; `None` lets them run.
    pub handler_timeout: Option<Duration>,
    /// Cap on concurrently running async handlers; `None` is no cap.
    pub max_concurrent_async: Option<usize>,
    /// Policies used where a subscription gives none.
    pub subscription_defaults: SubscriptionDefaults,
    /// Deadline for draining async work on shutdown; `None` waits.
    pub shutdown_timeout: Option<Duration>,
    /// Capacity asked for the bus's buffers; `None` leaves the default.
    pub buffer_size: Option<usize>,
}

impl BusConfig {
    /// No timeouts, no cap, default policies.
    pub fn new() -> (r: BusConfig)
        ensures
            r.handler_timeout is None,
            r.max_concurrent_async is None,
            r.subscription_defaults == (SubscriptionDefaults {
                policy: AsyncSubscriptionPolicy { max_retries: 0, retry_strategy: None, dead_letter: true },
                sync_policy: SyncSubscriptionPolicy { priority: 0, dead_letter: true },
            }),
            r.shutdown_timeout is None,
            r.buffer_size is None,
    {
        BusConfig {
            handler_timeout: None,
            max_concurrent_async: None,
            subscription_defaults: SubscriptionDefaults {
                policy: AsyncSubscriptionPolicy::default_policy(),
                sync_policy: SyncSubscriptionPolicy::default_policy(),
            },
            shutdown_timeout: None,
            buffer_size: None,
        }
    }

    /// Sets the buffer capacity.
    pub fn buffer_size(self, size: usize) -> (r: BusConfig)
        ensures
            r == (BusConfig { buffer_size: Some(size), ..self }),
    {
        BusConfig { buffer_size: Some(size), ..self }
    }

    /// Sets the async handler timeout.
    pub fn handler_timeout(self, timeout: Duration) -> (r: BusConfig)
        ensures
            r == (BusConfig { handler_timeout: Some(timeout), ..self }),
    {
        BusConfig { handler_timeout: Some(timeout), ..self }
    }

    /// Sets the cap on concurrent async handlers.
    pub fn max_concurrent_async(self, max: usize) -> (r: BusConfig)
        ensures
            r == (BusConfig { max_concurrent_async: Some(max), ..self }),
    {
        BusConfig { max_concurrent_async: Some(max), ..self }
    }

    /// Sets the fallback subscription policies.
    pub fn default_subscription_policies(self, defaults: SubscriptionDefaults) -> (r: BusConfig)
        ensures
            r == (BusConfig { subscription_defaults: defaults, ..self }),
    {
        BusConfig { subscription_defaults: defaults, ..self }
    }

    /// Sets the shutdown deadline.
    pub fn shutdown_timeout(self, timeout: Duration) -> (r: BusConfig)
        ensures
            r == (BusConfig { shutdown_timeout: Some(timeout), ..self }),
    {
        BusConfig { shutdown_timeout: Some(timeout), ..self }
    }

    /// Checks the configuration: a buffer of zero capacity, then a cap of
    /// zero concurrent async handlers, is refused.
    pub fn validate(&self) -> (r: Result<(), EventBusError>)
        ensures
            self.buffer_size == Some(0usize) ==> r == Err::<(), EventBusError>(
                EventBusError::InvalidConfig(ConfigError::ZeroBufferSize),
            ),
            self.buffer_size != Some(0usize) && self.max_concurrent_async == Some(0usize) ==> r
                == Err::<(), EventBusError>(EventBusError::InvalidConfig(ConfigError::ZeroConcurrency)),
            self.buffer_size != Some(0usize) && self.max_concurrent_async != Some(0usize) ==> r == Ok::<
                (),
                EventBusError,
            >(()),
    {
        if let Some(0) = self.buffer_size {
            return Err(EventBusError::InvalidConfig(ConfigError::ZeroBufferSize));
        }
        match self.max_concurrent_async {
            Some(0) => Err(EventBusError::InvalidConfig(ConfigError::ZeroConcurrency)),
            _ => Ok(()),
        }
    }

    /// The policy a subscription without one gets: the sync default for a
    /// sync handler, the async default otherwise.
    pub fn default_policy(&self, sync: bool) -> (r: ListenerPolicy)
        ensures
            sync ==> r == ListenerPolicy::Sync(self.subscription_defaults.sync_policy),
            !sync ==> r == ListenerPolicy::Async(self.subscription_defaults.policy),
    {
        if sync {
            ListenerPolicy::Sync(self.subscription_defaults.sync_policy)
        } else {
            ListenerPolicy::Async(self.subscription_defaults.policy)
        }
    }
}

/// The policy of a dead-letter listener: the default sync policy with dead
/// letters turned off, so that its failures cannot produce dead letters.
pub fn dead_letter_listener_policy() -> (r: SyncSubscriptionPolicy)
    ensures
        r.priority == 0,
        !r.dead_letter,
{
    SyncSubscriptionPolicy::default_policy().with_dead_letter(false)
}

} // verus!
