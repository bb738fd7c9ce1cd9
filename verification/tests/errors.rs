use jaeb::config::{dead_letter_listener_policy, BusConfig};
use jaeb::duration::Duration;
use jaeb::error::{middleware_panic_error, ConfigError, EventBusError};
use jaeb::registry::ListenerPolicy;
use jaeb::types::{SubscriptionDefaults, SyncSubscriptionPolicy};

#[test]
fn error_messages() {
    assert_eq!(EventBusError::Stopped.message(), "event bus is stopped");
    assert_eq!(EventBusError::ChannelFull.message(), "event bus channel is full");
    assert_eq!(EventBusError::ShutdownTimeout.message(), "shutdown timed out waiting for in-flight tasks");
    assert_eq!(
        EventBusError::InvalidConfig(ConfigError::ZeroConcurrency).message(),
        "invalid event bus configuration: max_concurrent_async must be greater than zero"
    );
    assert_eq!(
        EventBusError::MiddlewareRejected("nope".to_string()).message(),
        "middleware rejected event: nope"
    );
    assert_eq!(ConfigError::ZeroBufferSize.message(), "buffer_size must be greater than zero");
}

#[test]
fn config_error_is_the_source() {
    let e = EventBusError::from(ConfigError::ZeroConcurrency);
    assert_eq!(e, EventBusError::InvalidConfig(ConfigError::ZeroConcurrency));
    assert_eq!(e.source(), Some(ConfigError::ZeroConcurrency));
    assert_eq!(EventBusError::Stopped.source(), None);
    assert_eq!(e.clone(), e);
}

#[test]
fn middleware_panic_becomes_rejection() {
    assert_eq!(
        middleware_panic_error("boom"),
        EventBusError::MiddlewareRejected("middleware panicked: boom".to_string())
    );
}

#[test]
fn zero_buffer_is_invalid_first() {
    let c = BusConfig::new().buffer_size(0).max_concurrent_async(0);
    assert_eq!(c.validate(), Err(EventBusError::InvalidConfig(ConfigError::ZeroBufferSize)));
    assert_eq!(BusConfig::new().buffer_size(16).validate(), Ok(()));
}

#[test]
fn zero_concurrency_is_invalid() {
    let c = BusConfig::new().max_concurrent_async(0);
    assert_eq!(c.validate(), Err(EventBusError::InvalidConfig(ConfigError::ZeroConcurrency)));
    assert_eq!(BusConfig::new().max_concurrent_async(4).validate(), Ok(()));
    assert_eq!(BusConfig::new().validate(), Ok(()));
}

#[test]
fn config_builders_and_default_policies() {
    let defaults = SubscriptionDefaults {
        policy: jaeb::types::AsyncSubscriptionPolicy::default().with_max_retries(3),
        sync_policy: SyncSubscriptionPolicy::default().with_priority(7),
    };
    let c = BusConfig::new()
        .handler_timeout(Duration::from_secs(1))
        .shutdown_timeout(Duration::from_secs(2))
        .default_subscription_policies(defaults);
    assert_eq!(c.handler_timeout, Some(Duration::from_secs(1)));
    assert_eq!(c.shutdown_timeout, Some(Duration::from_secs(2)));
    assert_eq!(c.default_policy(true), ListenerPolicy::Sync(SyncSubscriptionPolicy::default().with_priority(7)));
    match c.default_policy(false) {
        ListenerPolicy::Async(p) => assert_eq!(p.max_retries, 3),
        other => panic!("expected an async policy, got {:?}", other),
    }
}

#[test]
fn dead_letter_listeners_never_emit_dead_letters() {
    let p = dead_letter_listener_policy();
    assert_eq!(p.priority, 0);
    assert!(!p.dead_letter);
}
