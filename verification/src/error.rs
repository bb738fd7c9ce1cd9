//! Error types of the bus.
use vstd::prelude::*;
use vstd::string::StringExecFns;

verus! {

/// Specific reason why a bus configuration is invalid.
#[derive(Debug, Clone, Copy, PartialEq, Eq, Structural)]
pub enum ConfigError {
    /// `buffer_size` was set to zero.
    ZeroBufferSize,
    /// `max_concurrent_async` was set to zero.
    ZeroConcurrency,
}

/// The message of a configuration error.
pub open spec fn config_error_text(e: ConfigError) -> Seq<char> {
    match e {
        ConfigError::ZeroBufferSize => "buffer_size must be greater than zero"@,
        ConfigError::ZeroConcurrency => "max_concurrent_async must be greater than zero"@,
    }
}

impl ConfigError {
    /// Human-readable description of the error.
    pub fn message(&self) -> (r: String)
        ensures
            r@ == config_error_text(*self),
    {
        match self {
            ConfigError::ZeroBufferSize => String::from_str("buffer_size must be greater than zero"),
            ConfigError::ZeroConcurrency => String::from_str(
                "max_concurrent_async must be greater than zero",
            ),
        }
    }
}

/// Errors returned by bus operations.
#[derive(Debug, PartialEq, Eq)]
pub enum EventBusError {
    /// The bus has been shut down.
    Stopped,
    /// No capacity is available for a non-waiting publish.
    ChannelFull,
    /// Shutdown timed out before all in-flight async tasks completed.
    ShutdownTimeout,
    /// The builder configuration is invalid.
    InvalidConfig(ConfigError),
    /// A middleware rejected the event before it reached any listener.
    MiddlewareRejected(String),
    /// A handler needs a dependency that was not supplied; holds its type name.
    MissingDependency(String),
}

/// The message of a bus error.
pub open spec fn event_bus_error_text(e: EventBusError) -> Seq<char> {
    match e {
        EventBusError::Stopped => "event bus is stopped"@,
        EventBusError::ChannelFull => "event bus channel is full"@,
        EventBusError::ShutdownTimeout => "shutdown timed out waiting for in-flight tasks"@,
        EventBusError::InvalidConfig(c) => "invalid event bus configuration: "@
            + config_error_text(c),
        EventBusError::MiddlewareRejected(reason) => "middleware rejected event: "@ + reason@,
        EventBusError::MissingDependency(name) => "missing dependency: "@ + name@,
    }
}

impl EventBusError {
    /// Human-readable description of the error.
    pub fn message(&self) -> (r: String)
        ensures
            r@ == event_bus_error_text(*self),
    {
        match self {
            EventBusError::Stopped => String::from_str("event bus is stopped"),
            EventBusError::ChannelFull => String::from_str("event bus channel is full"),
            EventBusError::ShutdownTimeout => String::from_str(
                "shutdown timed out waiting for in-flight tasks",
            ),
            EventBusError::InvalidConfig(c) => {
                let inner = c.message();
                let mut s = String::from_str("invalid event bus configuration: ");
                s.append(inner.as_str());
                s
            },
            EventBusError::MiddlewareRejected(reason) => {
                let mut s = String::from_str("middleware rejected event: ");
                s.append(reason.as_str());
                s
            },
            EventBusError::MissingDependency(name) => {
                let mut s = String::from_str("missing dependency: ");
                s.append(name.as_str());
                s
            },
        }
    }

    /// The configuration error underlying this one, if any.
    pub fn source(&self) -> (r: Option<ConfigError>)
        ensures
            r == (match *self {
                EventBusError::InvalidConfig(c) => Some(c),
                _ => None,
            }),
    {
        match self {
            EventBusError::InvalidConfig(c) => Some(*c),
            _ => None,
        }
    }
}

impl Clone for EventBusError {
    fn clone(&self) -> (r: EventBusError)
        ensures
            r == *self,
    {
        match self {
            EventBusError::Stopped => EventBusError::Stopped,
            EventBusError::ChannelFull => EventBusError::ChannelFull,
            EventBusError::ShutdownTimeout => EventBusError::ShutdownTimeout,
            EventBusError::InvalidConfig(c) => EventBusError::InvalidConfig(*c),
            EventBusError::MiddlewareRejected(reason) => EventBusError::MiddlewareRejected(
                reason.clone(),
            ),
            EventBusError::MissingDependency(name) => EventBusError::MissingDependency(name.clone()),
        }
    }
}

impl From<ConfigError> for EventBusError {
    fn from(err: ConfigError) -> (r: EventBusError) {
        EventBusError::InvalidConfig(err)
    }
}

impl vstd::std_specs::convert::FromSpecImpl<ConfigError> for EventBusError {
    open spec fn obeys_from_spec() -> bool {
        true
    }

    open spec fn from_spec(v: ConfigError) -> EventBusError {
        EventBusError::InvalidConfig(v)
    }
}

/// The error reported when a middleware panics with message `msg`.
pub fn middleware_panic_error(msg: &str) -> (r: EventBusError)
    ensures
        r matches EventBusError::MiddlewareRejected(reason) && reason@ == "middleware panicked: "@
            + msg@,
{
    let mut s = String::from_str("middleware panicked: ");
    s.append(msg);
    EventBusError::MiddlewareRejected(s)
}

} // verus!
