# jaeb

An in-process event bus. The crate in `src/` holds its rules, each stated
as a contract and proved: how listeners are registered and ordered, how a
publish is routed through middlewares and lanes, when a failed handler is
retried and when it becomes a dead letter, how a bus closes, and how handler
declarations are checked. `app/` runs those rules on Tokio.

## Layout

- `src/registry.rs` — registrations, snapshots (lane order, slots) and
  statistics, with the laws of unsubscribing and ordering.
- `src/dispatch.rs` — the in-flight/closed state of a bus, publish routing,
  the middleware pipeline, the walk over the lanes and dead letters.
- `src/retry.rs`, `src/types.rs` — retry strategies, delays and the retry
  budget of an async listener.
- `src/tracker.rs` — the async tasks in flight and the shutdown decisions.
- `src/attrs.rs`, `src/declare.rs` — the attribute grammar of handler
  declarations and the checks a declaration must pass.
- `src/deps.rs` — the dependency container handlers draw from.
- `src/duration.rs`, `src/order.rs`, `src/text.rs`, `src/error.rs`,
  `src/config.rs` — spans of time, string order, text building, errors and
  configuration.
- `app/` — the Tokio runtime: handler and middleware traits, the `EventBus`,
  subscriptions and a test bus.
- `tests/` — tests of the library on concrete values.
