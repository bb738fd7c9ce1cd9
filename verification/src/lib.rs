//! An in-process event bus: registration, ordering, dispatch decisions,
//! retry and dead-letter rules, shutdown bookkeeping, dependencies, and the
//! checks of handler declarations.
pub mod duration;
mod entropy;
pub mod error;
pub mod text;
pub mod types;
pub mod registry;
pub mod order;
pub mod dispatch;
pub mod retry;
pub mod config;
pub mod attrs;
pub mod declare;
pub mod deps;
pub mod tracker;
