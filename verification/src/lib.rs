//! A verified model of a deterministic smart-contract runtime.
//!
//! A *contract instance* owns a journalled key/value store; a host dispatches
//! one *invocation* at a time into a named entry point, which may read the
//! environment, mutate storage through the journal, and emit events. On
//! success the journal commits atomically; on failure everything is discarded.
//! Two leaf contracts exercise the model: a boolean flipper and a token.

pub mod codec;
pub mod dispatch;
pub mod erc20;
pub mod erc20_wire;
pub mod event;
pub mod example;
pub mod host;
pub mod ledger;
pub mod store;
pub mod types;
