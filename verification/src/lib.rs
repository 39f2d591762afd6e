//! A verified event-dispatch engine.
//!
//! Named handlers register against hook types with a priority; firing a
//! hook runs the matching handlers in priority order, each observing or
//! rewriting a JSON payload, under rate limits and per-handler
//! statistics, with every lifecycle transition recorded.  The dispatch
//! logic is specified and proved here; the host supplies the clock, the
//! interpreter channel, child processes and file or network delivery.

use vstd::prelude::*;

pub mod builtins;
pub mod config;
pub mod context;
pub mod errors;
pub mod external;
pub mod json;
pub mod lifecycle;
pub mod manager;
pub mod platform;
pub mod script;
pub mod security;
pub mod strutil;
pub mod tools;
pub mod types;

verus! {

/// The crate's result alias, as the dispatcher's callers use it.
pub type HookResult<T> = Result<T, crate::errors::HookError>;

} // verus!
