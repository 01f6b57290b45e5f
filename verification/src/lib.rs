//! Global barrier coordination for a streaming cluster.
//!
//! The coordinator drives consistent checkpoints across a fleet of compute
//! workers by injecting monotonically numbered barriers into their data-flow
//! graphs and collecting their acknowledgements. It enforces epoch ordering,
//! bounds in-flight work, commits epoch-scoped storage side effects in order,
//! and hands off to fleet recovery on any failure.
//!
//! The decision logic is fully verified; the surrounding I/O (RPC fan-out,
//! storage commits, persistence, timers) is driven by a host loop that feeds
//! results back as events.

use vstd::prelude::*;

pub mod command;
pub mod epoch;
pub mod error;
pub mod info;
pub mod manager;
pub mod notifier;
pub mod options;
pub mod pipeline;
pub mod progress;
pub mod protocol;
pub mod scheduled;

verus! {

/// Identifier of a stream-operator instance hosted on a worker.
pub type ActorId = u32;

/// Identifier of a compute worker node.
pub type WorkerId = u32;

/// Identifier of a table / materialized view being created.
pub type TableId = u32;

} // verus!
