//! Orchestration core of a vectorized simulation host.
//!
//! Many independently owned simulation instances run in parallel workers and
//! are presented to a single caller as one batched step/reset interface. This
//! crate holds the verified heart of that host: the command/result protocol
//! between the manager and its workers, the partitioning of a flat action
//! batch into per-worker slices, the flattening of per-worker results into
//! agent-indexed buffers, the launch-retry policy, and the batching rules of
//! the reward log. The thread, channel and file plumbing around it is ordinary
//! unverified code that only moves values between these functions.

pub mod action_parsers;
pub mod conditionals;
pub mod flatten;
pub mod launch;
pub mod manager;
pub mod protocol;
pub mod reward_sink;
pub mod rewards;
pub mod state_setters;
pub mod stats;
pub mod worker;
