//! Per-agent match statistics.
//!
//! Score and stat state belongs to exactly one simulation instance, passed
//! in as an owned value at construction, never to process-wide statics:
//! instances in different workers must not alias state. This is that owned
//! value's shape.

use vstd::prelude::*;

verus! {

/// Running tallies for one agent of one instance.
#[derive(Clone, Copy, Debug, Default, PartialEq, Eq, Structural)]
pub struct Stats {
    pub goals: u16,
    pub own_goals: u16,
    pub assists: u16,
}

} // verus!
