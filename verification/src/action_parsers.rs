//! Configuration of the pluggable action parsers.
//!
//! An action parser is one of the strategies supplied to a simulation
//! instance at construction; its arithmetic runs inside the instance, which
//! is outside this core. The types here are the parsers' plain configuration
//! values, created on the caller's side and carried to the worker.

use vstd::prelude::*;

verus! {

/// Parser that clips every continuous action entry into the valid range.
#[derive(Clone, Copy, Default)]
pub struct ContinuousAction;

impl ContinuousAction {
    pub fn new() -> (p: ContinuousAction)
        ensures
            p == (ContinuousAction {}),
    {
        ContinuousAction
    }
}

/// Parser that maps a discrete action index to controls, with a fixed
/// number of bins per continuous control.
pub struct DiscreteAction {
    n_bins: usize,
}

impl DiscreteAction {
    /// How many bins each continuous control is split into.
    pub closed spec fn n_bins(self) -> int {
        self.n_bins as int
    }

    pub fn new() -> (p: DiscreteAction)
        ensures
            p.n_bins() == 3,
    {
        DiscreteAction { n_bins: 3 }
    }
}

impl Default for DiscreteAction {
    fn default() -> (p: Self)
        ensures
            p.n_bins() == 3,
    {
        DiscreteAction::new()
    }
}

/// Parser that passes actions through unchanged, for tests.
pub struct TestAction {}

impl TestAction {
    pub fn new() -> (p: TestAction)
        ensures
            p == (TestAction {}),
    {
        TestAction {  }
    }
}

impl Default for TestAction {
    fn default() -> (p: Self)
        ensures
            p == (TestAction {}),
    {
        TestAction::new()
    }
}

} // verus!
