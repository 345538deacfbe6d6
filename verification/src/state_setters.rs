//! Configuration of the pluggable state setters used in tests.
//!
//! A state setter arranges cars and ball at the start of an episode, inside
//! its simulation instance. The two setters here arrange fixed scenes for
//! exercising rewards and state plumbing; they carry no state of their own.

use vstd::prelude::*;

verus! {

/// Arranges one exact, hand-picked scene.
pub struct ExactStateTester {}

impl ExactStateTester {
    pub fn new() -> (s: ExactStateTester)
        ensures
            s == (ExactStateTester {}),
    {
        ExactStateTester {  }
    }
}

impl Default for ExactStateTester {
    fn default() -> (s: Self)
        ensures
            s == (ExactStateTester {}),
    {
        ExactStateTester::new()
    }
}

/// Arranges a scene with cars placed for demolitions.
pub struct DemoStateTester {}

impl DemoStateTester {
    pub fn new() -> (s: DemoStateTester)
        ensures
            s == (DemoStateTester {}),
    {
        DemoStateTester {  }
    }
}

} // verus!
