//! Configuration of the pluggable terminal conditions.
//!
//! A terminal condition decides, inside a simulation instance, when an
//! episode ends; the instance evaluates it against game state that never
//! leaves the worker. The types here are the conditions' plain counters and
//! bounds, created on the caller's side and carried to the worker.

use vstd::prelude::*;

verus! {

/// Ends the episode once a fixed number of steps has been taken.
pub struct TimeoutCondition {
    steps: i64,
    max_steps: i64,
}

impl TimeoutCondition {
    /// Steps taken in the running episode.
    pub closed spec fn steps(self) -> int {
        self.steps as int
    }

    /// The step budget of one episode.
    pub closed spec fn max_steps(self) -> int {
        self.max_steps as int
    }

    pub fn new(max_steps: i64) -> (c: TimeoutCondition)
        ensures
            c.steps() == 0,
            c.max_steps() == max_steps,
    {
        TimeoutCondition { steps: 0, max_steps }
    }
}

/// Ends the episode once no one has touched the ball for a fixed number of
/// steps.
pub struct NoTouchTimeoutCondition {
    steps: i64,
    max_steps: i64,
}

impl NoTouchTimeoutCondition {
    /// Steps since the last ball touch.
    pub closed spec fn steps(self) -> int {
        self.steps as int
    }

    /// How many touchless steps end the episode.
    pub closed spec fn max_steps(self) -> int {
        self.max_steps as int
    }

    pub fn new(max_steps: i64) -> (c: NoTouchTimeoutCondition)
        ensures
            c.steps() == 0,
            c.max_steps() == max_steps,
    {
        NoTouchTimeoutCondition { steps: 0, max_steps }
    }
}

/// Ends the episode when either side's score has changed.
pub struct GoalScoredCondition {
    blue_score: i32,
    orange_score: i32,
}

impl GoalScoredCondition {
    /// The blue score seen last.
    pub closed spec fn blue_score(self) -> int {
        self.blue_score as int
    }

    /// The orange score seen last.
    pub closed spec fn orange_score(self) -> int {
        self.orange_score as int
    }

    pub fn new() -> (c: GoalScoredCondition)
        ensures
            c.blue_score() == 0,
            c.orange_score() == 0,
    {
        GoalScoredCondition { blue_score: 0, orange_score: 0 }
    }
}

impl Default for GoalScoredCondition {
    fn default() -> (c: Self)
        ensures
            c.blue_score() == 0,
            c.orange_score() == 0,
    {
        GoalScoredCondition::new()
    }
}

/// Ends the episode when the ball still sits on the kickoff spot, untouched,
/// after a fixed number of steps.
pub struct NoTouchKickoffTimeoutCondition {
    steps: i64,
    max_steps: i64,
}

impl NoTouchKickoffTimeoutCondition {
    /// Steps the ball has sat on the kickoff spot untouched.
    pub closed spec fn steps(self) -> int {
        self.steps as int
    }

    /// How many such steps end the episode.
    pub closed spec fn max_steps(self) -> int {
        self.max_steps as int
    }

    pub fn new(max_steps: i64) -> (c: NoTouchKickoffTimeoutCondition)
        ensures
            c.steps() == 0,
            c.max_steps() == max_steps,
    {
        NoTouchKickoffTimeoutCondition { steps: 0, max_steps }
    }
}

} // verus!
