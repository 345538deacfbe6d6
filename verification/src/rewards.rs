//! Configuration of the pluggable reward functions.
//!
//! A reward function scores each agent's step inside its simulation
//! instance; the scoring arithmetic runs there, outside this core. The
//! types here are the reward functions' plain switches, created on the
//! caller's side and carried to the worker.

use vstd::prelude::*;

verus! {

/// Rewards ball velocity towards the opponent goal (or the own goal, when
/// so configured), by scalar projection when so configured.
pub struct VelocityBallToGoalReward {
    own_goal: bool,
    use_scalar_projection: bool,
}

impl VelocityBallToGoalReward {
    /// Whether the own goal is the objective.
    pub closed spec fn own_goal(self) -> bool {
        self.own_goal
    }

    /// Whether the velocity is scored by scalar projection.
    pub closed spec fn use_scalar_projection(self) -> bool {
        self.use_scalar_projection
    }

    /// Both switches default to off.
    pub fn new(own_goal: Option<bool>, use_scalar_projection: Option<bool>) -> (r:
        VelocityBallToGoalReward)
        ensures
            r.own_goal() == own_goal.unwrap_or(false),
            r.use_scalar_projection() == use_scalar_projection.unwrap_or(false),
    {
        let own_goal = own_goal.unwrap_or(false);
        let use_scalar_projection = use_scalar_projection.unwrap_or(false);
        VelocityBallToGoalReward { own_goal, use_scalar_projection }
    }
}

/// Rewards the agent's own speed, or punishes it when negated.
pub struct VelocityReward {
    negative: bool,
}

impl VelocityReward {
    /// Whether speed is punished instead of rewarded.
    pub closed spec fn negative(self) -> bool {
        self.negative
    }

    /// Defaults to rewarding speed.
    pub fn new(negative: Option<bool>) -> (r: VelocityReward)
        ensures
            r.negative() == negative.unwrap_or(false),
    {
        let negative = negative.unwrap_or(false);
        VelocityReward { negative }
    }
}

/// Rewards holding on to boost.
pub struct SaveBoostReward {}

impl SaveBoostReward {
    pub fn new() -> (r: SaveBoostReward)
        ensures
            r == (SaveBoostReward {}),
    {
        SaveBoostReward {  }
    }
}

impl Default for SaveBoostReward {
    fn default() -> (r: Self)
        ensures
            r == (SaveBoostReward {}),
    {
        SaveBoostReward::new()
    }
}

/// Rewards the agent's velocity towards the ball, by scalar projection when
/// so configured.
pub struct VelocityPlayerToBallReward {
    use_scalar_projection: bool,
}

impl VelocityPlayerToBallReward {
    /// Whether the velocity is scored by scalar projection.
    pub closed spec fn use_scalar_projection(self) -> bool {
        self.use_scalar_projection
    }

    /// The switch defaults to off.
    pub fn new(use_scalar_projection: Option<bool>) -> (r: VelocityPlayerToBallReward)
        ensures
            r.use_scalar_projection() == use_scalar_projection.unwrap_or(false),
    {
        let use_scalar_projection = use_scalar_projection.unwrap_or(false);
        VelocityPlayerToBallReward { use_scalar_projection }
    }
}

} // verus!
