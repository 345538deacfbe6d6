//! The worker's half of the protocol.
//!
//! A worker owns exactly one simulation instance and runs a blocking receive
//! loop over manager commands. The loop itself blocks on a channel and calls
//! into the instance, so it lives with the caller; the decisions it takes are
//! the two functions here: what a command asks for, and how a finished step
//! is answered. A send or receive error ends the loop as a normal shutdown.

use vstd::prelude::*;

use crate::protocol::{ManagerCommand, WorkerResult};

verus! {

/// What the worker is to do next with its simulation instance.
pub enum WorkerDirective<A> {
    /// Call `step` with these actions, then reply with `step_reply`.
    RunStep { actions: Vec<A> },
    /// Call `reset` and reply with `ResetResult`.
    RunReset,
    /// Leave the receive loop, releasing the instance.
    Shutdown,
}

/// What one `step` call of the simulation instance produced: one observation
/// and one reward per agent, the instance-level done flag, and the info
/// record.
pub struct StepOutcome<O, R, I> {
    pub obs: Vec<O>,
    pub rewards: Vec<R>,
    pub done: bool,
    pub info: I,
}

/// The worker's dispatch table: each manager command maps to exactly one
/// directive, with a `Step` command's actions handed through unchanged.
pub fn on_command<A>(cmd: ManagerCommand<A>) -> (d: WorkerDirective<A>)
    ensures
        cmd matches ManagerCommand::Step { actions } ==> ({
            &&& d matches WorkerDirective::RunStep { actions: a }
            &&& a == actions
        }),
        cmd is Reset ==> d is RunReset,
        cmd is Close ==> d is Shutdown,
{
    match cmd {
        ManagerCommand::Step { actions } => WorkerDirective::RunStep { actions },
        ManagerCommand::Reset => WorkerDirective::RunReset,
        ManagerCommand::Close => WorkerDirective::Shutdown,
    }
}

/// Whether the worker must reset its instance before replying to this step:
/// exactly when the episode just finished (auto-reset on done).
pub fn needs_auto_reset<O, R, I>(outcome: &StepOutcome<O, R, I>) -> (b: bool)
    ensures
        b == outcome.done,
{
    outcome.done
}

/// Builds the reply to a `Step` command; `fresh_obs` are the observations of
/// the immediate reset that followed a finished episode, present exactly
/// when the episode finished.
///
/// This is the auto-reset law: when `done` is set, the next round trip
/// operates on the freshly reset instance — the reply's observations are the
/// post-reset ones — and the finished episode's last observations are
/// delivered alongside them in the same reply, as `terminal_obs`. When the
/// episode goes on, the reply is a plain `StepResult` carrying the step's
/// own output unchanged.
pub fn step_reply<O, R, I>(outcome: StepOutcome<O, R, I>, fresh_obs: Option<Vec<O>>) -> (r:
    WorkerResult<O, R, I>)
    requires
        outcome.done <==> fresh_obs is Some,
    ensures
        !outcome.done ==> r == (WorkerResult::StepResult {
            obs: outcome.obs,
            rewards: outcome.rewards,
            done: outcome.done,
            info: outcome.info,
        }),
        outcome.done ==> r == (WorkerResult::StepResultWithTerminalObs {
            obs: fresh_obs.unwrap(),
            rewards: outcome.rewards,
            done: outcome.done,
            info: outcome.info,
            terminal_obs: outcome.obs,
        }),
{
    let StepOutcome { obs, rewards, done, info } = outcome;
    match fresh_obs {
        Option::Some(fresh) => WorkerResult::StepResultWithTerminalObs {
            obs: fresh,
            rewards,
            done,
            info,
            terminal_obs: obs,
        },
        Option::None => WorkerResult::StepResult { obs, rewards, done, info },
    }
}

/// Builds the reply to a `Reset` command from the instance's fresh
/// observations.
pub fn reset_reply<O, R, I>(obs: Vec<O>) -> (r: WorkerResult<O, R, I>)
    ensures
        r == (WorkerResult::<O, R, I>::ResetResult { obs }),
{
    WorkerResult::ResetResult { obs }
}

} // verus!
