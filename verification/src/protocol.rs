//! The command/result protocol between the manager and its workers.
//!
//! Commands travel manager-to-worker, results worker-to-manager, one in
//! flight per worker in each direction. Both are tagged variants so that the
//! protocol is exhaustively checked. The payload types are parameters: an
//! observation `O`, a reward scalar `R` and a per-step info record `I` are
//! only moved or cloned here, never inspected.

use vstd::prelude::*;

verus! {

/// A command sent from the manager to one worker.
pub enum ManagerCommand<A> {
    /// Drive the instance one step, with one action per agent of that worker.
    Step { actions: Vec<A> },
    /// Start a fresh episode and report its first observations.
    Reset,
    /// Shut the worker down.
    Close,
}

/// A result sent from one worker back to the manager.
pub enum WorkerResult<O, R, I> {
    /// A step finished and the episode goes on.
    StepResult { obs: Vec<O>, rewards: Vec<R>, done: bool, info: I },
    /// A step finished the episode: the worker reset its instance at once and
    /// reports the finished episode's last observations alongside the fresh
    /// post-reset ones.
    StepResultWithTerminalObs {
        obs: Vec<O>,
        rewards: Vec<R>,
        done: bool,
        info: I,
        terminal_obs: Vec<O>,
    },
    /// A reset finished.
    ResetResult { obs: Vec<O> },
    /// The worker's instance was constructed and the worker is ready.
    ReadyAck,
}

impl<O, R, I> WorkerResult<O, R, I> {
    /// Whether this is a legal reply to a `Step` command.
    pub open spec fn is_step_reply(self) -> bool {
        self is StepResult || self is StepResultWithTerminalObs
    }

    /// The observations carried; empty for `ReadyAck`.
    pub open spec fn obs_seq(self) -> Seq<O> {
        match self {
            WorkerResult::StepResult { obs, .. } => obs@,
            WorkerResult::StepResultWithTerminalObs { obs, .. } => obs@,
            WorkerResult::ResetResult { obs } => obs@,
            WorkerResult::ReadyAck => Seq::empty(),
        }
    }

    /// The rewards carried; empty outside step replies.
    pub open spec fn rewards_seq(self) -> Seq<R> {
        match self {
            WorkerResult::StepResult { rewards, .. } => rewards@,
            WorkerResult::StepResultWithTerminalObs { rewards, .. } => rewards@,
            _ => Seq::empty(),
        }
    }

    /// The instance-level done flag; false outside step replies.
    pub open spec fn done_flag(self) -> bool {
        match self {
            WorkerResult::StepResult { done, .. } => done,
            WorkerResult::StepResultWithTerminalObs { done, .. } => done,
            _ => false,
        }
    }

    /// The per-step info record; meaningful only for step replies.
    pub open spec fn info_value(self) -> I {
        match self {
            WorkerResult::StepResult { info, .. } => info,
            WorkerResult::StepResultWithTerminalObs { info, .. } => info,
            _ => arbitrary(),
        }
    }

    /// The finished episode's last observations; empty unless the reply
    /// carries them.
    pub open spec fn terminal_obs_seq(self) -> Seq<O> {
        match self {
            WorkerResult::StepResultWithTerminalObs { terminal_obs, .. } => terminal_obs@,
            _ => Seq::empty(),
        }
    }
}

/// The observation parts of a result batch, one per worker.
pub open spec fn obs_parts_of<O, R, I>(results: Seq<WorkerResult<O, R, I>>) -> Seq<Seq<O>> {
    results.map_values(|r: WorkerResult<O, R, I>| r.obs_seq())
}

/// The reward parts of a result batch, one per worker.
pub open spec fn reward_parts_of<O, R, I>(results: Seq<WorkerResult<O, R, I>>) -> Seq<Seq<R>> {
    results.map_values(|r: WorkerResult<O, R, I>| r.rewards_seq())
}

/// All observations of a result batch, concatenated in worker order.
pub open spec fn flat_obs_of<O, R, I>(results: Seq<WorkerResult<O, R, I>>) -> Seq<O> {
    crate::flatten::concat_of(obs_parts_of(results))
}

/// All rewards of a result batch, concatenated in worker order.
pub open spec fn flat_rewards_of<O, R, I>(results: Seq<WorkerResult<O, R, I>>) -> Seq<R> {
    crate::flatten::concat_of(reward_parts_of(results))
}

} // verus!
