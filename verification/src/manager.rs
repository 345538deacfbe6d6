//! The vectorized manager.
//!
//! The manager presents many workers as one batched step/reset interface.
//! Worker order is fixed at construction and never reordered, and each
//! worker's agent count is fixed when that worker is built, so the caller's
//! flat action batches and the returned flat result buffers stay
//! index-aligned for the manager's whole lifetime.
//!
//! The functions here are the decision and bookkeeping half of each manager
//! operation: they produce the commands to send and they fold the received
//! results into flat, agent-indexed buffers. The channel ends that carry the
//! packets live with the caller.

use vstd::prelude::*;

use crate::flatten::{
    concat_of, lemma_concat_of_count, lemma_concat_of_entry, lemma_sum_of_first,
    lemma_sum_of_nonneg, lemma_sum_of_split, lemma_sum_of_take_succ, lemma_worker_of_segment,
    offset_of, sum_of, worker_of,
};
use crate::protocol::{
    flat_obs_of, flat_rewards_of, obs_parts_of, reward_parts_of, ManagerCommand, WorkerResult,
};

verus! {

/// Why a manager operation was refused. The caller treats `NotWaiting` and
/// `ProtocolViolation` as fatal: no partial batch is ever returned.
#[derive(Clone, Copy, Debug, PartialEq, Eq, Structural)]
pub enum ManagerError {
    /// `step_async` was given an action batch whose length is not the total
    /// agent count.
    ActionCountMismatch,
    /// `step_wait_collect` was called with no step round in flight.
    NotWaiting,
    /// A worker answered with the wrong result variant, or the batch did not
    /// hold one result per worker.
    ProtocolViolation,
}

/// One clone of a worker's value for each of its agents: `b` has one entry
/// per agent and every entry is a clone of `a`'s corresponding entry.
pub open spec fn all_cloned<T: Clone>(a: Seq<T>, b: Seq<T>) -> bool {
    b.len() == a.len() && forall|i: int| 0 <= i < a.len() ==> cloned::<T>(a[i], #[trigger] b[i])
}

/// The flattened buffers of one finished step round, one entry per agent
/// except for `obs` and `rewards`, whose entries come straight from the
/// workers: worker-major, agent-minor everywhere.
pub struct StepOutput<O, R, I> {
    /// One observation per agent.
    pub obs: Vec<O>,
    /// One reward per agent.
    pub rewards: Vec<R>,
    /// Each agent of a worker carries that worker's single done flag.
    pub dones: Vec<bool>,
    /// Each agent of a worker carries that worker's single info record.
    pub infos: Vec<I>,
    /// Each agent of a worker carries that worker's terminal observations,
    /// present exactly when the worker finished an episode this round.
    pub terminal_obs: Vec<Option<Vec<O>>>,
}

/// The manager's own state: the per-worker agent counts fixed at
/// construction, their sum, and whether a step round is in flight.
pub struct GymManager {
    n_agents_per_env: Vec<usize>,
    total_agents: usize,
    waiting: bool,
}

impl GymManager {
    /// The per-worker agent counts, in worker order.
    pub closed spec fn counts(self) -> Seq<usize> {
        self.n_agents_per_env@
    }

    /// The total number of agents over all workers.
    pub closed spec fn total(self) -> int {
        self.total_agents as int
    }

    /// Whether a step round is in flight.
    pub closed spec fn waiting_flag(self) -> bool {
        self.waiting
    }

    /// The stored total is the sum of the per-worker agent counts.
    pub open spec fn wf(self) -> bool {
        self.total() == sum_of(self.counts())
    }

    /// Builds a manager over workers with the given agent counts.
    pub fn new(agent_counts: Vec<usize>) -> (m: GymManager)
        requires
            sum_of(agent_counts@) <= usize::MAX,
        ensures
            m.wf(),
            m.counts() == agent_counts@,
            m.total() == sum_of(agent_counts@),
            !m.waiting_flag(),
    {
        let n = agent_counts.len();
        let mut total: usize = 0;
        let mut i: usize = 0;
        proof {
            assert(agent_counts@.take(0) =~= Seq::<usize>::empty());
        }
        while i < n
            invariant
                i <= n,
                n == agent_counts@.len(),
                total as int == sum_of(agent_counts@.take(i as int)),
                sum_of(agent_counts@) <= usize::MAX,
            decreases n - i,
        {
            proof {
                lemma_sum_of_take_succ(agent_counts@, i as int);
                lemma_sum_of_split(agent_counts@, i as int + 1);
                lemma_sum_of_nonneg(agent_counts@.skip(i as int + 1));
            }
            total = total + agent_counts[i];
            i = i + 1;
        }
        proof {
            assert(agent_counts@.take(n as int) =~= agent_counts@);
        }
        GymManager { n_agents_per_env: agent_counts, total_agents: total, waiting: false }
    }

    /// The number of workers.
    pub fn num_workers(&self) -> (n: usize)
        ensures
            n == self.counts().len(),
    {
        self.n_agents_per_env.len()
    }

    /// The total number of agents over all workers.
    pub fn total_agents(&self) -> (n: usize)
        ensures
            n == self.total(),
    {
        self.total_agents
    }

    /// Whether a step round is in flight: set by `step_async`, cleared by
    /// `step_wait_collect`.
    pub fn waiting(&self) -> (w: bool)
        ensures
            w == self.waiting_flag(),
    {
        self.waiting
    }

    /// One `Reset` command per worker, in worker order.
    pub fn reset_all_commands<A>(&self) -> (cmds: Vec<ManagerCommand<A>>)
        ensures
            cmds@.len() == self.counts().len(),
            forall|w: int| 0 <= w < cmds@.len() ==> cmds@[w] is Reset,
    {
        let n = self.n_agents_per_env.len();
        let mut cmds: Vec<ManagerCommand<A>> = Vec::new();
        let mut i: usize = 0;
        while i < n
            invariant
                i <= n,
                cmds@.len() == i as int,
                forall|w: int| 0 <= w < i as int ==> cmds@[w] is Reset,
            decreases n - i,
        {
            cmds.push(ManagerCommand::Reset);
            i = i + 1;
        }
        cmds
    }

    /// One `Close` command per worker, in worker order. Close is advisory:
    /// the caller sends these and does not wait for the workers to exit.
    pub fn close_commands<A>(&self) -> (cmds: Vec<ManagerCommand<A>>)
        ensures
            cmds@.len() == self.counts().len(),
            forall|w: int| 0 <= w < cmds@.len() ==> cmds@[w] is Close,
    {
        let n = self.n_agents_per_env.len();
        let mut cmds: Vec<ManagerCommand<A>> = Vec::new();
        let mut i: usize = 0;
        while i < n
            invariant
                i <= n,
                cmds@.len() == i as int,
                forall|w: int| 0 <= w < i as int ==> cmds@[w] is Close,
            decreases n - i,
        {
            cmds.push(ManagerCommand::Close);
            i = i + 1;
        }
        cmds
    }

    /// Folds one reset round's results into the flat observation buffer:
    /// every worker must answer `ResetResult`, and the observations are
    /// concatenated in worker order. Anything else is a protocol violation
    /// and yields no partial batch.
    pub fn reset_all_collect<O, R, I>(&self, results: Vec<WorkerResult<O, R, I>>) -> (r: Result<
        Vec<O>,
        ManagerError,
    >)
        ensures
            r is Ok <==> (results@.len() == self.counts().len() && (forall|w: int|
                0 <= w < results@.len() ==> (#[trigger] results@[w]) is ResetResult)),
            r matches Ok(obs) ==> obs@ == flat_obs_of(results@),
            r is Err ==> r == Err::<Vec<O>, ManagerError>(ManagerError::ProtocolViolation),
    {
        if results.len() != self.n_agents_per_env.len() {
            return Err(ManagerError::ProtocolViolation);
        }
        let ghost orig = results@;
        let ghost parts = obs_parts_of(orig);
        let n = results.len();
        let mut rest = results;
        let mut flat: Vec<O> = Vec::new();
        let mut w: usize = 0;
        proof {
            assert(parts.take(0) =~= Seq::<Seq<O>>::empty());
        }
        while w < n
            invariant
                w <= n,
                orig == results@,
                n == orig.len(),
                n == self.counts().len(),
                parts == obs_parts_of(orig),
                rest@ == orig.skip(w as int),
                flat@ == concat_of(parts.take(w as int)),
                forall|i: int| 0 <= i < w as int ==> orig[i] is ResetResult,
            decreases n - w,
        {
            let reply = rest.remove(0);
            proof {
                assert(orig.skip(w as int)[0] == orig[w as int]);
                assert(orig.skip(w as int).remove(0) =~= orig.skip(w as int + 1));
            }
            match reply {
                WorkerResult::ResetResult { mut obs } => {
                    flat.append(&mut obs);
                    proof {
                        assert(parts.take(w as int + 1).drop_last() =~= parts.take(w as int));
                        assert(parts.take(w as int + 1).last() == orig[w as int].obs_seq());
                    }
                },
                _ => {
                    proof {
                        assert(!((#[trigger] results@[w as int]) is ResetResult));
                    }
                    return Err(ManagerError::ProtocolViolation);
                },
            }
            w = w + 1;
        }
        proof {
            assert(parts.take(n as int) =~= parts);
        }
        Ok(flat)
    }

    /// Begins one step round: checks the action batch against the total
    /// agent count before any command exists, then partitions it into one
    /// `Step` command per worker, each carrying that worker's slice of the
    /// batch, and marks the round in flight. A batch of the wrong length is
    /// refused with no command produced and the manager unchanged.
    pub fn step_async<A>(&mut self, actions: Vec<A>) -> (r: Result<
        Vec<ManagerCommand<A>>,
        ManagerError,
    >)
        requires
            old(self).wf(),
        ensures
            final(self).wf(),
            final(self).counts() == old(self).counts(),
            final(self).total() == old(self).total(),
            r is Ok <==> actions@.len() == old(self).total(),
            r is Err ==> r == Err::<Vec<ManagerCommand<A>>, ManagerError>(
                ManagerError::ActionCountMismatch,
            ) && final(self).waiting_flag() == old(self).waiting_flag(),
            r matches Ok(cmds) ==> {
                &&& final(self).waiting_flag()
                &&& cmds@.len() == old(self).counts().len()
                &&& forall|w: int|
                    0 <= w < cmds@.len() ==> {
                        &&& (#[trigger] cmds@[w]) matches ManagerCommand::Step { actions: a }
                        &&& a@ == actions@.subrange(
                            offset_of(old(self).counts(), w),
                            offset_of(old(self).counts(), w) + old(self).counts()[w] as int,
                        )
                    }
            },
    {
        if actions.len() != self.total_agents {
            return Err(ManagerError::ActionCountMismatch);
        }
        let ghost counts = self.counts();
        let ghost all = actions@;
        let n = self.n_agents_per_env.len();
        let mut rest = actions;
        let mut cmds: Vec<ManagerCommand<A>> = Vec::new();
        let mut w: usize = 0;
        proof {
            assert(counts.take(0) =~= Seq::<usize>::empty());
            assert(all.skip(0) =~= all);
        }
        while w < n
            invariant
                w <= n,
                n == counts.len(),
                counts == self.counts(),
                self.wf(),
                all.len() == sum_of(counts),
                cmds@.len() == w as int,
                0 <= offset_of(counts, w as int) <= all.len(),
                rest@ == all.skip(offset_of(counts, w as int)),
                forall|i: int|
                    0 <= i < w as int ==> {
                        &&& (#[trigger] cmds@[i]) matches ManagerCommand::Step { actions: a }
                        &&& a@ == all.subrange(
                            offset_of(counts, i),
                            offset_of(counts, i) + counts[i] as int,
                        )
                    },
            decreases n - w,
        {
            proof {
                lemma_sum_of_split(counts, w as int);
                lemma_sum_of_first(counts.skip(w as int));
                assert(counts.skip(w as int).drop_first() =~= counts.skip(w as int + 1));
                lemma_sum_of_nonneg(counts.skip(w as int + 1));
                lemma_sum_of_take_succ(counts, w as int);
                // so counts[w] <= rest len, and the next offset closes the slice
            }
            let k = self.n_agents_per_env[w];
            let tail = rest.split_off(k);
            proof {
                let o = offset_of(counts, w as int);
                assert(all.skip(o).subrange(0, k as int) =~= all.subrange(o, o + k as int));
                assert(all.skip(o).subrange(k as int, all.len() - o) =~= all.skip(o + k as int));
            }
            cmds.push(ManagerCommand::Step { actions: rest });
            rest = tail;
            w = w + 1;
        }
        self.waiting = true;
        Ok(cmds)
    }

    /// Ends one step round: folds one result per worker, in worker order,
    /// into the flattened buffers. Observations and rewards are concatenated;
    /// the instance-level done flag, the info record and the terminal
    /// observations are broadcast, one copy per agent of their worker. With
    /// no round in flight the call is refused, and a batch with a missing,
    /// surplus or out-of-protocol result yields an error and no partial
    /// batch.
    pub fn step_wait_collect<O: Clone, R, I: Clone>(
        &mut self,
        results: Vec<WorkerResult<O, R, I>>,
    ) -> (r: Result<StepOutput<O, R, I>, ManagerError>)
        requires
            old(self).wf(),
        ensures
            final(self).wf(),
            final(self).counts() == old(self).counts(),
            final(self).total() == old(self).total(),
            !old(self).waiting_flag() ==> r == Err::<StepOutput<O, R, I>, ManagerError>(
                ManagerError::NotWaiting,
            ),
            old(self).waiting_flag() ==> (r is Ok <==> (results@.len() == old(
                self,
            ).counts().len() && (forall|w: int|
                0 <= w < results@.len() ==> (#[trigger] results@[w]).is_step_reply()))),
            old(self).waiting_flag() && r is Err ==> r == Err::<StepOutput<O, R, I>, ManagerError>(
                ManagerError::ProtocolViolation,
            ),
            r is Err ==> final(self).waiting_flag() == old(self).waiting_flag(),
            r matches Ok(out) ==> {
                &&& !final(self).waiting_flag()
                &&& out.obs@ == flat_obs_of(results@)
                &&& out.rewards@ == flat_rewards_of(results@)
                &&& out.dones@.len() == old(self).total()
                &&& out.infos@.len() == old(self).total()
                &&& out.terminal_obs@.len() == old(self).total()
                &&& forall|j: int|
                    0 <= j < old(self).total() ==> (#[trigger] out.dones@[j]) == results@[worker_of(
                        old(self).counts(),
                        j,
                    )].done_flag()
                &&& forall|j: int|
                    0 <= j < old(self).total() ==> cloned::<I>(
                        results@[worker_of(old(self).counts(), j)].info_value(),
                        #[trigger] out.infos@[j],
                    )
                &&& forall|j: int|
                    0 <= j < old(self).total() ==> {
                        let rep = results@[worker_of(old(self).counts(), j)];
                        &&& ((#[trigger] out.terminal_obs@[j]) is Some
                            <==> rep is StepResultWithTerminalObs)
                        &&& (out.terminal_obs@[j] matches Some(t) ==> all_cloned(
                            rep.terminal_obs_seq(),
                            t@,
                        ))
                    }
            },
    {
        if !self.waiting {
            return Err(ManagerError::NotWaiting);
        }
        if results.len() != self.n_agents_per_env.len() {
            return Err(ManagerError::ProtocolViolation);
        }
        let n = results.len();
        let mut i: usize = 0;
        while i < n
            invariant
                i <= n,
                n == results@.len(),
                *self == *old(self),
                old(self).wf(),
                old(self).waiting_flag(),
                forall|w: int| 0 <= w < i as int ==> (#[trigger] results@[w]).is_step_reply(),
            decreases n - i,
        {
            match &results[i] {
                WorkerResult::StepResult { .. } => {},
                WorkerResult::StepResultWithTerminalObs { .. } => {},
                _ => {
                    proof {
                        assert(!((#[trigger] results@[i as int]).is_step_reply()));
                    }
                    return Err(ManagerError::ProtocolViolation);
                },
            }
            i = i + 1;
        }
        let ghost orig = results@;
        let ghost counts = self.counts();
        let ghost obs_parts = obs_parts_of(orig);
        let ghost rew_parts = reward_parts_of(orig);
        let mut rest = results;
        let mut obs: Vec<O> = Vec::new();
        let mut rewards: Vec<R> = Vec::new();
        let mut dones: Vec<bool> = Vec::new();
        let mut infos: Vec<I> = Vec::new();
        let mut terminal: Vec<Option<Vec<O>>> = Vec::new();
        let mut w: usize = 0;
        proof {
            assert(obs_parts.take(0) =~= Seq::<Seq<O>>::empty());
            assert(rew_parts.take(0) =~= Seq::<Seq<R>>::empty());
            assert(counts.take(0) =~= Seq::<usize>::empty());
        }
        while w < n
            invariant
                w <= n,
                n == orig.len(),
                n == counts.len(),
                counts == self.counts(),
                self.wf(),
                obs_parts == obs_parts_of(orig),
                rew_parts == reward_parts_of(orig),
                forall|v: int| 0 <= v < n ==> (#[trigger] orig[v]).is_step_reply(),
                rest@ == orig.skip(w as int),
                obs@ == concat_of(obs_parts.take(w as int)),
                rewards@ == concat_of(rew_parts.take(w as int)),
                dones@.len() == offset_of(counts, w as int),
                infos@.len() == dones@.len(),
                terminal@.len() == dones@.len(),
                forall|j: int|
                    0 <= j < dones@.len() ==> (#[trigger] dones@[j]) == orig[worker_of(
                        counts,
                        j,
                    )].done_flag(),
                forall|j: int|
                    0 <= j < dones@.len() ==> cloned::<I>(
                        orig[worker_of(counts, j)].info_value(),
                        #[trigger] infos@[j],
                    ),
                forall|j: int|
                    0 <= j < dones@.len() ==> {
                        let rep = orig[worker_of(counts, j)];
                        &&& ((#[trigger] terminal@[j]) is Some
                            <==> rep is StepResultWithTerminalObs)
                        &&& (terminal@[j] matches Some(t) ==> all_cloned(
                            rep.terminal_obs_seq(),
                            t@,
                        ))
                    },
            decreases n - w,
        {
            let k = self.n_agents_per_env[w];
            let reply = rest.remove(0);
            proof {
                assert(orig.skip(w as int)[0] == orig[w as int]);
                assert(orig.skip(w as int).remove(0) =~= orig.skip(w as int + 1));
            }
            let (mut robs, mut rrew, rdone, rinfo, rterm): (
                Vec<O>,
                Vec<R>,
                bool,
                I,
                Option<Vec<O>>,
            ) = match reply {
                WorkerResult::StepResult { obs, rewards, done, info } => (
                    obs,
                    rewards,
                    done,
                    info,
                    None,
                ),
                WorkerResult::StepResultWithTerminalObs {
                    obs,
                    rewards,
                    done,
                    info,
                    terminal_obs,
                } => (obs, rewards, done, info, Some(terminal_obs)),
                _ => unreached(),
            };
            proof {
                assert(robs@ == orig[w as int].obs_seq());
                assert(rrew@ == orig[w as int].rewards_seq());
                assert(rdone == orig[w as int].done_flag());
                assert(rinfo == orig[w as int].info_value());
                assert(rterm is Some <==> orig[w as int] is StepResultWithTerminalObs);
                assert(rterm matches Some(t) ==> t@ == orig[w as int].terminal_obs_seq());
                assert(obs_parts.take(w as int + 1).drop_last() =~= obs_parts.take(w as int));
                assert(rew_parts.take(w as int + 1).drop_last() =~= rew_parts.take(w as int));
                lemma_sum_of_take_succ(counts, w as int);
            }
            obs.append(&mut robs);
            rewards.append(&mut rrew);
            let ghost seg = offset_of(counts, w as int);
            let mut a: usize = 0;
            while a < k
                invariant
                    a <= k,
                    w < n,
                    n == orig.len(),
                    n == counts.len(),
                    k == counts[w as int],
                    seg == offset_of(counts, w as int),
                    rdone == orig[w as int].done_flag(),
                    rinfo == orig[w as int].info_value(),
                    rterm is Some <==> orig[w as int] is StepResultWithTerminalObs,
                    rterm matches Some(t) ==> t@ == orig[w as int].terminal_obs_seq(),
                    dones@.len() == seg + a as int,
                    infos@.len() == dones@.len(),
                    terminal@.len() == dones@.len(),
                    forall|j: int|
                        0 <= j < dones@.len() ==> (#[trigger] dones@[j]) == orig[worker_of(
                            counts,
                            j,
                        )].done_flag(),
                    forall|j: int|
                        0 <= j < dones@.len() ==> cloned::<I>(
                            orig[worker_of(counts, j)].info_value(),
                            #[trigger] infos@[j],
                        ),
                    forall|j: int|
                        0 <= j < dones@.len() ==> {
                            let rep = orig[worker_of(counts, j)];
                            &&& ((#[trigger] terminal@[j]) is Some
                                <==> rep is StepResultWithTerminalObs)
                            &&& (terminal@[j] matches Some(t) ==> all_cloned(
                                rep.terminal_obs_seq(),
                                t@,
                            ))
                        },
                decreases k - a,
            {
                proof {
                    lemma_worker_of_segment(counts, w as int, seg + a as int);
                }
                dones.push(rdone);
                infos.push(rinfo.clone());
                match &rterm {
                    Option::Some(t) => {
                        terminal.push(Option::Some(t.clone()));
                    },
                    Option::None => {
                        terminal.push(Option::None);
                    },
                }
                a = a + 1;
            }
            w = w + 1;
        }
        proof {
            assert(obs_parts.take(n as int) =~= obs_parts);
            assert(rew_parts.take(n as int) =~= rew_parts);
            assert(counts.take(n as int) =~= counts);
        }
        self.waiting = false;
        Ok(StepOutput { obs, rewards, dones, infos, terminal_obs: terminal })
    }
}

/// Per-worker agent counts from each worker's match size and self-play
/// flag: with self-play every seat of the match is an agent of this host;
/// without it only one team's seats are.
pub fn agents_per_worker(match_sizes: &Vec<usize>, self_plays: &Vec<bool>) -> (counts: Vec<usize>)
    requires
        match_sizes@.len() == self_plays@.len(),
    ensures
        counts@.len() == match_sizes@.len(),
        forall|i: int|
            0 <= i < counts@.len() ==> (#[trigger] counts@[i]) as int == (if self_plays@[i] {
                match_sizes@[i] as int
            } else {
                match_sizes@[i] as int / 2
            }),
{
    let n = match_sizes.len();
    let mut counts: Vec<usize> = Vec::new();
    let mut i: usize = 0;
    while i < n
        invariant
            i <= n,
            n == match_sizes@.len(),
            n == self_plays@.len(),
            counts@.len() == i as int,
            forall|w: int|
                0 <= w < i as int ==> (#[trigger] counts@[w]) as int == (if self_plays@[w] {
                    match_sizes@[w] as int
                } else {
                    match_sizes@[w] as int / 2
                }),
        decreases n - i,
    {
        if self_plays[i] {
            counts.push(match_sizes[i]);
        } else {
            counts.push(match_sizes[i] / 2);
        }
        i = i + 1;
    }
    counts
}

/// Law: when every one of `N >= 1` workers answers a reset with one
/// observation per agent, the flattened batch holds exactly the sum of the
/// per-worker agent counts.
pub proof fn lemma_reset_batch_count<O, R, I>(
    results: Seq<WorkerResult<O, R, I>>,
    counts: Seq<usize>,
)
    requires
        results.len() == counts.len(),
        forall|w: int|
            0 <= w < results.len() ==> (#[trigger] results[w]).obs_seq().len() == counts[w],
    ensures
        flat_obs_of(results).len() == sum_of(counts),
{
    assert forall|w: int| 0 <= w < results.len() implies (#[trigger] obs_parts_of(results)[w]).len()
        == counts[w] by {
        assert(results[w].obs_seq().len() == counts[w]);
    }
    lemma_concat_of_count(obs_parts_of(results), counts);
}

/// Law: the flattened observation batch is worker-major, agent-minor:
/// worker `i`'s observation `k` stands at `offset_of(counts, i) + k`.
pub proof fn lemma_reset_batch_entry<O, R, I>(
    results: Seq<WorkerResult<O, R, I>>,
    counts: Seq<usize>,
    i: int,
    k: int,
)
    requires
        results.len() == counts.len(),
        forall|w: int|
            0 <= w < results.len() ==> (#[trigger] results[w]).obs_seq().len() == counts[w],
        0 <= i < results.len(),
        0 <= k < counts[i],
    ensures
        flat_obs_of(results)[offset_of(counts, i) + k] == results[i].obs_seq()[k],
{
    assert forall|w: int| 0 <= w < results.len() implies (#[trigger] obs_parts_of(results)[w]).len()
        == counts[w] by {
        assert(results[w].obs_seq().len() == counts[w]);
    }
    lemma_concat_of_entry(obs_parts_of(results), counts, i, k);
}

/// Law: when every worker answers a step with one reward per agent, the
/// flattened reward batch holds one entry per agent, and worker `i`'s reward
/// `k` stands at `offset_of(counts, i) + k`: the caller's flat action index
/// and the returned flat reward index name the same agent.
pub proof fn lemma_reward_batch_layout<O, R, I>(
    results: Seq<WorkerResult<O, R, I>>,
    counts: Seq<usize>,
    i: int,
    k: int,
)
    requires
        results.len() == counts.len(),
        forall|w: int|
            0 <= w < results.len() ==> (#[trigger] results[w]).rewards_seq().len() == counts[w],
        0 <= i < results.len(),
        0 <= k < counts[i],
    ensures
        flat_rewards_of(results).len() == sum_of(counts),
        flat_rewards_of(results)[offset_of(counts, i) + k] == results[i].rewards_seq()[k],
{
    assert forall|w: int| 0 <= w < results.len() implies (#[trigger] reward_parts_of(
        results,
    )[w]).len() == counts[w] by {
        assert(results[w].rewards_seq().len() == counts[w]);
    }
    lemma_concat_of_count(reward_parts_of(results), counts);
    lemma_concat_of_entry(reward_parts_of(results), counts, i, k);
}

/// Law: repeated resets without stepping yield observation batches of
/// identical length and identical order. When every worker answers one
/// observation per agent both times, both flattened batches have the total
/// agent count as their length; and by `lemma_repeated_reset_same_entry`,
/// worker `i`'s observation `k` stands at the same index in both.
pub proof fn lemma_repeated_reset_same_shape<O, R, I>(
    first: Seq<WorkerResult<O, R, I>>,
    second: Seq<WorkerResult<O, R, I>>,
    counts: Seq<usize>,
)
    requires
        first.len() == counts.len(),
        second.len() == counts.len(),
        forall|w: int| 0 <= w < first.len() ==> (#[trigger] first[w]).obs_seq().len() == counts[w],
        forall|w: int|
            0 <= w < second.len() ==> (#[trigger] second[w]).obs_seq().len() == counts[w],
    ensures
        flat_obs_of(first).len() == flat_obs_of(second).len(),
        flat_obs_of(first).len() == sum_of(counts),
{
    lemma_reset_batch_count(first, counts);
    lemma_reset_batch_count(second, counts);
}

/// Law: across repeated resets the order is the same. Worker `i`'s
/// observation `k` stands at index `offset_of(counts, i) + k` in both
/// flattened batches.
pub proof fn lemma_repeated_reset_same_entry<O, R, I>(
    first: Seq<WorkerResult<O, R, I>>,
    second: Seq<WorkerResult<O, R, I>>,
    counts: Seq<usize>,
    i: int,
    k: int,
)
    requires
        first.len() == counts.len(),
        second.len() == counts.len(),
        forall|w: int| 0 <= w < first.len() ==> (#[trigger] first[w]).obs_seq().len() == counts[w],
        forall|w: int|
            0 <= w < second.len() ==> (#[trigger] second[w]).obs_seq().len() == counts[w],
        0 <= i < counts.len(),
        0 <= k < counts[i],
    ensures
        flat_obs_of(first)[offset_of(counts, i) + k] == first[i].obs_seq()[k],
        flat_obs_of(second)[offset_of(counts, i) + k] == second[i].obs_seq()[k],
{
    lemma_reset_batch_entry(first, counts, i, k);
    lemma_reset_batch_entry(second, counts, i, k);
}

} // verus!
