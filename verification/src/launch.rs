//! The launch supervisor's retry policy.
//!
//! Bringing a worker up spawns its thread and waits, with a generous
//! timeout, for the worker's first acknowledgment. A timed-out attempt is
//! discarded and a fresh worker is spawned, up to a fixed ceiling of
//! retries; past the ceiling the whole bring-up is aborted, since repeated
//! construction failure indicates a non-transient problem. The spawning and
//! waiting live with the caller; the counting and the decision live here.

use vstd::prelude::*;

verus! {

/// How many timed-out bring-up attempts of one worker are tolerated before
/// the bring-up is aborted.
pub const LAUNCH_RETRY_CEILING: u64 = 10;

/// What the supervisor decides after a bring-up attempt times out.
#[derive(Clone, Copy, Debug, PartialEq, Eq, Structural)]
pub enum LaunchDecision {
    /// Discard the stuck worker and spawn a fresh one.
    RetrySpawn,
    /// Give up on the whole bring-up.
    Abort,
}

/// Counts the timed-out bring-up attempts of one worker.
pub struct LaunchSupervisor {
    timeouts: u64,
}

impl LaunchSupervisor {
    /// How many attempts have timed out so far.
    pub closed spec fn timeouts(self) -> int {
        self.timeouts as int
    }

    /// A fresh supervisor for one worker's bring-up.
    pub fn new() -> (s: LaunchSupervisor)
        ensures
            s.timeouts() == 0,
    {
        LaunchSupervisor { timeouts: 0 }
    }

    /// How many attempts have timed out so far.
    pub fn failed_attempts(&self) -> (n: u64)
        ensures
            n == self.timeouts(),
    {
        self.timeouts
    }

    /// Records one timed-out attempt and decides whether to spawn a fresh
    /// worker or to abort: abort exactly when the ceiling is reached. Once
    /// `Abort` was answered, no further attempt is made.
    pub fn on_timeout(&mut self) -> (d: LaunchDecision)
        requires
            old(self).timeouts() < LAUNCH_RETRY_CEILING,
        ensures
            final(self).timeouts() == old(self).timeouts() + 1,
            d is Abort <==> final(self).timeouts() >= LAUNCH_RETRY_CEILING,
    {
        self.timeouts = self.timeouts + 1;
        if self.timeouts >= LAUNCH_RETRY_CEILING {
            LaunchDecision::Abort
        } else {
            LaunchDecision::RetrySpawn
        }
    }
}

/// Whether a bring-up that has already recorded `timeouts` timed-out
/// attempts eventually succeeds when the instance constructor fails on
/// exactly the next `failures` attempts and then succeeds. This mirrors the
/// supervisor loop: each failure is one `on_timeout` call, and the bring-up
/// dies exactly when one of them answers `Abort`.
pub open spec fn bring_up_succeeds(timeouts: int, failures: nat) -> bool
    decreases failures,
{
    if failures == 0 {
        true
    } else if timeouts + 1 >= LAUNCH_RETRY_CEILING {
        false
    } else {
        bring_up_succeeds(timeouts + 1, (failures - 1) as nat)
    }
}

/// Law: against a constructor that fails deterministically `k` times and
/// then succeeds, the bring-up succeeds exactly when `k` is below the retry
/// ceiling, and aborts from `k` at the ceiling on.
pub proof fn lemma_launch_retry_bound(k: nat)
    ensures
        bring_up_succeeds(0, k) <==> k < LAUNCH_RETRY_CEILING,
{
    lemma_bring_up_succeeds_iff(0, k);
}

proof fn lemma_bring_up_succeeds_iff(timeouts: int, failures: nat)
    requires
        0 <= timeouts < LAUNCH_RETRY_CEILING,
    ensures
        bring_up_succeeds(timeouts, failures) <==> timeouts + failures
            < LAUNCH_RETRY_CEILING,
    decreases failures,
{
    if failures > 0 && timeouts + 1 < LAUNCH_RETRY_CEILING {
        lemma_bring_up_succeeds_iff(timeouts + 1, (failures - 1) as nat);
    }
}

} // verus!
