use std::collections::HashMap;

use rlgym_sim_rs::manager::{agents_per_worker, GymManager, ManagerError};
use rlgym_sim_rs::protocol::{ManagerCommand, WorkerResult};

type Obs = Vec<f32>;
type Info = HashMap<String, f32>;
type Reply = WorkerResult<Obs, f32, Info>;

fn obs(vals: &[f32]) -> Vec<Obs> {
    let mut out = Vec::new();
    for v in vals {
        out.push(vec![*v]);
    }
    out
}

fn info(tag: f32) -> Info {
    let mut m = HashMap::new();
    m.insert("tag".to_string(), tag);
    m
}

#[test]
fn reset_flattens_worker_major() {
    let m = GymManager::new(vec![1, 2, 1]);
    let results: Vec<Reply> = vec![
        WorkerResult::ResetResult { obs: obs(&[0.0]) },
        WorkerResult::ResetResult { obs: obs(&[1.0, 2.0]) },
        WorkerResult::ResetResult { obs: obs(&[3.0]) },
    ];
    let flat = m.reset_all_collect(results).unwrap();
    assert_eq!(flat.len(), 4);
    assert_eq!(flat, vec![vec![0.0], vec![1.0], vec![2.0], vec![3.0]]);
}

#[test]
fn repeated_reset_same_shape() {
    let m = GymManager::new(vec![2, 1]);
    let first: Vec<Reply> = vec![
        WorkerResult::ResetResult { obs: obs(&[0.0, 1.0]) },
        WorkerResult::ResetResult { obs: obs(&[2.0]) },
    ];
    let second: Vec<Reply> = vec![
        WorkerResult::ResetResult { obs: obs(&[5.0, 6.0]) },
        WorkerResult::ResetResult { obs: obs(&[7.0]) },
    ];
    let a = m.reset_all_collect(first).unwrap();
    let b = m.reset_all_collect(second).unwrap();
    assert_eq!(a.len(), b.len());
    // same order: index j belongs to the same worker and agent in both
    assert_eq!(a, vec![vec![0.0], vec![1.0], vec![2.0]]);
    assert_eq!(b, vec![vec![5.0], vec![6.0], vec![7.0]]);
}

#[test]
fn reset_collect_refuses_wrong_variant() {
    let m = GymManager::new(vec![1, 1]);
    let results: Vec<Reply> = vec![
        WorkerResult::ResetResult { obs: obs(&[0.0]) },
        WorkerResult::ReadyAck,
    ];
    assert!(matches!(m.reset_all_collect(results), Err(ManagerError::ProtocolViolation)));
}

#[test]
fn step_async_rejects_wrong_count_before_any_command() {
    let mut m = GymManager::new(vec![1, 2, 1]);
    let r = m.step_async(vec![vec![0.0f32]; 3]);
    assert!(matches!(r, Err(ManagerError::ActionCountMismatch)));
    assert!(!m.waiting());
}

#[test]
fn step_async_partitions_by_agent_count() {
    let mut m = GymManager::new(vec![1, 2, 1]);
    let actions: Vec<Vec<f32>> = vec![vec![0.0], vec![1.0], vec![2.0], vec![3.0]];
    let cmds = m.step_async(actions).unwrap();
    assert!(m.waiting());
    assert_eq!(cmds.len(), 3);
    let expected: Vec<Vec<Vec<f32>>> =
        vec![vec![vec![0.0]], vec![vec![1.0], vec![2.0]], vec![vec![3.0]]];
    for (cmd, want) in cmds.into_iter().zip(expected) {
        match cmd {
            ManagerCommand::Step { actions } => assert_eq!(actions, want),
            _ => panic!("every worker must receive a Step command"),
        }
    }
}

#[test]
fn step_wait_without_step_async_is_refused() {
    let mut m = GymManager::new(vec![1]);
    let results: Vec<Reply> = vec![WorkerResult::StepResult {
        obs: obs(&[0.0]),
        rewards: vec![0.0],
        done: false,
        info: info(0.0),
    }];
    assert!(matches!(m.step_wait_collect(results), Err(ManagerError::NotWaiting)));
}

#[test]
fn step_wait_refuses_short_batch() {
    let mut m = GymManager::new(vec![1, 1]);
    m.step_async(vec![vec![0.0f32]; 2]).unwrap();
    let results: Vec<Reply> = vec![WorkerResult::StepResult {
        obs: obs(&[0.0]),
        rewards: vec![0.0],
        done: false,
        info: info(0.0),
    }];
    assert!(matches!(m.step_wait_collect(results), Err(ManagerError::ProtocolViolation)));
    assert!(m.waiting());
}

#[test]
fn step_wait_refuses_reset_reply() {
    let mut m = GymManager::new(vec![1]);
    m.step_async(vec![vec![0.0f32]]).unwrap();
    let results: Vec<Reply> = vec![WorkerResult::ResetResult { obs: obs(&[0.0]) }];
    assert!(matches!(m.step_wait_collect(results), Err(ManagerError::ProtocolViolation)));
}

#[test]
fn scenario_three_workers_one_two_one() {
    let mut m = GymManager::new(vec![1, 2, 1]);
    assert_eq!(m.total_agents(), 4);
    assert_eq!(m.num_workers(), 3);

    let actions: Vec<Vec<f32>> = vec![vec![0.0], vec![1.0], vec![2.0], vec![3.0]];
    let cmds = m.step_async(actions).unwrap();
    assert_eq!(cmds.len(), 3);
    assert!(m.waiting());

    let results: Vec<Reply> = vec![
        WorkerResult::StepResult {
            obs: obs(&[10.0]),
            rewards: vec![0.5],
            done: false,
            info: info(0.0),
        },
        WorkerResult::StepResultWithTerminalObs {
            obs: obs(&[11.0, 12.0]),
            rewards: vec![1.5, 2.5],
            done: true,
            info: info(1.0),
            terminal_obs: obs(&[91.0, 92.0]),
        },
        WorkerResult::StepResult {
            obs: obs(&[13.0]),
            rewards: vec![3.5],
            done: false,
            info: info(2.0),
        },
    ];
    let out = m.step_wait_collect(results).unwrap();
    assert!(!m.waiting());

    // rewards: element 0 from worker 0, elements 1-2 from worker 1, element 3 from worker 2
    assert_eq!(out.rewards, vec![0.5, 1.5, 2.5, 3.5]);
    assert_eq!(out.obs, vec![vec![10.0], vec![11.0], vec![12.0], vec![13.0]]);

    // done and info broadcast: elements 1 and 2 are identical
    assert_eq!(out.dones, vec![false, true, true, false]);
    assert_eq!(out.infos.len(), 4);
    assert_eq!(out.infos[1], out.infos[2]);
    assert_eq!(out.infos[1], info(1.0));
    assert_eq!(out.infos[0], info(0.0));
    assert_eq!(out.infos[3], info(2.0));

    // terminal observations ride along only for the finished worker
    assert!(out.terminal_obs[0].is_none());
    assert_eq!(out.terminal_obs[1], Some(obs(&[91.0, 92.0])));
    assert_eq!(out.terminal_obs[2], Some(obs(&[91.0, 92.0])));
    assert!(out.terminal_obs[3].is_none());
}

#[test]
fn auto_reset_round_trip_after_done() {
    // A worker that reported done has already reset its instance: the
    // observations it handed back are the fresh ones, and the next round
    // trip steps the fresh episode with no reset command in between.
    let mut m = GymManager::new(vec![1]);
    m.step_async(vec![vec![0.0f32]]).unwrap();
    let results: Vec<Reply> = vec![WorkerResult::StepResultWithTerminalObs {
        obs: obs(&[50.0]),
        rewards: vec![1.0],
        done: true,
        info: info(0.0),
        terminal_obs: obs(&[49.0]),
    }];
    let out = m.step_wait_collect(results).unwrap();
    assert_eq!(out.obs, obs(&[50.0]));
    assert_eq!(out.terminal_obs[0], Some(obs(&[49.0])));
    // the manager is ready for the next step round at once
    let cmds = m.step_async(vec![vec![1.0f32]]).unwrap();
    assert_eq!(cmds.len(), 1);
}

#[test]
fn close_sends_one_close_per_worker() {
    let m = GymManager::new(vec![1, 2, 1]);
    let cmds: Vec<ManagerCommand<Vec<f32>>> = m.close_commands();
    assert_eq!(cmds.len(), 3);
    for cmd in &cmds {
        assert!(matches!(cmd, ManagerCommand::Close));
    }
}

#[test]
fn reset_sends_one_reset_per_worker() {
    let m = GymManager::new(vec![2, 2]);
    let cmds: Vec<ManagerCommand<Vec<f32>>> = m.reset_all_commands();
    assert_eq!(cmds.len(), 2);
    for cmd in &cmds {
        assert!(matches!(cmd, ManagerCommand::Reset));
    }
}

#[test]
fn agent_counts_respect_self_play() {
    let counts = agents_per_worker(&vec![2, 6, 4], &vec![true, false, false]);
    assert_eq!(counts, vec![2, 3, 2]);
}

#[test]
fn single_worker_manager() {
    let m = GymManager::new(vec![3]);
    assert_eq!(m.total_agents(), 3);
    let results: Vec<Reply> =
        vec![WorkerResult::ResetResult { obs: obs(&[1.0, 2.0, 3.0]) }];
    let flat = m.reset_all_collect(results).unwrap();
    assert_eq!(flat.len(), 3);
}
