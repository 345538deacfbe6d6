use rlgym_sim_rs::protocol::{ManagerCommand, WorkerResult};
use rlgym_sim_rs::worker::{needs_auto_reset, on_command, reset_reply, step_reply, StepOutcome,
    WorkerDirective};

type Obs = Vec<f32>;
type Outcome = StepOutcome<Obs, f32, String>;

fn obs(vals: &[f32]) -> Vec<Obs> {
    let mut out = Vec::new();
    for v in vals {
        out.push(vec![*v]);
    }
    out
}

#[test]
fn commands_map_to_directives() {
    let step: ManagerCommand<Obs> = ManagerCommand::Step { actions: obs(&[1.0, 2.0]) };
    match on_command(step) {
        WorkerDirective::RunStep { actions } => assert_eq!(actions, obs(&[1.0, 2.0])),
        _ => panic!("a Step command must run a step"),
    }
    assert!(matches!(
        on_command::<Obs>(ManagerCommand::Reset),
        WorkerDirective::RunReset
    ));
    assert!(matches!(
        on_command::<Obs>(ManagerCommand::Close),
        WorkerDirective::Shutdown
    ));
}

#[test]
fn auto_reset_needed_exactly_on_done() {
    let finished: Outcome = StepOutcome {
        obs: obs(&[1.0]),
        rewards: vec![0.0],
        done: true,
        info: "i".to_string(),
    };
    let running: Outcome = StepOutcome {
        obs: obs(&[1.0]),
        rewards: vec![0.0],
        done: false,
        info: "i".to_string(),
    };
    assert!(needs_auto_reset(&finished));
    assert!(!needs_auto_reset(&running));
}

#[test]
fn step_reply_carries_terminal_and_fresh_together() {
    let outcome: Outcome = StepOutcome {
        obs: obs(&[7.0]),
        rewards: vec![1.0],
        done: true,
        info: "i".to_string(),
    };
    match step_reply(outcome, Some(obs(&[9.0]))) {
        WorkerResult::StepResultWithTerminalObs { obs, rewards, done, terminal_obs, .. } => {
            assert!(done);
            assert_eq!(rewards, vec![1.0]);
            // the caller sees the fresh post-reset observations ...
            assert_eq!(obs, vec![vec![9.0]]);
            // ... and the finished episode's last ones in the same reply
            assert_eq!(terminal_obs, vec![vec![7.0]]);
        }
        _ => panic!("a finished step must carry the terminal observations"),
    }
}

#[test]
fn step_reply_plain_while_episode_runs() {
    let outcome: Outcome = StepOutcome {
        obs: obs(&[7.0]),
        rewards: vec![1.0],
        done: false,
        info: "i".to_string(),
    };
    match step_reply(outcome, None) {
        WorkerResult::StepResult { obs, rewards, done, .. } => {
            assert!(!done);
            assert_eq!(rewards, vec![1.0]);
            assert_eq!(obs, vec![vec![7.0]]);
        }
        _ => panic!("an unfinished step is answered with a plain StepResult"),
    }
}

#[test]
fn reset_reply_wraps_observations() {
    match reset_reply::<Obs, f32, String>(obs(&[4.0])) {
        WorkerResult::ResetResult { obs } => assert_eq!(obs, vec![vec![4.0]]),
        _ => panic!("a reset is answered with ResetResult"),
    }
}
