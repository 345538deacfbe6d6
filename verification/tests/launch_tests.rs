use rlgym_sim_rs::launch::{LaunchDecision, LaunchSupervisor};

/// Drives one bring-up against a constructor that fails exactly the first
/// `failures` attempts and then succeeds; answers whether the worker came up.
fn bring_up(failures: u64) -> bool {
    let mut supervisor = LaunchSupervisor::new();
    let mut left = failures;
    loop {
        if left == 0 {
            // this attempt acknowledges in time
            return true;
        }
        left -= 1;
        match supervisor.on_timeout() {
            LaunchDecision::RetrySpawn => {}
            LaunchDecision::Abort => return false,
        }
    }
}

#[test]
fn launch_succeeds_below_ceiling() {
    assert!(bring_up(0));
    assert!(bring_up(3));
    assert!(bring_up(9));
}

#[test]
fn launch_aborts_at_ceiling() {
    assert!(!bring_up(10));
    assert!(!bring_up(11));
}

#[test]
fn timeouts_are_counted() {
    let mut supervisor = LaunchSupervisor::new();
    assert_eq!(supervisor.failed_attempts(), 0);
    supervisor.on_timeout();
    supervisor.on_timeout();
    assert_eq!(supervisor.failed_attempts(), 2);
}
