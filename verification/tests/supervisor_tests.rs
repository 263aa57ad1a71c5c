use pmrs::policy::Outcome;
use pmrs::registry::{Registry, ServiceConfiguration};
use pmrs::shutdown::{shutdown_step, ShutdownStep};
use pmrs::supervisor::{Action, LoopState, SupervisorLoop};

fn spec(max_restarts: Option<usize>, restart_on_success: bool, expo_backoff: bool) -> SupervisorLoop {
    SupervisorLoop::new(max_restarts, restart_on_success, expo_backoff)
}

#[test]
fn always_failing_with_budget_two_makes_three_attempts() {
    let mut m = spec(Some(2), true, false);
    let mut spawns = 0;
    loop {
        match m.next_attempt(true) {
            Action::SpawnNow => {}
            Action::Finish => break,
            a => panic!("unexpected action {:?}", a),
        }
        spawns += 1;
        assert_eq!(m.on_spawn_result(true), Action::WaitChild);
        assert_eq!(m.on_child_exit(Some(7)), Action::ConsultPolicy);
        match m.decide_next() {
            Action::SleepThenRetry(d) => assert_eq!(d, 1),
            Action::Finish => break,
            a => panic!("unexpected action {:?}", a),
        }
    }
    assert_eq!(spawns, 3);
    assert_eq!(m.attempts, 3);
    assert_eq!(m.state, LoopState::Terminated);
}

#[test]
fn shutdown_mid_run_stops_before_respawn_and_coordinator_completes() {
    // A service that always succeeds and restarts on success, unbounded.
    let mut m = spec(None, true, false);
    assert_eq!(m.next_attempt(true), Action::SpawnNow);
    assert_eq!(m.on_spawn_result(true), Action::WaitChild);

    // The record of that service, running.
    let mut registry = Registry::new(vec![ServiceConfiguration {
        id: 0,
        name: "svc".to_string(),
        args: vec![],
        envs: vec![],
        wd: None,
        cmd: "true".to_string(),
        max_restarts: None,
        restart_on_success: true,
        expo_backoff: false,
        proxy: None,
    }]);
    registry.set_running(0, true);
    assert!(registry.any_running());

    // Shutdown is requested while the child runs; the child then exits 0.
    assert_eq!(m.on_child_exit(Some(0)), Action::ConsultPolicy);
    match m.decide_next() {
        Action::SleepThenRetry(_) => {}
        a => panic!("unexpected action {:?}", a),
    }
    registry.note_exit(0, Some(0));

    // The flag is observed cleared: the loop terminates without respawning.
    assert_eq!(m.next_attempt(false), Action::Finish);
    assert_eq!(m.state, LoopState::Terminated);

    // The coordinator's first poll already completes, well inside its bound.
    assert!(!registry.any_running());
    assert_eq!(shutdown_step(registry.any_running(), 0), ShutdownStep::Done);
}

#[test]
fn restart_on_success_respawns_after_success() {
    let mut m = spec(None, true, false);
    assert_eq!(m.next_attempt(true), Action::SpawnNow);
    assert_eq!(m.on_spawn_result(true), Action::WaitChild);
    assert_eq!(m.on_child_exit(Some(0)), Action::ConsultPolicy);
    assert_eq!(m.decide_next(), Action::SleepThenRetry(1));
    assert_eq!(m.next_attempt(true), Action::SpawnNow);
    assert_eq!(m.attempts, 2);
}

#[test]
fn success_without_restart_on_success_terminates() {
    let mut m = spec(None, false, false);
    assert_eq!(m.next_attempt(true), Action::SpawnNow);
    assert_eq!(m.on_spawn_result(true), Action::WaitChild);
    assert_eq!(m.on_child_exit(Some(0)), Action::ConsultPolicy);
    assert_eq!(m.decide_next(), Action::Finish);
    assert_eq!(m.state, LoopState::Terminated);
    assert_eq!(m.attempts, 1);
}

#[test]
fn spawn_error_is_a_local_failed_attempt() {
    let mut m = spec(Some(0), true, false);
    assert_eq!(m.next_attempt(true), Action::SpawnNow);
    assert_eq!(m.on_spawn_result(false), Action::ConsultPolicy);
    assert_eq!(m.state, LoopState::Exited(Outcome::SpawnError));
    assert_eq!(m.decide_next(), Action::Finish);
    assert_eq!(m.state, LoopState::Terminated);
}

#[test]
fn exit_classification() {
    let mut m = spec(None, true, false);
    m.next_attempt(true);
    m.on_spawn_result(true);
    m.on_child_exit(Some(0));
    assert_eq!(m.state, LoopState::Exited(Outcome::Success));

    let mut m = spec(None, true, false);
    m.next_attempt(true);
    m.on_spawn_result(true);
    m.on_child_exit(None);
    assert_eq!(m.state, LoopState::Exited(Outcome::Failure));
}

#[test]
fn cleared_flag_prevents_the_first_spawn() {
    let mut m = spec(None, true, false);
    assert_eq!(m.next_attempt(false), Action::Finish);
    assert_eq!(m.state, LoopState::Terminated);
    assert_eq!(m.attempts, 0);
}
