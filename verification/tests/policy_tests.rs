use pmrs::policy::{decide, delay, Decision, Outcome};

#[test]
fn zero_budget_stops_after_first_failure() {
    assert_eq!(
        decide(1, Outcome::Failure, Some(0), true, false),
        Decision::Stop
    );
    assert_eq!(
        decide(1, Outcome::SpawnError, Some(0), true, false),
        Decision::Stop
    );
}

#[test]
fn budget_allows_exactly_max_restarts() {
    // With a budget of 2: attempts 1 and 2 may restart, attempt 3 may not.
    assert_eq!(
        decide(1, Outcome::Failure, Some(2), true, false),
        Decision::RestartAfter(1)
    );
    assert_eq!(
        decide(2, Outcome::Failure, Some(2), true, false),
        Decision::RestartAfter(1)
    );
    assert_eq!(
        decide(3, Outcome::Failure, Some(2), true, false),
        Decision::Stop
    );
}

#[test]
fn unbounded_failures_always_restart() {
    assert_eq!(
        decide(1000, Outcome::Failure, None, true, false),
        Decision::RestartAfter(1)
    );
}

#[test]
fn success_stops_unless_restart_on_success() {
    assert_eq!(decide(1, Outcome::Success, None, false, false), Decision::Stop);
    assert_eq!(decide(5, Outcome::Success, Some(3), false, true), Decision::Stop);
    assert_eq!(
        decide(1, Outcome::Success, None, true, false),
        Decision::RestartAfter(1)
    );
    assert_eq!(
        decide(4, Outcome::Success, Some(9), true, false),
        Decision::RestartAfter(1)
    );
}

#[test]
fn exponential_backoff_delays_strictly_increase() {
    assert_eq!(delay(true, 1), 2);
    assert_eq!(delay(true, 2), 4);
    assert_eq!(delay(true, 3), 8);
    assert_eq!(delay(true, 4), 16);
    assert_eq!(delay(true, 5), 32);
    let mut previous = delay(true, 1);
    for attempt in 2..64 {
        let next = delay(true, attempt);
        assert!(next > previous);
        previous = next;
    }
}

#[test]
fn backoff_saturates_past_the_word() {
    assert_eq!(delay(true, 63), 1u64 << 63);
    assert_eq!(delay(true, 64), u64::MAX);
    assert_eq!(delay(true, 1000), u64::MAX);
}

#[test]
fn fixed_delay_is_one_second() {
    assert_eq!(delay(false, 1), 1);
    assert_eq!(delay(false, 17), 1);
}

#[test]
fn backoff_reaches_the_decision() {
    assert_eq!(
        decide(3, Outcome::Failure, None, true, true),
        Decision::RestartAfter(8)
    );
}
