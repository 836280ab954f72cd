use dynamodb_cli::retry::{RetryAction, RetryState, MAX_DELAY_NANOS};

const SECOND: u128 = 1_000_000_000;

/// Runs an operation that fails `failures` times and then succeeds, and
/// returns whether it succeeded, the number of attempts and the total wait.
fn run(initial_delay: u128, max_retries: usize, failures: usize) -> (bool, usize, u128) {
    let mut state = RetryState::new(initial_delay, max_retries);
    let mut attempts = 0;
    let mut waited = 0;
    loop {
        attempts += 1;
        if attempts > failures {
            return (true, attempts, waited);
        }
        assert!(state.can_advance());
        match state.on_failure() {
            RetryAction::Retry { delay, attempt } => {
                assert_eq!(attempt, attempts);
                waited += delay;
            }
            RetryAction::GiveUp => return (false, attempts, waited),
        }
    }
}

#[test]
fn success_at_once_waits_nothing() {
    assert_eq!(run(3 * SECOND, 5, 0), (true, 1, 0));
    assert_eq!(run(3 * SECOND, 0, 0), (true, 1, 0));
}

#[test]
fn one_failure_waits_the_initial_delay() {
    assert_eq!(run(3 * SECOND, 5, 1), (true, 2, 3 * SECOND));
}

#[test]
fn two_failures_wait_twice_the_initial_delay() {
    assert_eq!(run(3 * SECOND, 5, 2), (true, 3, 6 * SECOND));
}

#[test]
fn three_failures_wait_four_times_the_initial_delay() {
    assert_eq!(run(3 * SECOND, 5, 3), (true, 4, 12 * SECOND));
}

#[test]
fn failures_up_to_the_budget_still_succeed() {
    // 1 + 1 + 2 + 3 + 5 = 12
    assert_eq!(run(SECOND, 5, 5), (true, 6, 12 * SECOND));
}

#[test]
fn always_failing_gives_up_after_the_budget() {
    assert_eq!(run(SECOND, 5, usize::MAX), (false, 6, 12 * SECOND));
    assert_eq!(run(SECOND, 0, usize::MAX), (false, 1, 0));
    assert_eq!(run(SECOND, 1, usize::MAX), (false, 2, SECOND));
}

#[test]
fn delays_follow_the_fibonacci_schedule() {
    let mut state = RetryState::new(7, 8);
    let mut delays = Vec::new();
    for expected_attempt in 1..=8 {
        match state.on_failure() {
            RetryAction::Retry { delay, attempt } => {
                assert_eq!(attempt, expected_attempt);
                delays.push(delay);
            }
            RetryAction::GiveUp => panic!("gave up within the budget"),
        }
    }
    assert_eq!(delays, vec![7, 7, 14, 21, 35, 56, 91, 147]);
    assert_eq!(state.on_failure(), RetryAction::GiveUp);
}

#[test]
fn giving_up_changes_nothing() {
    let mut state = RetryState::new(5, 2);
    assert_eq!(state.retries(), 0);
    assert_eq!(state.max_retries(), 2);
    assert_eq!(state.on_failure(), RetryAction::Retry { delay: 5, attempt: 1 });
    assert_eq!(state.on_failure(), RetryAction::Retry { delay: 5, attempt: 2 });
    assert_eq!(state.retries(), 2);
    assert_eq!(state.on_failure(), RetryAction::GiveUp);
    assert_eq!(state.on_failure(), RetryAction::GiveUp);
    assert_eq!(state.retries(), 2);
}

#[test]
fn zero_delay_retries_without_waiting() {
    assert_eq!(run(0, 3, 3), (true, 4, 0));
}

#[test]
fn a_schedule_that_outgrows_the_longest_delay_cannot_advance() {
    let state = RetryState::new(MAX_DELAY_NANOS, 3);
    assert!(!state.can_advance());

    // The pair after one retry is (d, 2d): it fits when 2d does.
    let half = MAX_DELAY_NANOS / 2;
    let mut state = RetryState::new(half, 3);
    assert!(state.can_advance());
    assert_eq!(state.on_failure(), RetryAction::Retry { delay: half, attempt: 1 });
    // The next pair would be (2d, 3d).
    assert!(!state.can_advance());

    // Once the budget is spent no pair is computed any more.
    let state = RetryState::new(MAX_DELAY_NANOS, 0);
    assert!(state.can_advance());
}

#[test]
fn the_longest_delay_is_the_longest_duration() {
    assert_eq!(MAX_DELAY_NANOS, std::time::Duration::MAX.as_nanos());
}
