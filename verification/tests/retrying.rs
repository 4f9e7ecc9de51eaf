use reqs::executor::{retry_decision, should_pause_before_attempt, FailureStep};

/// Drive the retry state machine over a list of send outcomes, the way
/// the orchestrating loop does, and count what it emits.
fn drive(outcomes: &[bool], retry: u32) -> (u32, u32) {
    let mut records: u32 = 0;
    let mut notices: u32 = 0;
    let mut attempts: u32 = 0;
    for ok in outcomes {
        if *ok {
            records += 1;
            break;
        }
        attempts += 1;
        match retry_decision(attempts, retry) {
            FailureStep::Retry => notices += 1,
            FailureStep::Exhausted => break,
        }
    }
    (records, notices)
}

#[test]
fn test_retry_fail_then_success() {
    // fails `retry` times, then succeeds: one record, `retry` notices
    let outcomes = [false, false, false, true];
    assert_eq!(drive(&outcomes, 3), (1, 3));
}

#[test]
fn test_retry_immediate_success() {
    assert_eq!(drive(&[true], 3), (1, 0));
}

#[test]
fn test_retry_exhausted() {
    // fails once more than the budget: no record
    let outcomes = [false, false, false, false];
    assert_eq!(drive(&outcomes, 3), (0, 3));
}

#[test]
fn test_retry_zero_budget() {
    assert_eq!(drive(&[false], 0), (0, 0));
    assert_eq!(drive(&[true], 0), (1, 0));
}

#[test]
fn test_pause_before_attempt() {
    assert!(!should_pause_before_attempt(0, 100));
    assert!(!should_pause_before_attempt(1, 0));
    assert!(should_pause_before_attempt(1, 100));
}
