use reqs::throttle::{
    plan_random_delay, random_in_range, required_delay_micros, DelayPlan, ThrottleState,
};

#[test]
fn test_required_delay_below_interval() {
    // 100 requests per second: 10_000 microseconds apart
    assert_eq!(required_delay_micros(4_000, 100), 6_000);
}

#[test]
fn test_required_delay_past_interval() {
    assert_eq!(required_delay_micros(20_000, 100), 0);
    assert_eq!(required_delay_micros(10_000, 100), 0);
}

#[test]
fn test_required_delay_rate_one() {
    assert_eq!(required_delay_micros(0, 1), 1_000_000);
}

#[test]
fn test_throttle_stamp_monotone() {
    let mut state = ThrottleState::new(100);
    state.stamp(250);
    assert_eq!(state.last_request_micros, 250);
    state.stamp(250);
    assert_eq!(state.last_request_micros, 250);
}

#[test]
fn test_delay_plan_none() {
    assert_eq!(plan_random_delay(&None), DelayPlan::NoDelay);
}

#[test]
fn test_delay_plan_range() {
    assert_eq!(
        plan_random_delay(&Some("100:500".to_string())),
        DelayPlan::Sleep {
            min_ms: 100,
            max_ms: 500
        }
    );
    assert_eq!(
        plan_random_delay(&Some("7:7".to_string())),
        DelayPlan::Sleep { min_ms: 7, max_ms: 7 }
    );
}

#[test]
fn test_delay_plan_invalid_order() {
    assert_eq!(
        plan_random_delay(&Some("500:100".to_string())),
        DelayPlan::WarnInvalidOrder
    );
}

#[test]
fn test_delay_plan_invalid_values() {
    assert_eq!(
        plan_random_delay(&Some("abc:100".to_string())),
        DelayPlan::WarnInvalidValues
    );
    assert_eq!(
        plan_random_delay(&Some(":".to_string())),
        DelayPlan::WarnInvalidValues
    );
}

#[test]
fn test_delay_plan_invalid_format() {
    assert_eq!(
        plan_random_delay(&Some("100".to_string())),
        DelayPlan::WarnInvalidFormat
    );
    assert_eq!(
        plan_random_delay(&Some("1:2:3".to_string())),
        DelayPlan::WarnInvalidFormat
    );
}

#[test]
fn test_random_in_range_bounds() {
    for _ in 0..50 {
        let d = random_in_range(10, 20);
        assert!((10..=20).contains(&d));
    }
    assert_eq!(random_in_range(5, 5), 5);
}
