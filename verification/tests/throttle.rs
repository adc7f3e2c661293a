use zombieland::throttle::{remaining_sleep, MIN_CYCLE_NANOS};

#[test]
fn the_minimum_cycle_is_one_second() {
    assert_eq!(MIN_CYCLE_NANOS, 1_000_000_000);
}

#[test]
fn a_long_cycle_is_followed_by_no_sleep() {
    assert_eq!(remaining_sleep(1_000_000_000), 0);
    assert_eq!(remaining_sleep(1_000_000_001), 0);
    assert_eq!(remaining_sleep(3_600_000_000_000), 0);
    assert_eq!(remaining_sleep(u64::MAX as u128), 0);
    assert_eq!(remaining_sleep(u64::MAX as u128 + 1), 0);
    assert_eq!(remaining_sleep(u128::MAX), 0);
}

#[test]
fn a_short_cycle_is_followed_by_what_is_missing() {
    assert_eq!(remaining_sleep(300_000_000), 700_000_000);
    assert_eq!(remaining_sleep(0), 1_000_000_000);
    assert_eq!(remaining_sleep(1), 999_999_999);
    assert_eq!(remaining_sleep(999_999_999), 1);
}

#[test]
fn three_tenths_of_a_second_leave_seven_tenths() {
    let elapsed = std::time::Duration::from_secs_f64(0.3);
    let sleep = std::time::Duration::from_nanos(remaining_sleep(elapsed.as_nanos()));
    let expected: f64 = 0.7;
    assert!((sleep.as_secs_f64() - expected).abs() < 1e-6);
}

#[test]
fn a_cycle_and_its_sleep_take_a_second_at_least() {
    let mut elapsed: u128 = 0;
    while elapsed < 3_000_000_000 {
        let sleep = remaining_sleep(elapsed) as u128;
        assert!(elapsed + sleep >= 1_000_000_000);
        if elapsed < 1_000_000_000 {
            assert_eq!(elapsed + sleep, 1_000_000_000);
        }
        elapsed += 12_345_679;
    }
}
