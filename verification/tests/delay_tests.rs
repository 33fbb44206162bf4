use std::time::{Duration, Instant};

use keytimer::delay::{delay_busy, validate_duration};
use keytimer::errors::SimError;

#[test]
fn test_delay_busy_precision_10_microseconds() {
    let dur = Duration::from_millis(10);
    let range = dur.as_micros() - 10..dur.as_micros() + 10;
    for _ in 0..100 {
        let now = Instant::now();
        delay_busy(10_000);
        let elapsed = now.elapsed();

        assert!(range.contains(&elapsed.as_micros()));
    }
}

#[test]
fn delay_busy_returns_at_least_requested() {
    let elapsed = delay_busy(5_000);
    assert!(elapsed >= 5_000);
}

#[test]
fn delay_busy_zero_returns_zero() {
    assert_eq!(delay_busy(0), 0);
}

#[test]
fn validate_duration_accepts_non_negative() {
    assert_eq!(validate_duration(0), Ok(0));
    assert_eq!(validate_duration(1_500_000), Ok(1_500_000));
}

#[test]
fn validate_duration_rejects_negative() {
    assert_eq!(validate_duration(-1), Err(SimError::InvalidDuration));
}
