use interactive_engine::clock::{get_current_timestamp, timestamp_from};
use interactive_engine::numeric::{div_trunc, isqrt, saturate_i32, scale_value, vector_norm_sq};

#[test]
fn isqrt_of_perfect_and_imperfect_squares() {
    assert_eq!(isqrt(0), 0);
    assert_eq!(isqrt(1), 1);
    assert_eq!(isqrt(24), 4);
    assert_eq!(isqrt(25), 5);
    assert_eq!(isqrt(26), 5);
    assert_eq!(isqrt(u128::MAX), u64::MAX);
}

#[test]
fn truncating_division_rounds_toward_zero() {
    assert_eq!(div_trunc(7, 2), 3);
    assert_eq!(div_trunc(-7, 2), -3);
    assert_eq!(div_trunc(i128::MIN, 1), i128::MIN);
    assert_eq!(div_trunc(i128::MIN, i128::MAX), -1);
}

#[test]
fn scaling_by_thousandths() {
    assert_eq!(scale_value(10, 600), 6);
    assert_eq!(scale_value(-10, 1200), -12);
    assert_eq!(scale_value(-1, 600), 0);
    assert_eq!(saturate_i32(5_000_000_000), i32::MAX);
}

#[test]
fn squared_length() {
    assert_eq!(vector_norm_sq(3, -4), 25);
}

#[test]
fn readings_of_the_clock_become_timestamps() {
    assert_eq!(timestamp_from(None), 0);
    assert_eq!(timestamp_from(Some(0)), 0);
    assert_eq!(timestamp_from(Some(1_700_000_000_123)), 1_700_000_000_123);
    assert_eq!(timestamp_from(Some(u64::MAX as u128)), u64::MAX);
    assert_eq!(timestamp_from(Some(u64::MAX as u128 + 1)), u64::MAX);
    assert_eq!(timestamp_from(Some(u128::MAX)), u64::MAX);
    // The clock of any machine that runs this stands after the year 2001.
    assert!(get_current_timestamp() > 1_000_000_000_000);
}
