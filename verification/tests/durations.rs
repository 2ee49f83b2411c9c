use timer::Duration;

#[test]
fn zero_is_empty() {
    assert!(Duration::zero().is_zero());
    assert_eq!(Duration::zero().as_nanos(), 0);
    assert_eq!(Duration::zero(), Duration::new(0, 0));
}

#[test]
fn new_counts_seconds_and_nanoseconds() {
    assert_eq!(Duration::new(2, 5).as_nanos(), 2_000_000_005);
    assert_eq!(Duration::new(u64::MAX, 999_999_999).as_nanos(), 18_446_744_073_709_551_615_999_999_999);
    assert_eq!(Duration::new(0, 1_500_000_000).as_nanos(), 1_500_000_000);
}

#[test]
fn from_millis_scales() {
    assert_eq!(Duration::from_millis(10).as_nanos(), 10_000_000);
    assert_eq!(Duration::from_millis(10), Duration::from_nanos(10_000_000));
    assert_eq!(Duration::from_millis(u64::MAX).as_millis(), u64::MAX as u128);
}

#[test]
fn as_millis_rounds_down() {
    assert_eq!(Duration::from_nanos(1_999_999).as_millis(), 1);
    assert_eq!(Duration::from_nanos(999_999).as_millis(), 0);
    assert_eq!(Duration::from_nanos(2_000_000).as_millis(), 2);
}

#[test]
fn is_zero_only_for_the_empty_span() {
    assert!(Duration::from_nanos(0).is_zero());
    assert!(!Duration::from_nanos(1).is_zero());
}

#[test]
fn plus_adds() {
    let sum = Duration::from_millis(3).plus(Duration::from_nanos(7));
    assert_eq!(sum.as_nanos(), 3_000_007);
}

#[test]
fn checked_add_detects_overflow() {
    let most = Duration::from_nanos(u128::MAX - 1);
    assert_eq!(most.checked_add(Duration::from_nanos(1)), Some(Duration::from_nanos(u128::MAX)));
    assert_eq!(most.checked_add(Duration::from_nanos(2)), None);
    assert_eq!(
        Duration::from_nanos(4).checked_add(Duration::from_nanos(5)),
        Some(Duration::from_nanos(9))
    );
}

#[test]
fn saturating_sub_stops_at_zero() {
    let five = Duration::from_nanos(5);
    let seven = Duration::from_nanos(7);
    assert_eq!(seven.saturating_sub(five), Duration::from_nanos(2));
    assert_eq!(five.saturating_sub(seven), Duration::zero());
    assert_eq!(five.saturating_sub(five), Duration::zero());
}

#[test]
fn div_count_rounds_down() {
    assert_eq!(Duration::from_nanos(10).div_count(3), Duration::from_nanos(3));
    assert_eq!(Duration::from_nanos(2).div_count(3), Duration::zero());
    assert_eq!(Duration::from_millis(21).div_count(2), Duration::from_nanos(10_500_000));
}

#[test]
fn times_multiplies() {
    assert_eq!(Duration::from_nanos(7).times(6), Duration::from_nanos(42));
    assert_eq!(Duration::from_nanos(7).times(0), Duration::zero());
}

#[test]
fn checked_mul_detects_overflow() {
    assert_eq!(Duration::from_nanos(7).checked_mul(6), Some(Duration::from_nanos(42)));
    assert_eq!(Duration::from_nanos(u128::MAX).checked_mul(0), Some(Duration::zero()));
    assert_eq!(Duration::from_nanos(u128::MAX).checked_mul(1), Some(Duration::from_nanos(u128::MAX)));
    assert_eq!(Duration::from_nanos(u128::MAX).checked_mul(2), None);
    assert_eq!(Duration::from_nanos(u128::MAX / 2 + 1).checked_mul(2), None);
}
