use monero_vanity::speed::{calculate, NANOS_PER_SECOND};

#[test]
fn speed_is_tries_per_second() {
    assert_eq!(calculate(NANOS_PER_SECOND, 10_000), 10_000);
    assert_eq!(calculate(2 * NANOS_PER_SECOND, 10), 5);
    assert_eq!(calculate(500_000_000, 10), 20);
    assert_eq!(calculate(3 * NANOS_PER_SECOND, 10), 3);
}

#[test]
fn speed_without_time() {
    assert_eq!(calculate(0, 0), 0);
    assert_eq!(calculate(0, 1), u64::MAX);
}

#[test]
fn speed_saturates() {
    assert_eq!(calculate(1, u64::MAX), u64::MAX);
    assert_eq!(calculate(1, 1), 1_000_000_000);
    assert_eq!(calculate(u128::MAX, u64::MAX), 0);
}
