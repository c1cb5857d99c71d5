use multicurrency::fixed::{saturating_difference, saturating_sum, scale, SCALE};

#[test]
fn scale_is_a_million() {
    assert_eq!(SCALE, 1_000_000);
}

#[test]
fn rate_of_one_keeps_the_amount() {
    for amount in [0, 1, -1, 123_456_789, i64::MAX, i64::MIN] {
        assert_eq!(scale(amount, 1_000_000), amount);
    }
}

#[test]
fn rate_of_nothing_gives_nothing() {
    assert_eq!(scale(123_456_789, 0), 0);
    assert_eq!(scale(i64::MIN, 0), 0);
}

#[test]
fn products_are_exact_where_they_are_whole() {
    assert_eq!(scale(700_000_000, 31_000), 21_700_000);
    assert_eq!(scale(100_000, 19_519_000_000), 1_951_900_000);
    assert_eq!(scale(1_951_900_000, 32_510_000), 63_456_269_000);
    assert_eq!(scale(-700_000_000, 31_000), -21_700_000);
}

#[test]
fn products_round_to_the_nearest() {
    assert_eq!(scale(1, 499_999), 0);
    assert_eq!(scale(1, 500_001), 1);
    assert_eq!(scale(1, 1_499_999), 1);
    assert_eq!(scale(1, 1_500_001), 2);
    assert_eq!(scale(-1, 499_999), 0);
    assert_eq!(scale(-1, 500_001), -1);
    assert_eq!(scale(1_000_000, 51), 51);
    assert_eq!(scale(10_000, 51), 1);
    assert_eq!(scale(9_000, 51), 0);
}

#[test]
fn ties_round_to_even() {
    assert_eq!(scale(1, 500_000), 0);
    assert_eq!(scale(3, 500_000), 2);
    assert_eq!(scale(5, 500_000), 2);
    assert_eq!(scale(7, 500_000), 4);
    assert_eq!(scale(-1, 500_000), 0);
    assert_eq!(scale(-3, 500_000), -2);
    assert_eq!(scale(-5, 500_000), -2);
}

#[test]
fn products_saturate() {
    assert_eq!(scale(i64::MAX, 1_000_001), i64::MAX);
    assert_eq!(scale(i64::MIN, 1_000_001), i64::MIN);
    assert_eq!(scale(i64::MAX, u64::MAX), i64::MAX);
    assert_eq!(scale(i64::MIN, u64::MAX), i64::MIN);
    assert_eq!(scale(i64::MAX, 999_999), 9_223_362_813_482_738_952);
    assert_eq!(scale(i64::MIN, 999_999), -9_223_362_813_482_738_953);
}

#[test]
fn sums_saturate() {
    assert_eq!(saturating_sum(2, 3), 5);
    assert_eq!(saturating_sum(-2, -3), -5);
    assert_eq!(saturating_sum(i64::MAX, 1), i64::MAX);
    assert_eq!(saturating_sum(i64::MIN, -1), i64::MIN);
    assert_eq!(saturating_sum(i64::MAX, i64::MIN), -1);
}

#[test]
fn differences_saturate() {
    assert_eq!(saturating_difference(2, 3), -1);
    assert_eq!(saturating_difference(-2, -3), 1);
    assert_eq!(saturating_difference(i64::MIN, 1), i64::MIN);
    assert_eq!(saturating_difference(i64::MAX, -1), i64::MAX);
    assert_eq!(saturating_difference(0, i64::MIN), i64::MAX);
    assert_eq!(saturating_difference(i64::MIN, i64::MIN), 0);
}
