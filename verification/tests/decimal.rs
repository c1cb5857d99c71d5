use multicurrency::decimal::render;

#[test]
fn whole_amounts_have_no_point() {
    assert_eq!(render(0), "0");
    assert_eq!(render(1_000_000), "1");
    assert_eq!(render(1_000_000_000), "1000");
    assert_eq!(render(10_000_000), "10");
    assert_eq!(render(-42_000_000), "-42");
}

#[test]
fn fractions_drop_trailing_zeros() {
    assert_eq!(render(21_700_000), "21.7");
    assert_eq!(render(1_500_000), "1.5");
    assert_eq!(render(1_050_000), "1.05");
    assert_eq!(render(100_000), "0.1");
    assert_eq!(render(120_000), "0.12");
    assert_eq!(render(123_456), "0.123456");
    assert_eq!(render(100), "0.0001");
}

#[test]
fn fractions_keep_leading_zeros() {
    assert_eq!(render(1), "0.000001");
    assert_eq!(render(51), "0.000051");
    assert_eq!(render(31_000), "0.031");
    assert_eq!(render(32_510_000), "32.51");
    assert_eq!(render(1_000_001), "1.000001");
}

#[test]
fn debts_have_a_minus_sign() {
    assert_eq!(render(-1), "-0.000001");
    assert_eq!(render(-781_000), "-0.781");
    assert_eq!(render(-21_700_000), "-21.7");
}

#[test]
fn ends_of_the_range_are_written_out() {
    assert_eq!(render(i64::MAX), "9223372036854.775807");
    assert_eq!(render(i64::MIN), "-9223372036854.775808");
}
