use mvua::common::apply_bps;
use mvua::common::error_codes;
use mvua::test_utils::{assert_error_code, expected_bps};

#[test]
fn bps_denominator_is_one_hundred_percent() {
    assert_eq!(apply_bps(1_000, 10_000), Some(1_000));
}

#[test]
fn bps_half_of_amount() {
    assert_eq!(apply_bps(1_000, 5_000), Some(500));
}

#[test]
fn bps_overflow_is_none() {
    assert_eq!(apply_bps(i128::MAX, 10_000), None);
}

#[test]
fn shared_error_codes_are_stable() {
    assert_eq!(error_codes::UNAUTHORIZED, 900);
    assert_eq!(error_codes::OVERFLOW, 903);
}

#[test]
fn expected_bps_matches_common() {
    assert_eq!(expected_bps(1_000, 5_000), 500);
}

#[test]
fn bps_rounds_toward_zero() {
    // 2857.14 rounds down, and a negative amount rounds toward zero too.
    assert_eq!(apply_bps(10_000, 2_857), Some(2_857));
    assert_eq!(apply_bps(7, 5_000), Some(3));
    assert_eq!(apply_bps(-7, 5_000), Some(-3));
    assert_eq!(apply_bps(0, 10_000), Some(0));
}

#[test]
fn bps_largest_amount_that_fits() {
    let amount = i128::MAX / 10_000;
    assert_eq!(apply_bps(amount, 10_000), Some(amount));
    assert_eq!(apply_bps(i128::MIN, 1), Some(i128::MIN / 10_000));
    assert_eq!(apply_bps(i128::MIN, 2), None);
}

#[test]
fn assert_error_code_accepts_equal_codes() {
    assert_error_code(903, error_codes::OVERFLOW);
}
