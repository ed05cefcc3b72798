use timegrapher::units::{div_trunc, magnitude_of, saturate, Decimal, SCALE};

#[test]
fn scale_is_a_million() {
    assert_eq!(SCALE, 1_000_000);
}

#[test]
fn magnitude_fits_every_amplitude() {
    assert_eq!(magnitude_of(0), 0);
    assert_eq!(magnitude_of(17), 17);
    assert_eq!(magnitude_of(-17), 17);
    assert_eq!(magnitude_of(i64::MAX), 9_223_372_036_854_775_807);
    assert_eq!(magnitude_of(i64::MIN), 9_223_372_036_854_775_808);
}

#[test]
fn saturate_clamps_at_both_ends() {
    assert_eq!(saturate(5), 5);
    assert_eq!(saturate(-5), -5);
    assert_eq!(saturate(i64::MAX as i128), i64::MAX);
    assert_eq!(saturate(i64::MAX as i128 + 1), i64::MAX);
    assert_eq!(saturate(i64::MIN as i128), i64::MIN);
    assert_eq!(saturate(i64::MIN as i128 - 1), i64::MIN);
    assert_eq!(saturate(i128::MAX), i64::MAX);
    assert_eq!(saturate(i128::MIN), i64::MIN);
}

#[test]
fn division_rounds_toward_zero() {
    assert_eq!(div_trunc(7, 2), 3);
    assert_eq!(div_trunc(-7, 2), -3);
    assert_eq!(div_trunc(6, 3), 2);
    assert_eq!(div_trunc(-6, 3), -2);
    assert_eq!(div_trunc(0, 5), 0);
    assert_eq!(div_trunc(-1, 5), 0);
    assert_eq!(div_trunc(i128::MIN, 1), i128::MIN);
    assert_eq!(div_trunc(i128::MIN, 2), i128::MIN / 2);
    assert_eq!(div_trunc(i128::MIN, 3), i128::MIN / 3);
    assert_eq!(div_trunc(i128::MAX, u64::MAX), i128::MAX / (u64::MAX as i128));
}

#[test]
fn tenths_of_a_decimal() {
    assert_eq!(Decimal { micros: 5_000_000 }.tenths(), 50);
    assert_eq!(Decimal { micros: 5_049_999 }.tenths(), 50);
    assert_eq!(Decimal { micros: 5_050_000 }.tenths(), 51);
    assert_eq!(Decimal { micros: -60_000_000 }.tenths(), -600);
    assert_eq!(Decimal { micros: -12_900_000 }.tenths(), -129);
    assert_eq!(Decimal { micros: -12_949_999 }.tenths(), -129);
    assert_eq!(Decimal { micros: -12_950_000 }.tenths(), -130);
    assert_eq!(Decimal { micros: -49_999 }.tenths(), 0);
    assert_eq!(Decimal { micros: 49_999 }.tenths(), 0);
    assert_eq!(Decimal { micros: i64::MAX }.tenths(), 92_233_720_368_548);
    assert_eq!(Decimal { micros: i64::MIN }.tenths(), -92_233_720_368_548);
    assert_eq!(Decimal::default(), Decimal { micros: 0 });
}
