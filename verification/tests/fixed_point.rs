use lending_risk::fixed_point::{Ratio, DECIMAL, DECIMAL_PER_PART, RATIO_ACCURACY};

#[test]
fn ratio_keeps_its_parts() {
    assert_eq!(Ratio::from_parts(0).deconstruct(), 0);
    assert_eq!(Ratio::from_parts(250_000).deconstruct(), 250_000);
    assert_eq!(Ratio::from_parts(RATIO_ACCURACY).deconstruct(), 1_000_000);
}

#[test]
fn ratio_above_one_counts_as_one() {
    assert_eq!(Ratio::from_parts(1_000_001).deconstruct(), 1_000_000);
    assert_eq!(Ratio::from_parts(u32::MAX).deconstruct(), 1_000_000);
    assert_eq!(Ratio::from_parts(u32::MAX).mul_floor(77), 77);
}

#[test]
fn mul_floor_takes_the_share() {
    assert_eq!(Ratio::from_parts(500_000).mul_floor(30), 15);
    assert_eq!(Ratio::from_parts(500_000).mul_floor(70), 35);
    assert_eq!(Ratio::from_parts(0).mul_floor(70), 0);
    assert_eq!(Ratio::from_parts(1_000_000).mul_floor(70), 70);
}

#[test]
fn mul_floor_rounds_toward_zero() {
    assert_eq!(Ratio::from_parts(500_000).mul_floor(31), 15);
    assert_eq!(Ratio::from_parts(333_333).mul_floor(3), 0);
    assert_eq!(Ratio::from_parts(999_999).mul_floor(1_000_000), 999_999);
    assert_eq!(Ratio::from_parts(999_999).mul_floor(999_999), 999_998);
}

#[test]
fn mul_floor_of_the_largest_balance() {
    assert_eq!(Ratio::from_parts(1_000_000).mul_floor(u128::MAX), u128::MAX);
    assert_eq!(Ratio::from_parts(500_000).mul_floor(u128::MAX), u128::MAX / 2);
}

#[test]
fn into_fixed_rescales_the_parts() {
    assert_eq!(Ratio::from_parts(500_000).into_fixed(), DECIMAL / 2);
    assert_eq!(Ratio::from_parts(1_000_000).into_fixed(), DECIMAL);
    assert_eq!(Ratio::from_parts(1).into_fixed(), DECIMAL_PER_PART);
    assert_eq!(Ratio::from_parts(0).into_fixed(), 0);
}
