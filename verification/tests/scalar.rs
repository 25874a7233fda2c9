use stochastics::scalar::{Scalar, HALF, SCALE};

fn raw(v: i64) -> Scalar {
    Scalar::from_raw(v)
}

#[test]
fn one_is_scale_raw_units() {
    assert_eq!(SCALE, 1_000_000_000);
    assert_eq!(HALF, 500_000_000);
    assert_eq!(Scalar::one().raw(), 1_000_000_000);
    assert_eq!(Scalar::zero().raw(), 0);
    assert_eq!(Scalar::from_raw(-17).raw(), -17);
}

#[test]
fn whole_numbers() {
    assert_eq!(Scalar::from_int(3), Some(raw(3_000_000_000)));
    assert_eq!(Scalar::from_int(-3), Some(raw(-3_000_000_000)));
    assert_eq!(Scalar::from_int(9_223_372_036), Some(raw(9_223_372_036_000_000_000)));
    assert_eq!(Scalar::from_int(9_223_372_037), None);
    assert_eq!(Scalar::from_int(-9_223_372_037), None);
    assert_eq!(Scalar::from_usize(125), Some(raw(125_000_000_000)));
    assert_eq!(Scalar::from_usize(usize::MAX), None);
}

#[test]
fn ratios_round_toward_zero() {
    assert_eq!(Scalar::from_ratio(15, 100), Some(raw(150_000_000)));
    assert_eq!(Scalar::from_ratio(1, 3), Some(raw(333_333_333)));
    assert_eq!(Scalar::from_ratio(-1, 3), Some(raw(-333_333_333)));
    assert_eq!(Scalar::from_ratio(1, -3), Some(raw(-333_333_333)));
    assert_eq!(Scalar::from_ratio(-2, -3), Some(raw(666_666_666)));
    assert_eq!(Scalar::from_ratio(1, 0), None);
    assert_eq!(Scalar::from_ratio(i64::MAX, 1), None);
}

#[test]
fn addition_and_subtraction_are_checked() {
    assert_eq!(raw(1_500_000_000).checked_add(raw(-250_000_000)), Some(raw(1_250_000_000)));
    assert_eq!(raw(1_500_000_000).checked_sub(raw(-250_000_000)), Some(raw(1_750_000_000)));
    assert_eq!(raw(i64::MAX).checked_add(raw(1)), None);
    assert_eq!(raw(i64::MIN).checked_sub(raw(1)), None);
    assert_eq!(raw(i64::MAX).checked_add(raw(0)), Some(raw(i64::MAX)));
    assert_eq!(raw(i64::MIN).checked_add(raw(i64::MAX)), Some(raw(-1)));
}

#[test]
fn negation() {
    assert_eq!(raw(5).checked_neg(), Some(raw(-5)));
    assert_eq!(raw(i64::MAX).checked_neg(), Some(raw(i64::MIN + 1)));
    assert_eq!(raw(i64::MIN).checked_neg(), None);
}

#[test]
fn multiplication_rounds_toward_zero() {
    // 1.5 * 2.5 = 3.75
    assert_eq!(raw(1_500_000_000).checked_mul(raw(2_500_000_000)), Some(raw(3_750_000_000)));
    // -1.5 * 1.000000001 = -1.5000000015, cut to -1.500000001
    assert_eq!(raw(-1_500_000_000).checked_mul(raw(1_000_000_001)), Some(raw(-1_500_000_001)));
    // 0.000000001 * 0.5 is below the resolution
    assert_eq!(raw(1).checked_mul(raw(HALF)), Some(raw(0)));
    assert_eq!(raw(-1).checked_mul(raw(HALF)), Some(raw(0)));
    assert_eq!(raw(i64::MAX).checked_mul(raw(SCALE + 1)), None);
    assert_eq!(raw(i64::MIN).checked_mul(raw(SCALE)), Some(raw(i64::MIN)));
    assert_eq!(raw(i64::MIN).checked_mul(raw(-SCALE)), None);
}

#[test]
fn division_rounds_toward_zero() {
    // 1 / 4 = 0.25
    assert_eq!(raw(SCALE).checked_div(raw(4 * SCALE)), Some(raw(250_000_000)));
    // 0.000000001 / -0.000000003 = -0.333333333...
    assert_eq!(raw(1).checked_div(raw(-3)), Some(raw(-333_333_333)));
    assert_eq!(raw(-7 * SCALE).checked_div(raw(2 * SCALE)), Some(raw(-3_500_000_000)));
    assert_eq!(raw(SCALE).checked_div(raw(0)), None);
    assert_eq!(raw(i64::MAX).checked_div(raw(HALF)), None);
}

#[test]
fn division_by_a_count() {
    // 0.5 / 100 = 0.005
    assert_eq!(raw(HALF).checked_div_count(100), Some(raw(5_000_000)));
    // 1 / 150 = 0.006666666...
    assert_eq!(raw(SCALE).checked_div_count(150), Some(raw(6_666_666)));
    assert_eq!(raw(-SCALE).checked_div_count(150), Some(raw(-6_666_666)));
    assert_eq!(raw(SCALE).checked_div_count(0), None);
    assert_eq!(raw(i64::MIN).checked_div_count(1), Some(raw(i64::MIN)));
}

#[test]
fn square_root_rounds_down() {
    assert_eq!(raw(4 * SCALE).checked_sqrt(), Some(raw(2 * SCALE)));
    // sqrt(2) = 1.41421356237...
    assert_eq!(raw(2 * SCALE).checked_sqrt(), Some(raw(1_414_213_562)));
    // sqrt(0.005) = 0.07071067811...
    assert_eq!(raw(5_000_000).checked_sqrt(), Some(raw(70_710_678)));
    assert_eq!(raw(0).checked_sqrt(), Some(raw(0)));
    // sqrt(0.000000001) = 0.0000316227766...
    assert_eq!(raw(1).checked_sqrt(), Some(raw(31_622)));
    assert_eq!(raw(-1).checked_sqrt(), None);
    // sqrt(9223372036.854775807) = 96038.388349944...
    assert_eq!(raw(i64::MAX).checked_sqrt(), Some(raw(96_038_388_349_944)));
}

#[test]
fn halving_rounds_toward_zero() {
    assert_eq!(raw(7).half(), raw(3));
    assert_eq!(raw(-7).half(), raw(-3));
    assert_eq!(raw(SCALE).half(), raw(HALF));
    assert_eq!(raw(0).half(), raw(0));
}

#[test]
fn comparisons() {
    assert!(raw(1).lt(raw(2)));
    assert!(!raw(2).lt(raw(2)));
    assert!(raw(2).le(raw(2)));
    assert!(!raw(3).le(raw(2)));
    assert!(raw(-1).is_negative());
    assert!(!raw(0).is_negative());
}

#[test]
fn power_with_exponent_zero_half_and_one() {
    let four = raw(4 * SCALE);
    assert_eq!(four.checked_pow(raw(0)), Some(raw(SCALE)));
    assert_eq!(four.checked_pow(raw(HALF)), Some(raw(2 * SCALE)));
    assert_eq!(four.checked_pow(raw(SCALE)), Some(four));
    assert_eq!(raw(5_000_000).checked_pow(raw(HALF)), raw(5_000_000).checked_sqrt());
}

#[test]
fn power_follows_the_binary_digits_of_the_exponent() {
    // 16^0.25 = 2 and 16^0.75 = 8
    let sixteen = raw(16 * SCALE);
    assert_eq!(sixteen.checked_pow(raw(250_000_000)), Some(raw(2 * SCALE)));
    assert_eq!(sixteen.checked_pow(raw(750_000_000)), Some(raw(8 * SCALE)));
}

#[test]
fn power_is_close_to_the_real_power() {
    // 0.005^0.7 = 0.024507...
    let power = raw(5_000_000).checked_pow(raw(700_000_000)).unwrap();
    let exact = 0.005_f64.powf(0.7);
    assert!((power.raw() as f64 / 1e9 - exact).abs() < 1e-6);
}

#[test]
fn power_refuses_what_lies_outside_its_domain() {
    assert_eq!(raw(-1).checked_pow(raw(HALF)), None);
    assert_eq!(raw(SCALE).checked_pow(raw(-1)), None);
    assert_eq!(raw(SCALE).checked_pow(raw(SCALE + 1)), None);
}

#[test]
fn binary_floating_point_numbers_are_rounded_to_the_nearest_scalar() {
    let convert = |x: f64| Scalar::from_binary64_bits(x.to_bits());
    assert_eq!(convert(0.0), Some(raw(0)));
    assert_eq!(convert(-0.0), Some(raw(0)));
    assert_eq!(convert(1.0), Some(raw(SCALE)));
    assert_eq!(convert(-1.0), Some(raw(-SCALE)));
    assert_eq!(convert(0.15), Some(raw(150_000_000)));
    assert_eq!(convert(-0.15), Some(raw(-150_000_000)));
    assert_eq!(convert(0.45), Some(raw(450_000_000)));
    assert_eq!(convert(0.01), Some(raw(10_000_000)));
    assert_eq!(convert(1.6), Some(raw(1_600_000_000)));
    assert_eq!(convert(10.0), Some(raw(10_000_000_000)));
    assert_eq!(convert(1337.0), Some(raw(1_337_000_000_000)));
    assert_eq!(convert(0.1 + 0.2), Some(raw(300_000_000)));
    assert_eq!(convert(std::f64::consts::PI), Some(raw(3_141_592_654)));
    assert_eq!(convert(9e9), Some(raw(9_000_000_000_000_000_000)));
}

#[test]
fn binary_floating_point_ties_go_away_from_zero() {
    let convert = |x: f64| Scalar::from_binary64_bits(x.to_bits());
    // 2^-10 is 976562.5 raw units
    assert_eq!(convert(0.0009765625), Some(raw(976_563)));
    assert_eq!(convert(-0.0009765625), Some(raw(-976_563)));
    // 2^-31 is 0.4656... raw units, 2^-30 is 0.9313...
    assert_eq!(convert(4.656612873077393e-10), Some(raw(0)));
    assert_eq!(convert(9.313225746154785e-10), Some(raw(1)));
}

#[test]
fn binary_floating_point_numbers_too_small_to_tell_from_zero_are_zero() {
    let convert = |x: f64| Scalar::from_binary64_bits(x.to_bits());
    assert_eq!(convert(1e-10), Some(raw(0)));
    assert_eq!(convert(-1e-40), Some(raw(0)));
    assert_eq!(convert(f64::MIN_POSITIVE), Some(raw(0)));
    assert_eq!(convert(5e-324), Some(raw(0)));
}

#[test]
fn binary_floating_point_numbers_without_a_scalar() {
    let convert = |x: f64| Scalar::from_binary64_bits(x.to_bits());
    assert_eq!(convert(f64::NAN), None);
    assert_eq!(convert(f64::INFINITY), None);
    assert_eq!(convert(f64::NEG_INFINITY), None);
    assert_eq!(convert(f64::MAX), None);
    assert_eq!(convert(1e10), None);
    assert_eq!(convert(-1e10), None);
    assert_eq!(convert(4503599627370496.0), None);
    assert_eq!(convert(9.3e9), None);
    assert_eq!(convert(9.2e9), Some(raw(9_200_000_000_000_000_000)));
    assert_eq!(Scalar::from_binary64_bits(u64::MAX), None);
}
