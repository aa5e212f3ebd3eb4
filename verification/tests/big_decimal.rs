use burrowland::big_decimal::BigDecimal;

const ONE: u128 = 1_000_000_000_000_000_000_000_000_000;

#[test]
fn one_is_neutral() {
    let x = BigDecimal::from_low_u128(1_234_567_890_123_456_789_012_345_678_901);
    assert_eq!(x.mul(BigDecimal::one()).raw_u128(), x.raw_u128());
    assert_eq!(x.div(BigDecimal::one()).raw_u128(), x.raw_u128());
}

#[test]
fn mul_rounds_to_nearest() {
    // 1.5e-27 * 1 rounds to 2e-27; 1.4e-27 is not representable, so use 0.5 * 3e-27 = 1.5e-27 -> 2e-27.
    let half = BigDecimal::from_low_u128(ONE / 2);
    let three = BigDecimal::from_low_u128(3);
    assert_eq!(half.mul(three).raw_u128(), 2);
    let two = BigDecimal::from_low_u128(2);
    assert_eq!(half.mul(two).raw_u128(), 1);
}

#[test]
fn div_and_ratio() {
    let x = BigDecimal::from_u128(3);
    assert_eq!(x.raw_u128(), 3 * ONE);
    assert_eq!(x.div_u128(2).raw_u128(), 3 * ONE / 2);
    assert_eq!(BigDecimal::from_ratio(2500).raw_u128(), ONE / 4);
    assert_eq!(BigDecimal::from_u128(1).div(BigDecimal::from_u128(3)).raw_u128(), 333_333_333_333_333_333_333_333_333);
    assert_eq!(x.mul_ratio(5000).raw_u128(), 3 * ONE / 2);
    assert_eq!(x.div_ratio(5000).raw_u128(), 6 * ONE);
}

#[test]
fn pow_by_squaring() {
    let two = BigDecimal::from_u128(2);
    assert_eq!(two.pow(10).raw_u128(), 1024 * ONE);
    assert_eq!(two.pow(0).raw_u128(), ONE);
    let x = BigDecimal::from_low_u128(ONE + ONE / 10);
    // 1.1^3 = 1.331
    assert_eq!(x.pow(3).raw_u128(), 1_331_000_000_000_000_000_000_000_000);
}

#[test]
fn rounding_to_whole_numbers() {
    let x = BigDecimal::from_low_u128(ONE * 5 / 2);
    assert_eq!(x.round_u128(), 3);
    assert_eq!(x.round_mul_u128(3), 8);
    assert_eq!(BigDecimal::from_low_u128(ONE * 5 / 2 - 1).round_u128(), 2);
}

#[test]
fn comparisons() {
    let a = BigDecimal::from_u128(1);
    let b = BigDecimal::from_low_u128(ONE + 1);
    assert!(a.lt(&b));
    assert!(!b.lt(&a));
    assert!(a.le(&a));
    assert!(BigDecimal::zero().is_zero());
    assert_eq!(b.sub(a).raw_u128(), 1);
    assert_eq!(a.add(b).raw_u128(), 2 * ONE + 1);
}
