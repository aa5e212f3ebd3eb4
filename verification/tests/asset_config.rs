use burrowland::account_map::AccountMap;
use burrowland::asset_config::{AssetConfig, AssetConfigError};
use burrowland::big_decimal::BigDecimal;
use burrowland::utils::MS_PER_YEAR;

const ONE_NEAR: u128 = 1_000_000_000_000_000_000_000_000;

fn test_config() -> AssetConfig {
    AssetConfig {
        reserve_ratio: 2500,
        prot_ratio: 0,
        beneficiaries: AccountMap::new(),
        target_utilization: 8000,
        target_utilization_rate: 1000000000003593629036885046u128,
        max_utilization_rate: 1000000000039724853136740579u128,
        holding_position_fee_rate: 1000000000000000000000000000u128,
        volatility_ratio: 6000,
        extra_decimals: 0,
        can_deposit: true,
        can_withdraw: true,
        can_use_as_collateral: true,
        can_borrow: true,
        net_tvl_multiplier: 10000,
        max_change_rate: None,
        supplied_limit: None,
        borrowed_limit: None,
        min_borrowed_amount: None,
    }
}

#[test]
fn test_get_rate_and_apr() {
    let config = test_config();
    let rate = config.get_rate(81 * ONE_NEAR, 100 * ONE_NEAR);
    println!("Rate: {}", rate.raw_u128());
    assert_eq!(rate.raw_u128(), 1000000000005400190241877823u128);

    let apr = rate.pow(MS_PER_YEAR).sub(BigDecimal::one());
    println!("APR: {}", apr.raw_u128());
    assert_eq!(apr.raw_u128(), 185660969752623519691511892u128);
}

#[test]
fn rate_below_target_utilization() {
    let config = test_config();
    // 40% utilization: half way up the first segment of the curve.
    let rate = config.get_rate(40 * ONE_NEAR, 100 * ONE_NEAR);
    // 1 + (0.4 * 3593629036885046e-27) / 0.8, rounded as the curve rounds.
    assert_eq!(rate.raw_u128(), 1000000000001796814518442523u128);
}

#[test]
fn rate_with_nothing_supplied_is_one() {
    let config = test_config();
    assert_eq!(config.get_rate(0, 0).raw_u128(), 1_000_000_000_000_000_000_000_000_000u128);
}

#[test]
fn rate_is_never_below_one() {
    let config = test_config();
    for (b, s) in [(0u128, 1u128), (1, 1000), (799, 1000), (800, 1000), (1000, 1000), (5, 3)] {
        let rate = config.get_rate(b * ONE_NEAR, s * ONE_NEAR);
        assert!(rate.raw_u128() >= 1_000_000_000_000_000_000_000_000_000u128);
    }
}

#[test]
fn config_without_limits_is_refused() {
    let config = test_config();
    assert_eq!(config.assert_valid(), Err(AssetConfigError::MissingSuppliedLimit));
}

#[test]
fn config_checks_in_order() {
    let mut config = test_config();
    config.supplied_limit = Some(100);
    config.borrowed_limit = Some(50);
    config.min_borrowed_amount = Some(1);
    assert_eq!(config.assert_valid(), Ok(()));

    config.borrowed_limit = Some(200);
    assert_eq!(config.assert_valid(), Err(AssetConfigError::BorrowedLimitAboveSuppliedLimit));

    config.borrowed_limit = Some(50);
    config.max_utilization_rate = 1000000000000000000000000001u128;
    assert_eq!(config.assert_valid(), Err(AssetConfigError::RatesOrder));

    config.reserve_ratio = 10001;
    assert_eq!(config.assert_valid(), Err(AssetConfigError::ReserveRatio));
}

#[test]
fn rate_curve_meets_at_the_target() {
    let config = test_config();
    // At 80% the upper piece starts at the target rate, plus the rounding of
    // half a raw unit over its width 0.2: 2 raw units.
    assert_eq!(config.get_rate(80 * ONE_NEAR, 100 * ONE_NEAR).raw_u128(), 1000000000003593629036885048u128);
    // Each piece grows with the utilization.
    let mut last = 0u128;
    for b in [0u128, 10, 40, 79, 80, 81, 90, 100] {
        let rate = config.get_rate(b * ONE_NEAR, 100 * ONE_NEAR).raw_u128();
        assert!(rate >= last);
        last = rate;
    }
}
