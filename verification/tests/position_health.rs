use burrowland::account_map::AccountMap;
use burrowland::asset::Asset;
use burrowland::asset_config::AssetConfig;
use burrowland::big_decimal::BigDecimal;
use burrowland::pool::Pool;
use burrowland::position_health::{
    check_liquidation, compute_max_discount, force_close_collateral, force_close_debt,
    get_borrowed_sum_with_volatility_ratio, get_collateral_sum_with_volatility_ratio, LiquidationError, ValuedShares,
};
use burrowland::prices::Price;

const E18: u128 = 1_000_000_000_000_000_000;
const E27: u128 = 1_000_000_000_000_000_000_000_000_000;
const USD: Price = Price { multiplier: 10000, decimals: 22 };

fn item(shares: u128, volatility_ratio: u32) -> ValuedShares {
    // A pool where a share is worth two tokens of 18 decimals at $1.
    ValuedShares {
        pool: Pool { shares: 1000 * E18, balance: 2000 * E18 },
        extra_decimals: 0,
        volatility_ratio,
        price: USD,
        shares,
    }
}

#[test]
fn weighted_sums() {
    // $200 of collateral at 60% counts for $120; $80 of debt at 80% counts for $100.
    let c = vec![item(100 * E18, 6000)];
    let b = vec![item(40 * E18, 8000)];
    assert_eq!(get_collateral_sum_with_volatility_ratio(&c).raw_u128(), 120 * E27);
    assert_eq!(get_borrowed_sum_with_volatility_ratio(&b).raw_u128(), 100 * E27);
    assert_eq!(compute_max_discount(&c, &b).raw_u128(), 0);
    assert_eq!(compute_max_discount(&c, &vec![]).raw_u128(), 0);
    assert_eq!(get_collateral_sum_with_volatility_ratio(&vec![]).raw_u128(), 0);
}

#[test]
fn discount_of_an_account_at_risk() {
    // Collateral counts for $120, debt for $150: (150 - 120) / 150 / 2 = 10%.
    let c = vec![item(50 * E18, 6000), item(50 * E18, 6000)];
    let b = vec![item(60 * E18, 8000)];
    assert_eq!(get_borrowed_sum_with_volatility_ratio(&b).raw_u128(), 150 * E27);
    assert_eq!(compute_max_discount(&c, &b).raw_u128(), E27 / 10);
}

#[test]
fn liquidation_checks() {
    let d = BigDecimal::from_low_u128(E27 / 10);
    let zero = BigDecimal::zero();
    let v = |x: u128| BigDecimal::from_u128(x);
    let smaller = BigDecimal::from_low_u128(E27 / 20);
    assert_eq!(check_liquidation(&zero, &v(10), &v(10), &smaller), Err(LiquidationError::NotAtRisk));
    // Taking $100 of collateral at a 10% discount needs $90 repaid.
    assert_eq!(check_liquidation(&d, &v(100), &v(89), &smaller), Err(LiquidationError::NotEnoughRepaid));
    assert_eq!(check_liquidation(&d, &v(100), &v(90), &smaller), Ok(()));
    assert_eq!(check_liquidation(&d, &v(100), &v(90), &zero), Err(LiquidationError::TooLarge));
    assert_eq!(check_liquidation(&d, &v(100), &v(90), &d), Err(LiquidationError::HealthNotImproved));
}

fn config() -> AssetConfig {
    AssetConfig {
        reserve_ratio: 2500,
        prot_ratio: 0,
        beneficiaries: AccountMap::new(),
        target_utilization: 8000,
        target_utilization_rate: 1000000000003593629036885046u128,
        max_utilization_rate: 1000000000039724853136740579u128,
        holding_position_fee_rate: 1000000000000000000000000000u128,
        volatility_ratio: 6000,
        extra_decimals: 0,
        can_deposit: true,
        can_withdraw: true,
        can_use_as_collateral: true,
        can_borrow: true,
        net_tvl_multiplier: 10000,
        max_change_rate: None,
        supplied_limit: None,
        borrowed_limit: None,
        min_borrowed_amount: None,
    }
}

#[test]
fn force_close_moves_collateral_and_debt_through_the_reserve() {
    let mut a = Asset::new(0, config());
    a.supplied = Pool { shares: 100, balance: 300 };
    a.borrowed = Pool { shares: 50, balance: 70 };
    a.reserved = 10;
    assert_eq!(force_close_collateral(&mut a, 10), 30);
    assert_eq!((a.supplied.shares, a.supplied.balance, a.reserved), (90, 270, 40));
    // 20 debt shares are 28 tokens: the reserve pays them.
    assert_eq!(force_close_debt(&mut a, 20), Ok(28));
    assert_eq!((a.borrowed.shares, a.borrowed.balance, a.reserved), (30, 42, 12));
    assert_eq!(force_close_debt(&mut a, 30), Err(LiquidationError::NotEnoughReserve));
    assert_eq!((a.borrowed.shares, a.borrowed.balance, a.reserved), (30, 42, 12));
}
