use burrowland::account::Account;
use burrowland::account_map::AccountMap;
use burrowland::actions::AssetAmount;
use burrowland::asset::Asset;
use burrowland::asset_config::AssetConfig;
use burrowland::liquidation::LiquidateError;
use burrowland::pool::Pool;
use burrowland::position_health::LiquidationError;
use burrowland::prices::{Price, Prices};
use burrowland::shadow::{TokenAmount, UnitShareTokens};
use burrowland::shadow_liquidation::shadow_liquidate;

const E17: u128 = 100_000_000_000_000_000;
const E18: u128 = 1_000_000_000_000_000_000;
const E27: u128 = 1_000_000_000_000_000_000_000_000_000;
const USD: Price = Price { multiplier: 10000, decimals: 22 };
const LP: &str = "shadow_ref_v1-1";

fn config(volatility_ratio: u32) -> AssetConfig {
    AssetConfig {
        reserve_ratio: 2500,
        prot_ratio: 0,
        beneficiaries: AccountMap::new(),
        target_utilization: 8000,
        target_utilization_rate: 1000000000003593629036885046u128,
        max_utilization_rate: 1000000000039724853136740579u128,
        holding_position_fee_rate: 1000000000000000000000000000u128,
        volatility_ratio,
        extra_decimals: 0,
        can_deposit: true,
        can_withdraw: true,
        can_use_as_collateral: true,
        can_borrow: true,
        net_tvl_multiplier: 10000,
        max_change_rate: None,
        supplied_limit: None,
        borrowed_limit: None,
        min_borrowed_amount: None,
    }
}

fn asset(volatility_ratio: u32) -> Asset {
    // A share is worth two tokens, supplied or borrowed.
    let mut a = Asset::new(0, config(volatility_ratio));
    a.supplied = Pool { shares: 1000 * E18, balance: 2000 * E18 };
    a.borrowed = Pool { shares: 1000 * E18, balance: 2000 * E18 };
    a
}

/// Bob's 10 LP tokens hold 20 USDT, counting for $6 (60%, then 50% for the
/// LP token), against 8 DAI of debt counting for $10: a discount of 20%.
/// Alice supplies 200 DAI.
fn setup() -> (Account, Account, AccountMap<Asset>, Prices, UnitShareTokens) {
    let mut assets = AccountMap::new();
    assets.insert(&"usdt".to_string(), asset(6000));
    assets.insert(&"dai".to_string(), asset(8000));
    let mut lp = Asset::new(0, config(5000));
    lp.supplied = Pool { shares: 100, balance: 100 };
    assets.insert(&LP.to_string(), lp);
    let mut prices = AccountMap::new();
    prices.insert(&"usdt".to_string(), USD);
    prices.insert(&"dai".to_string(), USD);
    let lp_id = LP.to_string();
    let mut bob = Account::new(&"bob.near".to_string());
    bob.increase_collateral(&lp_id, &lp_id, 10);
    bob.increase_borrowed(&lp_id, &"dai".to_string(), 4 * E18);
    let mut alice = Account::new(&"alice.near".to_string());
    alice.supplied.insert(&"dai".to_string(), 100 * E18);
    let unit = UnitShareTokens { timestamp: 0, decimals: 0, tokens: vec![TokenAmount { token_id: "usdt".to_string(), amount: 2 * E18 }] };
    (alice, bob, assets, Prices::from_prices(prices), unit)
}

fn amount(token: &str, a: u128) -> AssetAmount {
    AssetAmount { token_id: token.to_string(), amount: Some(a), max_amount: None }
}

#[test]
fn shadow_liquidation_of_an_lp_position() {
    let (mut alice, mut bob, assets, prices, unit) = setup();
    let lp = LP.to_string();
    let r = shadow_liquidate(&lp, &mut alice, &mut bob, &assets, &prices, &unit, 1_000, 10, &vec![amount("dai", 17 * E17)],
        &vec![amount(LP, 1)])
        .unwrap();
    assert_eq!(r.sums.max_discount.raw_u128(), E27 / 5);
    assert_eq!(r.sums.borrowed_repaid_sum.raw_u128(), 17 * E27 / 10);
    // One LP token holds 2 USDT.
    assert_eq!(r.sums.collateral_taken_sum.raw_u128(), 2 * E27);
    assert_eq!((r.lp_amount, r.min_token_amounts.clone()), (1, vec![2 * E18]));
    let d = r.sums.new_max_discount.raw_u128();
    assert!(0 < d && d < E27 / 5);
    // The liquidator pays from its supply; the pools wait for the settlement.
    assert_eq!(alice.supplied.get(&"dai".to_string()), Some(9915 * E16()));
    assert_eq!(bob.internal_unwrap_borrowed(&lp, &"dai".to_string()), 315 * E16());
    assert_eq!(bob.internal_unwrap_collateral(&lp, &lp), 9);
    assert_eq!(assets.get_ref(&"dai".to_string()).unwrap().borrowed.balance, 2000 * E18);
}

#[allow(non_snake_case)]
fn E16() -> u128 {
    E17 / 10
}

#[test]
fn refused_shadow_liquidations() {
    let lp = LP.to_string();
    // Too much LP tokens for what is paid.
    let (mut alice, mut bob, assets, prices, unit) = setup();
    let r = shadow_liquidate(&lp, &mut alice, &mut bob, &assets, &prices, &unit, 1_000, 10, &vec![amount("dai", E18)],
        &vec![amount(LP, 1)]);
    assert_eq!(r.err(), Some(LiquidateError::Refused(LiquidationError::NotEnoughRepaid)));
    // What one LP share holds was reported too long ago.
    let (mut alice, mut bob, assets, prices, unit) = setup();
    let r = shadow_liquidate(&lp, &mut alice, &mut bob, &assets, &prices, &unit, 20_000_000_000, 10,
        &vec![amount("dai", 17 * E17)], &vec![amount(LP, 1)]);
    assert_eq!(r.err(), Some(LiquidateError::StaleLpInfo));
    // A position that is not at risk.
    let (mut alice, mut bob, assets, prices, unit) = setup();
    bob.decrease_borrowed(&lp, &"dai".to_string(), 3 * E18);
    let r = shadow_liquidate(&lp, &mut alice, &mut bob, &assets, &prices, &unit, 1_000, 10, &vec![amount("dai", E17)],
        &vec![amount(LP, 1)]);
    assert_eq!(r.err(), Some(LiquidateError::Refused(LiquidationError::NotAtRisk)));
    assert_eq!(bob.internal_unwrap_collateral(&lp, &lp), 10);
}
