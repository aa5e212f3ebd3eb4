use burrowland::account::Account;
use burrowland::account_map::AccountMap;
use burrowland::actions::AssetAmount;
use burrowland::asset::Asset;
use burrowland::asset_config::AssetConfig;
use burrowland::execute::ExecuteError;
use burrowland::liquidation::{internal_liquidate, LiquidateError};
use burrowland::pool::Pool;
use burrowland::position_health::LiquidationError;
use burrowland::prices::{Price, Prices};

const E18: u128 = 1_000_000_000_000_000_000;
const E27: u128 = 1_000_000_000_000_000_000_000_000_000;
const USD: Price = Price { multiplier: 10000, decimals: 22 };

fn config(volatility_ratio: u32) -> AssetConfig {
    AssetConfig {
        reserve_ratio: 2500,
        prot_ratio: 0,
        beneficiaries: AccountMap::new(),
        target_utilization: 8000,
        target_utilization_rate: 1000000000003593629036885046u128,
        max_utilization_rate: 1000000000039724853136740579u128,
        holding_position_fee_rate: 1000000000000000000000000000u128,
        volatility_ratio,
        extra_decimals: 0,
        can_deposit: true,
        can_withdraw: true,
        can_use_as_collateral: true,
        can_borrow: true,
        net_tvl_multiplier: 10000,
        max_change_rate: None,
        supplied_limit: None,
        borrowed_limit: None,
        min_borrowed_amount: None,
    }
}

fn asset(volatility_ratio: u32) -> Asset {
    let mut a = Asset::new(0, config(volatility_ratio));
    a.supplied = Pool { shares: 1000 * E18, balance: 1000 * E18 };
    a.borrowed = Pool { shares: 100 * E18, balance: 100 * E18 };
    a
}

fn amount(token: &str, a: u128) -> AssetAmount {
    AssetAmount { token_id: token.to_string(), amount: Some(a), max_amount: None }
}

/// Bob's 100 USDT count for $60 against 60 DAI of debt counting for $75: a
/// discount of 10%. Alice supplies 100 DAI.
fn setup(debt: u128) -> (Account, Account, AccountMap<Asset>, Prices) {
    let mut assets = AccountMap::new();
    assets.insert(&"usdt".to_string(), asset(6000));
    assets.insert(&"dai".to_string(), asset(8000));
    let regular = "REGULAR".to_string();
    let mut bob = Account::new(&"bob.near".to_string());
    bob.increase_collateral(&regular, &"usdt".to_string(), 100 * E18);
    bob.increase_borrowed(&regular, &"dai".to_string(), debt);
    let mut alice = Account::new(&"alice.near".to_string());
    alice.supplied.insert(&"dai".to_string(), 100 * E18);
    let mut prices = AccountMap::new();
    prices.insert(&"usdt".to_string(), USD);
    prices.insert(&"dai".to_string(), USD);
    (alice, bob, assets, Prices::from_prices(prices))
}

#[test]
fn liquidation_of_an_account_at_risk() {
    let (mut alice, mut bob, mut assets, prices) = setup(60 * E18);
    let r = internal_liquidate(&mut alice, &mut bob, &mut assets, &prices, &vec![amount("dai", 10 * E18)], &vec![amount("usdt", 11 * E18)])
        .unwrap();
    assert_eq!(r.max_discount.raw_u128(), E27 / 10);
    assert_eq!(r.borrowed_repaid_sum.raw_u128(), 10 * E27);
    assert_eq!(r.collateral_taken_sum.raw_u128(), 11 * E27);
    // $53.4 of collateral against $62.5 of debt: (62.5 - 53.4) / 62.5 / 2.
    assert_eq!(r.new_max_discount.raw_u128(), 72_800_000_000_000_000_000_000_000);
    assert_eq!(alice.supplied.get(&"dai".to_string()), Some(90 * E18));
    assert_eq!(alice.supplied.get(&"usdt".to_string()), Some(11 * E18));
    assert_eq!(bob.internal_unwrap_borrowed(&"REGULAR".to_string(), &"dai".to_string()), 50 * E18);
    assert_eq!(bob.internal_unwrap_collateral(&"REGULAR".to_string(), &"usdt".to_string()), 89 * E18);
}

#[test]
fn refused_liquidations() {
    // A healthy account is not at risk.
    let (mut alice, mut bob, mut assets, prices) = setup(40 * E18);
    let r = internal_liquidate(&mut alice, &mut bob, &mut assets, &prices, &vec![amount("dai", 1 * E18)], &vec![amount("usdt", 1 * E18)]);
    assert_eq!(r.err(), Some(LiquidateError::Refused(LiquidationError::NotAtRisk)));
    // Too much collateral for the debt repaid.
    let (mut alice, mut bob, mut assets, prices) = setup(60 * E18);
    let r = internal_liquidate(&mut alice, &mut bob, &mut assets, &prices, &vec![amount("dai", 10 * E18)], &vec![amount("usdt", 20 * E18)]);
    assert_eq!(r.err(), Some(LiquidateError::Refused(LiquidationError::NotEnoughRepaid)));
    // So much repaid that the account is no longer at risk.
    let (mut alice, mut bob, mut assets, prices) = setup(60 * E18);
    let r = internal_liquidate(&mut alice, &mut bob, &mut assets, &prices, &vec![amount("dai", 50 * E18)], &vec![amount("usdt", 11 * E18)]);
    assert_eq!(r.err(), Some(LiquidateError::Refused(LiquidationError::TooLarge)));
    // A token without a price.
    let (mut alice, mut bob, mut assets, prices) = setup(60 * E18);
    let r = internal_liquidate(&mut alice, &mut bob, &mut assets, &prices, &vec![amount("wbtc", 1)], &vec![]);
    assert_eq!(r.err(), Some(LiquidateError::NoPrice));
    // The liquidator does not supply what it repays with.
    let (mut alice, mut bob, mut assets, prices) = setup(60 * E18);
    let r = internal_liquidate(&mut alice, &mut bob, &mut assets, &prices, &vec![amount("usdt", 1 * E18)], &vec![]);
    assert_eq!(r.err(), Some(LiquidateError::RepayFailed { index: 0, error: ExecuteError::NotSupplied }));
}
