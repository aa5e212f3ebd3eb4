use burrowland::account::Account;
use burrowland::account_health::{lp_collateral_sum, position_max_discount, valued_shares};
use burrowland::account_map::AccountMap;
use burrowland::asset::Asset;
use burrowland::asset_config::AssetConfig;
use burrowland::pool::Pool;
use burrowland::prices::{Price, Prices};
use burrowland::shadow::{TokenAmount, UnitShareTokens};

const E18: u128 = 1_000_000_000_000_000_000;
const E27: u128 = 1_000_000_000_000_000_000_000_000_000;
const USD: Price = Price { multiplier: 10000, decimals: 22 };
const LP: &str = "shadow_ref_v1-1";

fn config(volatility_ratio: u32) -> AssetConfig {
    AssetConfig {
        reserve_ratio: 2500,
        prot_ratio: 0,
        beneficiaries: AccountMap::new(),
        target_utilization: 8000,
        target_utilization_rate: 1000000000003593629036885046u128,
        max_utilization_rate: 1000000000039724853136740579u128,
        holding_position_fee_rate: 1000000000000000000000000000u128,
        volatility_ratio,
        extra_decimals: 0,
        can_deposit: true,
        can_withdraw: true,
        can_use_as_collateral: true,
        can_borrow: true,
        net_tvl_multiplier: 10000,
        max_change_rate: None,
        supplied_limit: None,
        borrowed_limit: None,
        min_borrowed_amount: None,
    }
}

fn asset(volatility_ratio: u32) -> Asset {
    // A share is worth two tokens, supplied or borrowed.
    let mut a = Asset::new(0, config(volatility_ratio));
    a.supplied = Pool { shares: 1000 * E18, balance: 2000 * E18 };
    a.borrowed = Pool { shares: 1000 * E18, balance: 2000 * E18 };
    a
}

fn setup() -> (AccountMap<Asset>, Prices) {
    let mut assets = AccountMap::new();
    assets.insert(&"usdt".to_string(), asset(6000));
    assets.insert(&"dai".to_string(), asset(8000));
    let mut lp = Asset::new(0, config(5000));
    lp.supplied = Pool { shares: 100, balance: 100 };
    assets.insert(&LP.to_string(), lp);
    let mut prices = AccountMap::new();
    prices.insert(&"usdt".to_string(), USD);
    prices.insert(&"dai".to_string(), USD);
    (assets, Prices::from_prices(prices))
}

fn unit() -> UnitShareTokens {
    UnitShareTokens { timestamp: 0, decimals: 0, tokens: vec![TokenAmount { token_id: "usdt".to_string(), amount: 2 * E18 }] }
}

#[test]
fn items_follow_the_assets_and_prices() {
    let (assets, prices) = setup();
    let mut shares = AccountMap::new();
    shares.insert(&"dai".to_string(), 7);
    let items = valued_shares(&shares, &assets, &prices, true);
    assert_eq!(items.len(), 1);
    assert_eq!((items[0].shares, items[0].volatility_ratio, items[0].price), (7, 8000, USD));
    assert_eq!((items[0].pool.shares, items[0].pool.balance), (1000 * E18, 2000 * E18));
}

#[test]
fn discount_of_a_regular_position() {
    let (assets, prices) = setup();
    let regular = "REGULAR".to_string();
    let mut account = Account::new(&"alice.near".to_string());
    // $200 of collateral at 60% counts for $120.
    account.increase_collateral(&regular, &"usdt".to_string(), 100 * E18);
    assert_eq!(position_max_discount(&account, &regular, &assets, &prices, None).unwrap().raw_u128(), 0);
    // $120 of debt at 80% counts for $150: (150 - 120) / 150 / 2 = 10%.
    account.increase_borrowed(&regular, &"dai".to_string(), 60 * E18);
    assert_eq!(position_max_discount(&account, &regular, &assets, &prices, None).unwrap().raw_u128(), E27 / 10);
    assert_eq!(position_max_discount(&account, &"other".to_string(), &assets, &prices, None).unwrap().raw_u128(), 0);
}

#[test]
fn discount_of_an_lp_position() {
    let (assets, prices) = setup();
    let lp = LP.to_string();
    let mut account = Account::new(&"alice.near".to_string());
    account.increase_collateral(&lp, &lp, 10);
    // 10 LP tokens hold 20 USDT: $20 at 60%, then at the LP token's 50%: $6.
    let info = unit();
    match account.positions.get_ref(&lp) {
        Some(burrowland::position::Position::LPTokenPosition(p)) => {
            assert_eq!(lp_collateral_sum(p, &info, &assets, &prices).unwrap().raw_u128(), 6 * E27);
        },
        _ => panic!("no LP position"),
    }
    // $6 of debt at 80% counts for $7.5: (7.5 - 6) / 7.5 / 2 = 10%.
    account.increase_borrowed(&lp, &"dai".to_string(), 3 * E18);
    assert_eq!(position_max_discount(&account, &lp, &assets, &prices, Some(&info)).unwrap().raw_u128(), E27 / 10);
}

#[test]
fn what_can_not_be_valued_has_no_discount() {
    let (assets, prices) = setup();
    let regular = "REGULAR".to_string();
    let mut account = Account::new(&"alice.near".to_string());
    account.increase_collateral(&regular, &"usdt".to_string(), 100 * E18);
    account.increase_borrowed(&regular, &"wbtc".to_string(), 1);
    // No asset and no price for the debt.
    assert!(position_max_discount(&account, &regular, &assets, &prices, None).is_none());
    // An LP-token position owing something needs what a unit of its LP shares holds.
    let lp = LP.to_string();
    account.increase_collateral(&lp, &lp, 10);
    account.increase_borrowed(&lp, &"dai".to_string(), 3 * E18);
    assert!(position_max_discount(&account, &lp, &assets, &prices, None).is_none());
    // A price whose decimals can not be valued.
    let mut bad = AccountMap::new();
    bad.insert(&"usdt".to_string(), Price { multiplier: 1, decimals: 200 });
    bad.insert(&"dai".to_string(), USD);
    let bad = Prices::from_prices(bad);
    assert!(position_max_discount(&account, &lp, &assets, &bad, Some(&unit())).is_none());
}
