use burrowland::account::Account;
use burrowland::account_map::AccountMap;
use burrowland::asset::Asset;
use burrowland::asset_config::AssetConfig;
use burrowland::force_close::{internal_force_close, ForceCloseError};
use burrowland::pool::Pool;
use burrowland::prices::{Price, Prices};

const E18: u128 = 1_000_000_000_000_000_000;
const E27: u128 = 1_000_000_000_000_000_000_000_000_000;
const USD: Price = Price { multiplier: 10000, decimals: 22 };

fn config(volatility_ratio: u32) -> AssetConfig {
    AssetConfig {
        reserve_ratio: 2500,
        prot_ratio: 0,
        beneficiaries: AccountMap::new(),
        target_utilization: 8000,
        target_utilization_rate: 1000000000003593629036885046u128,
        max_utilization_rate: 1000000000039724853136740579u128,
        holding_position_fee_rate: 1000000000000000000000000000u128,
        volatility_ratio,
        extra_decimals: 0,
        can_deposit: true,
        can_withdraw: true,
        can_use_as_collateral: true,
        can_borrow: true,
        net_tvl_multiplier: 10000,
        max_change_rate: None,
        supplied_limit: None,
        borrowed_limit: None,
        min_borrowed_amount: None,
    }
}

fn asset(volatility_ratio: u32, reserved: u128) -> Asset {
    let mut a = Asset::new(0, config(volatility_ratio));
    a.supplied = Pool { shares: 1000 * E18, balance: 1000 * E18 };
    a.borrowed = Pool { shares: 100 * E18, balance: 100 * E18 };
    a.reserved = reserved;
    a
}

fn setup(dai_reserve: u128, debt: u128) -> (Account, AccountMap<Asset>, Prices) {
    let mut assets = AccountMap::new();
    assets.insert(&"usdt".to_string(), asset(6000, 0));
    assets.insert(&"dai".to_string(), asset(8000, dai_reserve));
    let regular = "REGULAR".to_string();
    let mut bob = Account::new(&"bob.near".to_string());
    bob.increase_collateral(&regular, &"usdt".to_string(), 50 * E18);
    bob.increase_borrowed(&regular, &"dai".to_string(), debt);
    let mut prices = AccountMap::new();
    prices.insert(&"usdt".to_string(), USD);
    prices.insert(&"dai".to_string(), USD);
    (bob, assets, Prices::from_prices(prices))
}

#[test]
fn an_underwater_position_is_closed_by_the_reserves() {
    // $50 of collateral against $60 of debt.
    let (mut bob, mut assets, prices) = setup(100 * E18, 60 * E18);
    let r = internal_force_close(&mut bob, &mut assets, &prices, true).unwrap();
    assert_eq!(r.collateral_sum.raw_u128(), 50 * E27);
    assert_eq!(r.borrowed_sum.raw_u128(), 60 * E27);
    assert_eq!(r.collateral_amounts, vec![50 * E18]);
    assert_eq!(r.borrowed_amounts, vec![60 * E18]);
    assert!(bob.positions.is_empty());
    let usdt = assets.get_ref(&"usdt".to_string()).unwrap();
    assert_eq!((usdt.supplied.balance, usdt.reserved), (950 * E18, 50 * E18));
    let dai = assets.get_ref(&"dai".to_string()).unwrap();
    assert_eq!((dai.borrowed.balance, dai.reserved), (40 * E18, 40 * E18));
}

#[test]
fn refused_closings() {
    let (mut bob, mut assets, prices) = setup(100 * E18, 60 * E18);
    assert_eq!(internal_force_close(&mut bob, &mut assets, &prices, false).err(), Some(ForceCloseError::Disabled));
    let (mut bob, mut assets, prices) = setup(10 * E18, 60 * E18);
    assert_eq!(internal_force_close(&mut bob, &mut assets, &prices, true).err(), Some(ForceCloseError::NotEnoughReserve));
    let (mut bob, mut assets, prices) = setup(100 * E18, 40 * E18);
    assert_eq!(internal_force_close(&mut bob, &mut assets, &prices, true).err(), Some(ForceCloseError::NotUnderwater));
    let mut nobody = Account::new(&"carol.near".to_string());
    assert_eq!(internal_force_close(&mut nobody, &mut assets, &prices, true).err(), Some(ForceCloseError::PositionNotFound));
}
