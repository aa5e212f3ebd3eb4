use burrowland::account::Account;
use burrowland::account_lending::{
    internal_borrow, internal_decrease_collateral, internal_deposit, internal_increase_collateral, internal_repay,
    internal_withdraw,
};
use burrowland::account_map::AccountMap;
use burrowland::actions::AssetAmount;
use burrowland::asset::Asset;
use burrowland::asset_config::AssetConfig;
use burrowland::lending::LendingError;
use burrowland::pool::Pool;
use burrowland::position::Position;

fn config() -> AssetConfig {
    AssetConfig {
        reserve_ratio: 2500,
        prot_ratio: 0,
        beneficiaries: AccountMap::new(),
        target_utilization: 8000,
        target_utilization_rate: 1000000000003593629036885046u128,
        max_utilization_rate: 1000000000039724853136740579u128,
        holding_position_fee_rate: 1000000000000000000000000000u128,
        volatility_ratio: 6000,
        extra_decimals: 0,
        can_deposit: true,
        can_withdraw: true,
        can_use_as_collateral: true,
        can_borrow: true,
        net_tvl_multiplier: 10000,
        max_change_rate: None,
        supplied_limit: None,
        borrowed_limit: None,
        min_borrowed_amount: None,
    }
}

fn asset() -> Asset {
    let mut a = Asset::new(0, config());
    a.supplied = Pool { shares: 1000, balance: 1000 };
    a.borrowed = Pool { shares: 500, balance: 500 };
    a
}

fn amount(token: &str, a: u128) -> AssetAmount {
    AssetAmount { token_id: token.to_string(), amount: Some(a), max_amount: None }
}

fn regular() -> String {
    "REGULAR".to_string()
}

fn collateral(account: &Account, position: &str, token: &str) -> Option<u128> {
    match account.positions.get_ref(&position.to_string()) {
        Some(Position::RegularPosition(p)) => p.collateral.get(&token.to_string()),
        Some(Position::LPTokenPosition(p)) => Some(p.collateral),
        None => None,
    }
}

#[test]
fn new_account_is_empty() {
    let a = Account::new(&"alice.near".to_string());
    assert_eq!(a.account_id, "alice.near");
    assert!(a.supplied.is_empty() && a.positions.is_empty());
    assert!(a.booster_staking.is_none() && !a.is_locked);
    assert_eq!(a.get_assets_num(), 0);
}

#[test]
fn collateral_opens_and_closes_positions() {
    let mut a = Account::new(&"alice.near".to_string());
    a.increase_collateral(&regular(), &"usdt".to_string(), 30);
    a.increase_collateral(&regular(), &"usdt".to_string(), 12);
    assert_eq!(collateral(&a, "REGULAR", "usdt"), Some(42));
    assert_eq!(a.internal_unwrap_collateral(&regular(), &"usdt".to_string()), 42);
    a.decrease_collateral(&regular(), &"usdt".to_string(), 40);
    assert_eq!(collateral(&a, "REGULAR", "usdt"), Some(2));
    a.decrease_collateral(&regular(), &"usdt".to_string(), 2);
    assert!(a.positions.is_empty());
}

#[test]
fn lp_positions_hold_their_lp_token() {
    let lp = "shadow_ref_v1-9".to_string();
    let mut a = Account::new(&"alice.near".to_string());
    a.increase_collateral(&lp, &lp, 5);
    assert_eq!(collateral(&a, &lp, &lp), Some(5));
    a.increase_borrowed(&lp, &"usdt".to_string(), 3);
    assert_eq!(a.internal_unwrap_borrowed(&lp, &"usdt".to_string()), 3);
    a.decrease_borrowed(&lp, &"usdt".to_string(), 3);
    a.decrease_collateral(&lp, &lp, 5);
    assert!(a.positions.is_empty());
}

#[test]
fn sums_over_positions() {
    let lp = "shadow_ref_v1-9".to_string();
    let mut a = Account::new(&"alice.near".to_string());
    a.supplied.insert(&"usdt".to_string(), 7);
    a.increase_collateral(&regular(), &"usdt".to_string(), 10);
    a.increase_collateral(&regular(), &"wnear".to_string(), 1);
    a.increase_borrowed(&regular(), &"usdc".to_string(), 4);
    a.increase_collateral(&lp, &lp, 5);
    a.increase_borrowed(&lp, &"usdc".to_string(), 6);
    assert_eq!(a.get_supplied_shares(&"usdt".to_string()), 17);
    assert_eq!(a.get_supplied_shares(&lp), 5);
    assert_eq!(a.get_supplied_shares(&"dai".to_string()), 0);
    assert_eq!(a.get_borrowed_shares(&"usdc".to_string()), 10);
    // Regular: 2 collateral + 1 borrowed; LP: its token + 1 borrowed.
    assert_eq!(a.get_assets_num(), 5);
}

#[test]
fn deposit_and_withdraw_through_the_account() {
    let mut a = Account::new(&"alice.near".to_string());
    let mut asset = asset();
    let usdt = "usdt".to_string();
    assert_eq!(internal_deposit(&mut a, &mut asset, &usdt, 100), 100);
    assert_eq!(a.supplied.get(&usdt), Some(100));
    assert_eq!((asset.supplied.shares, asset.supplied.balance), (1100, 1100));
    assert_eq!(internal_withdraw(&mut a, &mut asset, &amount("usdt", 40)), Ok((40, 40)));
    assert_eq!(a.supplied.get(&usdt), Some(60));
    assert_eq!(internal_withdraw(&mut a, &mut asset, &amount("usdt", 61)), Err(LendingError::NotEnoughShares));
    assert_eq!(a.supplied.get(&usdt), Some(60));
    assert_eq!(internal_withdraw(&mut a, &mut asset, &amount("usdt", 60)), Ok((60, 60)));
    assert_eq!(a.supplied.get(&usdt), None);
}

#[test]
fn collateral_borrow_and_repay_through_the_account() {
    let mut a = Account::new(&"alice.near".to_string());
    let mut asset = asset();
    let usdt = "usdt".to_string();
    internal_deposit(&mut a, &mut asset, &usdt, 100);
    assert_eq!(internal_increase_collateral(&regular(), &mut a, &asset, &amount("usdt", 80), false), Ok(80));
    assert_eq!(a.supplied.get(&usdt), Some(20));
    assert_eq!(collateral(&a, "REGULAR", "usdt"), Some(80));
    assert_eq!(
        internal_increase_collateral(&regular(), &mut a, &asset, &amount("usdt", 21), false),
        Err(LendingError::NotEnoughShares)
    );

    assert_eq!(internal_borrow(&regular(), &mut a, &mut asset, &amount("usdt", 50), false), Ok(50));
    assert_eq!(a.supplied.get(&usdt), Some(70));
    assert_eq!(a.internal_unwrap_borrowed(&regular(), &usdt), 50);
    assert_eq!((asset.borrowed.shares, asset.borrowed.balance), (550, 550));

    assert_eq!(internal_repay(&regular(), &mut a, &mut asset, &amount("usdt", 30)), Ok(30));
    assert_eq!(a.internal_unwrap_borrowed(&regular(), &usdt), 20);
    assert_eq!(a.supplied.get(&usdt), Some(40));

    assert_eq!(internal_decrease_collateral(&regular(), &mut a, &asset, &amount("usdt", 80)), Ok(80));
    assert_eq!(a.supplied.get(&usdt), Some(120));
    // The position still owes, so it stays open.
    assert_eq!(collateral(&a, "REGULAR", "usdt"), None);
    assert!(a.positions.get_ref(&regular()).is_some());
}

#[test]
fn refused_actions_change_nothing() {
    let mut a = Account::new(&"alice.near".to_string());
    let mut asset = asset();
    let usdt = "usdt".to_string();
    internal_deposit(&mut a, &mut asset, &usdt, 100);
    let mut closed = asset.config.clone();
    closed.can_use_as_collateral = false;
    let mut no_collateral = self::asset();
    no_collateral.config = closed;
    assert_eq!(
        internal_increase_collateral(&regular(), &mut a, &no_collateral, &amount("usdt", 10), false),
        Err(LendingError::NotCollateral)
    );
    assert!(a.positions.is_empty());
    assert_eq!(a.supplied.get(&usdt), Some(100));
}
