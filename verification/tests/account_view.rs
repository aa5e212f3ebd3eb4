use burrowland::account_map::AccountMap;
use burrowland::account::Account;
use burrowland::account_view::{
    account_into_all_positions_detailed_view, account_into_regular_position_detailed_view, asset_views, get_asset_view,
    position_view,
};
use burrowland::asset::Asset;
use burrowland::asset_config::AssetConfig;
use burrowland::pool::Pool;
use burrowland::position::Position;

fn config() -> AssetConfig {
    AssetConfig {
        reserve_ratio: 2500,
        prot_ratio: 0,
        beneficiaries: AccountMap::new(),
        target_utilization: 8000,
        target_utilization_rate: 1000000000003593629036885046u128,
        max_utilization_rate: 1000000000039724853136740579u128,
        holding_position_fee_rate: 1000000000000000000000000000u128,
        volatility_ratio: 6000,
        extra_decimals: 0,
        can_deposit: true,
        can_withdraw: true,
        can_use_as_collateral: true,
        can_borrow: true,
        net_tvl_multiplier: 10000,
        max_change_rate: None,
        supplied_limit: None,
        borrowed_limit: None,
        min_borrowed_amount: None,
    }
}

fn idle_asset() -> Asset {
    let mut a = Asset::new(0, config());
    a.supplied = Pool { shares: 3, balance: 10 };
    a.borrowed = Pool { shares: 3, balance: 10 };
    a
}

#[test]
fn supplied_shares_round_down_and_borrowed_round_up() {
    let mut a = idle_asset();
    a.borrowed = Pool { shares: 0, balance: 0 };
    let v = get_asset_view("t".to_string(), 1, &a, false, 10000);
    assert_eq!((v.token_id.as_str(), v.balance, v.shares), ("t", 3, 1));
    assert!(v.apr.is_zero());
    let b = idle_asset();
    let v = get_asset_view("t".to_string(), 1, &b, true, 10000);
    assert_eq!((v.balance, v.shares), (4, 1));
}

#[test]
fn views_of_a_position() {
    let mut assets = AccountMap::new();
    let mut a = idle_asset();
    a.borrowed = Pool { shares: 0, balance: 0 };
    assets.insert(&"usdt".to_string(), a);
    assets.insert(&"shadow_ref_v1-1".to_string(), Asset::new(0, config()));
    let mut regular = Position::new(&"REGULAR".to_string());
    regular.increase_collateral(&"usdt".to_string(), 3);
    let v = position_view(&regular, &assets, 10000);
    assert_eq!(v.collateral.len(), 1);
    assert_eq!((v.collateral[0].token_id.as_str(), v.collateral[0].balance), ("usdt", 10));
    assert!(v.borrowed.is_empty());
    let mut lp = Position::new(&"shadow_ref_v1-1".to_string());
    lp.increase_collateral(&"shadow_ref_v1-1".to_string(), 7);
    let v = position_view(&lp, &assets, 10000);
    assert_eq!(v.collateral.len(), 1);
    assert_eq!((v.collateral[0].token_id.as_str(), v.collateral[0].shares, v.collateral[0].balance), ("shadow_ref_v1-1", 7, 0));
    let mut supplied = AccountMap::new();
    supplied.insert(&"usdt".to_string(), 1);
    let views = asset_views(&supplied, &assets, false, 10000);
    assert_eq!(views.len(), 1);
    assert_eq!(views[0].balance, 3);
}

fn two_assets() -> AccountMap<Asset> {
    let mut assets = AccountMap::new();
    let mut a = idle_asset();
    a.borrowed = Pool { shares: 0, balance: 0 };
    assets.insert(&"usdt".to_string(), a);
    assets.insert(&"shadow_ref_v1-1".to_string(), Asset::new(0, config()));
    assets
}

#[test]
fn detailed_view_of_the_regular_position() {
    let assets = two_assets();
    let mut account = Account::new(&"alice.near".to_string());
    account.supplied.insert(&"usdt".to_string(), 1);
    account.increase_collateral(&"REGULAR".to_string(), &"usdt".to_string(), 3);
    account.increase_collateral(&"shadow_ref_v1-1".to_string(), &"shadow_ref_v1-1".to_string(), 7);
    let v = account_into_regular_position_detailed_view(account, &assets, 10000);
    assert_eq!(v.account_id.as_str(), "alice.near");
    assert_eq!(v.supplied.len(), 1);
    assert_eq!((v.supplied[0].token_id.as_str(), v.supplied[0].shares, v.supplied[0].balance), ("usdt", 1, 3));
    assert_eq!(v.collateral.len(), 1);
    assert_eq!((v.collateral[0].token_id.as_str(), v.collateral[0].shares, v.collateral[0].balance), ("usdt", 3, 10));
    assert!(v.borrowed.is_empty());
    assert!(v.booster_staking.is_none());
}

#[test]
fn detailed_view_without_a_regular_position() {
    let assets = two_assets();
    let mut account = Account::new(&"bob.near".to_string());
    account.increase_collateral(&"shadow_ref_v1-1".to_string(), &"shadow_ref_v1-1".to_string(), 7);
    let v = account_into_regular_position_detailed_view(account, &assets, 10000);
    assert!(v.supplied.is_empty());
    assert!(v.collateral.is_empty());
    assert!(v.borrowed.is_empty());
}

#[test]
fn detailed_view_of_all_positions() {
    let assets = two_assets();
    let mut account = Account::new(&"alice.near".to_string());
    account.increase_collateral(&"REGULAR".to_string(), &"usdt".to_string(), 3);
    account.increase_collateral(&"shadow_ref_v1-1".to_string(), &"shadow_ref_v1-1".to_string(), 7);
    account.is_locked = true;
    let v = account_into_all_positions_detailed_view(account, &assets, 10000);
    assert_eq!(v.positions.len(), 2);
    assert_eq!(v.positions[0].0.as_str(), "REGULAR");
    assert_eq!(v.positions[0].1.collateral[0].balance, 10);
    assert_eq!(v.positions[1].0.as_str(), "shadow_ref_v1-1");
    assert_eq!((v.positions[1].1.collateral[0].token_id.as_str(), v.positions[1].1.collateral[0].shares), ("shadow_ref_v1-1", 7));
    assert!(v.is_locked);
    assert!(v.supplied.is_empty());
}
