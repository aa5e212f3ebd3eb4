use burrowland::account_map::AccountMap;
use burrowland::actions::{AmountError, AssetAmount};
use burrowland::asset::Asset;
use burrowland::asset_config::AssetConfig;
use burrowland::lending::{
    borrow_from_asset, collateral_shares, deposit_to_asset, pow10_u128, release_collateral_shares, repay_to_asset,
    withdraw_from_asset, LendingError,
};
use burrowland::pool::Pool;

fn config() -> AssetConfig {
    AssetConfig {
        reserve_ratio: 2500,
        prot_ratio: 0,
        beneficiaries: AccountMap::new(),
        target_utilization: 8000,
        target_utilization_rate: 1000000000003593629036885046u128,
        max_utilization_rate: 1000000000039724853136740579u128,
        holding_position_fee_rate: 1000000000000000000000000000u128,
        volatility_ratio: 6000,
        extra_decimals: 0,
        can_deposit: true,
        can_withdraw: true,
        can_use_as_collateral: true,
        can_borrow: true,
        net_tvl_multiplier: 10000,
        max_change_rate: None,
        supplied_limit: None,
        borrowed_limit: None,
        min_borrowed_amount: Some(1),
    }
}

fn asset() -> Asset {
    let mut a = Asset::new(0, config());
    a.supplied = Pool { shares: 1000, balance: 1000 };
    a.borrowed = Pool { shares: 500, balance: 600 };
    a.reserved = 100;
    a
}

fn amount(token: &str, a: u128) -> AssetAmount {
    AssetAmount { token_id: token.to_string(), amount: Some(a), max_amount: None }
}

fn pools(a: &Asset) -> (u128, u128, u128, u128) {
    (a.supplied.shares, a.supplied.balance, a.borrowed.shares, a.borrowed.balance)
}

#[test]
fn powers_of_ten() {
    assert_eq!(pow10_u128(0), 1);
    assert_eq!(pow10_u128(18), 1_000_000_000_000_000_000);
    assert_eq!(pow10_u128(38), 100_000_000_000_000_000_000_000_000_000_000_000_000);
}

#[test]
fn deposit() {
    let mut a = asset();
    assert_eq!(deposit_to_asset(&mut a, 100), 100);
    assert_eq!(pools(&a), (1100, 1100, 500, 600));
}

#[test]
fn withdraw() {
    let mut a = asset();
    assert_eq!(withdraw_from_asset(&mut a, 200, &amount("t", 150)), Ok((150, 150, 150)));
    assert_eq!(pools(&a), (850, 850, 500, 600));

    let mut a = asset();
    assert_eq!(withdraw_from_asset(&mut a, 2000, &amount("t", 600)), Err(LendingError::ExceedsAvailable));
    assert_eq!(withdraw_from_asset(&mut a, 100, &amount("t", 150)), Err(LendingError::NotEnoughShares));
    assert_eq!(withdraw_from_asset(&mut a, 100, &amount("t", 0)), Err(LendingError::Amount(AmountError::ZeroShares)));
    assert_eq!(pools(&a), (1000, 1000, 500, 600));

    let mut dust = asset();
    dust.config.extra_decimals = 2;
    assert_eq!(withdraw_from_asset(&mut dust, 100, &amount("t", 50)), Ok((0, 0, 0)));
    assert_eq!(pools(&dust), (1000, 1000, 500, 600));

    let mut off = asset();
    off.config.can_withdraw = false;
    assert_eq!(withdraw_from_asset(&mut off, 100, &amount("t", 50)), Err(LendingError::WithdrawDisabled));
}

#[test]
fn borrow_then_repay() {
    let mut a = asset();
    assert_eq!(borrow_from_asset(&mut a, &amount("t", 120), false), Ok((100, 120, 120)));
    assert_eq!(pools(&a), (1120, 1120, 600, 720));
    assert_eq!(repay_to_asset(&mut a, 100, 120, &amount("t", 120)), Ok((100, 120, 120)));
    assert_eq!(pools(&a), (1000, 1000, 500, 600));
}

#[test]
fn borrow_everything_available() {
    let mut a = asset();
    let all = AssetAmount { token_id: "t".to_string(), amount: None, max_amount: None };
    assert_eq!(borrow_from_asset(&mut a, &all, false), Ok((416, 499, 499)));
    let mut b = asset();
    assert_eq!(borrow_from_asset(&mut b, &amount("t", 501), false), Err(LendingError::ExceedsAvailable));
    b.config.borrowed_limit = Some(700);
    assert_eq!(borrow_from_asset(&mut b, &amount("t", 101), false), Err(LendingError::BorrowLimit));
    assert_eq!(borrow_from_asset(&mut b, &amount("t", 100), false).map(|r| r.2), Ok(100));
    b.config.can_borrow = false;
    assert_eq!(borrow_from_asset(&mut b, &amount("t", 1), true), Err(LendingError::NotBorrowable));
}

#[test]
fn repay_with_too_little_supply() {
    let mut a = asset();
    assert!(borrow_from_asset(&mut a, &amount("t", 120), false).is_ok());
    assert_eq!(repay_to_asset(&mut a, 100, 50, &amount("t", 120)), Err(LendingError::NotEnoughSupplied));
    assert_eq!(pools(&a), (1120, 1120, 600, 720));
    let most = AssetAmount { token_id: "t".to_string(), amount: None, max_amount: Some(120) };
    assert_eq!(repay_to_asset(&mut a, 100, 50, &most), Ok((41, 50, 50)));
    assert_eq!(pools(&a), (1070, 1070, 559, 670));
    assert_eq!(repay_to_asset(&mut a, 10, 1000, &amount("t", 30)), Err(LendingError::ExceedsBorrowed));
}

#[test]
fn collateral_moves() {
    let a = asset();
    assert_eq!(collateral_shares(&a, 200, &amount("t", 150), false), Ok((150, 150)));
    assert_eq!(collateral_shares(&a, 100, &amount("t", 150), false), Err(LendingError::NotEnoughShares));
    let mut limited = asset();
    limited.config.supplied_limit = Some(999);
    assert_eq!(collateral_shares(&limited, 200, &amount("t", 150), false), Err(LendingError::SupplyLimit));
    assert_eq!(collateral_shares(&limited, 200, &amount("t", 150), true), Ok((150, 150)));
    limited.config.can_use_as_collateral = false;
    assert_eq!(collateral_shares(&limited, 200, &amount("t", 150), true), Err(LendingError::NotCollateral));
    assert_eq!(release_collateral_shares(&a, 100, &amount("t", 60)), Ok((60, 60)));
    assert_eq!(release_collateral_shares(&a, 50, &amount("t", 60)), Err(LendingError::NotEnoughShares));
}
