use burrowland::account_map::AccountMap;
use burrowland::asset::Asset;
use burrowland::asset_config::AssetConfig;
use burrowland::big_decimal::BigDecimal;
use burrowland::margin_health::{
    get_mtp_lr, get_open_position_lr, is_min_amount_out_reasonable, is_mt_forcecloseable, is_mt_liquidatable,
    is_open_position_forcecloseable, is_open_position_liquidatable,
};
use burrowland::margin_position::MarginTradingPosition;
use burrowland::pool::Pool;
use burrowland::prices::Price;

const E18: u128 = 1_000_000_000_000_000_000;
const E24: u128 = 1_000_000_000_000_000_000_000_000;
const E27: u128 = 1_000_000_000_000_000_000_000_000_000;

// NEAR at $3.5: 24 token decimals plus 4 price decimals.
const NEAR: Price = Price { multiplier: 35000, decimals: 28 };
// USDC at $1: 6 token decimals plus 4 price decimals, held with 12 extra decimals.
const USDC: Price = Price { multiplier: 10000, decimals: 10 };

fn config(extra_decimals: u8) -> AssetConfig {
    AssetConfig {
        reserve_ratio: 2500,
        prot_ratio: 0,
        beneficiaries: AccountMap::new(),
        target_utilization: 8000,
        target_utilization_rate: 1000000000003593629036885046u128,
        max_utilization_rate: 1000000000039724853136740579u128,
        holding_position_fee_rate: 1000000000000000000000000000u128,
        volatility_ratio: 6000,
        extra_decimals,
        can_deposit: true,
        can_withdraw: true,
        can_use_as_collateral: true,
        can_borrow: true,
        net_tvl_multiplier: 10000,
        max_change_rate: None,
        supplied_limit: None,
        borrowed_limit: None,
        min_borrowed_amount: None,
    }
}

#[test]
fn values_at_prices() {
    assert_eq!(BigDecimal::from_balance_price(10 * E24, &NEAR, 0).raw_u128(), 35 * E27);
    assert_eq!(BigDecimal::from_balance_price(100 * E18, &USDC, 12).raw_u128(), 100 * E27);
    let v = BigDecimal::from_balance_price(10 * E24, &NEAR, 0);
    assert_eq!(v.to_balance_in_price(&USDC, 12), 35 * E18);
    assert_eq!(v.to_balance_in_price(&NEAR, 0), 10 * E24);
}

#[test]
fn min_amount_out_within_slippage() {
    let near = Asset::new(0, config(0));
    let usdc = Asset::new(0, config(12));
    // 10 NEAR is worth 35 USDC; 2% slippage accepts down to 34.3.
    assert!(is_min_amount_out_reasonable(10 * E24, &near, &NEAR, &usdc, &USDC, 343 * E18 / 10, 200));
    assert!(!is_min_amount_out_reasonable(10 * E24, &near, &NEAR, &usdc, &USDC, 342 * E18 / 10, 200));
    assert!(is_min_amount_out_reasonable(10 * E24, &near, &NEAR, &usdc, &USDC, 35 * E18, 0));
}

#[test]
fn opening_checks() {
    // $100 of collateral and $35 of position.
    let liq = |debt: u128| {
        is_open_position_liquidatable(100 * E18, &USDC, 12, debt * E18, &USDC, 12, 10 * E24, &NEAR, 0, 1000)
    };
    let fc = |debt: u128| is_open_position_forcecloseable(100 * E18, &USDC, 12, debt * E18, &USDC, 12, 10 * E24, &NEAR, 0);
    // Worth 135, 121.5 after the 10% buffer.
    assert!(!liq(120));
    assert!(liq(122));
    assert!(liq(135));
    assert!(!liq(136));
    assert!(!fc(135));
    assert!(fc(136));
    assert_eq!(get_open_position_lr(100 * E18, &USDC, 12, 50 * E18, &USDC, 12).unwrap().raw_u128(), E27 / 2);
    assert!(get_open_position_lr(0, &USDC, 12, 50 * E18, &USDC, 12).is_none());
}

#[test]
fn position_checks() {
    let mut usdc = Asset::new(0, config(12));
    usdc.supplied = Pool { shares: 1000 * E18, balance: 1000 * E18 };
    usdc.margin_debt = Pool { shares: 60 * E18, balance: 60 * E18 };
    usdc.unit_acc_hp_interest = E18 / 100;
    let near = Asset::new(0, config(0));
    let mut mt = MarginTradingPosition::new(0, "usdc".to_string(), 20 * E18, "usdc".to_string(), "near".to_string());
    mt.token_d_shares = 60 * E18;
    mt.token_p_amount = 10 * E24;
    mt.debt_cap = 50 * E18;
    // Worth 20 + 35 = 55; owes 60 + 0.5 fee.
    assert!(is_mt_forcecloseable(&mt, &usdc, &USDC, &usdc, &USDC, &near, &NEAR));
    assert!(!is_mt_liquidatable(&mt, &usdc, &USDC, &usdc, &USDC, &near, &NEAR, 1000));
    mt.token_c_shares = 40 * E18;
    // Worth 75 against 60.5: healthy at 10%, liquidatable at 20% (60 < 60.5).
    assert!(!is_mt_forcecloseable(&mt, &usdc, &USDC, &usdc, &USDC, &near, &NEAR));
    assert!(!is_mt_liquidatable(&mt, &usdc, &USDC, &usdc, &USDC, &near, &NEAR, 1000));
    assert!(is_mt_liquidatable(&mt, &usdc, &USDC, &usdc, &USDC, &near, &NEAR, 2000));
    // Leverage: 60.5 / 40.
    assert_eq!(get_mtp_lr(&mt, &usdc, &USDC, &usdc, &USDC).unwrap().raw_u128(), 15125 * E27 / 10000);
}

use burrowland::margin_health::{
    check_decrease_debt, check_open_position_assets, check_debt_size, take_position_tokens_for_trade, DecreaseError, OpenError,
};
use burrowland::margin_trading::DecreaseOperation;
use burrowland::utils::UNIT;

fn debt_asset() -> Asset {
    let mut a = Asset::new(0, config(0));
    a.supplied = Pool { shares: 1000, balance: 2000 };
    a.margin_debt = Pool { shares: 100, balance: 120 };
    a.unit_acc_hp_interest = UNIT / 10;
    a.config.min_borrowed_amount = Some(5);
    a
}

fn owing_position(c: &str) -> MarginTradingPosition {
    // 50 debt shares are 60 tokens; the fee on a capital of 100 is 10.
    let mut p = MarginTradingPosition::new(0, c.to_string(), 40, "d".to_string(), "p".to_string());
    p.token_d_shares = 50;
    p.debt_cap = 100;
    p.is_locking = false;
    p
}

#[test]
fn decrease_debt_checks() {
    let a = debt_asset();
    let p = owing_position("c");
    assert_eq!(check_decrease_debt(DecreaseOperation::Decrease, &p, &a, 70), Ok(()));
    assert_eq!(check_decrease_debt(DecreaseOperation::Decrease, &p, &a, 65), Ok(()));
    assert_eq!(check_decrease_debt(DecreaseOperation::Decrease, &p, &a, 66), Err(DecreaseError::RemainingDebtTooLow));
    let mut no_min = debt_asset();
    no_min.config.min_borrowed_amount = None;
    assert_eq!(check_decrease_debt(DecreaseOperation::Decrease, &p, &no_min, 10), Err(DecreaseError::MissingMinBorrowedAmount));
    assert_eq!(check_decrease_debt(DecreaseOperation::Close, &p, &a, 69), Err(DecreaseError::TradeUnderDebt));
    assert_eq!(check_decrease_debt(DecreaseOperation::ForceClose, &p, &a, 0), Ok(()));
    // Collateral in the debt token: the gap of 70 tokens is 35 shares, less than the 40 held.
    let q = owing_position("d");
    assert_eq!(check_decrease_debt(DecreaseOperation::Liquidate, &q, &a, 0), Ok(()));
    let mut poor = owing_position("d");
    poor.token_c_shares = 35;
    assert_eq!(check_decrease_debt(DecreaseOperation::Liquidate, &poor, &a, 0), Err(DecreaseError::NotAllDebtRepaid));
}

#[test]
fn position_tokens_go_into_the_trade() {
    let mut ap = Asset::new(0, config(0));
    ap.supplied = Pool { shares: 100, balance: 300 };
    ap.margin_position = 50;
    let mut mt = owing_position("c");
    mt.token_p_amount = 20;
    assert_eq!(take_position_tokens_for_trade(&mut mt, &mut ap, 15), Ok(()));
    assert_eq!((mt.token_p_amount, ap.margin_position), (5, 35));
    assert!(mt.is_locking);

    let mut mt = owing_position("c");
    mt.token_p_amount = 20;
    assert_eq!(take_position_tokens_for_trade(&mut mt, &mut ap, 25), Err(DecreaseError::NotEnoughPositionAsset));
    assert_eq!(mt.token_p_amount, 20);

    // Collateral in the position token makes up the rest: 10 tokens are 4 shares (rounded up).
    let mut mt = owing_position("p");
    mt.token_p_amount = 20;
    assert_eq!(take_position_tokens_for_trade(&mut mt, &mut ap, 30), Ok(()));
    assert_eq!((mt.token_p_amount, mt.token_c_shares), (0, 36));
    assert_eq!((ap.supplied.shares, ap.supplied.balance, ap.margin_position), (96, 290, 15));
}

#[test]
fn open_position_asset_checks() {
    let mut c = Asset::new(0, config(0));
    c.supplied = Pool { shares: 10, balance: 10 };
    let mut d = debt_asset();
    d.borrowed = Pool { shares: 90, balance: 90 };
    assert_eq!(check_open_position_assets(&c, &d, 5, false), Ok(()));
    // The size of the debt is checked apart.
    assert_eq!(check_open_position_assets(&c, &d, 4, false), Ok(()));
    assert_eq!(check_debt_size(&d, 4), Err(OpenError::DebtTooLow));
    assert_eq!(check_debt_size(&d, 5), Ok(()));
    d.config.borrowed_limit = Some(100);
    assert_eq!(check_open_position_assets(&c, &d, 11, false), Err(OpenError::BorrowLimit));
    assert_eq!(check_open_position_assets(&c, &d, 11, true), Ok(()));
    c.config.supplied_limit = Some(9);
    assert_eq!(check_open_position_assets(&c, &d, 5, false), Err(OpenError::SupplyLimit));
    d.config.can_borrow = false;
    assert_eq!(check_open_position_assets(&c, &d, 5, true), Err(OpenError::NotBorrowable));
    c.config.can_use_as_collateral = false;
    assert_eq!(check_open_position_assets(&c, &d, 5, true), Err(OpenError::NotCollateral));
}

use burrowland::margin_health::{liquidate_direct_assets, revert_decrease_trade};

#[test]
fn failed_decrease_is_undone() {
    let mut ap = Asset::new(0, config(0));
    ap.supplied = Pool { shares: 100, balance: 300 };
    ap.margin_position = 50;
    let mut mt = owing_position("p");
    mt.token_p_amount = 20;
    let before = (mt.token_c_shares, mt.token_p_amount, ap.margin_position, ap.supplied.balance);
    assert_eq!(take_position_tokens_for_trade(&mut mt, &mut ap, 30), Ok(()));
    revert_decrease_trade(&mut mt, &mut ap, 30, 20);
    // 10 tokens went out as 4 shares and come back as 3.
    assert_eq!((mt.token_c_shares, mt.token_p_amount, ap.margin_position, ap.supplied.balance), (39, 20, 50, 300));
    assert_eq!((before.1, before.2, before.3), (20, 50, 300));
    assert!(!mt.is_locking);

    let mut mt = owing_position("c");
    mt.token_p_amount = 20;
    assert_eq!(take_position_tokens_for_trade(&mut mt, &mut ap, 15), Ok(()));
    revert_decrease_trade(&mut mt, &mut ap, 15, 20);
    assert_eq!((mt.token_c_shares, mt.token_p_amount, ap.margin_position), (40, 20, 50));
}

#[test]
fn direct_liquidation_of_assets() {
    let mut ad = debt_asset();
    let mut ap = Asset::new(0, config(0));
    ap.supplied = Pool { shares: 100, balance: 300 };
    ap.margin_position = 50;
    let mut mt = owing_position("d");
    mt.token_p_amount = 31;
    // Debt 60 and fee 10: 70 tokens are 35 supply shares.
    let (repay, claim) = liquidate_direct_assets(&mt, &mut ad, &mut ap);
    assert_eq!((repay, claim), (35, 10));
    assert_eq!((ad.supplied.shares, ad.supplied.balance), (965, 1930));
    assert_eq!((ad.margin_debt.shares, ad.margin_debt.balance), (50, 60));
    assert_eq!((ap.supplied.shares, ap.supplied.balance, ap.margin_position), (110, 331, 19));
}
