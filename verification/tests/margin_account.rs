use burrowland::account_map::AccountMap;
use burrowland::asset::Asset;
use burrowland::asset_config::AssetConfig;
use burrowland::margin_account::{
    account_supplied_updates, benefit_distribution, deposit_benefit_to_account, distribute_benefits,
    settle_stop_service_fee, stop_fee_recipient,
    internal_margin_decrease_collateral, internal_margin_deposit, internal_margin_increase_collateral,
    internal_margin_withdraw_supply, MarginAccount, MarginAccountError,
};
use burrowland::margin_actions::{check_margin_action, check_swap_return, MarginAction, MarginActionError, SwapSettlement, SwapReturnError};
use burrowland::margin_position::MarginTradingPosition;
use burrowland::margin_trading::{DecreaseOperation, SettlementBenefits, StopServiceFeeInfo, SwapIndication};
use burrowland::pool::Pool;
use burrowland::prices::Price;

const E18: u128 = 1_000_000_000_000_000_000;
const E24: u128 = 1_000_000_000_000_000_000_000_000;
const NEAR: Price = Price { multiplier: 35000, decimals: 28 };
const USDC: Price = Price { multiplier: 10000, decimals: 10 };

fn config(extra_decimals: u8) -> AssetConfig {
    AssetConfig {
        reserve_ratio: 2500,
        prot_ratio: 0,
        beneficiaries: AccountMap::new(),
        target_utilization: 8000,
        target_utilization_rate: 1000000000003593629036885046u128,
        max_utilization_rate: 1000000000039724853136740579u128,
        holding_position_fee_rate: 1000000000000000000000000000u128,
        volatility_ratio: 6000,
        extra_decimals,
        can_deposit: true,
        can_withdraw: true,
        can_use_as_collateral: true,
        can_borrow: true,
        net_tvl_multiplier: 10000,
        max_change_rate: None,
        supplied_limit: None,
        borrowed_limit: None,
        min_borrowed_amount: None,
    }
}

fn usdc_asset() -> Asset {
    let mut usdc = Asset::new(0, config(12));
    usdc.supplied = Pool { shares: 1000 * E18, balance: 1000 * E18 };
    usdc.margin_debt = Pool { shares: 60 * E18, balance: 60 * E18 };
    usdc.unit_acc_hp_interest = E18 / 100;
    usdc
}

fn account_with_position() -> MarginAccount {
    let mut a = MarginAccount::new(&"alice.near".to_string());
    let mut mt = MarginTradingPosition::new(0, "usdc".to_string(), 40 * E18, "usdc".to_string(), "near".to_string());
    mt.token_d_shares = 60 * E18;
    mt.token_p_amount = 10 * E24;
    mt.debt_cap = 50 * E18;
    mt.is_locking = false;
    a.margin_positions.insert(&"p1".to_string(), mt);
    a.supplied.insert(&"usdc".to_string(), 5 * E18);
    a
}

#[test]
fn margin_deposit_and_withdraw() {
    let mut a = MarginAccount::new(&"alice.near".to_string());
    let mut usdc = usdc_asset();
    let token = "usdc".to_string();
    assert_eq!(internal_margin_deposit(&mut a, &mut usdc, &token, 10 * E18), 10 * E18);
    assert_eq!(a.supplied.get(&token), Some(10 * E18));
    assert_eq!(internal_margin_withdraw_supply(&mut a, &mut usdc, &token, Some(4 * E18)), Ok((4 * E18, 4_000_000)));
    assert_eq!(a.supplied.get(&token), Some(6 * E18));
    assert_eq!(
        internal_margin_withdraw_supply(&mut a, &mut usdc, &token, Some(7 * E18)),
        Err(MarginAccountError::NotEnoughShares)
    );
    // Less than one unit of the token's own decimals withdraws nothing.
    assert_eq!(internal_margin_withdraw_supply(&mut a, &mut usdc, &token, Some(100_000_000_000)), Ok((0, 0)));
    assert_eq!(a.supplied.get(&token), Some(6 * E18));
    assert_eq!(internal_margin_withdraw_supply(&mut a, &mut usdc, &token, None), Ok((6 * E18, 6_000_000)));
    assert_eq!(a.supplied.get(&token), None);
    assert_eq!((usdc.supplied.shares, usdc.supplied.balance), (1000 * E18, 1000 * E18));
}

#[test]
fn margin_collateral_increase() {
    let mut a = account_with_position();
    let usdc = usdc_asset();
    let pos = "p1".to_string();
    assert_eq!(internal_margin_increase_collateral(&mut a, &usdc, &pos, 3 * E18), Ok(("usdc".to_string(), 3 * E18)));
    assert_eq!(a.supplied.get(&"usdc".to_string()), Some(2 * E18));
    assert_eq!(a.margin_positions.get_ref(&pos).unwrap().token_c_shares, 43 * E18);
    assert_eq!(internal_margin_increase_collateral(&mut a, &usdc, &pos, 3 * E18), Err(MarginAccountError::NotEnoughShares));
    assert_eq!(
        internal_margin_increase_collateral(&mut a, &usdc, &"p9".to_string(), E18),
        Err(MarginAccountError::PositionNotFound)
    );
}

#[test]
fn margin_collateral_decrease_keeps_the_position_healthy() {
    let near = Asset::new(0, config(0));
    let usdc = usdc_asset();
    let pos = "p1".to_string();
    // Worth 40 + 35 = 75 against 60.5 owed; leverage 60.5 / 40.
    let mut a = account_with_position();
    let r = internal_margin_decrease_collateral(&mut a, &pos, 5 * E18, &usdc, &USDC, &usdc, &USDC, &near, &NEAR, 1000, 5);
    assert_eq!(r, Ok("usdc".to_string()));
    assert_eq!(a.margin_positions.get_ref(&pos).unwrap().token_c_shares, 35 * E18);
    assert_eq!(a.supplied.get(&"usdc".to_string()), Some(10 * E18));
    // Taking 10 more leaves 25 + 35 = 60 < 60.5 owed.
    let r = internal_margin_decrease_collateral(&mut a, &pos, 10 * E18, &usdc, &USDC, &usdc, &USDC, &near, &NEAR, 1000, 5);
    assert_eq!(r, Err(MarginAccountError::Forcecloseable));
    // At a 20% buffer even the first decrease is refused.
    let mut b = account_with_position();
    let r = internal_margin_decrease_collateral(&mut b, &pos, 5 * E18, &usdc, &USDC, &usdc, &USDC, &near, &NEAR, 2000, 5);
    assert_eq!(r, Err(MarginAccountError::Liquidatable));
    // A leverage limit of 1 refuses it too.
    let r = internal_margin_decrease_collateral(&mut b, &pos, 5 * E18, &usdc, &USDC, &usdc, &USDC, &near, &NEAR, 1000, 1);
    assert_eq!(r, Err(MarginAccountError::LeverageTooHigh));
    let r = internal_margin_decrease_collateral(&mut b, &pos, 40 * E18, &usdc, &USDC, &usdc, &USDC, &near, &NEAR, 1000, 5);
    assert_eq!(r, Err(MarginAccountError::NotEnoughCollateral));
    assert_eq!(b.margin_positions.get_ref(&pos).unwrap().token_c_shares, 40 * E18);
}

fn swap() -> SwapIndication {
    SwapIndication { dex_id: "dex.near".to_string(), swap_action_text: String::new() }
}

#[test]
fn margin_action_checks() {
    let me = "alice.near".to_string();
    let liquidate = MarginAction::LiquidateMTPosition {
        pos_owner_id: me.clone(),
        pos_id: "p".to_string(),
        token_p_amount: 1,
        min_token_d_amount: 1,
        swap_indication: swap(),
    };
    assert_eq!(check_margin_action(&liquidate, &me, true), Err(MarginActionError::LiquidateSelf));
    let force = MarginAction::ForceCloseMTPosition {
        pos_owner_id: "bob.near".to_string(),
        pos_id: "p".to_string(),
        token_p_amount: 1,
        min_token_d_amount: 1,
        swap_indication: swap(),
    };
    assert_eq!(check_margin_action(&force, &me, false), Err(MarginActionError::ForceClosingDisabled));
    assert_eq!(check_margin_action(&force, &me, true), Ok(Some(DecreaseOperation::ForceClose)));
    let close = MarginAction::CloseMTPosition { pos_id: "p".to_string(), token_p_amount: 1, min_token_d_amount: 1, swap_indication: swap() };
    assert_eq!(check_margin_action(&close, &me, false), Ok(Some(DecreaseOperation::Close)));
    let withdraw = MarginAction::Withdraw { token_id: "shadow_ref_v1-1".to_string(), amount: None };
    assert_eq!(check_margin_action(&withdraw, &me, false), Err(MarginActionError::ShadowToken));
    let increase = MarginAction::IncreaseCollateral { pos_id: "p".to_string(), amount: 1 };
    assert_eq!(check_margin_action(&increase, &me, false), Ok(None));
}

#[test]
fn swap_return_checks() {
    let owner = "owner.near".to_string();
    let dex = "ref.near".to_string();
    let dcl = Some("dcl.near".to_string());
    let wait = 3600u32;
    let ts = 1_000u64;
    let later = ts + 3600 * 1_000_000_000;
    assert_eq!(check_swap_return(&dex, &owner, &dex, &dcl, ts, ts, wait, "open"), Ok(SwapSettlement::Open));
    assert_eq!(
        check_swap_return(&"dcl.near".to_string(), &owner, &dex, &dcl, ts, ts, wait, "close"),
        Ok(SwapSettlement::Decrease(DecreaseOperation::Close))
    );
    assert_eq!(check_swap_return(&owner, &owner, &dex, &dcl, later - 1, ts, wait, "open"), Err(SwapReturnError::TooEarly));
    assert_eq!(
        check_swap_return(&owner, &owner, &dex, &dcl, later, ts, wait, "liquidate"),
        Ok(SwapSettlement::Decrease(DecreaseOperation::Liquidate))
    );
    assert_eq!(
        check_swap_return(&"eve.near".to_string(), &owner, &dex, &dcl, ts, ts, wait, "open"),
        Err(SwapReturnError::NotAllowed)
    );
    assert_eq!(check_swap_return(&dex, &owner, &dex, &None, ts, ts, wait, "stop"), Ok(SwapSettlement::Nothing));
}

#[test]
fn stop_fees_go_to_the_keeper() {
    let owner = "alice.near".to_string();
    let keeper = Some("keeper.near".to_string());
    assert_eq!(stop_fee_recipient(DecreaseOperation::Stop, &owner, &keeper), "keeper.near");
    assert_eq!(stop_fee_recipient(DecreaseOperation::Stop, &owner, &None), "alice.near");
    assert_eq!(stop_fee_recipient(DecreaseOperation::Close, &owner, &keeper), "alice.near");
    let mut k = MarginAccount::new(&"keeper.near".to_string());
    let mut usdc = usdc_asset();
    let fee = StopServiceFeeInfo { token_id: "usdc".to_string(), amount: 2 * E18 };
    assert_eq!(settle_stop_service_fee(&fee, &mut k, &mut usdc), 2 * E18);
    assert_eq!(k.supplied.get(&"usdc".to_string()), Some(2 * E18));
    assert_eq!(usdc.supplied.balance, 1002 * E18);
}

#[test]
fn benefits_are_split_and_deposited() {
    let mut owner = MarginAccount::new(&"owner.near".to_string());
    let mut liquidator = MarginAccount::new(&"liq.near".to_string());
    let mut user = MarginAccount::new(&"alice.near".to_string());
    let t = "usdc".to_string();
    // 20% to the protocol, 30% to the liquidator, the rest to the user.
    assert_eq!(benefit_distribution(&mut owner, &mut liquidator, &mut user, &t, 1000, 2000, 3000), (200, 300, 500));
    assert_eq!(owner.supplied.get(&t), Some(200));
    assert_eq!(liquidator.supplied.get(&t), Some(300));
    assert_eq!(user.supplied.get(&t), Some(500));
    // Rates adding up to 100% leave the user nothing.
    assert_eq!(benefit_distribution(&mut owner, &mut liquidator, &mut user, &t, 1000, 4000, 6000), (400, 600, 0));
    assert_eq!(user.supplied.get(&t), Some(500));
    assert_eq!(benefit_distribution(&mut owner, &mut liquidator, &mut user, &t, 0, 4000, 6000), (0, 0, 0));
    deposit_benefit_to_account(&mut user, &"dai".to_string(), 0);
    assert_eq!(user.supplied.get(&"dai".to_string()), None);
}

#[test]
fn liquidation_benefits_per_token() {
    let mbtl = burrowland::margin_base_token_limit::MarginBaseTokenLimit {
        min_safety_buffer: 1000,
        max_leverage_rate: 5,
        max_common_slippage_rate: 1000,
        max_forceclose_slippage_rate: 1000,
        liq_benefit_protocol_rate: 2000,
        liq_benefit_liquidator_rate: 3000,
        min_base_token_short_position: 0,
        min_base_token_long_position: 0,
        max_base_token_short_position: u128::MAX,
        max_base_token_long_position: u128::MAX,
        total_base_token_available_short: u128::MAX,
        total_base_token_available_long: u128::MAX,
    };
    let mt = MarginTradingPosition::new(0, "usdc".to_string(), 1, "usdc".to_string(), "wnear".to_string());
    let mut owner = MarginAccount::new(&"owner.near".to_string());
    let mut liquidator = MarginAccount::new(&"liq.near".to_string());
    let mut user = MarginAccount::new(&"alice.near".to_string());
    let (o, l, u) = account_supplied_updates(&mut owner, &mut liquidator, &mut user, &mt, &mbtl, (100, 10, 1000));
    assert_eq!((o.token_c_update.1, o.token_d_update.1, o.token_p_update.1), (20, 2, 200));
    assert_eq!((l.token_c_update.1, l.token_d_update.1, l.token_p_update.1), (30, 3, 300));
    assert_eq!((u.token_c_update.1, u.token_d_update.1, u.token_p_update.1), (50, 5, 500));
    // Collateral and debt are both usdc: their parts add up.
    assert_eq!(owner.supplied.get(&"usdc".to_string()), Some(22));
    assert_eq!(user.supplied.get(&"usdc".to_string()), Some(55));
    assert_eq!(liquidator.supplied.get(&"wnear".to_string()), Some(300));
}

#[test]
fn settlement_benefits_go_by_operation() {
    let mbtl = burrowland::margin_base_token_limit::MarginBaseTokenLimit {
        min_safety_buffer: 1000,
        max_leverage_rate: 5,
        max_common_slippage_rate: 1000,
        max_forceclose_slippage_rate: 1000,
        liq_benefit_protocol_rate: 2000,
        liq_benefit_liquidator_rate: 3000,
        min_base_token_short_position: 0,
        min_base_token_long_position: 0,
        max_base_token_short_position: u128::MAX,
        max_base_token_long_position: u128::MAX,
        total_base_token_available_short: u128::MAX,
        total_base_token_available_long: u128::MAX,
    };
    let mt = MarginTradingPosition::new(0, "usdc".to_string(), 1, "usdc".to_string(), "wnear".to_string());
    let benefits = SettlementBenefits { collateral_shares: 100, debt_token_shares: 0, position_token_shares: 1000 };
    let fresh = || {
        (MarginAccount::new(&"alice.near".to_string()), MarginAccount::new(&"owner.near".to_string()),
            MarginAccount::new(&"liq.near".to_string()))
    };
    let (usdc, wnear) = ("usdc".to_string(), "wnear".to_string());
    // A liquidation splits them 20% / 30% / 50%.
    let (mut user, mut owner, mut liq) = fresh();
    let u = distribute_benefits(DecreaseOperation::Liquidate, &mut user, &mut owner, &mut liq, true, &mt, &mbtl, &benefits).unwrap();
    assert_eq!((u.token_c_update.1, u.token_p_update.1), (50, 500));
    assert_eq!((owner.supplied.get(&usdc), liq.supplied.get(&usdc), user.supplied.get(&usdc)), (Some(20), Some(30), Some(50)));
    // Without a liquidator account, or in a forced close, the owner takes all.
    let (mut user, mut owner, mut liq) = fresh();
    assert!(distribute_benefits(DecreaseOperation::Liquidate, &mut user, &mut owner, &mut liq, false, &mt, &mbtl, &benefits).is_none());
    assert_eq!((owner.supplied.get(&usdc), owner.supplied.get(&wnear), user.supplied.get(&usdc)), (Some(100), Some(1000), None));
    let (mut user, mut owner, mut liq) = fresh();
    assert!(distribute_benefits(DecreaseOperation::ForceClose, &mut user, &mut owner, &mut liq, true, &mt, &mbtl, &benefits).is_none());
    assert_eq!((owner.supplied.get(&wnear), liq.supplied.get(&wnear)), (Some(1000), None));
    // A close gives them back to the user.
    let (mut user, mut owner, mut liq) = fresh();
    let u = distribute_benefits(DecreaseOperation::Close, &mut user, &mut owner, &mut liq, false, &mt, &mbtl, &benefits).unwrap();
    assert_eq!((u.token_c_update.1, u.token_p_update.1), (100, 1000));
    assert_eq!((user.supplied.get(&usdc), owner.supplied.get(&usdc)), (Some(100), None));
    // No benefits, nothing moves.
    let none = SettlementBenefits { collateral_shares: 0, debt_token_shares: 0, position_token_shares: 0 };
    let (mut user, mut owner, mut liq) = fresh();
    assert!(distribute_benefits(DecreaseOperation::Close, &mut user, &mut owner, &mut liq, false, &mt, &mbtl, &none).is_none());
    assert!(user.supplied.is_empty());
}
