use burrowland::account_map::AccountMap;
use burrowland::asset::Asset;
use burrowland::asset_config::AssetConfig;
use burrowland::margin_position::{MarginTradingPosition, PositionDirection};
use burrowland::margin_trading::{
    calculate_benefit_distribution, calculate_debt_repayment, cover_debt_from_protocol_reserve,
    repay_debt_from_collateral, DecreaseOperation, MarginAccountUpdates, MsgToDex, RefV1Action, RefV1SwapAction,
    RefV1TokenReceiverMessage, RefV2TokenReceiverMessage, SettlementBenefits, SwapDetail,
};
use burrowland::pool::Pool;
use burrowland::utils::UNIT;

fn config() -> AssetConfig {
    AssetConfig {
        reserve_ratio: 2500,
        prot_ratio: 0,
        beneficiaries: AccountMap::new(),
        target_utilization: 8000,
        target_utilization_rate: 1000000000003593629036885046u128,
        max_utilization_rate: 1000000000039724853136740579u128,
        holding_position_fee_rate: 1000000000000000000000000000u128,
        volatility_ratio: 6000,
        extra_decimals: 0,
        can_deposit: true,
        can_withdraw: true,
        can_use_as_collateral: true,
        can_borrow: true,
        net_tvl_multiplier: 10000,
        max_change_rate: None,
        supplied_limit: None,
        borrowed_limit: None,
        min_borrowed_amount: None,
    }
}

fn debt_asset() -> Asset {
    let mut a = Asset::new(0, config());
    a.supplied = Pool { shares: 1000, balance: 2000 };
    a.margin_debt = Pool { shares: 100, balance: 120 };
    a.reserved = 30;
    a.unit_acc_hp_interest = UNIT / 10;
    a
}

fn position(c: &str, d: &str) -> MarginTradingPosition {
    let mut p = MarginTradingPosition::new(1, c.to_string(), 40, d.to_string(), "p".to_string());
    p.debt_cap = 100;
    p.token_d_shares = 50;
    p.is_locking = false;
    p
}

#[test]
fn benefit_split() {
    assert_eq!(calculate_benefit_distribution(1000, 2000, 3000), (200, 300, 500));
    assert_eq!(calculate_benefit_distribution(1000, 2500, 7500), (250, 750, 0));
    assert_eq!(calculate_benefit_distribution(999, 3333, 6667), (332, 667, 0));
    assert_eq!(calculate_benefit_distribution(0, 1, 2), (0, 0, 0));
}

#[test]
fn swap_covers_debt_and_fee() {
    let a = debt_asset();
    let p = position("c", "d");
    // debt: 50 of 100 shares of 120, rounded up = 60; fee: 100 * 0.1 = 10.
    let r = calculate_debt_repayment(&p, &a, 100);
    assert_eq!((r.repay_amount, r.repay_shares, r.leftover_amount, r.holding_fee_paid, r.remaining_debt_cap), (60, 50, 30, 10, 0));
}

#[test]
fn swap_repays_part_of_the_debt() {
    let a = debt_asset();
    let p = position("c", "d");
    // cap = 100 * 35 / 70 = 50; fee part = 10 * 50 / 100 = 5; repay 30 = 25 shares.
    let r = calculate_debt_repayment(&p, &a, 35);
    assert_eq!((r.repay_amount, r.repay_shares, r.leftover_amount, r.holding_fee_paid, r.remaining_debt_cap), (30, 25, 0, 5, 50));
    assert_eq!(r.repay_amount + r.holding_fee_paid + r.leftover_amount, 35);
}

#[test]
fn collateral_repays_debt_of_the_same_token() {
    let a = debt_asset();
    // Different tokens: nothing.
    assert_eq!(repay_debt_from_collateral(&position("c", "d"), &a), (0, 0, 0));
    // Same token: 60 of debt needs 30 collateral shares (rounded up) out of 40.
    assert_eq!(repay_debt_from_collateral(&position("d", "d"), &a), (50, 30, 60));
    // Too little collateral: all 10 shares (20 tokens) repay 16 debt shares.
    let mut p = position("d", "d");
    p.token_c_shares = 10;
    assert_eq!(repay_debt_from_collateral(&p, &a), (16, 10, 20));
}

#[test]
fn reserve_covers_what_it_can() {
    let mut a = debt_asset();
    let mut p = position("c", "d");
    let r = cover_debt_from_protocol_reserve(&mut p, &mut a);
    assert_eq!(r, Some((60, 30)));
    assert_eq!(a.reserved, 0);
    assert_eq!((a.margin_debt.shares, a.margin_debt.balance), (50, 60));
    assert_eq!(p.token_d_shares, 0);
    assert_eq!(cover_debt_from_protocol_reserve(&mut p, &mut a), None);
}

#[test]
fn decrease_operations() {
    assert_eq!(DecreaseOperation::from_str("close"), Some(DecreaseOperation::Close));
    assert_eq!(DecreaseOperation::from_str("forceclose"), Some(DecreaseOperation::ForceClose));
    assert_eq!(DecreaseOperation::from_str("Close"), None);
    assert!(!DecreaseOperation::Decrease.is_full_close());
    assert!(DecreaseOperation::Stop.should_repay_from_collateral());
    assert!(DecreaseOperation::ForceClose.can_use_protocol_reserve());
    assert!(!DecreaseOperation::Liquidate.can_use_protocol_reserve());
    assert!(DecreaseOperation::Liquidate.benefits_to_protocol_owner());
    assert!(!DecreaseOperation::Close.benefits_to_protocol_owner());
}

#[test]
fn settlement_benefits_as_updates() {
    let b = SettlementBenefits { collateral_shares: 1, debt_token_shares: 2, position_token_shares: 3 };
    assert!(b.has_any());
    assert!(!SettlementBenefits::default().has_any());
    let u = b.to_margin_updates(&position("d", "d"));
    assert_eq!(u.get_token_d_amount(), 3);
    assert_eq!(u.get_token_p_amount(), 3);
    let m = u.to_hash_map();
    assert_eq!(m.get(&"d".to_string()), Some(3));
    assert_eq!(m.get(&"p".to_string()), Some(3));
    let u = MarginAccountUpdates {
        token_c_update: ("c".to_string(), 5),
        token_d_update: ("d".to_string(), 6),
        token_p_update: ("c".to_string(), 7),
    };
    assert_eq!(u.get_token_d_amount(), 6);
    assert_eq!(u.get_token_p_amount(), 12);
}

#[test]
fn position_directions() {
    let long = PositionDirection::new(&"usdt".to_string(), &"usdt".to_string(), &"near".to_string());
    assert_eq!(long.get_base_token_id(), "near");
    assert!(matches!(long, PositionDirection::Long(_)));
    let short = PositionDirection::new(&"usdt".to_string(), &"near".to_string(), &"usdt".to_string());
    assert_eq!(short.get_base_token_id(), "near");
    assert!(matches!(short, PositionDirection::Short(_)));
}

fn swap(token_in: &str, amount_in: Option<u128>, token_out: &str, min_out: u128) -> RefV1Action {
    RefV1Action::Swap(RefV1SwapAction {
        pool_id: 7,
        token_in: token_in.to_string(),
        amount_in,
        token_out: token_out.to_string(),
        min_amount_out: min_out,
    })
}

#[test]
fn ref_v1_messages() {
    let msg = RefV1TokenReceiverMessage::Execute {
        referral_id: None,
        actions: vec![swap("a", Some(10), "b", 0), swap("b", None, "c", 5), swap("a", Some(3), "c", 2)],
        client_echo: None,
        skip_degen_price_sync: Some(true),
    };
    assert_eq!(msg.get_token_in(), ("a".to_string(), 13));
    assert_eq!(msg.get_token_out(), ("c".to_string(), 7));
    let detail = SwapDetail { dex_id: "ref.near".to_string(), dex_msg: MsgToDex::RefV1(msg) };
    assert!(detail.verify_token_in(&"a".to_string(), 13));
    assert!(!detail.verify_token_in(&"a".to_string(), 10));
    assert!(detail.verify_token_out(&"c".to_string(), 7));
    assert_eq!(
        detail.to_msg_string(),
        r#"{"referral_id":null,"actions":[{"pool_id":7,"token_in":"a","amount_in":"10","token_out":"b","min_amount_out":"0"},{"pool_id":7,"token_in":"b","amount_in":null,"token_out":"c","min_amount_out":"5"},{"pool_id":7,"token_in":"a","amount_in":"3","token_out":"c","min_amount_out":"2"}],"client_echo":null,"skip_degen_price_sync":true}"#
    );
    let mut detail = detail;
    detail.set_client_echo(&"echo".to_string());
    assert_eq!(detail.get_client_echo(), Some("echo".to_string()));
    assert!(detail.to_msg_string().contains(r#""client_echo":"echo""#));
}

#[test]
fn ref_v2_messages() {
    let msg = RefV2TokenReceiverMessage::Swap {
        pool_ids: vec!["p1".to_string(), "p2".to_string()],
        output_token: "usdc".to_string(),
        min_output_amount: 99,
        skip_unwrap_near: Some(true),
        client_echo: None,
    };
    assert_eq!(msg.get_token_out(), ("usdc".to_string(), 99, Some(true)));
    assert_eq!(
        msg.to_msg_string(),
        r#"{"Swap":{"pool_ids":["p1","p2"],"output_token":"usdc","min_output_amount":"99","skip_unwrap_near":true,"client_echo":null}}"#
    );
    assert_eq!(RefV2TokenReceiverMessage::Deposit.to_msg_string(), r#""Deposit""#);
    let detail = SwapDetail { dex_id: "dcl.near".to_string(), dex_msg: MsgToDex::RefV2(msg) };
    assert!(detail.verify_token_in(&"anything".to_string(), 1));
    assert!(detail.verify_token_out(&"usdc".to_string(), 99));
    assert!(!detail.verify_token_out(&"usdc".to_string(), 98));
}

use burrowland::margin_trading::{apply_open_trade_return, settle_closed_position, settle_decrease_trade_return};

#[test]
fn settle_a_close_with_enough_swapped() {
    let mut a = debt_asset();
    let mut p = position("c", "d");
    p.is_locking = true;
    // Debt 60 and fee 10 out of 100: 30 left over buys 15 supply shares.
    let (fee, benefit, covered) = settle_decrease_trade_return(&mut p, &mut a, DecreaseOperation::Close, 100);
    assert_eq!((fee, benefit, covered), (10, 15, None));
    assert_eq!(p.token_d_shares, 0);
    assert_eq!(p.debt_cap, 0);
    assert!(!p.is_locking);
    assert_eq!((a.margin_debt.shares, a.margin_debt.balance), (50, 60));
    assert_eq!((a.supplied.shares, a.supplied.balance), (1015, 2030));
    assert_eq!(a.prot_fee, 10);
}

#[test]
fn settle_a_partial_decrease() {
    let mut a = debt_asset();
    let mut p = position("c", "d");
    let (fee, benefit, covered) = settle_decrease_trade_return(&mut p, &mut a, DecreaseOperation::Decrease, 35);
    assert_eq!((fee, benefit, covered), (5, 0, None));
    assert_eq!((p.token_d_shares, p.debt_cap), (25, 50));
    assert_eq!((a.margin_debt.shares, a.margin_debt.balance), (75, 90));
}

#[test]
fn settle_a_force_close_with_reserve() {
    let mut a = debt_asset();
    let mut p = position("c", "d");
    // 35 repays 25 shares; the reserve (30) covers the 30 left of the debt exactly.
    let (fee, benefit, covered) = settle_decrease_trade_return(&mut p, &mut a, DecreaseOperation::ForceClose, 35);
    assert_eq!((fee, benefit), (5, 0));
    assert_eq!(covered, Some((30, 0)));
    assert_eq!(p.token_d_shares, 0);
    assert_eq!(a.reserved, 0);
    assert_eq!((a.margin_debt.shares, a.margin_debt.balance), (50, 60));
}

#[test]
fn settle_a_close_from_collateral() {
    let mut a = debt_asset();
    let mut p = position("d", "d");
    // 35 repays 25 shares (30); the other 30 come from 15 collateral shares.
    let (fee, _, _) = settle_decrease_trade_return(&mut p, &mut a, DecreaseOperation::Close, 35);
    assert_eq!(fee, 5);
    assert_eq!(p.token_d_shares, 0);
    assert_eq!(p.token_c_shares, 25);
    assert_eq!((a.supplied.shares, a.supplied.balance), (985, 1970));
    assert_eq!((a.margin_debt.shares, a.margin_debt.balance), (50, 60));
}

#[test]
fn open_trade_return() {
    let mut ad = debt_asset();
    ad.margin_pending_debt = 40;
    let mut ap = Asset::new(0, config());
    ap.supplied = Pool { shares: 100, balance: 300 };
    let mut mt = MarginTradingPosition::new(1, "p".to_string(), 40, "d".to_string(), "p".to_string());
    // Fee of 10% on 40 collateral shares of the position token: 4 shares, 12 tokens.
    let fee = apply_open_trade_return(&mut mt, &mut ad, &mut ap, 30, 7, 1000);
    assert_eq!(fee, 12);
    assert_eq!(ad.margin_pending_debt, 10);
    // 30 of debt in a pool of 100 shares for 120: 25 shares.
    assert_eq!((ad.margin_debt.shares, ad.margin_debt.balance), (125, 150));
    assert_eq!((mt.token_c_shares, mt.token_d_shares, mt.token_p_amount, mt.debt_cap), (36, 25, 7, 30));
    assert_eq!(mt.uahpi_at_open, UNIT / 10);
    assert!(!mt.is_locking);
    assert_eq!((ap.supplied.shares, ap.supplied.balance, ap.prot_fee, ap.margin_position), (96, 288, 12, 7));
}

#[test]
fn closed_position_becomes_benefits() {
    let mut ap = Asset::new(0, config());
    ap.supplied = Pool { shares: 100, balance: 300 };
    ap.margin_position = 50;
    let mut p = position("c", "d");
    p.token_d_shares = 0;
    p.token_p_amount = 31;
    let mut b = SettlementBenefits::default();
    settle_closed_position(&p, &mut ap, &mut b);
    assert_eq!((b.collateral_shares, b.debt_token_shares, b.position_token_shares), (40, 0, 10));
    assert_eq!((ap.supplied.shares, ap.supplied.balance, ap.margin_position), (110, 331, 19));
}
