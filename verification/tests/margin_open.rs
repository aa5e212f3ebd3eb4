use burrowland::account_map::AccountMap;
use burrowland::asset::Asset;
use burrowland::asset_config::AssetConfig;
use burrowland::margin_account::MarginAccount;
use burrowland::margin_base_token_limit::{BaseTokenAmountError, MarginBaseTokenLimit};
use burrowland::margin_config::MarginConfig;
use burrowland::margin_open::{margin_open_position, MarginOpenError};
use burrowland::margin_decrease::{decrease_margin_position, MarginDecreaseError};
use burrowland::margin_health::DecreaseError;
use burrowland::margin_settle::{on_decrease_trade_return, SettleError};
use burrowland::margin_actions::{MarginAction, MarginActionError};
use burrowland::margin_execute::{margin_execute, margin_execute_action, MarginBatchError, MarginExecuteError, MarginOutcome, MarginStep};
use burrowland::margin_trading::SwapIndication;
use burrowland::margin_trading::DecreaseOperation;
use burrowland::margin_position::MarginTradingPosition;
use burrowland::margin_trading::{MsgToDex, RefV1Action, RefV1SwapAction, RefV1TokenReceiverMessage, SwapDetail};
use burrowland::pool::Pool;
use burrowland::prices::{Price, Prices};

const E18: u128 = 1_000_000_000_000_000_000;
const E24: u128 = 1_000_000_000_000_000_000_000_000;

fn config(extra_decimals: u8) -> AssetConfig {
    AssetConfig {
        reserve_ratio: 2500,
        prot_ratio: 0,
        beneficiaries: AccountMap::new(),
        target_utilization: 8000,
        target_utilization_rate: 1000000000003593629036885046u128,
        max_utilization_rate: 1000000000039724853136740579u128,
        holding_position_fee_rate: 1000000000000000000000000000u128,
        volatility_ratio: 6000,
        extra_decimals,
        can_deposit: true,
        can_withdraw: true,
        can_use_as_collateral: true,
        can_borrow: true,
        net_tvl_multiplier: 10000,
        max_change_rate: None,
        supplied_limit: None,
        borrowed_limit: None,
        min_borrowed_amount: Some(1),
    }
}

fn assets() -> AccountMap<Asset> {
    let mut usdc = Asset::new(0, config(12));
    usdc.supplied = Pool { shares: 1000 * E18, balance: 1000 * E18 };
    usdc.margin_debt = Pool { shares: 60 * E18, balance: 60 * E18 };
    let mut near = Asset::new(0, config(0));
    near.supplied = Pool { shares: 1000 * E24, balance: 1000 * E24 };
    let mut m = AccountMap::new();
    m.insert(&"usdc".to_string(), usdc);
    m.insert(&"near".to_string(), near);
    m
}

fn prices() -> Prices {
    let mut p = Prices::new();
    p.prices.insert(&"usdc".to_string(), Price { multiplier: 10000, decimals: 10 });
    p.prices.insert(&"near".to_string(), Price { multiplier: 35000, decimals: 28 });
    p
}

fn margin_config(max_positions: u8, pending_debt_scale: u32) -> MarginConfig {
    let mut tokens = AccountMap::new();
    tokens.insert(&"usdc".to_string(), 1u8);
    tokens.insert(&"near".to_string(), 2u8);
    MarginConfig {
        max_leverage_rate: 5,
        pending_debt_scale,
        max_slippage_rate: 1000,
        min_safety_buffer: 1000,
        margin_debt_discount_rate: 5000,
        open_position_fee_rate: 0,
        registered_dexes: AccountMap::new(),
        registered_tokens: tokens,
        max_active_user_margin_position: max_positions,
        liq_benefit_protocol_rate: 2000,
        liq_benefit_liquidator_rate: 3000,
    }
}

fn limits(max_leverage_rate: u8) -> MarginBaseTokenLimit {
    MarginBaseTokenLimit {
        min_safety_buffer: 1000,
        max_leverage_rate,
        max_common_slippage_rate: 1000,
        max_forceclose_slippage_rate: 1000,
        liq_benefit_protocol_rate: 2000,
        liq_benefit_liquidator_rate: 3000,
        min_base_token_short_position: 0,
        min_base_token_long_position: 0,
        max_base_token_short_position: u128::MAX,
        max_base_token_long_position: 10 * E24,
        total_base_token_available_short: u128::MAX,
        total_base_token_available_long: u128::MAX,
    }
}

fn swap(amount_in: u128, min_out: u128) -> SwapDetail {
    swap_of("usdc", amount_in, "near", min_out)
}

fn swap_of(token_in: &str, amount_in: u128, token_out: &str, min_out: u128) -> SwapDetail {
    let msg = RefV1TokenReceiverMessage::Execute {
        referral_id: None,
        actions: vec![RefV1Action::Swap(RefV1SwapAction {
            pool_id: 3,
            token_in: token_in.to_string(),
            amount_in: Some(amount_in),
            token_out: token_out.to_string(),
            min_amount_out: min_out,
        })],
        client_echo: None,
        skip_degen_price_sync: None,
    };
    SwapDetail { dex_id: "ref.near".to_string(), dex_msg: MsgToDex::RefV1(msg) }
}

fn account(supplied: u128) -> MarginAccount {
    let mut a = MarginAccount::new(&"alice.near".to_string());
    a.supplied.insert(&"usdc".to_string(), supplied);
    a
}

fn open(
    a: &mut MarginAccount,
    m: &mut AccountMap<Asset>,
    cfg: &MarginConfig,
    mbtl: &MarginBaseTokenLimit,
    min_p: u128,
    sw: &SwapDetail,
) -> Result<burrowland::events::EventDataMarginOpen, MarginOpenError> {
    let (usdc, near) = ("usdc".to_string(), "near".to_string());
    margin_open_position(a, m, cfg, mbtl, &prices(), 1000, 7, &usdc, 10 * E18, &usdc, 20 * E18, &near, min_p, sw, false)
}

#[test]
fn open_long_position() {
    // 10 USDC of collateral and 20 borrowed, swapped for at least 5.5 NEAR
    // (worth 19.25 at 3.5 each; 20 USDC buy 5.71, less 10% slippage 5.14).
    let mut a = account(100 * E18);
    let mut m = assets();
    let ev = open(&mut a, &mut m, &margin_config(3, 1000), &limits(5), 55 * E24 / 10, &swap(20_000_000, 55 * E24 / 10))
        .unwrap();
    assert_eq!(ev.pos_id, "alice.near_1000_7");
    assert_eq!(ev.account_id, "alice.near");
    assert_eq!((ev.token_c_amount, ev.token_c_shares, ev.token_d_amount, ev.token_p_amount), (10 * E18, 10 * E18, 20 * E18, 55 * E24 / 10));
    assert_eq!(a.supplied.get(&"usdc".to_string()), Some(90 * E18));
    let mt: &MarginTradingPosition = a.margin_positions.get_ref(&"alice.near_1000_7".to_string()).unwrap();
    assert_eq!((mt.open_ts, mt.token_c_shares, mt.token_d_shares, mt.token_p_amount, mt.is_locking), (1000, 10 * E18, 0, 0, true));
    assert_eq!((mt.token_c_id.as_str(), mt.token_d_id.as_str(), mt.token_p_id.as_str()), ("usdc", "usdc", "near"));
    assert_eq!(m.get_ref(&"usdc".to_string()).unwrap().margin_pending_debt, 20 * E18);
    assert_eq!(m.get_ref(&"near".to_string()).unwrap().margin_pending_debt, 0);
}

#[test]
fn open_refusals_leave_everything_unchanged() {
    let cases: Vec<(MarginConfig, MarginBaseTokenLimit, u128, SwapDetail, u128, MarginOpenError)> = vec![
        (margin_config(0, 1000), limits(5), 55 * E24 / 10, swap(20_000_000, 55 * E24 / 10), 100 * E18, MarginOpenError::TooManyPositions),
        (margin_config(3, 1000), limits(5), 11 * E24, swap(20_000_000, 11 * E24), 100 * E18,
            MarginOpenError::BaseToken(BaseTokenAmountError::LongPositionOutOfRange)),
        (margin_config(3, 1000), limits(5), 55 * E24 / 10, swap(19_000_000, 55 * E24 / 10), 100 * E18, MarginOpenError::TokenInMismatch),
        (margin_config(3, 1000), limits(5), 55 * E24 / 10, swap(20_000_000, 5 * E24), 100 * E18, MarginOpenError::TokenOutMismatch),
        (margin_config(3, 1000), limits(5), 5 * E24, swap(20_000_000, 5 * E24), 100 * E18, MarginOpenError::MinAmountTooLow),
        (margin_config(3, 1000), limits(1), 55 * E24 / 10, swap(20_000_000, 55 * E24 / 10), 100 * E18, MarginOpenError::LeverageTooHigh),
        (margin_config(3, 1000), limits(5), 55 * E24 / 10, swap(20_000_000, 55 * E24 / 10), 5 * E18, MarginOpenError::NotEnoughShares),
        (margin_config(3, 100), limits(5), 55 * E24 / 10, swap(20_000_000, 55 * E24 / 10), 100 * E18, MarginOpenError::PendingDebtTooHigh),
    ];
    for (cfg, mbtl, min_p, sw, supplied, expected) in cases {
        let mut a = account(supplied);
        let mut m = assets();
        assert_eq!(open(&mut a, &mut m, &cfg, &mbtl, min_p, &sw).err(), Some(expected));
        assert_eq!(a.supplied.get(&"usdc".to_string()), Some(supplied));
        assert!(a.margin_positions.is_empty());
        assert_eq!(m.get_ref(&"usdc".to_string()).unwrap().margin_pending_debt, 0);
    }
}

#[test]
fn open_refuses_an_existing_id_and_missing_prices() {
    let mut a = account(100 * E18);
    a.margin_positions.insert(
        &"alice.near_1000_7".to_string(),
        MarginTradingPosition::new(0, "usdc".to_string(), 1, "usdc".to_string(), "near".to_string()),
    );
    let mut m = assets();
    let sw = swap(20_000_000, 55 * E24 / 10);
    assert_eq!(open(&mut a, &mut m, &margin_config(3, 1000), &limits(5), 55 * E24 / 10, &sw).err(), Some(MarginOpenError::PositionExists));
    let mut b = account(100 * E18);
    let (usdc, near) = ("usdc".to_string(), "near".to_string());
    let r = margin_open_position(&mut b, &mut m, &margin_config(3, 1000), &limits(5), &Prices::new(), 1000, 7, &usdc, 10 * E18,
        &usdc, 20 * E18, &near, 55 * E24 / 10, &sw, false);
    assert_eq!(r.err(), Some(MarginOpenError::PriceNotFound));
}

fn account_with_open_position(locked: bool) -> MarginAccount {
    let mut a = account(5 * E18);
    let mut mt = MarginTradingPosition::new(0, "usdc".to_string(), 40 * E18, "usdc".to_string(), "near".to_string());
    mt.token_d_shares = 60 * E18;
    mt.token_p_amount = 10 * E24;
    mt.debt_cap = 50 * E18;
    mt.is_locking = locked;
    a.margin_positions.insert(&"p1".to_string(), mt);
    a
}

fn assets_with_position() -> AccountMap<Asset> {
    let mut m = assets();
    let mut near = m.remove(&"near".to_string()).unwrap();
    near.margin_position = 10 * E24;
    m.insert(&"near".to_string(), near);
    m
}

fn decrease(a: &mut MarginAccount, m: &mut AccountMap<Asset>, p_amount: u128, min_d: u128, op: DecreaseOperation)
    -> Result<burrowland::events::EventDataMarginDecrease, MarginDecreaseError> {
    let sw = swap_of("near", p_amount, "usdc", min_d / 1_000_000_000_000);
    decrease_margin_position(a, m, &limits(5), &prices(), &"p1".to_string(), p_amount, min_d, &sw, op, None)
}

#[test]
fn decrease_position_takes_position_tokens() {
    // 4 NEAR (worth 14 USDC, less 10% slippage 12.6) traded for at least 13 USDC
    // of the 60 owed: the 47 left stay above the least borrowed amount.
    let mut a = account_with_open_position(false);
    let mut m = assets_with_position();
    let ev = decrease(&mut a, &mut m, 4 * E24, 13 * E18, DecreaseOperation::Decrease).unwrap();
    assert_eq!((ev.pos_id.as_str(), ev.token_p_id.as_str(), ev.token_d_id.as_str()), ("p1", "near", "usdc"));
    assert_eq!((ev.token_p_amount, ev.token_d_amount, ev.liquidator_id), (4 * E24, 13 * E18, None));
    let mt = a.margin_positions.get_ref(&"p1".to_string()).unwrap();
    assert_eq!((mt.token_p_amount, mt.token_c_shares, mt.is_locking), (6 * E24, 40 * E18, true));
    assert_eq!(m.get_ref(&"near".to_string()).unwrap().margin_position, 6 * E24);
    assert_eq!(a.supplied.get(&"usdc".to_string()), Some(5 * E18));
}

#[test]
fn decrease_refusals_leave_everything_unchanged() {
    let cases: Vec<(bool, u128, u128, DecreaseOperation, MarginDecreaseError)> = vec![
        (true, 4 * E24, 13 * E18, DecreaseOperation::Decrease, MarginDecreaseError::Locked),
        (false, 4 * E24, 12 * E18, DecreaseOperation::Decrease, MarginDecreaseError::MinAmountTooLow),
        (false, 4 * E24, 13 * E18, DecreaseOperation::Close, MarginDecreaseError::Debt(DecreaseError::NotAllDebtRepaid)),
        (false, 10 * E24, 60 * E18, DecreaseOperation::Liquidate, MarginDecreaseError::NotLiquidatable),
        (false, 10 * E24, 60 * E18, DecreaseOperation::ForceClose, MarginDecreaseError::NotForcecloseable),
        (false, 11 * E24, 35 * E18, DecreaseOperation::Decrease, MarginDecreaseError::Trade(DecreaseError::NotEnoughPositionAsset)),
    ];
    for (locked, p_amount, min_d, op, expected) in cases {
        let mut a = account_with_open_position(locked);
        let mut m = assets_with_position();
        assert_eq!(decrease(&mut a, &mut m, p_amount, min_d, op).err(), Some(expected));
        let mt = a.margin_positions.get_ref(&"p1".to_string()).unwrap();
        assert_eq!((mt.token_p_amount, mt.is_locking), (10 * E24, locked));
        assert_eq!(m.get_ref(&"near".to_string()).unwrap().margin_position, 10 * E24);
    }
    let mut a = account(5 * E18);
    let mut m = assets_with_position();
    assert_eq!(decrease(&mut a, &mut m, E24, E18, DecreaseOperation::Decrease).err(), Some(MarginDecreaseError::PositionNotFound));
}

fn indication() -> SwapIndication {
    SwapIndication { dex_id: "ref.near".to_string(), swap_action_text: String::new() }
}

#[test]
fn margin_actions_run_their_operation() {
    let actor = "alice.near".to_string();
    let mut a = account(100 * E18);
    let mut owner = MarginAccount::new(&"bob.near".to_string());
    let mut m = assets();
    let open = MarginAction::OpenPosition {
        token_c_id: "usdc".to_string(),
        token_c_amount: 10 * E18,
        token_d_id: "usdc".to_string(),
        token_d_amount: 20 * E18,
        token_p_id: "near".to_string(),
        min_token_p_amount: 55 * E24 / 10,
        swap_indication: indication(),
    };
    let sw = swap(20_000_000, 55 * E24 / 10);
    let r = margin_execute_action(&actor, &open, &mut a, &mut owner, &mut m, &margin_config(3, 1000), &limits(5), &prices(),
        1000, 7, &sw, true, false);
    match r {
        Ok(MarginOutcome::Opened(ev)) => assert_eq!(ev.pos_id, "alice.near_1000_7"),
        _ => panic!("the position opens"),
    }
    assert_eq!(a.supplied.get(&"usdc".to_string()), Some(90 * E18));
    // Liquidating one's own position is refused before anything runs.
    let liquidate = MarginAction::LiquidateMTPosition {
        pos_owner_id: actor.clone(),
        pos_id: "alice.near_1000_7".to_string(),
        token_p_amount: E24,
        min_token_d_amount: E18,
        swap_indication: indication(),
    };
    let r = margin_execute_action(&actor, &liquidate, &mut a, &mut owner, &mut m, &margin_config(3, 1000), &limits(5),
        &prices(), 1000, 8, &sw, true, false);
    assert!(matches!(r, Err(MarginExecuteError::Refused(MarginActionError::LiquidateSelf))));
    // A withdrawal of what the account supplies.
    let withdraw = MarginAction::Withdraw { token_id: "usdc".to_string(), amount: Some(30 * E18) };
    let r = margin_execute_action(&actor, &withdraw, &mut a, &mut owner, &mut m, &margin_config(3, 1000), &limits(5),
        &prices(), 1000, 8, &sw, true, false);
    match r {
        Ok(MarginOutcome::Withdrawn { token_id, amount, ft_amount }) => {
            assert_eq!((token_id.as_str(), amount, ft_amount), ("usdc", 30 * E18, 30_000_000));
        },
        _ => panic!("the supply is withdrawn"),
    }
    assert_eq!(a.supplied.get(&"usdc".to_string()), Some(60 * E18));
    let nothing = MarginAction::Withdraw { token_id: "near".to_string(), amount: None };
    let r = margin_execute_action(&actor, &nothing, &mut a, &mut owner, &mut m, &margin_config(3, 1000), &limits(5),
        &prices(), 1000, 8, &sw, true, false);
    assert!(matches!(r, Ok(MarginOutcome::NothingSupplied)));
}

#[test]
fn margin_batch_runs_in_turn_and_stops_at_a_refusal() {
    let actor = "alice.near".to_string();
    let open = MarginAction::OpenPosition {
        token_c_id: "usdc".to_string(),
        token_c_amount: 10 * E18,
        token_d_id: "usdc".to_string(),
        token_d_amount: 20 * E18,
        token_p_id: "near".to_string(),
        min_token_p_amount: 55 * E24 / 10,
        swap_indication: indication(),
    };
    let step = |action: MarginAction| MarginStep { action, mbtl: limits(5), swap: swap(20_000_000, 55 * E24 / 10) };
    let steps = vec![
        step(open),
        step(MarginAction::Withdraw { token_id: "usdc".to_string(), amount: Some(30 * E18) }),
    ];
    let mut a = account(100 * E18);
    let mut owners = AccountMap::new();
    let mut m = assets();
    let (outcomes, num) = margin_execute(&actor, &mut a, &mut owners, &mut m, &margin_config(3, 1000), &prices(), 1000, 7,
        &steps, true, false).unwrap();
    assert_eq!((outcomes.len(), num), (2, 8));
    assert!(matches!(outcomes[0], MarginOutcome::Opened(_)));
    assert_eq!(a.supplied.get(&"usdc".to_string()), Some(60 * E18));
    // A liquidation of an account the batch does not know stops it, after the
    // withdrawal before it ran.
    let steps = vec![
        step(MarginAction::Withdraw { token_id: "usdc".to_string(), amount: Some(10 * E18) }),
        step(MarginAction::LiquidateMTPosition {
            pos_owner_id: "carol.near".to_string(),
            pos_id: "p1".to_string(),
            token_p_amount: E24,
            min_token_d_amount: E18,
            swap_indication: indication(),
        }),
    ];
    let r = margin_execute(&actor, &mut a, &mut owners, &mut m, &margin_config(3, 1000), &prices(), 1000, 8, &steps, true,
        false);
    assert_eq!(r.err(), Some(MarginBatchError { index: 1, error: MarginExecuteError::OwnerNotFound }));
    assert_eq!(a.supplied.get(&"usdc".to_string()), Some(50 * E18));
}

#[test]
fn trade_returns_settle_the_position() {
    // 13 USDC come back from a partial decrease: 13 of the 60 owed are repaid.
    let mut user = account_with_open_position(true);
    let mut owner = MarginAccount::new(&"owner.near".to_string());
    let mut liq = MarginAccount::new(&"liq.near".to_string());
    let mut m = assets_with_position();
    let p1 = "p1".to_string();
    let (ev, cover) = on_decrease_trade_return(&mut user, &mut owner, &mut liq, false, &mut m, &limits(5), &p1, 13 * E18,
        DecreaseOperation::Decrease, None).unwrap();
    assert_eq!((ev.token_d_shares, ev.holding_fee, cover), (47 * E18, 0, None));
    let mt = user.margin_positions.get_ref(&p1).unwrap();
    assert_eq!((mt.token_d_shares, mt.is_locking), (47 * E18, false));
    assert_eq!(m.get_ref(&"usdc".to_string()).unwrap().margin_debt.balance, 47 * E18);
    // 70 USDC come back from a close: the 60 owed are repaid, and the 10 left
    // over and the 40 of collateral go back to the user's supply.
    let mut user = account_with_open_position(true);
    let mut m = assets_with_position();
    let (ev, _) = on_decrease_trade_return(&mut user, &mut owner, &mut liq, false, &mut m, &limits(5), &p1, 70 * E18,
        DecreaseOperation::Close, None).unwrap();
    assert_eq!(ev.token_d_shares, 0);
    assert!(user.margin_positions.get_ref(&p1).is_none());
    assert_eq!(user.supplied.get(&"usdc".to_string()), Some(55 * E18));
    assert_eq!(m.get_ref(&"usdc".to_string()).unwrap().margin_debt.balance, 0);
    assert!(owner.supplied.is_empty());
    // An unknown position.
    let r = on_decrease_trade_return(&mut user, &mut owner, &mut liq, false, &mut m, &limits(5), &p1, E18,
        DecreaseOperation::Close, None);
    assert_eq!(r.err(), Some(SettleError::PositionNotFound));
}
