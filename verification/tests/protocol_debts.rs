use burrowland::account_map::AccountMap;
use burrowland::asset::Asset;
use burrowland::asset_config::AssetConfig;
use burrowland::lending::{deposit_amount, LendingError};
use burrowland::protocol_debts::{add_protocol_debt, deposit_to_reserve, repay_protocol_debt};
use burrowland::actions::{Action, AssetAmount};
use burrowland::fungible_token::{token_received, ReceiveError, ReceiveStep};
use burrowland::margin_actions::TokenReceiverMsg;

fn config(extra_decimals: u8) -> AssetConfig {
    AssetConfig {
        reserve_ratio: 2500,
        prot_ratio: 0,
        beneficiaries: AccountMap::new(),
        target_utilization: 8000,
        target_utilization_rate: 1000000000003593629036885046u128,
        max_utilization_rate: 1000000000039724853136740579u128,
        holding_position_fee_rate: 1000000000000000000000000000u128,
        volatility_ratio: 6000,
        extra_decimals,
        can_deposit: true,
        can_withdraw: true,
        can_use_as_collateral: true,
        can_borrow: true,
        net_tvl_multiplier: 10000,
        max_change_rate: None,
        supplied_limit: None,
        borrowed_limit: None,
        min_borrowed_amount: None,
    }
}

#[test]
fn debts_accumulate_and_are_repaid() {
    let mut debts: AccountMap<u128> = AccountMap::new();
    let usdt = "usdt.near".to_string();
    add_protocol_debt(&mut debts, &usdt, 30);
    add_protocol_debt(&mut debts, &usdt, 12);
    assert_eq!(debts.get(&usdt), Some(42));
    assert_eq!(repay_protocol_debt(&mut debts, &usdt, 10), (10, 0));
    assert_eq!(debts.get(&usdt), Some(32));
    assert_eq!(repay_protocol_debt(&mut debts, &usdt, 50), (32, 18));
    assert_eq!(debts.get(&usdt), None);
    assert_eq!(repay_protocol_debt(&mut debts, &usdt, 5), (0, 5));
}

#[test]
fn deposits_to_reserve_repay_debt_first() {
    let mut debts: AccountMap<u128> = AccountMap::new();
    let t = "t".to_string();
    add_protocol_debt(&mut debts, &t, 25);
    let mut a = Asset::new(0, config(0));
    a.reserved = 7;
    assert_eq!(deposit_to_reserve(&mut a, &mut debts, &t, 20), 20);
    assert_eq!(a.reserved, 7);
    assert_eq!(deposit_to_reserve(&mut a, &mut debts, &t, 20), 5);
    assert_eq!(a.reserved, 22);
    assert_eq!(debts.len(), 0);
}

#[test]
fn deposit_amounts_gain_extra_decimals() {
    let a = Asset::new(0, config(12));
    assert_eq!(deposit_amount(&a, 5), Ok(5_000_000_000_000));
    let mut off = Asset::new(0, config(0));
    off.config.can_deposit = false;
    assert_eq!(deposit_amount(&off, 5), Err(LendingError::DepositDisabled));
}

#[test]
fn received_tokens_are_scaled_and_routed() {
    let token = "usdc".to_string();
    let mut debts = AccountMap::new();
    let mut asset = Asset::new(0, config(12));
    match token_received(&mut asset, &mut debts, &token, 5_000_000, None) {
        Ok(ReceiveStep::Execute { amount, actions, with_pyth }) => {
            assert_eq!((amount, actions.len(), with_pyth), (5_000_000_000_000_000_000, 0, false));
        },
        _ => panic!("an empty message deposits"),
    }
    let withdraw = Action::Withdraw(AssetAmount { token_id: token.clone(), amount: None, max_amount: None });
    match token_received(&mut asset, &mut debts, &token, 7, Some(TokenReceiverMsg::ExecuteWithPyth { actions: vec![withdraw] })) {
        Ok(ReceiveStep::Execute { amount, actions, with_pyth }) => assert_eq!((amount, actions.len(), with_pyth), (7_000_000_000_000, 1, true)),
        _ => panic!("actions run after the deposit"),
    }
    match token_received(&mut asset, &mut debts, &token, 3, Some(TokenReceiverMsg::DepositToMargin)) {
        Ok(ReceiveStep::MarginDeposit { amount }) => assert_eq!(amount, 3_000_000_000_000),
        _ => panic!("a margin deposit"),
    }
    assert_eq!(asset.reserved, 0);
}

#[test]
fn received_tokens_to_the_reserve_repay_debt_first() {
    let token = "usdc".to_string();
    let mut debts = AccountMap::new();
    add_protocol_debt(&mut debts, &token, 2_000_000_000_000);
    let mut asset = Asset::new(0, config(12));
    match token_received(&mut asset, &mut debts, &token, 5, Some(TokenReceiverMsg::DepositToReserve)) {
        Ok(ReceiveStep::Reserved { repaid, reserved }) => assert_eq!((repaid, reserved), (2_000_000_000_000, 3_000_000_000_000)),
        _ => panic!("a deposit to the reserve"),
    }
    assert_eq!(asset.reserved, 3_000_000_000_000);
    assert_eq!(debts.get(&token), None);
}

#[test]
fn received_tokens_refused_without_deposits() {
    let token = "usdc".to_string();
    let mut debts = AccountMap::new();
    let mut c = config(0);
    c.can_deposit = false;
    let mut asset = Asset::new(0, c);
    assert!(matches!(
        token_received(&mut asset, &mut debts, &token, 5, Some(TokenReceiverMsg::DepositToReserve)),
        Err(ReceiveError::DepositsDisabled)
    ));
    assert_eq!(asset.reserved, 0);
}
