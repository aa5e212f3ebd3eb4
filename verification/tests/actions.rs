use burrowland::actions::{duplicate_tokens, plan_actions, Action, ActionError, AssetAmount};
use burrowland::whitelist::Whitelist;

fn amount(token: &str) -> AssetAmount {
    AssetAmount { token_id: token.to_string(), amount: Some(10), max_amount: None }
}

fn no_whitelist() -> Whitelist {
    Whitelist::new()
}

fn plan(actions: Vec<Action>, locked: bool) -> Result<(bool, Vec<String>, bool), ActionError> {
    plan_actions(&"alice.near".to_string(), &actions, &no_whitelist(), locked)
        .map(|p| (p.need_number_check, p.risk_check_positions, p.account_locked))
}

#[test]
fn regular_batch_plan() {
    let r = plan(
        vec![
            Action::IncreaseCollateral(amount("usdt.near")),
            Action::Borrow(amount("wnear.near")),
            Action::DecreaseCollateral(amount("usdt.near")),
            Action::Repay(amount("wnear.near")),
            Action::Withdraw(amount("usdt.near")),
        ],
        false,
    );
    assert_eq!(r, Ok((true, vec!["REGULAR".to_string()], false)));
}

#[test]
fn withdraw_and_repay_need_no_checks() {
    let r = plan(vec![Action::Withdraw(amount("usdt.near")), Action::Repay(amount("usdt.near"))], false);
    assert_eq!(r, Ok((false, vec![], false)));
}

#[test]
fn positions_to_check_are_listed_once() {
    let lp = "shadow_ref_v1-7";
    let r = plan(
        vec![
            Action::PositionBorrow { position: lp.to_string(), asset_amount: amount("usdt.near") },
            Action::Borrow(amount("usdt.near")),
            Action::PositionDecreaseCollateral { position: lp.to_string(), asset_amount: amount(lp) },
        ],
        false,
    );
    assert_eq!(r, Ok((true, vec![lp.to_string(), "REGULAR".to_string()], false)));
}

#[test]
fn shadow_tokens_stay_out_of_the_regular_position() {
    let r = plan(vec![Action::IncreaseCollateral(amount("shadow_ref_v1-7"))], false);
    assert_eq!(r, Err(ActionError::ShadowToken));
    let r = plan(
        vec![Action::PositionIncreaseCollateral { position: "shadow_ref_v1-7".to_string(), asset_amount: amount("usdt.near") }],
        false,
    );
    assert_eq!(r, Err(ActionError::PositionTokenMismatch));
}

#[test]
fn locked_account_can_not_act() {
    assert_eq!(plan(vec![Action::Repay(amount("usdt.near"))], true), Err(ActionError::AccountLocked));
    assert_eq!(plan(vec![], true), Ok((false, vec![], true)));
}

#[test]
fn lp_liquidation_locks_the_account() {
    let lp = "shadow_ref_v1-7";
    let liquidate = Action::Liquidate {
        account_id: "bob.near".to_string(),
        in_assets: vec![amount("usdt.near")],
        out_assets: vec![amount(lp)],
        position: Some(lp.to_string()),
        min_token_amounts: Some(vec![1, 1]),
    };
    assert_eq!(plan(vec![liquidate], false), Ok((false, vec![], true)));
    let liquidate = Action::Liquidate {
        account_id: "bob.near".to_string(),
        in_assets: vec![amount("usdt.near")],
        out_assets: vec![amount(lp)],
        position: Some(lp.to_string()),
        min_token_amounts: Some(vec![1, 1]),
    };
    let r = plan(vec![liquidate, Action::Repay(amount("usdt.near"))], false);
    assert_eq!(r, Err(ActionError::AccountLocked));
}

#[test]
fn liquidation_action_checks() {
    let self_liquidation = Action::Liquidate {
        account_id: "alice.near".to_string(),
        in_assets: vec![amount("usdt.near")],
        out_assets: vec![amount("wnear.near")],
        position: None,
        min_token_amounts: None,
    };
    assert_eq!(plan(vec![self_liquidation], false), Err(ActionError::LiquidateSelf));
    let empty = Action::Liquidate {
        account_id: "bob.near".to_string(),
        in_assets: vec![],
        out_assets: vec![amount("wnear.near")],
        position: None,
        min_token_amounts: None,
    };
    assert_eq!(plan(vec![empty], false), Err(ActionError::EmptyAssets));
    let with_min = Action::Liquidate {
        account_id: "bob.near".to_string(),
        in_assets: vec![amount("usdt.near")],
        out_assets: vec![amount("wnear.near")],
        position: Some("REGULAR".to_string()),
        min_token_amounts: Some(vec![]),
    };
    assert_eq!(plan(vec![with_min], false), Err(ActionError::UnexpectedMinTokenAmounts));
    let lp = "shadow_ref_v1-7";
    let wrong_out = Action::Liquidate {
        account_id: "bob.near".to_string(),
        in_assets: vec![amount("usdt.near")],
        out_assets: vec![amount("usdt.near")],
        position: Some(lp.to_string()),
        min_token_amounts: Some(vec![1]),
    };
    assert_eq!(plan(vec![wrong_out], false), Err(ActionError::InvalidLiquidationAssets));
    let no_min = Action::Liquidate {
        account_id: "bob.near".to_string(),
        in_assets: vec![amount("usdt.near")],
        out_assets: vec![amount(lp)],
        position: Some(lp.to_string()),
        min_token_amounts: None,
    };
    assert_eq!(plan(vec![no_min], false), Err(ActionError::MissingMinTokenAmounts));
    let duplicate = Action::Liquidate {
        account_id: "bob.near".to_string(),
        in_assets: vec![amount("usdt.near"), amount("usdt.near")],
        out_assets: vec![amount(lp)],
        position: Some(lp.to_string()),
        min_token_amounts: Some(vec![1]),
    };
    assert_eq!(plan(vec![duplicate], false), Err(ActionError::DuplicateAssets));
}

#[test]
fn force_close_and_direct_margin_liquidation_checks() {
    let own = Action::ForceClose { account_id: "alice.near".to_string(), position: None, min_token_amounts: None };
    assert_eq!(plan(vec![own], false), Err(ActionError::LiquidateSelf));
    let lp = Action::ForceClose {
        account_id: "bob.near".to_string(),
        position: Some("shadow_ref_v1-7".to_string()),
        min_token_amounts: None,
    };
    assert_eq!(plan(vec![lp], false), Err(ActionError::MissingMinTokenAmounts));
    let ok = Action::ForceClose { account_id: "bob.near".to_string(), position: None, min_token_amounts: None };
    assert_eq!(plan(vec![ok], false), Ok((false, vec![], false)));
    let own_mt = Action::LiquidateMTPositionDirect { pos_owner_id: "alice.near".to_string(), pos_id: "p1".to_string() };
    assert_eq!(plan(vec![own_mt], false), Err(ActionError::LiquidateSelf));
}

#[test]
fn client_echo_needs_the_whitelist() {
    let action = Action::ClientEchoWithdraw { client_echo: "x".to_string(), asset_amount: amount("usdt.near") };
    assert_eq!(plan(vec![action], false), Err(ActionError::UnauthorizedClientEcho));
    let mut whitelist = Whitelist::new();
    whitelist.append(vec!["alice.near".to_string()]).unwrap();
    let action = Action::ClientEchoWithdraw { client_echo: "x".to_string(), asset_amount: amount("usdt.near") };
    let r = plan_actions(&"alice.near".to_string(), &vec![action], &whitelist, false);
    assert!(r.is_ok());
}

#[test]
fn duplicates() {
    assert!(!duplicate_tokens(&vec![amount("a"), amount("b")]));
    assert!(duplicate_tokens(&vec![amount("a"), amount("b"), amount("a")]));
}
