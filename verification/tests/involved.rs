use burrowland::account::Account;
use burrowland::account_map::AccountMap;
use burrowland::actions::{Action, AssetAmount};
use burrowland::involved::{involved_tokens, margin_involved_tokens};
use burrowland::margin_account::MarginAccount;
use burrowland::margin_actions::MarginAction;
use burrowland::margin_position::MarginTradingPosition;
use burrowland::margin_trading::SwapIndication;
use burrowland::shadow::{TokenAmount, UnitShareTokens};

fn amount(token: &str) -> AssetAmount {
    AssetAmount { token_id: token.to_string(), amount: Some(1), max_amount: None }
}

fn sorted(mut v: Vec<String>) -> Vec<String> {
    v.sort();
    v
}

fn lp_infos() -> AccountMap<UnitShareTokens> {
    let mut m = AccountMap::new();
    m.insert(
        &"shadow_ref_v1-3".to_string(),
        UnitShareTokens {
            timestamp: 0,
            decimals: 24,
            tokens: vec![
                TokenAmount { token_id: "wnear".to_string(), amount: 1 },
                TokenAmount { token_id: "usdc".to_string(), amount: 1 },
            ],
        },
    );
    m
}

#[test]
fn borrowing_needs_the_regular_position_and_the_new_debt() {
    let mut a = Account::new(&"alice.near".to_string());
    a.increase_collateral(&"REGULAR".to_string(), &"usdt".to_string(), 5);
    a.increase_borrowed(&"REGULAR".to_string(), &"dai".to_string(), 1);
    let actions = vec![Action::Borrow(amount("wnear")), Action::Repay(amount("dai"))];
    let r = involved_tokens(&a, &actions, &lp_infos(), &AccountMap::new());
    assert_eq!(sorted(r), vec!["dai", "usdt", "wnear"]);
}

#[test]
fn new_collateral_counts_only_with_a_borrow() {
    let a = Account::new(&"alice.near".to_string());
    let r = involved_tokens(&a, &vec![Action::IncreaseCollateral(amount("usdt"))], &lp_infos(), &AccountMap::new());
    assert!(r.is_empty());
    let actions = vec![Action::IncreaseCollateral(amount("usdt")), Action::Borrow(amount("usdt"))];
    let r = involved_tokens(&a, &actions, &lp_infos(), &AccountMap::new());
    assert_eq!(r, vec!["usdt"]);
}

#[test]
fn lp_positions_need_their_pool_tokens() {
    let lp = "shadow_ref_v1-3".to_string();
    let a = Account::new(&"alice.near".to_string());
    let actions = vec![
        Action::PositionIncreaseCollateral { position: lp.clone(), asset_amount: amount(&lp) },
        Action::PositionBorrow { position: lp.clone(), asset_amount: amount("dai") },
    ];
    let r = involved_tokens(&a, &actions, &lp_infos(), &AccountMap::new());
    assert_eq!(sorted(r), vec!["dai", "usdc", "wnear"]);
}

#[test]
fn liquidation_needs_the_liquidated_position() {
    let mut bob = Account::new(&"bob.near".to_string());
    bob.increase_collateral(&"REGULAR".to_string(), &"usdt".to_string(), 5);
    bob.increase_borrowed(&"REGULAR".to_string(), &"wnear".to_string(), 1);
    let mut accounts = AccountMap::new();
    accounts.insert(&"bob.near".to_string(), bob);
    let a = Account::new(&"alice.near".to_string());
    let actions = vec![Action::Liquidate {
        account_id: "bob.near".to_string(),
        in_assets: vec![amount("wnear")],
        out_assets: vec![amount("usdt")],
        position: None,
        min_token_amounts: None,
    }];
    let r = involved_tokens(&a, &actions, &lp_infos(), &accounts);
    assert_eq!(sorted(r), vec!["usdt", "wnear"]);
}

fn position(c: &str, d: &str, p: &str) -> MarginTradingPosition {
    MarginTradingPosition::new(0, c.to_string(), 1, d.to_string(), p.to_string())
}

fn swap() -> SwapIndication {
    SwapIndication { dex_id: "dex".to_string(), swap_action_text: String::new() }
}

#[test]
fn margin_actions_need_position_and_debt_tokens() {
    let mut a = MarginAccount::new(&"alice.near".to_string());
    a.margin_positions.insert(&"p1".to_string(), position("usdc", "usdc", "wnear"));
    let mut bob = MarginAccount::new(&"bob.near".to_string());
    bob.margin_positions.insert(&"p2".to_string(), position("usdt", "usdt", "eth"));
    let mut owners = AccountMap::new();
    owners.insert(&"bob.near".to_string(), bob);
    let actions = vec![
        MarginAction::CloseMTPosition { pos_id: "p1".to_string(), token_p_amount: 1, min_token_d_amount: 1, swap_indication: swap() },
        MarginAction::LiquidateMTPosition {
            pos_owner_id: "bob.near".to_string(),
            pos_id: "p2".to_string(),
            token_p_amount: 1,
            min_token_d_amount: 1,
            swap_indication: swap(),
        },
        MarginAction::IncreaseCollateral { pos_id: "p1".to_string(), amount: 1 },
    ];
    let r = margin_involved_tokens(&a, &actions, &owners);
    assert_eq!(sorted(r), vec!["eth", "usdc", "usdt", "wnear"]);
}
