use burrowland::booster_staking::BoosterStaking;
use burrowland::events::{
    booster_stake, deposit, fee_detail, increase_collateral, margin_asset_withdraw_started,
    margin_decrease_failed, margin_decrease_started, margin_decrease_succeeded, margin_open_started,
    new_protocol_debts, upsert_beneficiary, EventDataMarginDecrease, EventDataMarginDecreaseResult,
    EventDataMarginOpen, FeeDetail,
};

#[test]
fn deposit_line() {
    let line = deposit(&"alice.near".to_string(), 1000, &"wrap.near".to_string());
    assert_eq!(
        line,
        r#"EVENT_JSON:{"standard":"burrow","version":"1.0.0","event":"deposit","data":[{"account_id":"alice.near","amount":"1000","token_id":"wrap.near"}]}"#
    );
}

#[test]
fn margin_asset_withdraw_has_its_own_event_name() {
    let line = margin_asset_withdraw_started(&"a".to_string(), 0, &"t".to_string());
    assert_eq!(
        line,
        r#"EVENT_JSON:{"standard":"burrow","version":"1.0.0","event":"withdraw_started_margin_asset","data":[{"account_id":"a","amount":"0","token_id":"t"}]}"#
    );
}

#[test]
fn position_events_carry_the_position() {
    let line = increase_collateral(&"bob.near".to_string(), u128::MAX, &"usdt.near".to_string(), &"REGULAR".to_string());
    assert_eq!(
        line,
        r#"EVENT_JSON:{"standard":"burrow","version":"1.0.0","event":"increase_collateral","data":[{"account_id":"bob.near","amount":"340282366920938463463374607431768211455","token_id":"usdt.near","position":"REGULAR"}]}"#
    );
}

#[test]
fn strings_are_escaped() {
    let line = new_protocol_debts(&"we\"ird\\\n\u{1}".to_string(), 7);
    assert_eq!(
        line,
        "EVENT_JSON:{\"standard\":\"burrow\",\"version\":\"1.0.0\",\"event\":\"new_protocol_debts\",\"data\":[{\"token_id\":\"we\\\"ird\\\\\\n\\u0001\",\"amount\":\"7\"}]}"
    );
}

#[test]
fn fee_detail_line() {
    let mut d = FeeDetail::new("normal".to_string(), "wrap.near".to_string(), 100);
    d.reserved = 25;
    d.prot_fee = 5;
    let line = fee_detail(d);
    assert_eq!(
        line,
        r#"EVENT_JSON:{"standard":"burrow","version":"1.0.0","event":"fee_detail","data":[{"fee_type":"normal","token_id":"wrap.near","interest":"100","reserved":"25","prot_fee":"5"}]}"#
    );
}

#[test]
fn beneficiary_bps_are_numbers() {
    let line = upsert_beneficiary(&"t".to_string(), &"b".to_string(), None, 250);
    assert_eq!(
        line,
        r#"EVENT_JSON:{"standard":"burrow","version":"1.0.0","event":"upsert_beneficiary","data":[{"token_id":"t","account_id":"b","old_bps":null,"new_bps":250}]}"#
    );
    let line = upsert_beneficiary(&"t".to_string(), &"b".to_string(), Some(0), 10000);
    assert!(line.ends_with(r#""old_bps":0,"new_bps":10000}]}"#));
}

#[test]
fn margin_open_started_line() {
    let data = EventDataMarginOpen {
        account_id: "a".to_string(),
        pos_id: "p1".to_string(),
        token_c_id: "c".to_string(),
        token_c_amount: 1,
        token_c_shares: 2,
        token_d_id: "d".to_string(),
        token_d_amount: 3,
        token_p_id: "p".to_string(),
        token_p_amount: 4,
    };
    assert_eq!(
        margin_open_started(data),
        r#"EVENT_JSON:{"standard":"burrow","version":"1.0.0","event":"margin_open_started","data":[{"account_id":"a","pos_id":"p1","token_c_id":"c","token_c_amount":"1","token_c_shares":"2","token_d_id":"d","token_d_amount":"3","token_p_id":"p","token_p_amount":"4"}]}"#
    );
}

#[test]
fn margin_decrease_started_uses_the_given_event_name() {
    let data = EventDataMarginDecrease {
        account_id: "a".to_string(),
        pos_id: "p1".to_string(),
        liquidator_id: Some("liq".to_string()),
        token_p_id: "p".to_string(),
        token_p_amount: 9,
        token_d_id: "d".to_string(),
        token_d_amount: 8,
    };
    assert_eq!(
        margin_decrease_started("margin_liquidate_started", data),
        r#"EVENT_JSON:{"standard":"burrow","version":"1.0.0","event":"margin_liquidate_started","data":[{"account_id":"a","pos_id":"p1","liquidator_id":"liq","token_p_id":"p","token_p_amount":"9","token_d_id":"d","token_d_amount":"8"}]}"#
    );
}

fn decrease_result() -> EventDataMarginDecreaseResult {
    EventDataMarginDecreaseResult {
        account_id: "a".to_string(),
        pos_id: "p1".to_string(),
        liquidator_id: None,
        token_c_id: "c".to_string(),
        token_c_shares: 1,
        token_d_id: "d".to_string(),
        token_d_shares: 2,
        token_p_id: "p".to_string(),
        token_p_amount: 3,
        holding_fee: 4,
    }
}

#[test]
fn margin_decrease_succeeded_names_the_operation() {
    let line = margin_decrease_succeeded("close", decrease_result());
    assert_eq!(
        line,
        r#"EVENT_JSON:{"standard":"burrow","version":"1.0.0","event":"margin_close_succeeded","data":[{"account_id":"a","pos_id":"p1","liquidator_id":null,"token_c_id":"c","token_c_shares":"1","token_d_id":"d","token_d_shares":"2","token_p_id":"p","token_p_amount":"3","holding_fee":"4"}]}"#
    );
    assert!(margin_decrease_succeeded("decrease", decrease_result()).contains(r#""event":"margin_decrease_succeeded""#));
    assert!(margin_decrease_succeeded("liquidate", decrease_result()).contains(r#""event":"margin_liquidate_succeeded""#));
    assert!(margin_decrease_succeeded("forceclose", decrease_result()).contains(r#""event":"margin_forceclose_succeeded""#));
    assert!(margin_decrease_succeeded("other", decrease_result()).contains(r#""event":"other""#));
}

#[test]
fn margin_decrease_failed_line() {
    assert_eq!(
        margin_decrease_failed(&"a".to_string(), &"p1".to_string()),
        r#"EVENT_JSON:{"standard":"burrow","version":"1.0.0","event":"margin_decrease_failed","data":[{"account_id":"a","pos_id":"p1"}]}"#
    );
}

#[test]
fn booster_stake_line() {
    let staking = BoosterStaking { staked_booster_amount: 100, x_booster_amount: 150, unlock_timestamp: 5 };
    assert_eq!(
        booster_stake(&"a".to_string(), &"brrr".to_string(), 100, 86400, 150, &staking),
        r#"EVENT_JSON:{"standard":"burrow","version":"1.0.0","event":"booster_stake","data":[{"account_id":"a","booster_token_id":"brrr","booster_amount":"100","duration":86400,"x_booster_amount":"150","total_booster_amount":"100","total_x_booster_amount":"150"}]}"#
    );
}
