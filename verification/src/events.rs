//! Events of the protocol: their records and the log lines that announce them.
//!
//! Each announcing function returns the line `EVENT_JSON:{...}` that the
//! contract logs: a JSON object with the members `standard`, `version`,
//! `event` and `data`, in that order, where `data` is a one-element array
//! holding the event's record.  Amounts are written as JSON strings of their
//! decimal digits; durations and basis points as JSON numbers.

use vstd::prelude::*;
use crate::utils::{AccountId, Balance, DurationSec, TokenId, str_eq};
use crate::booster_staking::BoosterStaking;
use crate::margin_trading::MarginAccountUpdates;
use crate::json::{
    dec, json_amount, json_string, member, push_amount, push_dec, push_json_string, push_key,
    push_str, string_push,
};

verus! {

/// How the interest accrued on an asset was divided.
#[derive(Clone)]
pub struct FeeDetail {
    /// "normal" for regular borrowing, "margin" for margin debt.
    pub fee_type: String,
    pub token_id: TokenId,
    pub interest: Balance,
    pub reserved: Balance,
    pub prot_fee: Balance,
}

impl FeeDetail {
    /// A record of `interest`, of which nothing is reserved yet.
    pub fn new(fee_type: String, token_id: TokenId, interest: Balance) -> (r: FeeDetail)
        ensures
            r.fee_type == fee_type,
            r.token_id == token_id,
            r.interest == interest,
            r.reserved == 0,
            r.prot_fee == 0,
    {
        FeeDetail { fee_type, token_id, interest, reserved: 0, prot_fee: 0 }
    }
}

/// The record of a margin position that starts to open.
pub struct EventDataMarginOpen {
    pub account_id: AccountId,
    pub pos_id: String,
    pub token_c_id: TokenId,
    pub token_c_amount: Balance,
    pub token_c_shares: u128,
    pub token_d_id: TokenId,
    pub token_d_amount: Balance,
    pub token_p_id: TokenId,
    pub token_p_amount: Balance,
}

/// The record of a margin position that was opened.
pub struct EventDataMarginOpenResult {
    pub account_id: AccountId,
    pub pos_id: String,
    pub token_c_id: TokenId,
    pub token_c_shares: u128,
    pub token_d_id: TokenId,
    pub token_d_amount: Balance,
    pub token_d_shares: u128,
    pub token_p_id: TokenId,
    pub token_p_amount: Balance,
    pub open_fee: Balance,
}

/// The record of a margin position that starts to decrease.
pub struct EventDataMarginDecrease {
    pub account_id: AccountId,
    pub pos_id: String,
    pub liquidator_id: Option<AccountId>,
    pub token_p_id: TokenId,
    pub token_p_amount: Balance,
    pub token_d_id: TokenId,
    pub token_d_amount: Balance,
}

/// The record of a margin position that was decreased.
pub struct EventDataMarginDecreaseResult {
    pub account_id: AccountId,
    pub pos_id: String,
    pub liquidator_id: Option<AccountId>,
    pub token_c_id: TokenId,
    pub token_c_shares: u128,
    pub token_d_id: TokenId,
    pub token_d_shares: u128,
    pub token_p_id: TokenId,
    pub token_p_amount: Balance,
    pub holding_fee: Balance,
}

// ----- the text of a line -----

/// `,`
pub open spec fn comma() -> Seq<char> {
    seq![',']
}

/// The line announcing `event` with the record `data`.
pub open spec fn event_line(event: Seq<char>, data: Seq<char>) -> Seq<char> {
    "EVENT_JSON:"@ + seq!['{'] + member("standard"@, json_string("burrow"@)) + comma()
        + member("version"@, json_string("1.0.0"@)) + comma() + member("event"@, json_string(event))
        + comma() + member("data"@, seq!['['] + data + seq![']']) + seq!['}']
}

/// A JSON number or `null`.
pub open spec fn json_opt_number(n: Option<nat>) -> Seq<char> {
    match n {
        Some(n) => dec(n),
        None => seq!['n', 'u', 'l', 'l'],
    }
}

/// A JSON string or `null`.
pub open spec fn json_opt_str(s: Option<Seq<char>>) -> Seq<char> {
    match s {
        Some(s) => json_string(s),
        None => seq!['n', 'u', 'l', 'l'],
    }
}

/// The view of an optional account.
pub open spec fn opt_view(s: Option<AccountId>) -> Option<Seq<char>> {
    match s {
        Some(s) => Some(s@),
        None => None,
    }
}

/// `{"account_id":..,"amount":"..","token_id":..}`
pub open spec fn account_amount_token(account_id: Seq<char>, amount: nat, token_id: Seq<char>) -> Seq<char> {
    seq!['{'] + member("account_id"@, json_string(account_id)) + comma()
        + member("amount"@, json_amount(amount)) + comma() + member("token_id"@, json_string(token_id))
        + seq!['}']
}

/// `{"account_id":..,"amount":"..","token_id":..,"position":..}`
pub open spec fn account_amount_token_position(
    account_id: Seq<char>,
    amount: nat,
    token_id: Seq<char>,
    position: Seq<char>,
) -> Seq<char> {
    seq!['{'] + member("account_id"@, json_string(account_id)) + comma()
        + member("amount"@, json_amount(amount)) + comma() + member("token_id"@, json_string(token_id))
        + comma() + member("position"@, json_string(position)) + seq!['}']
}

/// `{"token_id":..,"amount":".."}`
pub open spec fn token_amount(token_id: Seq<char>, amount: nat) -> Seq<char> {
    seq!['{'] + member("token_id"@, json_string(token_id)) + comma() + member("amount"@, json_amount(amount))
        + seq!['}']
}

/// `{"account_id":..,"pos_id":..}`
pub open spec fn account_pos(account_id: Seq<char>, pos_id: Seq<char>) -> Seq<char> {
    seq!['{'] + member("account_id"@, json_string(account_id)) + comma() + member("pos_id"@, json_string(pos_id))
        + seq!['}']
}

/// The record of a fee split.
pub open spec fn fee_detail_json(d: FeeDetail) -> Seq<char> {
    seq!['{'] + member("fee_type"@, json_string(d.fee_type@)) + comma() + member("token_id"@, json_string(d.token_id@))
        + comma() + member("interest"@, json_amount(d.interest as nat)) + comma()
        + member("reserved"@, json_amount(d.reserved as nat)) + comma()
        + member("prot_fee"@, json_amount(d.prot_fee as nat)) + seq!['}']
}

/// The record of a margin open that starts.
pub open spec fn margin_open_json(d: EventDataMarginOpen) -> Seq<char> {
    seq!['{'] + member("account_id"@, json_string(d.account_id@)) + comma() + member("pos_id"@, json_string(d.pos_id@))
        + comma() + member("token_c_id"@, json_string(d.token_c_id@)) + comma()
        + member("token_c_amount"@, json_amount(d.token_c_amount as nat)) + comma()
        + member("token_c_shares"@, json_amount(d.token_c_shares as nat)) + comma()
        + member("token_d_id"@, json_string(d.token_d_id@)) + comma()
        + member("token_d_amount"@, json_amount(d.token_d_amount as nat)) + comma()
        + member("token_p_id"@, json_string(d.token_p_id@)) + comma()
        + member("token_p_amount"@, json_amount(d.token_p_amount as nat)) + seq!['}']
}

/// The record of a margin open that succeeded.
pub open spec fn margin_open_result_json(d: EventDataMarginOpenResult) -> Seq<char> {
    seq!['{'] + member("account_id"@, json_string(d.account_id@)) + comma() + member("pos_id"@, json_string(d.pos_id@))
        + comma() + member("token_c_id"@, json_string(d.token_c_id@)) + comma()
        + member("token_c_shares"@, json_amount(d.token_c_shares as nat)) + comma()
        + member("token_d_id"@, json_string(d.token_d_id@)) + comma()
        + member("token_d_amount"@, json_amount(d.token_d_amount as nat)) + comma()
        + member("token_d_shares"@, json_amount(d.token_d_shares as nat)) + comma()
        + member("token_p_id"@, json_string(d.token_p_id@)) + comma()
        + member("token_p_amount"@, json_amount(d.token_p_amount as nat)) + comma()
        + member("open_fee"@, json_amount(d.open_fee as nat)) + seq!['}']
}

/// The record of a margin decrease that starts.
pub open spec fn margin_decrease_json(d: EventDataMarginDecrease) -> Seq<char> {
    seq!['{'] + member("account_id"@, json_string(d.account_id@)) + comma() + member("pos_id"@, json_string(d.pos_id@))
        + comma() + member("liquidator_id"@, json_opt_str(opt_view(d.liquidator_id))) + comma()
        + member("token_p_id"@, json_string(d.token_p_id@)) + comma()
        + member("token_p_amount"@, json_amount(d.token_p_amount as nat)) + comma()
        + member("token_d_id"@, json_string(d.token_d_id@)) + comma()
        + member("token_d_amount"@, json_amount(d.token_d_amount as nat)) + seq!['}']
}

/// The record of a margin decrease that succeeded.
pub open spec fn margin_decrease_result_json(d: EventDataMarginDecreaseResult) -> Seq<char> {
    seq!['{'] + member("account_id"@, json_string(d.account_id@)) + comma() + member("pos_id"@, json_string(d.pos_id@))
        + comma() + member("liquidator_id"@, json_opt_str(opt_view(d.liquidator_id))) + comma()
        + member("token_c_id"@, json_string(d.token_c_id@)) + comma()
        + member("token_c_shares"@, json_amount(d.token_c_shares as nat)) + comma()
        + member("token_d_id"@, json_string(d.token_d_id@)) + comma()
        + member("token_d_shares"@, json_amount(d.token_d_shares as nat)) + comma()
        + member("token_p_id"@, json_string(d.token_p_id@)) + comma()
        + member("token_p_amount"@, json_amount(d.token_p_amount as nat)) + comma()
        + member("holding_fee"@, json_amount(d.holding_fee as nat)) + seq!['}']
}

/// The event name under which a settled decrease of kind `op_id` is announced.
pub open spec fn decrease_event_name(op_id: Seq<char>) -> Seq<char> {
    if op_id == "decrease"@ {
        "margin_decrease_succeeded"@
    } else if op_id == "close"@ {
        "margin_close_succeeded"@
    } else if op_id == "liquidate"@ {
        "margin_liquidate_succeeded"@
    } else if op_id == "forceclose"@ {
        "margin_forceclose_succeeded"@
    } else {
        op_id
    }
}

// ----- writing pieces -----

fn push_comma(out: &mut String)
    ensures
        final(out)@ == old(out)@ + comma(),
{
    string_push(out, ',');
}

fn push_member_str(out: &mut String, key: &str, value: &str)
    ensures
        final(out)@ == old(out)@ + member(key@, json_string(value@)),
{
    let ghost start = out@;
    push_key(out, key);
    push_json_string(out, value);
    assert(out@ =~= start + member(key@, json_string(value@)));
}

fn push_member_amount(out: &mut String, key: &str, value: u128)
    ensures
        final(out)@ == old(out)@ + member(key@, json_amount(value as nat)),
{
    let ghost start = out@;
    push_key(out, key);
    push_amount(out, value);
    assert(out@ =~= start + member(key@, json_amount(value as nat)));
}

fn push_member_number(out: &mut String, key: &str, value: u32)
    ensures
        final(out)@ == old(out)@ + member(key@, dec(value as nat)),
{
    let ghost start = out@;
    push_key(out, key);
    push_dec(out, value as u128);
    assert(out@ =~= start + member(key@, dec(value as nat)));
}

fn push_member_opt_number(out: &mut String, key: &str, value: Option<u32>)
    ensures
        final(out)@ == old(out)@ + member(
            key@,
            json_opt_number(
                match value {
                    Some(v) => Some(v as nat),
                    None => None,
                },
            ),
        ),
{
    let ghost start = out@;
    push_key(out, key);
    match value {
        Some(v) => push_dec(out, v as u128),
        None => push_str(out, "null"),
    }
    proof {
        reveal_strlit("null");
    }
    assert(out@ =~= start + member(
        key@,
        json_opt_number(
            match value {
                Some(v) => Some(v as nat),
                None => None,
            },
        ),
    ));
}

fn push_member_opt_str(out: &mut String, key: &str, value: &Option<AccountId>)
    ensures
        final(out)@ == old(out)@ + member(key@, json_opt_str(opt_view(*value))),
{
    let ghost start = out@;
    push_key(out, key);
    match value {
        Some(v) => push_json_string(out, v.as_str()),
        None => push_str(out, "null"),
    }
    proof {
        reveal_strlit("null");
    }
    assert(out@ =~= start + member(key@, json_opt_str(opt_view(*value))));
}

/// Frames the record `data` as the line announcing `event`.
fn log_event(event: &str, data: &String) -> (line: String)
    ensures
        line@ == event_line(event@, data@),
{
    let mut out = String::new();
    push_str(&mut out, "EVENT_JSON:");
    string_push(&mut out, '{');
    push_member_str(&mut out, "standard", "burrow");
    push_comma(&mut out);
    push_member_str(&mut out, "version", "1.0.0");
    push_comma(&mut out);
    push_member_str(&mut out, "event", event);
    push_comma(&mut out);
    push_key(&mut out, "data");
    string_push(&mut out, '[');
    push_str(&mut out, data.as_str());
    string_push(&mut out, ']');
    string_push(&mut out, '}');
    assert(out@ =~= event_line(event@, data@));
    out
}

fn account_amount_token_data(account_id: &AccountId, amount: Balance, token_id: &TokenId) -> (d: String)
    ensures
        d@ == account_amount_token(account_id@, amount as nat, token_id@),
{
    let mut out = String::new();
    string_push(&mut out, '{');
    push_member_str(&mut out, "account_id", account_id.as_str());
    push_comma(&mut out);
    push_member_amount(&mut out, "amount", amount);
    push_comma(&mut out);
    push_member_str(&mut out, "token_id", token_id.as_str());
    string_push(&mut out, '}');
    assert(out@ =~= account_amount_token(account_id@, amount as nat, token_id@));
    out
}

fn account_amount_token_event(event: &str, account_id: &AccountId, amount: Balance, token_id: &TokenId) -> (line: String)
    ensures
        line@ == event_line(event@, account_amount_token(account_id@, amount as nat, token_id@)),
{
    let data = account_amount_token_data(account_id, amount, token_id);
    log_event(event, &data)
}

fn account_amount_token_position_event(
    event: &str,
    account_id: &AccountId,
    amount: Balance,
    token_id: &TokenId,
    position: &String,
) -> (line: String)
    ensures
        line@ == event_line(event@, account_amount_token_position(account_id@, amount as nat, token_id@, position@)),
{
    let mut out = String::new();
    string_push(&mut out, '{');
    push_member_str(&mut out, "account_id", account_id.as_str());
    push_comma(&mut out);
    push_member_amount(&mut out, "amount", amount);
    push_comma(&mut out);
    push_member_str(&mut out, "token_id", token_id.as_str());
    push_comma(&mut out);
    push_member_str(&mut out, "position", position.as_str());
    string_push(&mut out, '}');
    assert(out@ =~= account_amount_token_position(account_id@, amount as nat, token_id@, position@));
    log_event(event, &out)
}

fn token_amount_event(event: &str, token_id: &AccountId, amount: u128) -> (line: String)
    ensures
        line@ == event_line(event@, token_amount(token_id@, amount as nat)),
{
    let mut out = String::new();
    string_push(&mut out, '{');
    push_member_str(&mut out, "token_id", token_id.as_str());
    push_comma(&mut out);
    push_member_amount(&mut out, "amount", amount);
    string_push(&mut out, '}');
    assert(out@ =~= token_amount(token_id@, amount as nat));
    log_event(event, &out)
}

fn account_pos_event(event: &str, account_id: &AccountId, pos_id: &String) -> (line: String)
    ensures
        line@ == event_line(event@, account_pos(account_id@, pos_id@)),
{
    let mut out = String::new();
    string_push(&mut out, '{');
    push_member_str(&mut out, "account_id", account_id.as_str());
    push_comma(&mut out);
    push_member_str(&mut out, "pos_id", pos_id.as_str());
    string_push(&mut out, '}');
    assert(out@ =~= account_pos(account_id@, pos_id@));
    log_event(event, &out)
}

// ----- the announcements -----

/// A deposit straight into the reserve.
pub fn deposit_to_reserve(account_id: &AccountId, amount: Balance, token_id: &TokenId) -> (line: String)
    ensures
        line@ == event_line("deposit_to_reserve"@, account_amount_token(account_id@, amount as nat, token_id@)),
{
    account_amount_token_event("deposit_to_reserve", account_id, amount, token_id)
}

/// A deposit into the supply.
pub fn deposit(account_id: &AccountId, amount: Balance, token_id: &TokenId) -> (line: String)
    ensures
        line@ == event_line("deposit"@, account_amount_token(account_id@, amount as nat, token_id@)),
{
    account_amount_token_event("deposit", account_id, amount, token_id)
}

/// A deposit into the margin account.
pub fn margin_deposit(account_id: &AccountId, amount: Balance, token_id: &TokenId) -> (line: String)
    ensures
        line@ == event_line("margin_deposit"@, account_amount_token(account_id@, amount as nat, token_id@)),
{
    account_amount_token_event("margin_deposit", account_id, amount, token_id)
}

/// A withdrawal whose transfer starts.
pub fn withdraw_started(account_id: &AccountId, amount: Balance, token_id: &TokenId) -> (line: String)
    ensures
        line@ == event_line("withdraw_started"@, account_amount_token(account_id@, amount as nat, token_id@)),
{
    account_amount_token_event("withdraw_started", account_id, amount, token_id)
}

/// A withdrawal whose transfer failed.
pub fn withdraw_failed(account_id: &AccountId, amount: Balance, token_id: &TokenId) -> (line: String)
    ensures
        line@ == event_line("withdraw_failed"@, account_amount_token(account_id@, amount as nat, token_id@)),
{
    account_amount_token_event("withdraw_failed", account_id, amount, token_id)
}

/// A withdrawal whose transfer succeeded.
pub fn withdraw_succeeded(account_id: &AccountId, amount: Balance, token_id: &TokenId) -> (line: String)
    ensures
        line@ == event_line("withdraw_succeeded"@, account_amount_token(account_id@, amount as nat, token_id@)),
{
    account_amount_token_event("withdraw_succeeded", account_id, amount, token_id)
}

/// Collateral added to a position.
pub fn increase_collateral(account_id: &AccountId, amount: Balance, token_id: &TokenId, position: &String) -> (line: String)
    ensures
        line@ == event_line(
            "increase_collateral"@,
            account_amount_token_position(account_id@, amount as nat, token_id@, position@),
        ),
{
    account_amount_token_position_event("increase_collateral", account_id, amount, token_id, position)
}

/// Collateral taken from a position.
pub fn decrease_collateral(account_id: &AccountId, amount: Balance, token_id: &TokenId, position: &String) -> (line: String)
    ensures
        line@ == event_line(
            "decrease_collateral"@,
            account_amount_token_position(account_id@, amount as nat, token_id@, position@),
        ),
{
    account_amount_token_position_event("decrease_collateral", account_id, amount, token_id, position)
}

/// A borrow against a position.
pub fn borrow(account_id: &AccountId, amount: Balance, token_id: &TokenId, position: &String) -> (line: String)
    ensures
        line@ == event_line("borrow"@, account_amount_token_position(account_id@, amount as nat, token_id@, position@)),
{
    account_amount_token_position_event("borrow", account_id, amount, token_id, position)
}

/// A repayment of a position's debt.
pub fn repay(account_id: &AccountId, amount: Balance, token_id: &TokenId, position: &String) -> (line: String)
    ensures
        line@ == event_line("repay"@, account_amount_token_position(account_id@, amount as nat, token_id@, position@)),
{
    account_amount_token_position_event("repay", account_id, amount, token_id, position)
}

/// A stake of booster tokens.
pub fn booster_stake(
    account_id: &AccountId,
    booster_token_id: &AccountId,
    amount: Balance,
    duration: DurationSec,
    extra_x_booster_amount: Balance,
    booster_staking: &BoosterStaking,
) -> (line: String)
    ensures
        line@ == event_line(
            "booster_stake"@,
            seq!['{'] + member("account_id"@, json_string(account_id@)) + comma()
                + member("booster_token_id"@, json_string(booster_token_id@)) + comma()
                + member("booster_amount"@, json_amount(amount as nat)) + comma()
                + member("duration"@, dec(duration as nat)) + comma()
                + member("x_booster_amount"@, json_amount(extra_x_booster_amount as nat)) + comma()
                + member("total_booster_amount"@, json_amount(booster_staking.staked_booster_amount as nat)) + comma()
                + member("total_x_booster_amount"@, json_amount(booster_staking.x_booster_amount as nat))
                + seq!['}'],
        ),
{
    let mut out = String::new();
    string_push(&mut out, '{');
    push_member_str(&mut out, "account_id", account_id.as_str());
    push_comma(&mut out);
    push_member_str(&mut out, "booster_token_id", booster_token_id.as_str());
    push_comma(&mut out);
    push_member_amount(&mut out, "booster_amount", amount);
    push_comma(&mut out);
    push_member_number(&mut out, "duration", duration);
    push_comma(&mut out);
    push_member_amount(&mut out, "x_booster_amount", extra_x_booster_amount);
    push_comma(&mut out);
    push_member_amount(&mut out, "total_booster_amount", booster_staking.staked_booster_amount);
    push_comma(&mut out);
    push_member_amount(&mut out, "total_x_booster_amount", booster_staking.x_booster_amount);
    string_push(&mut out, '}');
    assert(out@ =~= seq!['{'] + member("account_id"@, json_string(account_id@)) + comma()
        + member("booster_token_id"@, json_string(booster_token_id@)) + comma()
        + member("booster_amount"@, json_amount(amount as nat)) + comma()
        + member("duration"@, dec(duration as nat)) + comma()
        + member("x_booster_amount"@, json_amount(extra_x_booster_amount as nat)) + comma()
        + member("total_booster_amount"@, json_amount(booster_staking.staked_booster_amount as nat)) + comma()
        + member("total_x_booster_amount"@, json_amount(booster_staking.x_booster_amount as nat))
        + seq!['}']);
    log_event("booster_stake", &out)
}

/// An unstake of all booster tokens.
pub fn booster_unstake(account_id: &AccountId, booster_token_id: &AccountId, booster_staking: &BoosterStaking) -> (line: String)
    ensures
        line@ == event_line(
            "booster_unstake"@,
            seq!['{'] + member("account_id"@, json_string(account_id@)) + comma()
                + member("booster_token_id"@, json_string(booster_token_id@)) + comma()
                + member("total_booster_amount"@, json_amount(booster_staking.staked_booster_amount as nat)) + comma()
                + member("total_x_booster_amount"@, json_amount(booster_staking.x_booster_amount as nat))
                + seq!['}'],
        ),
{
    let mut out = String::new();
    string_push(&mut out, '{');
    push_member_str(&mut out, "account_id", account_id.as_str());
    push_comma(&mut out);
    push_member_str(&mut out, "booster_token_id", booster_token_id.as_str());
    push_comma(&mut out);
    push_member_amount(&mut out, "total_booster_amount", booster_staking.staked_booster_amount);
    push_comma(&mut out);
    push_member_amount(&mut out, "total_x_booster_amount", booster_staking.x_booster_amount);
    string_push(&mut out, '}');
    assert(out@ =~= seq!['{'] + member("account_id"@, json_string(account_id@)) + comma()
        + member("booster_token_id"@, json_string(booster_token_id@)) + comma()
        + member("total_booster_amount"@, json_amount(booster_staking.staked_booster_amount as nat)) + comma()
        + member("total_x_booster_amount"@, json_amount(booster_staking.x_booster_amount as nat))
        + seq!['}']);
    log_event("booster_unstake", &out)
}

/// The owner claims protocol fees.
pub fn claim_prot_fee(account_id: &AccountId, amount: Balance, token_id: &TokenId) -> (line: String)
    ensures
        line@ == event_line("claim_prot_fee"@, account_amount_token(account_id@, amount as nat, token_id@)),
{
    account_amount_token_event("claim_prot_fee", account_id, amount, token_id)
}

/// The reserve grows.
pub fn increase_reserved(account_id: &AccountId, amount: Balance, token_id: &TokenId) -> (line: String)
    ensures
        line@ == event_line("increase_reserved"@, account_amount_token(account_id@, amount as nat, token_id@)),
{
    account_amount_token_event("increase_reserved", account_id, amount, token_id)
}

/// The reserve shrinks.
pub fn decrease_reserved(account_id: &AccountId, amount: Balance, token_id: &TokenId) -> (line: String)
    ensures
        line@ == event_line("decrease_reserved"@, account_amount_token(account_id@, amount as nat, token_id@)),
{
    account_amount_token_event("decrease_reserved", account_id, amount, token_id)
}

/// A margin-account withdrawal whose transfer starts.
pub fn margin_asset_withdraw_started(account_id: &AccountId, amount: Balance, token_id: &TokenId) -> (line: String)
    ensures
        line@ == event_line(
            "withdraw_started_margin_asset"@,
            account_amount_token(account_id@, amount as nat, token_id@),
        ),
{
    account_amount_token_event("withdraw_started_margin_asset", account_id, amount, token_id)
}

/// A margin-account withdrawal whose transfer failed.
pub fn margin_asset_withdraw_failed(account_id: &AccountId, amount: Balance, token_id: &TokenId) -> (line: String)
    ensures
        line@ == event_line(
            "withdraw_failed_margin_asset"@,
            account_amount_token(account_id@, amount as nat, token_id@),
        ),
{
    account_amount_token_event("withdraw_failed_margin_asset", account_id, amount, token_id)
}

/// A margin-account withdrawal whose transfer succeeded.
pub fn margin_asset_withdraw_succeeded(account_id: &AccountId, amount: Balance, token_id: &TokenId) -> (line: String)
    ensures
        line@ == event_line(
            "withdraw_succeeded_margin_asset"@,
            account_amount_token(account_id@, amount as nat, token_id@),
        ),
{
    account_amount_token_event("withdraw_succeeded_margin_asset", account_id, amount, token_id)
}

/// A margin position starts to open.
pub fn margin_open_started(data: EventDataMarginOpen) -> (line: String)
    ensures
        line@ == event_line("margin_open_started"@, margin_open_json(data)),
{
    let mut out = String::new();
    string_push(&mut out, '{');
    push_member_str(&mut out, "account_id", data.account_id.as_str());
    push_comma(&mut out);
    push_member_str(&mut out, "pos_id", data.pos_id.as_str());
    push_comma(&mut out);
    push_member_str(&mut out, "token_c_id", data.token_c_id.as_str());
    push_comma(&mut out);
    push_member_amount(&mut out, "token_c_amount", data.token_c_amount);
    push_comma(&mut out);
    push_member_amount(&mut out, "token_c_shares", data.token_c_shares);
    push_comma(&mut out);
    push_member_str(&mut out, "token_d_id", data.token_d_id.as_str());
    push_comma(&mut out);
    push_member_amount(&mut out, "token_d_amount", data.token_d_amount);
    push_comma(&mut out);
    push_member_str(&mut out, "token_p_id", data.token_p_id.as_str());
    push_comma(&mut out);
    push_member_amount(&mut out, "token_p_amount", data.token_p_amount);
    string_push(&mut out, '}');
    assert(out@ =~= margin_open_json(data));
    log_event("margin_open_started", &out)
}

/// A margin position failed to open.
pub fn margin_open_failed(account_id: &AccountId, pos_id: &String) -> (line: String)
    ensures
        line@ == event_line("margin_open_failed"@, account_pos(account_id@, pos_id@)),
{
    account_pos_event("margin_open_failed", account_id, pos_id)
}

/// A margin position was opened.
pub fn margin_open_succeeded(data: EventDataMarginOpenResult) -> (line: String)
    ensures
        line@ == event_line("margin_open_succeeded"@, margin_open_result_json(data)),
{
    let mut out = String::new();
    string_push(&mut out, '{');
    push_member_str(&mut out, "account_id", data.account_id.as_str());
    push_comma(&mut out);
    push_member_str(&mut out, "pos_id", data.pos_id.as_str());
    push_comma(&mut out);
    push_member_str(&mut out, "token_c_id", data.token_c_id.as_str());
    push_comma(&mut out);
    push_member_amount(&mut out, "token_c_shares", data.token_c_shares);
    push_comma(&mut out);
    push_member_str(&mut out, "token_d_id", data.token_d_id.as_str());
    push_comma(&mut out);
    push_member_amount(&mut out, "token_d_amount", data.token_d_amount);
    push_comma(&mut out);
    push_member_amount(&mut out, "token_d_shares", data.token_d_shares);
    push_comma(&mut out);
    push_member_str(&mut out, "token_p_id", data.token_p_id.as_str());
    push_comma(&mut out);
    push_member_amount(&mut out, "token_p_amount", data.token_p_amount);
    push_comma(&mut out);
    push_member_amount(&mut out, "open_fee", data.open_fee);
    string_push(&mut out, '}');
    assert(out@ =~= margin_open_result_json(data));
    log_event("margin_open_succeeded", &out)
}

/// A margin position starts to decrease; `event_id` names the kind of decrease.
pub fn margin_decrease_started(event_id: &str, data: EventDataMarginDecrease) -> (line: String)
    ensures
        line@ == event_line(event_id@, margin_decrease_json(data)),
{
    let mut out = String::new();
    string_push(&mut out, '{');
    push_member_str(&mut out, "account_id", data.account_id.as_str());
    push_comma(&mut out);
    push_member_str(&mut out, "pos_id", data.pos_id.as_str());
    push_comma(&mut out);
    push_member_opt_str(&mut out, "liquidator_id", &data.liquidator_id);
    push_comma(&mut out);
    push_member_str(&mut out, "token_p_id", data.token_p_id.as_str());
    push_comma(&mut out);
    push_member_amount(&mut out, "token_p_amount", data.token_p_amount);
    push_comma(&mut out);
    push_member_str(&mut out, "token_d_id", data.token_d_id.as_str());
    push_comma(&mut out);
    push_member_amount(&mut out, "token_d_amount", data.token_d_amount);
    string_push(&mut out, '}');
    assert(out@ =~= margin_decrease_json(data));
    log_event(event_id, &out)
}

/// A margin position failed to decrease.
pub fn margin_decrease_failed(account_id: &AccountId, pos_id: &String) -> (line: String)
    ensures
        line@ == event_line("margin_decrease_failed"@, account_pos(account_id@, pos_id@)),
{
    account_pos_event("margin_decrease_failed", account_id, pos_id)
}

/// A margin position was decreased by an operation of kind `op_id`
/// (`decrease`, `close`, `liquidate`, `forceclose`, or another name, which is
/// announced as itself).
pub fn margin_decrease_succeeded(op_id: &str, data: EventDataMarginDecreaseResult) -> (line: String)
    ensures
        line@ == event_line(decrease_event_name(op_id@), margin_decrease_result_json(data)),
{
    let ghost op = op_id@;
    let event_id: &str = if str_eq(op_id, "decrease") {
        "margin_decrease_succeeded"
    } else if str_eq(op_id, "close") {
        "margin_close_succeeded"
    } else if str_eq(op_id, "liquidate") {
        "margin_liquidate_succeeded"
    } else if str_eq(op_id, "forceclose") {
        "margin_forceclose_succeeded"
    } else {
        op_id
    };
    assert(event_id@ == decrease_event_name(op));
    let mut out = String::new();
    string_push(&mut out, '{');
    push_member_str(&mut out, "account_id", data.account_id.as_str());
    push_comma(&mut out);
    push_member_str(&mut out, "pos_id", data.pos_id.as_str());
    push_comma(&mut out);
    push_member_opt_str(&mut out, "liquidator_id", &data.liquidator_id);
    push_comma(&mut out);
    push_member_str(&mut out, "token_c_id", data.token_c_id.as_str());
    push_comma(&mut out);
    push_member_amount(&mut out, "token_c_shares", data.token_c_shares);
    push_comma(&mut out);
    push_member_str(&mut out, "token_d_id", data.token_d_id.as_str());
    push_comma(&mut out);
    push_member_amount(&mut out, "token_d_shares", data.token_d_shares);
    push_comma(&mut out);
    push_member_str(&mut out, "token_p_id", data.token_p_id.as_str());
    push_comma(&mut out);
    push_member_amount(&mut out, "token_p_amount", data.token_p_amount);
    push_comma(&mut out);
    push_member_amount(&mut out, "holding_fee", data.holding_fee);
    string_push(&mut out, '}');
    assert(out@ =~= margin_decrease_result_json(data));
    log_event(event_id, &out)
}

/// How the interest of an asset was divided.
pub fn fee_detail(detail: FeeDetail) -> (line: String)
    ensures
        line@ == event_line("fee_detail"@, fee_detail_json(detail)),
{
    let mut out = String::new();
    string_push(&mut out, '{');
    push_member_str(&mut out, "fee_type", detail.fee_type.as_str());
    push_comma(&mut out);
    push_member_str(&mut out, "token_id", detail.token_id.as_str());
    push_comma(&mut out);
    push_member_amount(&mut out, "interest", detail.interest);
    push_comma(&mut out);
    push_member_amount(&mut out, "reserved", detail.reserved);
    push_comma(&mut out);
    push_member_amount(&mut out, "prot_fee", detail.prot_fee);
    string_push(&mut out, '}');
    assert(out@ =~= fee_detail_json(detail));
    log_event("fee_detail", &out)
}

/// The protocol takes on a debt.
pub fn new_protocol_debts(token_id: &AccountId, amount: u128) -> (line: String)
    ensures
        line@ == event_line("new_protocol_debts"@, token_amount(token_id@, amount as nat)),
{
    token_amount_event("new_protocol_debts", token_id, amount)
}

/// The protocol pays back a debt.
pub fn repay_protocol_debts(token_id: &AccountId, amount: u128) -> (line: String)
    ensures
        line@ == event_line("repay_protocol_debts"@, token_amount(token_id@, amount as nat)),
{
    token_amount_event("repay_protocol_debts", token_id, amount)
}

/// A force close left the protocol with a loss.
pub fn forceclose_protocol_loss(token_id: &AccountId, amount: u128) -> (line: String)
    ensures
        line@ == event_line("forceclose_protocol_loss"@, token_amount(token_id@, amount as nat)),
{
    token_amount_event("forceclose_protocol_loss", token_id, amount)
}

/// The benefits of a settled margin position credited to an account.
pub fn margin_benefits(account_id: &AccountId, updates: &MarginAccountUpdates) -> (line: String)
    ensures
        line@ == event_line(
            "margin_benefits"@,
            seq!['{'] + member("account_id"@, json_string(account_id@)) + comma()
                + member("token_c_id"@, json_string(updates.token_c_update.0@)) + comma()
                + member("token_c_shares"@, json_amount(updates.token_c_update.1 as nat)) + comma()
                + member("token_d_id"@, json_string(updates.token_d_update.0@)) + comma()
                + member("token_d_shares"@, json_amount(updates.token_d_update.1 as nat)) + comma()
                + member("token_p_id"@, json_string(updates.token_p_update.0@)) + comma()
                + member("token_p_shares"@, json_amount(updates.token_p_update.1 as nat))
                + seq!['}'],
        ),
{
    let mut out = String::new();
    string_push(&mut out, '{');
    push_member_str(&mut out, "account_id", account_id.as_str());
    push_comma(&mut out);
    push_member_str(&mut out, "token_c_id", updates.token_c_update.0.as_str());
    push_comma(&mut out);
    push_member_amount(&mut out, "token_c_shares", updates.token_c_update.1);
    push_comma(&mut out);
    push_member_str(&mut out, "token_d_id", updates.token_d_update.0.as_str());
    push_comma(&mut out);
    push_member_amount(&mut out, "token_d_shares", updates.token_d_update.1);
    push_comma(&mut out);
    push_member_str(&mut out, "token_p_id", updates.token_p_update.0.as_str());
    push_comma(&mut out);
    push_member_amount(&mut out, "token_p_shares", updates.token_p_update.1);
    string_push(&mut out, '}');
    assert(out@ =~= seq!['{'] + member("account_id"@, json_string(account_id@)) + comma()
        + member("token_c_id"@, json_string(updates.token_c_update.0@)) + comma()
        + member("token_c_shares"@, json_amount(updates.token_c_update.1 as nat)) + comma()
        + member("token_d_id"@, json_string(updates.token_d_update.0@)) + comma()
        + member("token_d_shares"@, json_amount(updates.token_d_update.1 as nat)) + comma()
        + member("token_p_id"@, json_string(updates.token_p_update.0@)) + comma()
        + member("token_p_shares"@, json_amount(updates.token_p_update.1 as nat))
        + seq!['}']);
    log_event("margin_benefits", &out)
}

/// The record of a direct liquidation of a margin position.
pub open spec fn liquidate_direct_json(
    account_id: Seq<char>,
    liquidator_id: Seq<char>,
    pos_id: Seq<char>,
    repay_token_d_id: Seq<char>,
    repay_token_d_shares: nat,
    claim_token_c_id: Seq<char>,
    claim_token_c_shares: nat,
    claim_token_p_id: Seq<char>,
    claim_token_p_shares: nat,
) -> Seq<char> {
    seq!['{'] + member("account_id"@, json_string(account_id)) + comma()
        + member("liquidator_id"@, json_string(liquidator_id)) + comma()
        + member("pos_id"@, json_string(pos_id)) + comma()
        + member("repay_token_d_id"@, json_string(repay_token_d_id)) + comma()
        + member("repay_token_d_shares"@, json_amount(repay_token_d_shares)) + comma()
        + member("claim_token_c_id"@, json_string(claim_token_c_id)) + comma()
        + member("claim_token_c_shares"@, json_amount(claim_token_c_shares)) + comma()
        + member("claim_token_p_id"@, json_string(claim_token_p_id)) + comma()
        + member("claim_token_p_shares"@, json_amount(claim_token_p_shares)) + seq!['}']
}

/// A margin position was liquidated directly: the liquidator repaid its
/// debt and claimed its collateral and position tokens.
pub fn margin_liquidate_direct(
    account_id: &AccountId,
    liquidator_id: &AccountId,
    pos_id: &String,
    repay_token_d_id: &TokenId,
    repay_token_d_shares: &u128,
    claim_token_c_id: &TokenId,
    claim_token_c_shares: &u128,
    claim_token_p_id: &TokenId,
    claim_token_p_shares: &u128,
) -> (line: String)
    ensures
        line@ == event_line(
            "margin_liquidate_direct"@,
            liquidate_direct_json(
                account_id@,
                liquidator_id@,
                pos_id@,
                repay_token_d_id@,
                *repay_token_d_shares as nat,
                claim_token_c_id@,
                *claim_token_c_shares as nat,
                claim_token_p_id@,
                *claim_token_p_shares as nat,
            ),
        ),
{
    let mut out = String::new();
    string_push(&mut out, '{');
    push_member_str(&mut out, "account_id", account_id.as_str());
    push_comma(&mut out);
    push_member_str(&mut out, "liquidator_id", liquidator_id.as_str());
    push_comma(&mut out);
    push_member_str(&mut out, "pos_id", pos_id.as_str());
    push_comma(&mut out);
    push_member_str(&mut out, "repay_token_d_id", repay_token_d_id.as_str());
    push_comma(&mut out);
    push_member_amount(&mut out, "repay_token_d_shares", *repay_token_d_shares);
    push_comma(&mut out);
    push_member_str(&mut out, "claim_token_c_id", claim_token_c_id.as_str());
    push_comma(&mut out);
    push_member_amount(&mut out, "claim_token_c_shares", *claim_token_c_shares);
    push_comma(&mut out);
    push_member_str(&mut out, "claim_token_p_id", claim_token_p_id.as_str());
    push_comma(&mut out);
    push_member_amount(&mut out, "claim_token_p_shares", *claim_token_p_shares);
    string_push(&mut out, '}');
    assert(out@ =~= liquidate_direct_json(
        account_id@,
        liquidator_id@,
        pos_id@,
        repay_token_d_id@,
        *repay_token_d_shares as nat,
        claim_token_c_id@,
        *claim_token_c_shares as nat,
        claim_token_p_id@,
        *claim_token_p_shares as nat,
    ));
    log_event("margin_liquidate_direct", &out)
}

/// A beneficiary's share was set.
pub fn upsert_beneficiary(token_id: &AccountId, account_id: &AccountId, old_bps: Option<u32>, new_bps: u32) -> (line: String)
    ensures
        line@ == event_line(
            "upsert_beneficiary"@,
            seq!['{'] + member("token_id"@, json_string(token_id@)) + comma()
                + member("account_id"@, json_string(account_id@)) + comma()
                + member(
                "old_bps"@,
                json_opt_number(
                    match old_bps {
                        Some(v) => Some(v as nat),
                        None => None,
                    },
                ),
            ) + comma() + member("new_bps"@, dec(new_bps as nat)) + seq!['}'],
        ),
{
    let mut out = String::new();
    string_push(&mut out, '{');
    push_member_str(&mut out, "token_id", token_id.as_str());
    push_comma(&mut out);
    push_member_str(&mut out, "account_id", account_id.as_str());
    push_comma(&mut out);
    push_member_opt_number(&mut out, "old_bps", old_bps);
    push_comma(&mut out);
    push_member_number(&mut out, "new_bps", new_bps);
    string_push(&mut out, '}');
    let line = log_event("upsert_beneficiary", &out);
    assert(out@ =~= seq!['{'] + member("token_id"@, json_string(token_id@)) + comma()
        + member("account_id"@, json_string(account_id@)) + comma()
        + member(
        "old_bps"@,
        json_opt_number(
            match old_bps {
                Some(v) => Some(v as nat),
                None => None,
            },
        ),
    ) + comma() + member("new_bps"@, dec(new_bps as nat)) + seq!['}']);
    line
}

/// A beneficiary was removed.
pub fn remove_beneficiary(token_id: &AccountId, account_id: &AccountId, bps: u32) -> (line: String)
    ensures
        line@ == event_line(
            "remove_beneficiary"@,
            seq!['{'] + member("token_id"@, json_string(token_id@)) + comma()
                + member("account_id"@, json_string(account_id@)) + comma() + member("bps"@, dec(bps as nat))
                + seq!['}'],
        ),
{
    let mut out = String::new();
    string_push(&mut out, '{');
    push_member_str(&mut out, "token_id", token_id.as_str());
    push_comma(&mut out);
    push_member_str(&mut out, "account_id", account_id.as_str());
    push_comma(&mut out);
    push_member_number(&mut out, "bps", bps);
    string_push(&mut out, '}');
    assert(out@ =~= seq!['{'] + member("token_id"@, json_string(token_id@)) + comma()
        + member("account_id"@, json_string(account_id@)) + comma() + member("bps"@, dec(bps as nat))
        + seq!['}']);
    log_event("remove_beneficiary", &out)
}

/// A beneficiary's fee withdrawal starts.
pub fn withdraw_beneficiary_fee_started(account_id: &AccountId, amount: Balance, token_id: &TokenId) -> (line: String)
    ensures
        line@ == event_line(
            "withdraw_beneficiary_fee_started"@,
            account_amount_token(account_id@, amount as nat, token_id@),
        ),
{
    account_amount_token_event("withdraw_beneficiary_fee_started", account_id, amount, token_id)
}

/// A beneficiary's fee withdrawal failed.
pub fn withdraw_beneficiary_fee_failed(account_id: &AccountId, amount: Balance, token_id: &TokenId) -> (line: String)
    ensures
        line@ == event_line(
            "withdraw_beneficiary_fee_failed"@,
            account_amount_token(account_id@, amount as nat, token_id@),
        ),
{
    account_amount_token_event("withdraw_beneficiary_fee_failed", account_id, amount, token_id)
}

/// A beneficiary's fee withdrawal succeeded.
pub fn withdraw_beneficiary_fee_succeeded(account_id: &AccountId, amount: Balance, token_id: &TokenId) -> (line: String)
    ensures
        line@ == event_line(
            "withdraw_beneficiary_fee_succeeded"@,
            account_amount_token(account_id@, amount as nat, token_id@),
        ),
{
    account_amount_token_event("withdraw_beneficiary_fee_succeeded", account_id, amount, token_id)
}

} // verus!
