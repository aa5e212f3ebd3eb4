//! Decreasing a margin position: the checks on the position, the swap to
//! perform, the debt it leaves and, for a liquidation or a forced close, the
//! position's health at the prices; then the position tokens to trade leave
//! the position (with collateral of the position token where they do not
//! suffice), and the position is locked until the trade returns.

use vstd::prelude::*;
use crate::account_map::AccountMap;
use crate::asset::Asset;
use crate::big_decimal::{lemma_pow10_monotone, pow10, value_raw, balance_in_price_raw, balance_in_price_ok};
use crate::events::EventDataMarginDecrease;
use crate::lending::pow10_u128;
use crate::margin_account::MarginAccount;
use crate::margin_base_token_limit::MarginBaseTokenLimit;
use crate::margin_health::{
    DecreaseError, price_ok, buffer_ok, spec_liquidatable, mtp_cap, mtp_owed, debt_and_fee_ok,
    spec_decrease_refusal, check_decrease_debt, traded_out, trade_out_ok, take_position_tokens_for_trade,
    is_min_amount_out_reasonable, is_mt_liquidatable, is_mt_forcecloseable,
};
use crate::margin_open::{swap_ok, token_in_ok, token_out_ok};
use crate::margin_position::MarginTradingPosition;
use crate::margin_trading::{DecreaseOperation, SwapDetail, debt_amount, holding_fee};
use crate::pool::spec_amount_to_shares;
use crate::prices::{Price, Prices};
use crate::utils::{AccountId, Balance};

verus! {

/// Why decreasing a margin position was refused.
#[derive(Clone, Copy, PartialEq, Eq, Debug)]
pub enum MarginDecreaseError {
    /// The account holds no position of that id.
    PositionNotFound,
    /// The position waits for the result of a trade.
    Locked,
    /// A token of the position has no asset.
    AssetNotFound,
    /// The swap does not spend the position tokens.
    TokenInMismatch,
    /// The swap does not ask for the least debt amount.
    TokenOutMismatch,
    /// A token of the position has no price.
    PriceNotFound,
    /// The least debt amount is too low for the position tokens at the prices.
    MinAmountTooLow,
    /// The debt the trade leaves is refused (see `spec_decrease_refusal`).
    Debt(DecreaseError),
    /// A liquidation of a position that is not liquidatable.
    NotLiquidatable,
    /// A forced close of a position that still covers what it owes.
    NotForcecloseable,
    /// There are not enough position tokens to trade (see `traded_out`).
    Trade(DecreaseError),
}

/// The slippage allowed to a swap of the operation.
pub open spec fn slippage_rate(mbtl: MarginBaseTokenLimit, op: DecreaseOperation) -> u32 {
    if op is ForceClose { mbtl.max_forceclose_slippage_rate } else { mbtl.max_common_slippage_rate }
}

/// The operation judges the position's health.
pub open spec fn checks_health(op: DecreaseOperation) -> bool {
    op is Liquidate || op is ForceClose
}

/// Why decreasing position `mt` by trading `token_p_amount` of its position
/// tokens for at least `min_token_d_amount` of its debt token would be
/// refused, if at all, once the position was found unlocked: the first check
/// that fails, in the order they are made.
pub open spec fn decrease_refusal(mt: MarginTradingPosition, assets: Map<Seq<char>, Asset>, mbtl: MarginBaseTokenLimit,
    prices: Map<Seq<char>, Price>, token_p_amount: nat, min_token_d_amount: nat, swap: SwapDetail, op: DecreaseOperation)
    -> Option<MarginDecreaseError>
{
    let (c, d, p) = (mt.token_c_id@, mt.token_d_id@, mt.token_p_id@);
    let ad = assets[d];
    let ap = assets[p];
    let amount_out = balance_in_price_raw(value_raw(token_p_amount, prices[p], ap.config.extra_decimals), prices[d],
        ad.config.extra_decimals);
    let refusal = spec_decrease_refusal(op, mt, ad, min_token_d_amount);
    if !(assets.contains_key(p) && assets.contains_key(d)) {
        Some(MarginDecreaseError::AssetNotFound)
    } else if !token_in_ok(swap, p, token_p_amount / pow10(ap.config.extra_decimals as nat)) {
        Some(MarginDecreaseError::TokenInMismatch)
    } else if op is Decrease && refusal is Some {
        Some(MarginDecreaseError::Debt(refusal.unwrap()))
    } else if !token_out_ok(swap, d, min_token_d_amount / pow10(ad.config.extra_decimals as nat)) {
        Some(MarginDecreaseError::TokenOutMismatch)
    } else if !(prices.contains_key(p) && prices.contains_key(d)) {
        Some(MarginDecreaseError::PriceNotFound)
    } else if !(min_token_d_amount >= amount_out - amount_out * (slippage_rate(mbtl, op) as nat) / 10000) {
        Some(MarginDecreaseError::MinAmountTooLow)
    } else if refusal is Some {
        Some(MarginDecreaseError::Debt(refusal.unwrap()))
    } else if checks_health(op) && !assets.contains_key(c) {
        Some(MarginDecreaseError::AssetNotFound)
    } else if checks_health(op) && !prices.contains_key(c) {
        Some(MarginDecreaseError::PriceNotFound)
    } else if op is Liquidate && !spec_liquidatable(mtp_cap(mt, assets[c], prices[c], ap, prices[p]),
        mtp_owed(mt, ad, prices[d]), mbtl.min_safety_buffer as nat) {
        Some(MarginDecreaseError::NotLiquidatable)
    } else if op is ForceClose && !(mtp_cap(mt, assets[c], prices[c], ap, prices[p]) < mtp_owed(mt, ad, prices[d])) {
        Some(MarginDecreaseError::NotForcecloseable)
    } else if traded_out(mt, ap, token_p_amount) is Err {
        Some(MarginDecreaseError::Trade(traded_out(mt, ap, token_p_amount)->Err_0))
    } else {
        None
    }
}

/// The arithmetic of decreasing stays within bounds wherever it gets that
/// far (the contract panics otherwise).
pub open spec fn decrease_fits(mt: MarginTradingPosition, assets: Map<Seq<char>, Asset>, mbtl: MarginBaseTokenLimit,
    prices: Map<Seq<char>, Price>, token_p_amount: nat, min_token_d_amount: nat, swap: SwapDetail, op: DecreaseOperation)
    -> bool
{
    let (c, d, p) = (mt.token_c_id@, mt.token_d_id@, mt.token_p_id@);
    assets.contains_key(p) && assets.contains_key(d) ==> {
        let ad = assets[d];
        let ap = assets[p];
        &&& ad.config.extra_decimals <= 38
        &&& ap.config.extra_decimals <= 38
        &&& swap_ok(swap)
        &&& debt_and_fee_ok(mt, ad)
        &&& (op is Close || op is Liquidate) && c == d && min_token_d_amount < debt_amount(mt, ad) + holding_fee(mt, ad)
            ==> spec_amount_to_shares(ad.supplied.shares as nat, ad.supplied.balance as nat,
                (debt_amount(mt, ad) + holding_fee(mt, ad) - min_token_d_amount) as nat, true) <= u128::MAX
        &&& trade_out_ok(mt, ap, token_p_amount)
        &&& (prices.contains_key(p) && prices.contains_key(d) ==> {
            let vp = value_raw(token_p_amount, prices[p], ap.config.extra_decimals);
            let amount_out = balance_in_price_raw(vp, prices[d], ad.config.extra_decimals);
            &&& price_ok(prices[p], ap.config.extra_decimals)
            &&& price_ok(prices[d], ad.config.extra_decimals)
            &&& balance_in_price_ok(vp, prices[d], ad.config.extra_decimals)
            &&& amount_out * (slippage_rate(mbtl, op) as nat) / 10000 <= amount_out
            &&& (checks_health(op) && assets.contains_key(c) && prices.contains_key(c) ==> {
                &&& price_ok(prices[c], assets[c].config.extra_decimals)
                &&& buffer_ok(mtp_cap(mt, assets[c], prices[c], ap, prices[p]), mtp_owed(mt, ad, prices[d]),
                    mbtl.min_safety_buffer as nat)
            })
        })
    }
}

/// A copy of `mt`.
fn copy_position(mt: &MarginTradingPosition) -> (r: MarginTradingPosition)
    ensures
        r == *mt,
{
    MarginTradingPosition {
        open_ts: mt.open_ts,
        uahpi_at_open: mt.uahpi_at_open,
        debt_cap: mt.debt_cap,
        token_c_id: mt.token_c_id.clone(),
        token_c_shares: mt.token_c_shares,
        token_d_id: mt.token_d_id.clone(),
        token_d_shares: mt.token_d_shares,
        token_p_id: mt.token_p_id.clone(),
        token_p_amount: mt.token_p_amount,
        is_locking: mt.is_locking,
    }
}

/// What decreasing the position `pos_id` did (see
/// `decrease_margin_position`): refused when the account holds no such
/// position, when it is locked, or as `decrease_refusal` says, changing
/// nothing; or the position tokens left the position for the trade.
pub open spec fn decrease_done(account: MarginAccount, assets: AccountMap<Asset>, mbtl: MarginBaseTokenLimit,
    prices: Map<Seq<char>, Price>, pos_id: Seq<char>, token_p_amount: Balance, min_token_d_amount: Balance,
    swap_detail: SwapDetail, op: DecreaseOperation, liquidator_id: Option<AccountId>,
    r: Result<EventDataMarginDecrease, MarginDecreaseError>, account2: MarginAccount, assets2: AccountMap<Asset>) -> bool
{
    let positions = account.margin_positions@;
    let mt = positions[pos_id];
    let refusal = if !positions.contains_key(pos_id) {
        Some(MarginDecreaseError::PositionNotFound)
    } else if mt.is_locking {
        Some(MarginDecreaseError::Locked)
    } else {
        decrease_refusal(mt, assets@, mbtl, prices, token_p_amount as nat, min_token_d_amount as nat, swap_detail, op)
    };
    &&& account2.wf()
    &&& assets2.wf()
    &&& account2.account_id == account.account_id
    &&& account2.supplied == account.supplied
    &&& match r {
        Err(e) => refusal == Some(e) && account2.margin_positions@ == positions && assets2@ == assets@,
        Ok(ev) => {
            let (m, a) = traded_out(mt, assets@[mt.token_p_id@], token_p_amount as nat)->Ok_0;
            &&& refusal is None
            &&& account2.margin_positions@ == positions.insert(pos_id, m)
            &&& assets2@ == assets@.insert(mt.token_p_id@, a)
            &&& ev.pos_id@ == pos_id
            &&& ev == (EventDataMarginDecrease {
                account_id: account.account_id,
                pos_id: ev.pos_id,
                liquidator_id,
                token_p_id: mt.token_p_id,
                token_p_amount,
                token_d_id: mt.token_d_id,
                token_d_amount: min_token_d_amount,
            })
        },
    }
}

/// Decreases the position `pos_id` of `account` by operation `op`:
/// `token_p_amount` of its position tokens are to be swapped by
/// `swap_detail` for at least `min_token_d_amount` of its debt token. `mbtl`
/// holds the limits of the position's base token. Refused when the account
/// holds no such position, when it is locked, or as `decrease_refusal` says,
/// with everything left as it was; otherwise the position tokens leave the
/// position as `traded_out` says, the position is locked until the trade
/// returns, and the event of the decrease is returned.
#[verifier::rlimit(60)]
pub fn decrease_margin_position(
    account: &mut MarginAccount,
    assets: &mut AccountMap<Asset>,
    mbtl: &MarginBaseTokenLimit,
    prices: &Prices,
    pos_id: &String,
    token_p_amount: Balance,
    min_token_d_amount: Balance,
    swap_detail: &SwapDetail,
    op: DecreaseOperation,
    liquidator_id: Option<AccountId>,
) -> (r: Result<EventDataMarginDecrease, MarginDecreaseError>)
    requires
        old(account).wf(),
        old(assets).wf(),
        prices.prices.wf(),
        old(account).margin_positions@.contains_key(pos_id@) ==> decrease_fits(old(account).margin_positions@[pos_id@],
            old(assets)@, *mbtl, prices.prices@, token_p_amount as nat, min_token_d_amount as nat, *swap_detail, op),
    ensures
        decrease_done(*old(account), *old(assets), *mbtl, prices.prices@, pos_id@, token_p_amount, min_token_d_amount,
            *swap_detail, op, liquidator_id, r, *final(account), *final(assets)),
{
    let mut mt = match account.margin_positions.get_ref(pos_id) {
        Some(m) => copy_position(m),
        None => { return Err(MarginDecreaseError::PositionNotFound); },
    };
    if mt.is_locking {
        return Err(MarginDecreaseError::Locked);
    }
    let asset_p = match assets.get_ref(&mt.token_p_id) {
        Some(a) => a,
        None => { return Err(MarginDecreaseError::AssetNotFound); },
    };
    let asset_d = match assets.get_ref(&mt.token_d_id) {
        Some(a) => a,
        None => { return Err(MarginDecreaseError::AssetNotFound); },
    };
    proof {
        lemma_pow10_monotone(0, asset_p.config.extra_decimals as nat);
        lemma_pow10_monotone(0, asset_d.config.extra_decimals as nat);
    }
    let ft_p_amount = token_p_amount / pow10_u128(asset_p.config.extra_decimals);
    if !swap_detail.verify_token_in(&mt.token_p_id, ft_p_amount) {
        return Err(MarginDecreaseError::TokenInMismatch);
    }
    if let DecreaseOperation::Decrease = op {
        match check_decrease_debt(op, &mt, asset_d, min_token_d_amount) {
            Ok(()) => {},
            Err(e) => { return Err(MarginDecreaseError::Debt(e)); },
        }
    }
    let ft_d_amount = min_token_d_amount / pow10_u128(asset_d.config.extra_decimals);
    if !swap_detail.verify_token_out(&mt.token_d_id, ft_d_amount) {
        return Err(MarginDecreaseError::TokenOutMismatch);
    }
    let price_p = match prices.prices.get(&mt.token_p_id) {
        Some(pr) => pr,
        None => { return Err(MarginDecreaseError::PriceNotFound); },
    };
    let price_d = match prices.prices.get(&mt.token_d_id) {
        Some(pr) => pr,
        None => { return Err(MarginDecreaseError::PriceNotFound); },
    };
    let slippage = if let DecreaseOperation::ForceClose = op {
        mbtl.max_forceclose_slippage_rate
    } else {
        mbtl.max_common_slippage_rate
    };
    if !is_min_amount_out_reasonable(token_p_amount, asset_p, &price_p, asset_d, &price_d, min_token_d_amount, slippage) {
        return Err(MarginDecreaseError::MinAmountTooLow);
    }
    match check_decrease_debt(op, &mt, asset_d, min_token_d_amount) {
        Ok(()) => {},
        Err(e) => { return Err(MarginDecreaseError::Debt(e)); },
    }
    match op {
        DecreaseOperation::Liquidate | DecreaseOperation::ForceClose => {
            let asset_c = match assets.get_ref(&mt.token_c_id) {
                Some(a) => a,
                None => { return Err(MarginDecreaseError::AssetNotFound); },
            };
            let price_c = match prices.prices.get(&mt.token_c_id) {
                Some(pr) => pr,
                None => { return Err(MarginDecreaseError::PriceNotFound); },
            };
            if let DecreaseOperation::Liquidate = op {
                if !is_mt_liquidatable(&mt, asset_c, &price_c, asset_d, &price_d, asset_p, &price_p, mbtl.min_safety_buffer) {
                    return Err(MarginDecreaseError::NotLiquidatable);
                }
            } else {
                if !is_mt_forcecloseable(&mt, asset_c, &price_c, asset_d, &price_d, asset_p, &price_p) {
                    return Err(MarginDecreaseError::NotForcecloseable);
                }
            }
        },
        _ => {},
    }
    let ghost assets_before = assets@;
    let mut traded_asset = match assets.remove(&mt.token_p_id) {
        Some(a) => a,
        None => { return Err(MarginDecreaseError::AssetNotFound); },
    };
    let taken = take_position_tokens_for_trade(&mut mt, &mut traded_asset, token_p_amount);
    assets.insert(&mt.token_p_id, traded_asset);
    match taken {
        Ok(()) => {},
        Err(e) => {
            proof { assert(assets@ =~= assets_before); }
            return Err(MarginDecreaseError::Trade(e));
        },
    }
    proof { assert(assets@ =~= assets_before.insert(mt.token_p_id@, assets@[mt.token_p_id@])); }
    account.margin_positions.insert(pos_id, copy_position(&mt));
    let ev = EventDataMarginDecrease {
        account_id: account.account_id.clone(),
        pos_id: pos_id.clone(),
        liquidator_id,
        token_p_id: mt.token_p_id,
        token_p_amount,
        token_d_id: mt.token_d_id,
        token_d_amount: min_token_d_amount,
    };
    Ok(ev)
}

/// A decrease is judged by the slippage limit of its operation: a forced
/// close by `max_forceclose_slippage_rate`, every other operation by
/// `max_common_slippage_rate`. It is refused as asking too little exactly
/// below what the position tokens traded are worth in the debt token at the
/// prices, less that slippage; an accepted decrease asks at least that.
pub proof fn lemma_decrease_slippage_by_operation(account: MarginAccount, assets: AccountMap<Asset>,
    mbtl: MarginBaseTokenLimit, prices: Map<Seq<char>, Price>, pos_id: Seq<char>, token_p_amount: Balance,
    min_token_d_amount: Balance, swap_detail: SwapDetail, op: DecreaseOperation, liquidator_id: Option<AccountId>,
    r: Result<EventDataMarginDecrease, MarginDecreaseError>, account2: MarginAccount, assets2: AccountMap<Asset>)
    requires
        decrease_done(account, assets, mbtl, prices, pos_id, token_p_amount, min_token_d_amount, swap_detail, op,
            liquidator_id, r, account2, assets2),
    ensures
        ({
            let mt = account.margin_positions@[pos_id];
            let (d, p) = (mt.token_d_id@, mt.token_p_id@);
            let amount_out = balance_in_price_raw(value_raw(token_p_amount as nat, prices[p], assets@[p].config.extra_decimals),
                prices[d], assets@[d].config.extra_decimals);
            let rate = if op is ForceClose { mbtl.max_forceclose_slippage_rate } else { mbtl.max_common_slippage_rate };
            let least = amount_out - amount_out * (rate as nat) / 10000;
            &&& r == Err::<EventDataMarginDecrease, MarginDecreaseError>(MarginDecreaseError::MinAmountTooLow)
                ==> min_token_d_amount < least
            &&& r is Ok ==> min_token_d_amount >= least
        }),
{
}

/// A liquidation goes ahead only on a position that covers what it owes
/// but not once the safety buffer of its base token is taken off its worth,
/// and a forced close only on a position worth less than it owes; a locked
/// position is never decreased.
pub proof fn lemma_decrease_health_by_operation(account: MarginAccount, assets: AccountMap<Asset>,
    mbtl: MarginBaseTokenLimit, prices: Map<Seq<char>, Price>, pos_id: Seq<char>, token_p_amount: Balance,
    min_token_d_amount: Balance, swap_detail: SwapDetail, op: DecreaseOperation, liquidator_id: Option<AccountId>,
    r: Result<EventDataMarginDecrease, MarginDecreaseError>, account2: MarginAccount, assets2: AccountMap<Asset>)
    requires
        decrease_done(account, assets, mbtl, prices, pos_id, token_p_amount, min_token_d_amount, swap_detail, op,
            liquidator_id, r, account2, assets2),
        r is Ok,
    ensures
        ({
            let mt = account.margin_positions@[pos_id];
            let (c, d, p) = (mt.token_c_id@, mt.token_d_id@, mt.token_p_id@);
            let cap = mtp_cap(mt, assets@[c], prices[c], assets@[p], prices[p]);
            let owed = mtp_owed(mt, assets@[d], prices[d]);
            &&& !mt.is_locking
            &&& op is Liquidate ==> owed <= cap && cap - (cap * (mbtl.min_safety_buffer as nat) + 5000) / 10000 < owed
            &&& op is ForceClose ==> cap < owed
        }),
{
}

} // verus!
