//! Opening a margin trading position: the checks on the account, the assets,
//! the base-token limits, the pair, the swap to perform and the position's
//! health at the prices; then the collateral leaves the account's supply,
//! the debt becomes pending on its asset and the position is added, locked
//! until the trade returns.

use vstd::prelude::*;
use crate::account_map::AccountMap;
use crate::asset::Asset;
use crate::big_decimal::{BigDecimal, lemma_pow10_monotone, big, half, div_raw, pow10, value_raw, balance_in_price_raw, balance_in_price_ok};
use crate::events::EventDataMarginOpen;
use crate::json::{dec, push_dec, push_str, string_push};
use crate::lending::pow10_u128;
use crate::margin_account::MarginAccount;
use crate::account_lending::with_shares;
use crate::position::held;
use crate::margin_base_token_limit::{BaseTokenAmountError, MarginBaseTokenLimit};
use crate::margin_config::{MarginConfig, PairError};
use crate::margin_health::{
    OpenError, price_ok, buffer_ok, spec_liquidatable, spec_open_refusal, check_open_position_assets,
    spec_debt_size_refusal, check_debt_size,
    is_min_amount_out_reasonable, is_open_position_liquidatable, is_open_position_forcecloseable, get_open_position_lr,
};
use crate::margin_position::{MarginTradingPosition, PositionDirection};
use crate::margin_trading::{SwapDetail, MsgToDex, RefV2TokenReceiverMessage, amounts_in_given, amount_in_sum, min_amount_out_sum};
use crate::pool::spec_amount_to_shares;
use crate::prices::{Price, Prices};
use crate::utils::{Balance, Timestamp, TokenId};
use crate::wide::p384;

verus! {

/// Why opening a margin position was refused.
#[derive(Clone, Copy, PartialEq, Eq, Debug)]
pub enum MarginOpenError {
    /// The account holds as many positions as allowed.
    TooManyPositions,
    /// A position of the new id exists already.
    PositionExists,
    /// A token of the position has no asset.
    AssetNotFound,
    /// The assets refuse the position (see `spec_open_refusal` and
    /// `spec_debt_size_refusal`).
    Assets(OpenError),
    /// The base-token limits refuse the amount.
    BaseToken(BaseTokenAmountError),
    /// The tokens do not make a pair.
    Pair(PairError),
    /// The swap does not spend the debt.
    TokenInMismatch,
    /// The swap does not ask for the least position amount.
    TokenOutMismatch,
    /// A token of the position has no price.
    PriceNotFound,
    /// The least position amount is too low for the debt at the prices.
    MinAmountTooLow,
    /// The position would be liquidatable.
    Liquidatable,
    /// The position would be worth less than it owes.
    Forcecloseable,
    /// The collateral or the debt is zero, so there is no leverage.
    NoLeverage,
    /// The leverage would exceed the limit.
    LeverageTooHigh,
    /// The account does not supply the collateral shares.
    NotEnoughShares,
    /// The pending debt of the debt asset would pass its limit.
    PendingDebtTooHigh,
}

/// The id of a new position: the account, the time and the number of
/// positions opened so far, joined by `_`.
pub open spec fn position_id(account_id: Seq<char>, ts: Timestamp, position_num: u64) -> Seq<char> {
    account_id + seq!['_'] + dec(ts as nat) + seq!['_'] + dec(position_num as nat)
}

/// What `check_pair` decides.
pub open spec fn pair_result(config: MarginConfig, d: Seq<char>, p: Seq<char>, c: Seq<char>) -> Result<(), PairError> {
    let t = config.registered_tokens@;
    if !t.contains_key(p) {
        Err(PairError::IllegalPositionToken)
    } else if !t.contains_key(d) {
        Err(PairError::IllegalDebtToken)
    } else if t[p] == t[d] {
        Err(PairError::IllegalDebtPositionPair)
    } else if !(c == d || c == p) {
        Err(PairError::MarginTokenMismatch)
    } else {
        Ok(())
    }
}

/// What the base-token limits decide of `base` (and the `total` with it),
/// by the limits of a long position (collateral in the debt token) or of a
/// short one.
pub open spec fn base_result(mbtl: MarginBaseTokenLimit, long: bool, base: nat, total: nat) -> Result<(), BaseTokenAmountError> {
    if long {
        if !(mbtl.min_base_token_long_position <= base <= mbtl.max_base_token_long_position) {
            Err(BaseTokenAmountError::LongPositionOutOfRange)
        } else if !(total <= mbtl.total_base_token_available_long) {
            Err(BaseTokenAmountError::LongTotalExceeded)
        } else {
            Ok(())
        }
    } else {
        if !(mbtl.min_base_token_short_position <= base <= mbtl.max_base_token_short_position) {
            Err(BaseTokenAmountError::ShortPositionOutOfRange)
        } else if !(total <= mbtl.total_base_token_available_short) {
            Err(BaseTokenAmountError::ShortTotalExceeded)
        } else {
            Ok(())
        }
    }
}

/// The swap message is one the checks of its tokens can read: a RefV1
/// message has actions whose amounts in are given and whose sums fit; a
/// RefV2 message is a swap.
pub open spec fn swap_ok(swap: SwapDetail) -> bool {
    match swap.dex_msg {
        MsgToDex::RefV1(m) => {
            &&& m.actions().len() > 0
            &&& amounts_in_given(m.actions(), m.actions()[0].swap().token_in@)
            &&& forall|n: int| 0 <= n <= m.actions().len() ==> #[trigger] min_amount_out_sum(m.actions().take(n),
                m.actions().last().swap().token_out@) <= u128::MAX
        },
        MsgToDex::RefV2(m) => m is Swap,
    }
}

/// The swap spends exactly `amount_in` of `token_in`.
pub open spec fn token_in_ok(swap: SwapDetail, token_in: Seq<char>, amount_in: nat) -> bool {
    match swap.dex_msg {
        MsgToDex::RefV1(m) => m.actions()[0].swap().token_in@ == token_in
            && amount_in_sum(m.actions(), m.actions()[0].swap().token_in@) == amount_in,
        MsgToDex::RefV2(_) => true,
    }
}

/// The swap asks for exactly `min_amount_out` of `token_out`.
pub open spec fn token_out_ok(swap: SwapDetail, token_out: Seq<char>, min_amount_out: nat) -> bool {
    match swap.dex_msg {
        MsgToDex::RefV1(m) => m.actions().last().swap().token_out@ == token_out
            && min_amount_out_sum(m.actions(), m.actions().last().swap().token_out@) == min_amount_out,
        MsgToDex::RefV2(m) => m matches RefV2TokenReceiverMessage::Swap { output_token, min_output_amount, skip_unwrap_near, .. }
            && output_token@ == token_out && min_output_amount == min_amount_out && skip_unwrap_near == Some(true),
    }
}

/// The arithmetic of opening stays within bounds wherever it gets that far
/// (the contract panics otherwise).
pub open spec fn open_fits(assets: Map<Seq<char>, Asset>, prices: Map<Seq<char>, Price>, mbtl: MarginBaseTokenLimit,
    margin_config: MarginConfig, c: Seq<char>, c_amount: nat, d: Seq<char>, d_amount: nat, p: Seq<char>, p_amount: nat,
    swap: SwapDetail, reliable_liquidator: bool) -> bool
{
    assets.contains_key(c) && assets.contains_key(d) && assets.contains_key(p) ==> {
        let ac = assets[c];
        let ad = assets[d];
        let ap = assets[p];
        &&& (!reliable_liquidator && ad.config.borrowed_limit is Some ==> ad.borrowed.balance + d_amount <= u128::MAX)
        &&& ad.margin_debt.balance + ad.margin_pending_debt + d_amount <= u128::MAX
        &&& ap.margin_position + p_amount <= u128::MAX
        &&& ad.config.extra_decimals <= 38
        &&& ap.config.extra_decimals <= 38
        &&& swap_ok(swap)
        &&& spec_amount_to_shares(ac.supplied.shares as nat, ac.supplied.balance as nat, c_amount, false) <= u128::MAX
        &&& ad.margin_pending_debt + d_amount <= u128::MAX
        &&& ad.supplied.balance + ad.reserved + ad.prot_fee <= u128::MAX
        &&& ad.borrowed.balance + ad.margin_debt.balance + ad.margin_pending_debt + d_amount
            <= ad.supplied.balance + ad.reserved + ad.prot_fee
        &&& (ad.spec_total_supplied() - ad.spec_total_borrowed() - d_amount) * (margin_config.pending_debt_scale as nat) / 10000
            <= u128::MAX
        &&& (prices.contains_key(c) && prices.contains_key(d) && prices.contains_key(p) ==> {
            let pc = prices[c];
            let pd = prices[d];
            let pp = prices[p];
            let vc = value_raw(c_amount, pc, ac.config.extra_decimals);
            let vd = value_raw(d_amount, pd, ad.config.extra_decimals);
            let vp = value_raw(p_amount, pp, ap.config.extra_decimals);
            let amount_out = balance_in_price_raw(vd, pp, ap.config.extra_decimals);
            &&& price_ok(pc, ac.config.extra_decimals)
            &&& price_ok(pd, ad.config.extra_decimals)
            &&& price_ok(pp, ap.config.extra_decimals)
            &&& balance_in_price_ok(vd, pp, ap.config.extra_decimals)
            &&& amount_out * (mbtl.max_common_slippage_rate as nat) / 10000 <= amount_out
            &&& buffer_ok(vc + vp, vd, mbtl.min_safety_buffer as nat)
            &&& (c_amount != 0 && d_amount != 0 ==> vc != 0 && vd * big() + half() < p384())
        })
    }
}

/// The base token of a position is its position token when long (the
/// collateral is the debt token), else its debt token; its amount and total
/// are counted in the debt asset where the base token is the debt token, in
/// the position asset otherwise.
pub open spec fn base_is_debt(c: Seq<char>, d: Seq<char>, p: Seq<char>) -> bool {
    (if c == d { p } else { d }) == d
}

/// Why opening the position `pos_id` of `account` would be refused, if at
/// all: the first check that fails, in the order they are made.
pub open spec fn open_refusal(account: MarginAccount, assets: Map<Seq<char>, Asset>, margin_config: MarginConfig,
    mbtl: MarginBaseTokenLimit, prices: Map<Seq<char>, Price>, pos_id: Seq<char>,
    c: Seq<char>, c_amount: nat, d: Seq<char>, d_amount: nat, p: Seq<char>, p_amount: nat,
    swap: SwapDetail, reliable_liquidator: bool) -> Option<MarginOpenError>
{
    let ac = assets[c];
    let ad = assets[d];
    let ap = assets[p];
    let base = if base_is_debt(c, d, p) { d_amount } else { p_amount };
    let total: nat = if base_is_debt(c, d, p) { (ad.margin_debt.balance + ad.margin_pending_debt + d_amount) as nat }
        else { (ap.margin_position + p_amount) as nat };
    let vc = value_raw(c_amount, prices[c], ac.config.extra_decimals);
    let vd = value_raw(d_amount, prices[d], ad.config.extra_decimals);
    let vp = value_raw(p_amount, prices[p], ap.config.extra_decimals);
    let amount_out = balance_in_price_raw(vd, prices[p], ap.config.extra_decimals);
    let shares = spec_amount_to_shares(ac.supplied.shares as nat, ac.supplied.balance as nat, c_amount, false);
    if !(account.margin_positions@.dom().len() < margin_config.max_active_user_margin_position) {
        Some(MarginOpenError::TooManyPositions)
    } else if account.margin_positions@.contains_key(pos_id) {
        Some(MarginOpenError::PositionExists)
    } else if !assets.contains_key(c) {
        Some(MarginOpenError::AssetNotFound)
    } else if !ac.config.can_use_as_collateral {
        Some(MarginOpenError::Assets(OpenError::NotCollateral))
    } else if !(assets.contains_key(d) && assets.contains_key(p)) {
        Some(MarginOpenError::AssetNotFound)
    } else if spec_open_refusal(ac, ad, d_amount, reliable_liquidator) is Some {
        Some(MarginOpenError::Assets(spec_open_refusal(ac, ad, d_amount, reliable_liquidator).unwrap()))
    } else if base_result(mbtl, c == d, base, total) is Err {
        Some(MarginOpenError::BaseToken(base_result(mbtl, c == d, base, total)->Err_0))
    } else if pair_result(margin_config, d, p, c) is Err {
        Some(MarginOpenError::Pair(pair_result(margin_config, d, p, c)->Err_0))
    } else if spec_debt_size_refusal(ad, d_amount) is Some {
        Some(MarginOpenError::Assets(spec_debt_size_refusal(ad, d_amount).unwrap()))
    } else if !token_in_ok(swap, d, d_amount / pow10(ad.config.extra_decimals as nat)) {
        Some(MarginOpenError::TokenInMismatch)
    } else if !token_out_ok(swap, p, p_amount / pow10(ap.config.extra_decimals as nat)) {
        Some(MarginOpenError::TokenOutMismatch)
    } else if !(prices.contains_key(c) && prices.contains_key(d) && prices.contains_key(p)) {
        Some(MarginOpenError::PriceNotFound)
    } else if !(p_amount >= amount_out - amount_out * (mbtl.max_common_slippage_rate as nat) / 10000) {
        Some(MarginOpenError::MinAmountTooLow)
    } else if spec_liquidatable(vc + vp, vd, mbtl.min_safety_buffer as nat) {
        Some(MarginOpenError::Liquidatable)
    } else if vc + vp < vd {
        Some(MarginOpenError::Forcecloseable)
    } else if c_amount == 0 || d_amount == 0 {
        Some(MarginOpenError::NoLeverage)
    } else if div_raw(vd, vc) > mbtl.max_leverage_rate * big() {
        Some(MarginOpenError::LeverageTooHigh)
    } else if !(account.supplied@.contains_key(c) && shares <= account.supplied@[c]) {
        Some(MarginOpenError::NotEnoughShares)
    } else if !((ad.spec_total_supplied() - ad.spec_total_borrowed() - d_amount) * (margin_config.pending_debt_scale as nat)
        / 10000 > ad.margin_pending_debt + d_amount) {
        Some(MarginOpenError::PendingDebtTooHigh)
    } else {
        None
    }
}

/// What opening a position did (see `margin_open_position`): refused as
/// `open_refusal` says, changing nothing, or opened.
pub open spec fn open_done(account: MarginAccount, assets: AccountMap<Asset>, margin_config: MarginConfig,
    mbtl: MarginBaseTokenLimit, prices: Map<Seq<char>, Price>, ts: Timestamp, position_num: u64, token_c_id: TokenId,
    token_c_amount: Balance, token_d_id: TokenId, token_d_amount: Balance, token_p_id: TokenId, min_token_p_amount: Balance,
    swap_detail: SwapDetail, reliable_liquidator: bool, r: Result<EventDataMarginOpen, MarginOpenError>,
    account2: MarginAccount, assets2: AccountMap<Asset>) -> bool
{
    let pos_id = position_id(account.account_id@, ts, position_num);
    let refusal = open_refusal(account, assets@, margin_config, mbtl, prices, pos_id,
        token_c_id@, token_c_amount as nat, token_d_id@, token_d_amount as nat, token_p_id@,
        min_token_p_amount as nat, swap_detail, reliable_liquidator);
    let ac = assets@[token_c_id@];
    let ad = assets@[token_d_id@];
    let shares = spec_amount_to_shares(ac.supplied.shares as nat, ac.supplied.balance as nat,
        token_c_amount as nat, false);
    match r {
        Err(e) => refusal == Some(e) && account2 == account && assets2@ == assets@,
        Ok(ev) => {
            &&& refusal is None
            &&& account2.wf()
            &&& assets2.wf()
            &&& account2.account_id == account.account_id
            &&& account2.supplied@ == with_shares(account.supplied@, token_c_id@,
                (account.supplied@[token_c_id@] - shares) as nat)
            &&& account2.margin_positions@ == account.margin_positions@.insert(pos_id,
                (MarginTradingPosition {
                    open_ts: ts, uahpi_at_open: 0, debt_cap: 0, token_c_id: token_c_id,
                    token_c_shares: shares as u128, token_d_id: token_d_id, token_d_shares: 0,
                    token_p_id: token_p_id, token_p_amount: 0, is_locking: true,
                }))
            &&& assets2@ == assets@.insert(token_d_id@,
                Asset { margin_pending_debt: (ad.margin_pending_debt + token_d_amount) as u128, ..ad })
            &&& ev.pos_id@ == pos_id
            &&& ev == (EventDataMarginOpen {
                account_id: account.account_id,
                pos_id: ev.pos_id,
                token_c_id: token_c_id,
                token_c_amount,
                token_c_shares: shares as u128,
                token_d_id: token_d_id,
                token_d_amount,
                token_p_id: token_p_id,
                token_p_amount: min_token_p_amount,
            })
        },
    }
}

/// Opens a margin position of `account` (see `open_refusal` for when it is
/// refused, leaving everything unchanged): `token_d_amount` of `token_d_id`
/// is to be borrowed and swapped by `swap_detail` for at least
/// `min_token_p_amount` of `token_p_id`, with `token_c_amount` of
/// `token_c_id` as collateral. `mbtl` holds the limits of the position's base
/// token; `position_num` is the number of positions opened so far, which
/// makes the id. On success the collateral's shares leave the account's
/// supply, the debt becomes pending on its asset, the position is added,
/// locked until the trade returns, and the event of the opening is returned.
#[verifier::rlimit(60)]
pub fn margin_open_position(
    account: &mut MarginAccount,
    assets: &mut AccountMap<Asset>,
    margin_config: &MarginConfig,
    mbtl: &MarginBaseTokenLimit,
    prices: &Prices,
    ts: Timestamp,
    position_num: u64,
    token_c_id: &TokenId,
    token_c_amount: Balance,
    token_d_id: &TokenId,
    token_d_amount: Balance,
    token_p_id: &TokenId,
    min_token_p_amount: Balance,
    swap_detail: &SwapDetail,
    reliable_liquidator: bool,
) -> (r: Result<EventDataMarginOpen, MarginOpenError>)
    requires
        old(account).wf(),
        old(assets).wf(),
        margin_config.registered_tokens.wf(),
        prices.prices.wf(),
        open_fits(old(assets)@, prices.prices@, *mbtl, *margin_config, token_c_id@, token_c_amount as nat,
            token_d_id@, token_d_amount as nat, token_p_id@, min_token_p_amount as nat, *swap_detail, reliable_liquidator),
    ensures
        final(account).wf(),
        final(assets).wf(),
        open_done(*old(account), *old(assets), *margin_config, *mbtl, prices.prices@, ts, position_num, *token_c_id,
            token_c_amount, *token_d_id, token_d_amount, *token_p_id, min_token_p_amount, *swap_detail, reliable_liquidator,
            r, *final(account), *final(assets)),
{
    let n = account.margin_positions.len();
    if !(n < margin_config.max_active_user_margin_position as usize) {
        return Err(MarginOpenError::TooManyPositions);
    }
    let mut pos_id = String::new();
    push_str(&mut pos_id, account.account_id.as_str());
    string_push(&mut pos_id, '_');
    push_dec(&mut pos_id, ts as u128);
    string_push(&mut pos_id, '_');
    push_dec(&mut pos_id, position_num as u128);
    proof {
        assert(pos_id@ =~= position_id(account.account_id@, ts, position_num));
    }
    if account.margin_positions.get_ref(&pos_id).is_some() {
        return Err(MarginOpenError::PositionExists);
    }
    let asset_c = match assets.get_ref(token_c_id) {
        Some(a) => a,
        None => { return Err(MarginOpenError::AssetNotFound); },
    };
    if !asset_c.config.can_use_as_collateral {
        return Err(MarginOpenError::Assets(OpenError::NotCollateral));
    }
    let asset_p = match assets.get_ref(token_p_id) {
        Some(a) => a,
        None => { return Err(MarginOpenError::AssetNotFound); },
    };
    let asset_d = match assets.get_ref(token_d_id) {
        Some(a) => a,
        None => { return Err(MarginOpenError::AssetNotFound); },
    };
    match check_open_position_assets(asset_c, asset_d, token_d_amount, reliable_liquidator) {
        Ok(()) => {},
        Err(e) => { return Err(MarginOpenError::Assets(e)); },
    }
    let pd = PositionDirection::new(token_c_id, token_d_id, token_p_id);
    let (base, total) = if *pd.get_base_token_id() == *token_d_id {
        (token_d_amount, asset_d.margin_debt.balance + asset_d.margin_pending_debt + token_d_amount)
    } else {
        (min_token_p_amount, asset_p.margin_position + min_token_p_amount)
    };
    match mbtl.assert_base_token_amount_valid(base, total, &pd) {
        Ok(()) => {},
        Err(e) => { return Err(MarginOpenError::BaseToken(e)); },
    }
    match margin_config.check_pair(token_d_id, token_p_id, token_c_id) {
        Ok(()) => {},
        Err(e) => { return Err(MarginOpenError::Pair(e)); },
    }
    match check_debt_size(asset_d, token_d_amount) {
        Ok(()) => {},
        Err(e) => { return Err(MarginOpenError::Assets(e)); },
    }
    proof {
        lemma_pow10_monotone(0, asset_d.config.extra_decimals as nat);
        lemma_pow10_monotone(0, asset_p.config.extra_decimals as nat);
    }
    let ft_d_amount = token_d_amount / pow10_u128(asset_d.config.extra_decimals);
    if !swap_detail.verify_token_in(token_d_id, ft_d_amount) {
        return Err(MarginOpenError::TokenInMismatch);
    }
    let ft_p_amount = min_token_p_amount / pow10_u128(asset_p.config.extra_decimals);
    if !swap_detail.verify_token_out(token_p_id, ft_p_amount) {
        return Err(MarginOpenError::TokenOutMismatch);
    }
    let price_c = match prices.prices.get(token_c_id) {
        Some(pr) => pr,
        None => { return Err(MarginOpenError::PriceNotFound); },
    };
    let price_d = match prices.prices.get(token_d_id) {
        Some(pr) => pr,
        None => { return Err(MarginOpenError::PriceNotFound); },
    };
    let price_p = match prices.prices.get(token_p_id) {
        Some(pr) => pr,
        None => { return Err(MarginOpenError::PriceNotFound); },
    };
    if !is_min_amount_out_reasonable(token_d_amount, asset_d, &price_d, asset_p, &price_p, min_token_p_amount,
        mbtl.max_common_slippage_rate) {
        return Err(MarginOpenError::MinAmountTooLow);
    }
    let ed_c = asset_c.config.extra_decimals;
    let ed_d = asset_d.config.extra_decimals;
    let ed_p = asset_p.config.extra_decimals;
    if is_open_position_liquidatable(token_c_amount, &price_c, ed_c, token_d_amount, &price_d, ed_d,
        min_token_p_amount, &price_p, ed_p, mbtl.min_safety_buffer) {
        return Err(MarginOpenError::Liquidatable);
    }
    if is_open_position_forcecloseable(token_c_amount, &price_c, ed_c, token_d_amount, &price_d, ed_d,
        min_token_p_amount, &price_p, ed_p) {
        return Err(MarginOpenError::Forcecloseable);
    }
    match get_open_position_lr(token_c_amount, &price_c, ed_c, token_d_amount, &price_d, ed_d) {
        None => { return Err(MarginOpenError::NoLeverage); },
        Some(lr) => {
            if !lr.le(&BigDecimal::from_u128(mbtl.max_leverage_rate as u128)) {
                return Err(MarginOpenError::LeverageTooHigh);
            }
        },
    }
    let shares = asset_c.supplied.amount_to_shares(token_c_amount, false);
    match account.supplied.get(token_c_id) {
        None => { return Err(MarginOpenError::NotEnoughShares); },
        Some(s) => {
            if s < shares {
                return Err(MarginOpenError::NotEnoughShares);
            }
        },
    }
    let ghost before = assets@;
    let mut debt_asset = match assets.remove(token_d_id) {
        Some(a) => a,
        None => { return Err(MarginOpenError::AssetNotFound); },
    };
    if !debt_asset.increase_margin_pending_debt(token_d_amount, margin_config.pending_debt_scale) {
        assets.insert(token_d_id, debt_asset);
        proof { assert(assets@ =~= before); }
        return Err(MarginOpenError::PendingDebtTooHigh);
    }
    assets.insert(token_d_id, debt_asset);
    proof { assert(assets@ =~= before.insert(token_d_id@, debt_asset)); }
    account.withdraw_supply_shares(token_c_id, shares);
    let mt = MarginTradingPosition::new(ts, token_c_id.clone(), shares, token_d_id.clone(), token_p_id.clone());
    account.margin_positions.insert(&pos_id, mt);
    Ok(EventDataMarginOpen {
        account_id: account.account_id.clone(),
        pos_id,
        token_c_id: token_c_id.clone(),
        token_c_amount,
        token_c_shares: shares,
        token_d_id: token_d_id.clone(),
        token_d_amount,
        token_p_id: token_p_id.clone(),
        token_p_amount: min_token_p_amount,
    })
}

/// An opened position keeps within the limits of its base token. A short
/// (collateral other than the debt token) is limited in its debt: the debt
/// amount lies between the short limits, and the debt asset's margin debt,
/// pending margin debt and the new debt together stay within what is
/// available for shorts. A long (collateral in the debt token) is limited in
/// its position token likewise, with the position asset's margin position.
pub proof fn lemma_open_respects_base_token_limits(account: MarginAccount, assets: AccountMap<Asset>,
    margin_config: MarginConfig, mbtl: MarginBaseTokenLimit, prices: Map<Seq<char>, Price>, ts: Timestamp,
    position_num: u64, token_c_id: TokenId, token_c_amount: Balance, token_d_id: TokenId, token_d_amount: Balance,
    token_p_id: TokenId, min_token_p_amount: Balance, swap_detail: SwapDetail, reliable_liquidator: bool,
    r: Result<EventDataMarginOpen, MarginOpenError>, account2: MarginAccount, assets2: AccountMap<Asset>)
    requires
        open_done(account, assets, margin_config, mbtl, prices, ts, position_num, token_c_id, token_c_amount, token_d_id,
            token_d_amount, token_p_id, min_token_p_amount, swap_detail, reliable_liquidator, r, account2, assets2),
        r is Ok,
    ensures
        token_c_id@ != token_d_id@ ==> {
            let ad = assets@[token_d_id@];
            &&& mbtl.min_base_token_short_position <= token_d_amount <= mbtl.max_base_token_short_position
            &&& ad.margin_debt.balance + ad.margin_pending_debt + token_d_amount <= mbtl.total_base_token_available_short
        },
        token_c_id@ == token_d_id@ && token_p_id@ != token_d_id@ ==> {
            let ap = assets@[token_p_id@];
            &&& mbtl.min_base_token_long_position <= min_token_p_amount <= mbtl.max_base_token_long_position
            &&& ap.margin_position + min_token_p_amount <= mbtl.total_base_token_available_long
        },
{
}

/// An opening refused by the base-token limits names the limit broken, on
/// the base token of the position's direction: for a short, the debt amount
/// outside the short limits, or else the debt asset's margin debt, pending
/// margin debt and the new debt past what is available for shorts; for a
/// long, the same of the position amount and the position asset's margin
/// position against the long limits.
pub proof fn lemma_open_base_token_refusal(account: MarginAccount, assets: AccountMap<Asset>,
    margin_config: MarginConfig, mbtl: MarginBaseTokenLimit, prices: Map<Seq<char>, Price>, ts: Timestamp,
    position_num: u64, token_c_id: TokenId, token_c_amount: Balance, token_d_id: TokenId, token_d_amount: Balance,
    token_p_id: TokenId, min_token_p_amount: Balance, swap_detail: SwapDetail, reliable_liquidator: bool,
    r: Result<EventDataMarginOpen, MarginOpenError>, account2: MarginAccount, assets2: AccountMap<Asset>)
    requires
        open_done(account, assets, margin_config, mbtl, prices, ts, position_num, token_c_id, token_c_amount, token_d_id,
            token_d_amount, token_p_id, min_token_p_amount, swap_detail, reliable_liquidator, r, account2, assets2),
        r matches Err(MarginOpenError::BaseToken(_)),
    ensures
        ({
            let e = r->Err_0->BaseToken_0;
            let ad = assets@[token_d_id@];
            let ap = assets@[token_p_id@];
            let short_in_range = mbtl.min_base_token_short_position <= token_d_amount <= mbtl.max_base_token_short_position;
            let long_in_range = mbtl.min_base_token_long_position <= min_token_p_amount <= mbtl.max_base_token_long_position;
            &&& token_c_id@ != token_d_id@ ==> {
                ||| e is ShortPositionOutOfRange && !short_in_range
                ||| e is ShortTotalExceeded && short_in_range
                    && ad.margin_debt.balance + ad.margin_pending_debt + token_d_amount > mbtl.total_base_token_available_short
            }
            &&& token_c_id@ == token_d_id@ && token_p_id@ != token_d_id@ ==> {
                ||| e is LongPositionOutOfRange && !long_in_range
                ||| e is LongTotalExceeded && long_in_range
                    && ap.margin_position + min_token_p_amount > mbtl.total_base_token_available_long
            }
        }),
{
}

/// An opened position is sound at the prices: it is worth at least what it
/// owes, and more than that once the safety buffer of its base token is
/// taken off; its debt is at most the leverage limit times its collateral;
/// the least position amount is within the common slippage of what the debt
/// buys; and the pending margin debt of the debt asset stays below its part
/// of what is left to lend.
pub proof fn lemma_open_position_sound(account: MarginAccount, assets: AccountMap<Asset>,
    margin_config: MarginConfig, mbtl: MarginBaseTokenLimit, prices: Map<Seq<char>, Price>, ts: Timestamp,
    position_num: u64, token_c_id: TokenId, token_c_amount: Balance, token_d_id: TokenId, token_d_amount: Balance,
    token_p_id: TokenId, min_token_p_amount: Balance, swap_detail: SwapDetail, reliable_liquidator: bool,
    r: Result<EventDataMarginOpen, MarginOpenError>, account2: MarginAccount, assets2: AccountMap<Asset>)
    requires
        open_done(account, assets, margin_config, mbtl, prices, ts, position_num, token_c_id, token_c_amount, token_d_id,
            token_d_amount, token_p_id, min_token_p_amount, swap_detail, reliable_liquidator, r, account2, assets2),
        r is Ok,
    ensures
        ({
            let (c, d, p) = (token_c_id@, token_d_id@, token_p_id@);
            let (ac, ad, ap) = (assets@[c], assets@[d], assets@[p]);
            let vc = value_raw(token_c_amount as nat, prices[c], ac.config.extra_decimals);
            let vd = value_raw(token_d_amount as nat, prices[d], ad.config.extra_decimals);
            let vp = value_raw(min_token_p_amount as nat, prices[p], ap.config.extra_decimals);
            let amount_out = balance_in_price_raw(vd, prices[p], ap.config.extra_decimals);
            let cap = vc + vp;
            &&& vd <= cap
            &&& !(cap - (cap * (mbtl.min_safety_buffer as nat) + 5000) / 10000 < vd)
            &&& token_c_amount > 0 && token_d_amount > 0
            &&& (vd * big() + half()) / vc <= mbtl.max_leverage_rate * big()
            &&& min_token_p_amount >= amount_out - amount_out * (mbtl.max_common_slippage_rate as nat) / 10000
            &&& (ad.supplied.balance + ad.reserved + ad.prot_fee - ad.borrowed.balance - ad.margin_debt.balance
                - ad.margin_pending_debt - token_d_amount) * (margin_config.pending_debt_scale as nat) / 10000
                > ad.margin_pending_debt + token_d_amount
        }),
{
}

} // verus!
