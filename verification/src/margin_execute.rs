//! Running one action of a margin account: the checks of the action, the
//! lookups of its assets and prices, and the verified operation it names.

use vstd::prelude::*;
use crate::account_lending::with_shares;
use crate::account_map::AccountMap;
use crate::actions::is_shadow;
use crate::asset::Asset;
use crate::events::{EventDataMarginDecrease, EventDataMarginOpen};
use crate::margin_account::{
    MarginAccount, MarginAccountError, spec_margin_withdraw, margin_withdraw_ok, collateral_reduced,
    spec_decrease_collateral_refusal, decrease_collateral_ok, internal_margin_withdraw_supply,
    internal_margin_increase_collateral, internal_margin_decrease_collateral,
};
use crate::margin_actions::{MarginAction, MarginActionError, check_margin_action, margin_action_check};
use crate::margin_base_token_limit::MarginBaseTokenLimit;
use crate::margin_config::MarginConfig;
use crate::margin_decrease::{MarginDecreaseError, decrease_done, decrease_fits, decrease_margin_position};
use crate::margin_open::{MarginOpenError, open_done, open_fits, margin_open_position};
use crate::margin_position::MarginTradingPosition;
use crate::margin_trading::{DecreaseOperation, SwapDetail};
use crate::pool::{spec_amount_to_shares, spec_shares_to_amount};
use crate::position::held;
use crate::prices::{Price, Prices};
use crate::utils::{AccountId, Balance, Timestamp, TokenId};

verus! {

/// What one margin action came to.
pub enum MarginOutcome {
    /// Supply withdrawn: the amount, and the amount in the token's decimals
    /// to transfer (nothing when zero).
    Withdrawn { token_id: TokenId, amount: Balance, ft_amount: Balance },
    /// Nothing to withdraw: the account supplies none of the token.
    NothingSupplied,
    /// Collateral moved from the supply into a position.
    CollateralIncreased { token_id: TokenId, amount: Balance },
    /// Collateral moved from a position back to the supply.
    CollateralDecreased { token_id: TokenId },
    /// A position started to open.
    Opened(EventDataMarginOpen),
    /// A position started to decrease, close, be liquidated or be closed by force.
    DecreaseStarted(EventDataMarginDecrease),
}

/// Why a margin action was refused.
#[derive(Clone, Copy, PartialEq, Eq, Debug)]
pub enum MarginExecuteError {
    /// The checks of the action refused it.
    Refused(MarginActionError),
    /// A token the action needs has no asset.
    AssetNotFound,
    /// A token the action needs has no price.
    PriceNotFound,
    /// The asset can not be withdrawn.
    WithdrawDisabled,
    /// The account has no position of that id.
    PositionNotFound,
    /// The margin account refused it.
    Account(MarginAccountError),
    /// Opening the position was refused.
    Open(MarginOpenError),
    /// Decreasing the position was refused.
    Decrease(MarginDecreaseError),
    /// The owner of the position to liquidate or close has no margin account.
    OwnerNotFound,
}

/// What withdrawing `amount` (all when `None`) of the supply of `token_id`
/// did, with `asset` its asset (see `internal_margin_withdraw_supply`).
pub open spec fn supply_withdrawn(account: MarginAccount, asset: Asset, token_id: Seq<char>, amount: Option<u128>,
    r: Result<MarginOutcome, MarginExecuteError>, account2: MarginAccount, asset2: Asset) -> bool
{
    &&& account2.account_id == account.account_id
    &&& account2.margin_positions == account.margin_positions
    &&& match spec_margin_withdraw(asset, account.supplied@[token_id] as nat, amount) {
        Ok((s, a, ft)) => (r matches Ok(MarginOutcome::Withdrawn { token_id: t, amount: a2, ft_amount: ft2 })
            && t@ == token_id && a2 == a as u128 && ft2 == ft as u128)
            && (ft > 0 ==> asset2 == (Asset { supplied: crate::lending::pool_minus(asset.supplied, s, a), ..asset })
                && account2.supplied@ == with_shares(account.supplied@, token_id, (account.supplied@[token_id] - s) as nat))
            && (ft == 0 ==> asset2 == asset && account2.supplied@ == account.supplied@),
        Err(e) => r == Err::<MarginOutcome, MarginExecuteError>(MarginExecuteError::Account(e)) && asset2 == asset
            && account2.supplied@ == account.supplied@,
    }
}

/// What moving `amount` of collateral into the position `pos_id` did, with
/// `asset_c` the asset of its collateral (see
/// `internal_margin_increase_collateral`).
pub open spec fn collateral_increased(account: MarginAccount, asset_c: Asset, pos_id: Seq<char>, amount: nat,
    r: Result<MarginOutcome, MarginExecuteError>, account2: MarginAccount) -> bool
{
    let s = spec_amount_to_shares(asset_c.supplied.shares as nat, asset_c.supplied.balance as nat, amount, false);
    let mt = account.margin_positions@[pos_id];
    if !asset_c.config.can_use_as_collateral {
        r == Err::<MarginOutcome, MarginExecuteError>(MarginExecuteError::Account(MarginAccountError::NotCollateral))
            && account2 == account
    } else if !(account.supplied@.contains_key(mt.token_c_id@) && s <= account.supplied@[mt.token_c_id@]) {
        r == Err::<MarginOutcome, MarginExecuteError>(MarginExecuteError::Account(MarginAccountError::NotEnoughShares))
            && account2 == account
    } else {
        &&& r matches Ok(MarginOutcome::CollateralIncreased { token_id: t, amount: a }) && t@ == mt.token_c_id@
            && a == spec_shares_to_amount(asset_c.supplied.shares as nat, asset_c.supplied.balance as nat, s, false)
        &&& account2.account_id == account.account_id
        &&& account2.supplied@ == with_shares(account.supplied@, mt.token_c_id@, (account.supplied@[mt.token_c_id@] - s) as nat)
        &&& account2.margin_positions@ == account.margin_positions@.insert(pos_id,
            MarginTradingPosition { token_c_shares: (mt.token_c_shares + s) as u128, ..mt })
    }
}

/// What taking `amount` of collateral out of the position `pos_id` did, at
/// the prices of its tokens (see `internal_margin_decrease_collateral`).
pub open spec fn collateral_decreased(account: MarginAccount, pos_id: Seq<char>, amount: nat, asset_c: Asset,
    price_c: Price, asset_d: Asset, price_d: Price, asset_p: Asset, price_p: Price, mbtl: MarginBaseTokenLimit,
    r: Result<MarginOutcome, MarginExecuteError>, account2: MarginAccount) -> bool
{
    let mt = account.margin_positions@[pos_id];
    let s = spec_amount_to_shares(asset_c.supplied.shares as nat, asset_c.supplied.balance as nat, amount, true);
    match spec_decrease_collateral_refusal(mt, asset_c, price_c, asset_d, price_d, asset_p, price_p, amount,
        mbtl.min_safety_buffer, mbtl.max_leverage_rate) {
        Some(e) => r == Err::<MarginOutcome, MarginExecuteError>(MarginExecuteError::Account(e)) && account2 == account,
        None => {
            &&& r matches Ok(MarginOutcome::CollateralDecreased { token_id: t }) && t@ == mt.token_c_id@
            &&& account2.account_id == account.account_id
            &&& account2.supplied@ == account.supplied@.insert(mt.token_c_id@,
                (held(account.supplied@, mt.token_c_id@) + s) as u128)
            &&& account2.margin_positions@ == account.margin_positions@.insert(pos_id, collateral_reduced(mt, s))
        },
    }
}

/// The arithmetic of the action stays within bounds wherever it gets that
/// far (the contract panics otherwise). `mbtl` holds the limits of the base
/// token of the position the action is about.
pub open spec fn action_fits(action: MarginAction, account: MarginAccount, pos_owner: MarginAccount,
    assets: Map<Seq<char>, Asset>, margin_config: MarginConfig, mbtl: MarginBaseTokenLimit,
    prices: Map<Seq<char>, Price>, swap_detail: SwapDetail, reliable_liquidator: bool) -> bool
{
    match action {
        MarginAction::Withdraw { token_id, amount } => assets.contains_key(token_id@)
            && account.supplied@.contains_key(token_id@)
            ==> margin_withdraw_ok(assets[token_id@], account.supplied@[token_id@] as nat, amount),
        MarginAction::IncreaseCollateral { pos_id, amount } => account.margin_positions@.contains_key(pos_id@) ==> {
            let mt = account.margin_positions@[pos_id@];
            let ac = assets[mt.token_c_id@];
            let s = spec_amount_to_shares(ac.supplied.shares as nat, ac.supplied.balance as nat, amount as nat, false);
            assets.contains_key(mt.token_c_id@) ==> s <= u128::MAX && mt.token_c_shares + s <= u128::MAX
        },
        MarginAction::DecreaseCollateral { pos_id, amount } => account.margin_positions@.contains_key(pos_id@) ==> {
            let mt = account.margin_positions@[pos_id@];
            let (c, d, p) = (mt.token_c_id@, mt.token_d_id@, mt.token_p_id@);
            let s = spec_amount_to_shares(assets[c].supplied.shares as nat, assets[c].supplied.balance as nat, amount as nat, true);
            assets.contains_key(c) && assets.contains_key(d) && assets.contains_key(p)
                && prices.contains_key(c) && prices.contains_key(d) && prices.contains_key(p) ==> {
                &&& decrease_collateral_ok(mt, assets[c], prices[c], assets[d], prices[d], assets[p], prices[p],
                    amount as nat, mbtl.min_safety_buffer)
                &&& held(account.supplied@, c) + s <= u128::MAX
            }
        },
        MarginAction::OpenPosition { token_c_id, token_c_amount, token_d_id, token_d_amount, token_p_id,
            min_token_p_amount, .. } => open_fits(assets, prices, mbtl, margin_config, token_c_id@, token_c_amount as nat,
            token_d_id@, token_d_amount as nat, token_p_id@, min_token_p_amount as nat, swap_detail, reliable_liquidator),
        MarginAction::DecreaseMTPosition { pos_id, token_p_amount, min_token_d_amount, .. } =>
            account.margin_positions@.contains_key(pos_id@) ==> decrease_fits(account.margin_positions@[pos_id@], assets, mbtl,
                prices, token_p_amount as nat, min_token_d_amount as nat, swap_detail, DecreaseOperation::Decrease),
        MarginAction::CloseMTPosition { pos_id, token_p_amount, min_token_d_amount, .. } =>
            account.margin_positions@.contains_key(pos_id@) ==> decrease_fits(account.margin_positions@[pos_id@], assets, mbtl,
                prices, token_p_amount as nat, min_token_d_amount as nat, swap_detail, DecreaseOperation::Close),
        MarginAction::LiquidateMTPosition { pos_id, token_p_amount, min_token_d_amount, .. } =>
            pos_owner.margin_positions@.contains_key(pos_id@) ==> decrease_fits(pos_owner.margin_positions@[pos_id@], assets,
                mbtl, prices, token_p_amount as nat, min_token_d_amount as nat, swap_detail, DecreaseOperation::Liquidate),
        MarginAction::ForceCloseMTPosition { pos_id, token_p_amount, min_token_d_amount, .. } =>
            pos_owner.margin_positions@.contains_key(pos_id@) ==> decrease_fits(pos_owner.margin_positions@[pos_id@], assets,
                mbtl, prices, token_p_amount as nat, min_token_d_amount as nat, swap_detail, DecreaseOperation::ForceClose),
    }
}

/// What running `action` did, by the action's kind. The margin account
/// `account` of `actor_id` acts; `pos_owner` holds the position that a
/// liquidation or a forced close is about.
pub open spec fn action_done(actor_id: Seq<char>, action: MarginAction, account: MarginAccount, pos_owner: MarginAccount,
    assets: AccountMap<Asset>, margin_config: MarginConfig, mbtl: MarginBaseTokenLimit, prices: Map<Seq<char>, Price>,
    ts: Timestamp, position_num: u64, swap_detail: SwapDetail, force_closing_enabled: bool, reliable_liquidator: bool,
    r: Result<MarginOutcome, MarginExecuteError>, account2: MarginAccount, pos_owner2: MarginAccount,
    assets2: AccountMap<Asset>) -> bool
{
    let a = assets@;
    let unchanged = account2 == account && pos_owner2 == pos_owner && assets2@ == a;
    match action {
        MarginAction::Withdraw { token_id, amount } => {
            let t = token_id@;
            &&& pos_owner2 == pos_owner
            &&& if is_shadow(t) {
                r == Err::<MarginOutcome, MarginExecuteError>(MarginExecuteError::Refused(MarginActionError::ShadowToken)) && unchanged
            } else if !a.contains_key(t) {
                r == Err::<MarginOutcome, MarginExecuteError>(MarginExecuteError::AssetNotFound) && unchanged
            } else if !a[t].config.can_withdraw {
                r == Err::<MarginOutcome, MarginExecuteError>(MarginExecuteError::WithdrawDisabled) && unchanged
            } else if !account.supplied@.contains_key(t) {
                r == Ok::<MarginOutcome, MarginExecuteError>(MarginOutcome::NothingSupplied) && unchanged
            } else {
                supply_withdrawn(account, a[t], t, amount, r, account2, assets2@[t]) && assets2@ == a.insert(t, assets2@[t])
            }
        },
        MarginAction::IncreaseCollateral { pos_id, amount } => {
            let mt = account.margin_positions@[pos_id@];
            &&& pos_owner2 == pos_owner && assets2@ == a
            &&& if !account.margin_positions@.contains_key(pos_id@) {
                r == Err::<MarginOutcome, MarginExecuteError>(MarginExecuteError::PositionNotFound) && unchanged
            } else if !a.contains_key(mt.token_c_id@) {
                r == Err::<MarginOutcome, MarginExecuteError>(MarginExecuteError::AssetNotFound) && unchanged
            } else {
                collateral_increased(account, a[mt.token_c_id@], pos_id@, amount as nat, r, account2)
            }
        },
        MarginAction::DecreaseCollateral { pos_id, amount } => {
            let mt = account.margin_positions@[pos_id@];
            let (c, d, p) = (mt.token_c_id@, mt.token_d_id@, mt.token_p_id@);
            &&& pos_owner2 == pos_owner && assets2@ == a
            &&& if !account.margin_positions@.contains_key(pos_id@) {
                r == Err::<MarginOutcome, MarginExecuteError>(MarginExecuteError::PositionNotFound) && unchanged
            } else if !(a.contains_key(c) && a.contains_key(d) && a.contains_key(p)) {
                r == Err::<MarginOutcome, MarginExecuteError>(MarginExecuteError::AssetNotFound) && unchanged
            } else if !(prices.contains_key(c) && prices.contains_key(d) && prices.contains_key(p)) {
                r == Err::<MarginOutcome, MarginExecuteError>(MarginExecuteError::PriceNotFound) && unchanged
            } else {
                collateral_decreased(account, pos_id@, amount as nat, a[c], prices[c], a[d], prices[d], a[p], prices[p],
                    mbtl, r, account2)
            }
        },
        MarginAction::OpenPosition { token_c_id, token_c_amount, token_d_id, token_d_amount, token_p_id,
            min_token_p_amount, .. } => {
            &&& pos_owner2 == pos_owner
            &&& exists|ro: Result<EventDataMarginOpen, MarginOpenError>| #[trigger] open_done(account, assets, margin_config,
                mbtl, prices, ts, position_num, token_c_id, token_c_amount, token_d_id, token_d_amount, token_p_id,
                min_token_p_amount, swap_detail, reliable_liquidator, ro, account2, assets2) && match ro {
                    Ok(ev) => r == Ok::<MarginOutcome, MarginExecuteError>(MarginOutcome::Opened(ev)),
                    Err(e) => r == Err::<MarginOutcome, MarginExecuteError>(MarginExecuteError::Open(e)),
                }
        },
        MarginAction::DecreaseMTPosition { pos_id, token_p_amount, min_token_d_amount, .. } => {
            &&& pos_owner2 == pos_owner
            &&& decreased(account, assets, mbtl, prices, pos_id@, token_p_amount, min_token_d_amount, swap_detail,
                DecreaseOperation::Decrease, None, r, account2, assets2)
        },
        MarginAction::CloseMTPosition { pos_id, token_p_amount, min_token_d_amount, .. } => {
            &&& pos_owner2 == pos_owner
            &&& decreased(account, assets, mbtl, prices, pos_id@, token_p_amount, min_token_d_amount, swap_detail,
                DecreaseOperation::Close, None, r, account2, assets2)
        },
        MarginAction::LiquidateMTPosition { pos_owner_id, pos_id, token_p_amount, min_token_d_amount, .. } => {
            &&& account2 == account
            &&& if pos_owner_id@ == actor_id {
                r == Err::<MarginOutcome, MarginExecuteError>(MarginExecuteError::Refused(MarginActionError::LiquidateSelf))
                    && unchanged
            } else {
                exists|liquidator: AccountId| #[trigger] liquidator@ == actor_id && decreased(pos_owner, assets, mbtl,
                    prices, pos_id@, token_p_amount, min_token_d_amount, swap_detail, DecreaseOperation::Liquidate,
                    Some(liquidator), r, pos_owner2, assets2)
            }
        },
        MarginAction::ForceCloseMTPosition { pos_owner_id, pos_id, token_p_amount, min_token_d_amount, .. } => {
            &&& account2 == account
            &&& if pos_owner_id@ == actor_id {
                r == Err::<MarginOutcome, MarginExecuteError>(MarginExecuteError::Refused(MarginActionError::LiquidateSelf))
                    && unchanged
            } else if !force_closing_enabled {
                r == Err::<MarginOutcome, MarginExecuteError>(
                    MarginExecuteError::Refused(MarginActionError::ForceClosingDisabled)) && unchanged
            } else {
                decreased(pos_owner, assets, mbtl, prices, pos_id@, token_p_amount, min_token_d_amount, swap_detail,
                    DecreaseOperation::ForceClose, None, r, pos_owner2, assets2)
            }
        },
    }
}

/// `decrease_done`, with its result taken into a margin outcome.
pub open spec fn decreased(account: MarginAccount, assets: AccountMap<Asset>, mbtl: MarginBaseTokenLimit,
    prices: Map<Seq<char>, Price>, pos_id: Seq<char>, token_p_amount: Balance, min_token_d_amount: Balance,
    swap_detail: SwapDetail, op: DecreaseOperation, liquidator_id: Option<AccountId>,
    r: Result<MarginOutcome, MarginExecuteError>, account2: MarginAccount, assets2: AccountMap<Asset>) -> bool
{
    exists|rd: Result<EventDataMarginDecrease, MarginDecreaseError>| #[trigger] decrease_done(account, assets, mbtl, prices,
        pos_id, token_p_amount, min_token_d_amount, swap_detail, op, liquidator_id, rd, account2, assets2) && match rd {
            Ok(ev) => r == Ok::<MarginOutcome, MarginExecuteError>(MarginOutcome::DecreaseStarted(ev)),
            Err(e) => r == Err::<MarginOutcome, MarginExecuteError>(MarginExecuteError::Decrease(e)),
        }
}

/// Runs one margin action of `account`, whose owner is `actor_id` (see
/// `action_done` for what each kind does and when it is refused). `mbtl`
/// holds the limits of the base token of the position the action is about,
/// and `swap_detail` is the swap its indication names; `pos_owner` is the
/// margin account whose position a liquidation or a forced close is about.
#[verifier::rlimit(80)]
pub fn margin_execute_action(
    actor_id: &AccountId,
    action: &MarginAction,
    account: &mut MarginAccount,
    pos_owner: &mut MarginAccount,
    assets: &mut AccountMap<Asset>,
    margin_config: &MarginConfig,
    mbtl: &MarginBaseTokenLimit,
    prices: &Prices,
    ts: Timestamp,
    position_num: u64,
    swap_detail: &SwapDetail,
    force_closing_enabled: bool,
    reliable_liquidator: bool,
) -> (r: Result<MarginOutcome, MarginExecuteError>)
    requires
        old(account).wf(),
        old(pos_owner).wf(),
        old(assets).wf(),
        margin_config.registered_tokens.wf(),
        prices.prices.wf(),
        action_fits(*action, *old(account), *old(pos_owner), old(assets)@, *margin_config, *mbtl, prices.prices@,
            *swap_detail, reliable_liquidator),
    ensures
        final(account).wf(),
        final(pos_owner).wf(),
        final(assets).wf(),
        action_done(actor_id@, *action, *old(account), *old(pos_owner), *old(assets), *margin_config, *mbtl, prices.prices@,
            ts, position_num, *swap_detail, force_closing_enabled, reliable_liquidator, r, *final(account), *final(pos_owner),
            *final(assets)),
{
    match check_margin_action(action, actor_id, force_closing_enabled) {
        Ok(_) => {},
        Err(e) => { return Err(MarginExecuteError::Refused(e)); },
    }
    match action {
        MarginAction::Withdraw { token_id, amount } => {
            let can_withdraw = match assets.get_ref(token_id) {
                Some(a) => a.config.can_withdraw,
                None => { return Err(MarginExecuteError::AssetNotFound); },
            };
            if !can_withdraw {
                return Err(MarginExecuteError::WithdrawDisabled);
            }
            if account.supplied.get(token_id).is_none() {
                return Ok(MarginOutcome::NothingSupplied);
            }
            let ghost before = assets@;
            let mut asset = match assets.remove(token_id) {
                Some(a) => a,
                None => { return Err(MarginExecuteError::AssetNotFound); },
            };
            let w = internal_margin_withdraw_supply(account, &mut asset, token_id, *amount);
            assets.insert(token_id, asset);
            proof { assert(assets@ =~= before.insert(token_id@, assets@[token_id@])); }
            match w {
                Ok((a, ft)) => Ok(MarginOutcome::Withdrawn { token_id: token_id.clone(), amount: a, ft_amount: ft }),
                Err(e) => Err(MarginExecuteError::Account(e)),
            }
        },
        MarginAction::IncreaseCollateral { pos_id, amount } => {
            let token_c_id = match account.margin_positions.get_ref(pos_id) {
                Some(mt) => mt.token_c_id.clone(),
                None => { return Err(MarginExecuteError::PositionNotFound); },
            };
            let asset_c = match assets.get_ref(&token_c_id) {
                Some(a) => a,
                None => { return Err(MarginExecuteError::AssetNotFound); },
            };
            match internal_margin_increase_collateral(account, asset_c, pos_id, *amount) {
                Ok((t, a)) => Ok(MarginOutcome::CollateralIncreased { token_id: t, amount: a }),
                Err(e) => Err(MarginExecuteError::Account(e)),
            }
        },
        MarginAction::DecreaseCollateral { pos_id, amount } => {
            let mt = match account.margin_positions.get_ref(pos_id) {
                Some(mt) => mt.copy(),
                None => { return Err(MarginExecuteError::PositionNotFound); },
            };
            let (asset_c, asset_d, asset_p) = match (assets.get_ref(&mt.token_c_id), assets.get_ref(&mt.token_d_id),
                assets.get_ref(&mt.token_p_id)) {
                (Some(c), Some(d), Some(p)) => (c, d, p),
                _ => { return Err(MarginExecuteError::AssetNotFound); },
            };
            let (price_c, price_d, price_p) = match (prices.prices.get(&mt.token_c_id), prices.prices.get(&mt.token_d_id),
                prices.prices.get(&mt.token_p_id)) {
                (Some(c), Some(d), Some(p)) => (c, d, p),
                _ => { return Err(MarginExecuteError::PriceNotFound); },
            };
            match internal_margin_decrease_collateral(account, pos_id, *amount, asset_c, &price_c, asset_d, &price_d,
                asset_p, &price_p, mbtl.min_safety_buffer, mbtl.max_leverage_rate) {
                Ok(t) => Ok(MarginOutcome::CollateralDecreased { token_id: t }),
                Err(e) => Err(MarginExecuteError::Account(e)),
            }
        },
        MarginAction::OpenPosition { token_c_id, token_c_amount, token_d_id, token_d_amount, token_p_id,
            min_token_p_amount, .. } => {
            let ro = margin_open_position(account, assets, margin_config, mbtl, prices, ts, position_num, token_c_id,
                *token_c_amount, token_d_id, *token_d_amount, token_p_id, *min_token_p_amount, swap_detail,
                reliable_liquidator);
            match ro {
                Ok(ev) => Ok(MarginOutcome::Opened(ev)),
                Err(e) => Err(MarginExecuteError::Open(e)),
            }
        },
        MarginAction::DecreaseMTPosition { pos_id, token_p_amount, min_token_d_amount, .. } => {
            let rd = decrease_margin_position(account, assets, mbtl, prices, pos_id, *token_p_amount, *min_token_d_amount,
                swap_detail, DecreaseOperation::Decrease, None);
            match rd {
                Ok(ev) => Ok(MarginOutcome::DecreaseStarted(ev)),
                Err(e) => Err(MarginExecuteError::Decrease(e)),
            }
        },
        MarginAction::CloseMTPosition { pos_id, token_p_amount, min_token_d_amount, .. } => {
            let rd = decrease_margin_position(account, assets, mbtl, prices, pos_id, *token_p_amount, *min_token_d_amount,
                swap_detail, DecreaseOperation::Close, None);
            match rd {
                Ok(ev) => Ok(MarginOutcome::DecreaseStarted(ev)),
                Err(e) => Err(MarginExecuteError::Decrease(e)),
            }
        },
        MarginAction::LiquidateMTPosition { pos_id, token_p_amount, min_token_d_amount, .. } => {
            let rd = decrease_margin_position(pos_owner, assets, mbtl, prices, pos_id, *token_p_amount, *min_token_d_amount,
                swap_detail, DecreaseOperation::Liquidate, Some(actor_id.clone()));
            match rd {
                Ok(ev) => Ok(MarginOutcome::DecreaseStarted(ev)),
                Err(e) => Err(MarginExecuteError::Decrease(e)),
            }
        },
        MarginAction::ForceCloseMTPosition { pos_id, token_p_amount, min_token_d_amount, .. } => {
            let rd = decrease_margin_position(pos_owner, assets, mbtl, prices, pos_id, *token_p_amount, *min_token_d_amount,
                swap_detail, DecreaseOperation::ForceClose, None);
            match rd {
                Ok(ev) => Ok(MarginOutcome::DecreaseStarted(ev)),
                Err(e) => Err(MarginExecuteError::Decrease(e)),
            }
        },
    }
}

/// One action of a batch, with the limits of the base token of the position
/// it is about and the swap its indication names.
pub struct MarginStep {
    pub action: MarginAction,
    pub mbtl: MarginBaseTokenLimit,
    pub swap: SwapDetail,
}

/// The owner of the position that the action liquidates or closes by force.
pub open spec fn owner_of(action: MarginAction) -> Option<Seq<char>> {
    match action {
        MarginAction::LiquidateMTPosition { pos_owner_id, .. } => Some(pos_owner_id@),
        MarginAction::ForceCloseMTPosition { pos_owner_id, .. } => Some(pos_owner_id@),
        _ => None,
    }
}

/// What one step of a batch did: refused by the checks of the action, or
/// when the owner of the position it is about has no margin account,
/// changing nothing; else as `action_done` says, on the acting account and,
/// for a liquidation or a forced close, on the owner's account, which goes
/// back among the other accounts.
pub open spec fn margin_step(actor_id: Seq<char>, step: MarginStep, account: MarginAccount,
    owners: Map<Seq<char>, MarginAccount>, assets: AccountMap<Asset>, margin_config: MarginConfig,
    prices: Map<Seq<char>, Price>, ts: Timestamp, position_num: u64, force_closing_enabled: bool,
    reliable_liquidator: bool, r: Result<MarginOutcome, MarginExecuteError>, account2: MarginAccount,
    owners2: Map<Seq<char>, MarginAccount>, assets2: AccountMap<Asset>) -> bool
{
    let unchanged = account2 == account && owners2 == owners && assets2@ == assets@;
    match margin_action_check(step.action, actor_id, force_closing_enabled) {
        Err(e) => r == Err::<MarginOutcome, MarginExecuteError>(MarginExecuteError::Refused(e)) && unchanged,
        Ok(_) => match owner_of(step.action) {
            None => owners2 == owners && exists|o: MarginAccount| #[trigger] action_done(actor_id, step.action, account, o,
                assets, margin_config, step.mbtl, prices, ts, position_num, step.swap, force_closing_enabled,
                reliable_liquidator, r, account2, o, assets2),
            Some(id) => if !owners.contains_key(id) {
                r == Err::<MarginOutcome, MarginExecuteError>(MarginExecuteError::OwnerNotFound) && unchanged
            } else {
                &&& owners2 == owners.insert(id, owners2[id])
                &&& action_done(actor_id, step.action, account, owners[id], assets, margin_config, step.mbtl, prices, ts,
                    position_num, step.swap, force_closing_enabled, reliable_liquidator, r, account2, owners2[id], assets2)
            },
        },
    }
}

/// The arithmetic of the step stays within bounds (see `action_fits`).
pub open spec fn step_fits(step: MarginStep, account: MarginAccount, owners: Map<Seq<char>, MarginAccount>,
    assets: Map<Seq<char>, Asset>, margin_config: MarginConfig, prices: Map<Seq<char>, Price>,
    reliable_liquidator: bool) -> bool
{
    let owner = match owner_of(step.action) {
        Some(id) => owners[id],
        None => account,
    };
    action_fits(step.action, account, owner, assets, margin_config, step.mbtl, prices, step.swap, reliable_liquidator)
}

/// The number of positions opened so far once `action` ran.
pub open spec fn num_after(action: MarginAction, position_num: u64) -> int {
    if action is OpenPosition { position_num + 1 } else { position_num as int }
}

/// `accounts`, `owners`, `states` and `nums` are the states that the steps
/// go through, one after the other, each succeeding with its outcome in
/// `outcomes`.
pub open spec fn is_margin_run(actor_id: Seq<char>, steps: Seq<MarginStep>, accounts: Seq<MarginAccount>,
    owners: Seq<Map<Seq<char>, MarginAccount>>, states: Seq<AccountMap<Asset>>, nums: Seq<u64>, outcomes: Seq<MarginOutcome>,
    margin_config: MarginConfig, prices: Map<Seq<char>, Price>, ts: Timestamp, force_closing_enabled: bool,
    reliable_liquidator: bool) -> bool
{
    &&& accounts.len() == steps.len() + 1
    &&& owners.len() == steps.len() + 1
    &&& states.len() == steps.len() + 1
    &&& nums.len() == steps.len() + 1
    &&& outcomes.len() == steps.len()
    &&& forall|i: int| #![trigger steps[i]] 0 <= i < steps.len() ==> {
        &&& margin_step(actor_id, steps[i], accounts[i], owners[i], states[i], margin_config, prices, ts, nums[i],
            force_closing_enabled, reliable_liquidator, Ok(outcomes[i]), accounts[i + 1], owners[i + 1], states[i + 1])
        &&& nums[i + 1] == num_after(steps[i].action, nums[i])
    }
}

/// Why a batch of margin actions stopped: the index of the action refused,
/// and why.
#[derive(Clone, Copy, PartialEq, Eq, Debug)]
pub struct MarginBatchError {
    pub index: usize,
    pub error: MarginExecuteError,
}

/// What a batch did: the steps ran up to one that was refused, and the
/// states are those that step left; or all ran.
pub open spec fn margin_batch_done(actor_id: Seq<char>, steps: Seq<MarginStep>, account: MarginAccount,
    owners: Map<Seq<char>, MarginAccount>, assets: AccountMap<Asset>, margin_config: MarginConfig,
    prices: Map<Seq<char>, Price>, ts: Timestamp, position_num: u64, force_closing_enabled: bool, reliable_liquidator: bool,
    r: Result<(Vec<MarginOutcome>, u64), MarginBatchError>, account2: MarginAccount, owners2: Map<Seq<char>, MarginAccount>,
    assets2: AccountMap<Asset>) -> bool
{
    ||| exists|k: int, accounts: Seq<MarginAccount>, owner_maps: Seq<Map<Seq<char>, MarginAccount>>,
        states: Seq<AccountMap<Asset>>, nums: Seq<u64>, outcomes: Seq<MarginOutcome>, e: MarginExecuteError| {
        &&& 0 <= k < steps.len()
        &&& #[trigger] is_margin_run(actor_id, steps.take(k), accounts, owner_maps, states, nums, outcomes, margin_config,
            prices, ts, force_closing_enabled, reliable_liquidator)
        &&& accounts[0] == account && owner_maps[0] == owners && states[0] == assets && nums[0] == position_num
        &&& #[trigger] margin_step(actor_id, steps[k], accounts[k], owner_maps[k], states[k], margin_config, prices, ts,
            nums[k], force_closing_enabled, reliable_liquidator, Err::<MarginOutcome, MarginExecuteError>(e), account2,
            owners2, assets2)
        &&& r == Err::<(Vec<MarginOutcome>, u64), MarginBatchError>(MarginBatchError { index: k as usize, error: e })
    }
    ||| exists|accounts: Seq<MarginAccount>, owner_maps: Seq<Map<Seq<char>, MarginAccount>>, states: Seq<AccountMap<Asset>>,
        nums: Seq<u64>, outcomes: Seq<MarginOutcome>| {
        &&& #[trigger] is_margin_run(actor_id, steps, accounts, owner_maps, states, nums, outcomes, margin_config, prices, ts,
            force_closing_enabled, reliable_liquidator)
        &&& accounts[0] == account && owner_maps[0] == owners && states[0] == assets && nums[0] == position_num
        &&& account2 == accounts.last() && owners2 == owner_maps.last() && assets2 == states.last()
        &&& r matches Ok((v, n)) && v@ == outcomes && n == nums.last()
    }
}

/// Every account among `owners` holds no key twice.
pub open spec fn owners_wf(owners: Map<Seq<char>, MarginAccount>) -> bool {
    forall|id: Seq<char>| #[trigger] owners.contains_key(id) ==> owners[id].wf()
}

/// Runs the margin actions `steps` of `account`, whose owner is `actor_id`,
/// in turn, until one is refused (see `margin_batch_done`); `owners` holds
/// the other margin accounts, by id, for the positions liquidated or closed
/// by force; `position_num` is the number of positions opened before. On
/// success, the outcome of each action and the number of positions opened
/// once they ran.
#[verifier::rlimit(80)]
pub fn margin_execute(
    actor_id: &AccountId,
    account: &mut MarginAccount,
    owners: &mut AccountMap<MarginAccount>,
    assets: &mut AccountMap<Asset>,
    margin_config: &MarginConfig,
    prices: &Prices,
    ts: Timestamp,
    position_num: u64,
    steps: &Vec<MarginStep>,
    force_closing_enabled: bool,
    reliable_liquidator: bool,
) -> (r: Result<(Vec<MarginOutcome>, u64), MarginBatchError>)
    requires
        old(account).wf(),
        old(owners).wf(),
        owners_wf(old(owners)@),
        old(assets).wf(),
        margin_config.registered_tokens.wf(),
        prices.prices.wf(),
        position_num + steps@.len() <= u64::MAX,
        forall|k: int, accounts: Seq<MarginAccount>, owner_maps: Seq<Map<Seq<char>, MarginAccount>>,
            states: Seq<AccountMap<Asset>>, nums: Seq<u64>, outcomes: Seq<MarginOutcome>|
            0 <= k < steps@.len() && #[trigger] is_margin_run(actor_id@, steps@.take(k), accounts, owner_maps, states, nums,
                outcomes, *margin_config, prices.prices@, ts, force_closing_enabled, reliable_liquidator)
            && accounts[0] == *old(account) && owner_maps[0] == old(owners)@ && states[0] == *old(assets)
            && nums[0] == position_num
            ==> step_fits(steps@[k], accounts[k], owner_maps[k], states[k]@, *margin_config, prices.prices@,
                reliable_liquidator),
    ensures
        final(account).wf(),
        final(owners).wf(),
        final(assets).wf(),
        margin_batch_done(actor_id@, steps@, *old(account), old(owners)@, *old(assets), *margin_config, prices.prices@, ts,
            position_num, force_closing_enabled, reliable_liquidator, r, *final(account), final(owners)@, *final(assets)),
{
    let ghost mut accounts: Seq<MarginAccount> = seq![*account];
    let ghost mut owner_maps: Seq<Map<Seq<char>, MarginAccount>> = seq![owners@];
    let ghost mut states: Seq<AccountMap<Asset>> = seq![*assets];
    let ghost mut nums: Seq<u64> = seq![position_num];
    let mut outcomes: Vec<MarginOutcome> = Vec::new();
    let mut num = position_num;
    let mut i: usize = 0;
    assert(steps@.take(0) =~= Seq::<MarginStep>::empty());
    while i < steps.len()
        invariant
            i <= steps@.len(),
            account.wf(),
            owners.wf(),
            owners_wf(owners@),
            assets.wf(),
            margin_config.registered_tokens.wf(),
            prices.prices.wf(),
            is_margin_run(actor_id@, steps@.take(i as int), accounts, owner_maps, states, nums, outcomes@, *margin_config,
                prices.prices@, ts, force_closing_enabled, reliable_liquidator),
            accounts[0] == *old(account),
            owner_maps[0] == old(owners)@,
            states[0] == *old(assets),
            nums[0] == position_num,
            accounts.last() == *account,
            owner_maps.last() == owners@,
            states.last() == *assets,
            nums.last() == num,
            num <= position_num + i,
            position_num + steps@.len() <= u64::MAX,
            forall|k: int, accounts: Seq<MarginAccount>, owner_maps: Seq<Map<Seq<char>, MarginAccount>>,
                states: Seq<AccountMap<Asset>>, nums: Seq<u64>, outcomes: Seq<MarginOutcome>|
                0 <= k < steps@.len() && #[trigger] is_margin_run(actor_id@, steps@.take(k), accounts, owner_maps, states,
                    nums, outcomes, *margin_config, prices.prices@, ts, force_closing_enabled, reliable_liquidator)
                && accounts[0] == *old(account) && owner_maps[0] == old(owners)@ && states[0] == *old(assets)
                && nums[0] == position_num
                ==> step_fits(steps@[k], accounts[k], owner_maps[k], states[k]@, *margin_config, prices.prices@,
                    reliable_liquidator),
        decreases steps@.len() - i,
    {
        let step = &steps[i];
        proof {
            assert(step_fits(steps@[i as int], accounts[i as int], owner_maps[i as int], states[i as int]@, *margin_config,
                prices.prices@, reliable_liquidator));
        }
        let ghost account_before = *account;
        let ghost owners_before = owners@;
        let ghost assets_before = *assets;
        if let Err(e) = check_margin_action(&step.action, actor_id, force_closing_enabled) {
            proof {
                assert(margin_step(actor_id@, steps@[i as int], accounts[i as int], owner_maps[i as int], states[i as int],
                    *margin_config, prices.prices@, ts, nums[i as int], force_closing_enabled, reliable_liquidator,
                    Err::<MarginOutcome, MarginExecuteError>(MarginExecuteError::Refused(e)), *account, owners@, *assets));
            }
            return Err(MarginBatchError { index: i, error: MarginExecuteError::Refused(e) });
        }
        let owner_id: Option<&AccountId> = match &step.action {
            MarginAction::LiquidateMTPosition { pos_owner_id, .. } => Some(pos_owner_id),
            MarginAction::ForceCloseMTPosition { pos_owner_id, .. } => Some(pos_owner_id),
            _ => None,
        };
        let r = match owner_id {
            None => {
                let mut placeholder = MarginAccount::new(actor_id);
                let ghost placeholder_before = placeholder;
                let r = margin_execute_action(actor_id, &step.action, account, &mut placeholder, assets, margin_config,
                    &step.mbtl, prices, ts, num, &step.swap, force_closing_enabled, reliable_liquidator);
                proof {
                    assert(action_done(actor_id@, step.action, account_before, placeholder_before, assets_before,
                        *margin_config, step.mbtl, prices.prices@, ts, num, step.swap, force_closing_enabled,
                        reliable_liquidator, r, *account, placeholder_before, *assets));
                }
                r
            },
            Some(id) => {
                let mut owner = match owners.remove(id) {
                    Some(o) => o,
                    None => {
                        proof {
                            assert(owners@ =~= owners_before);
                            assert(margin_step(actor_id@, steps@[i as int], accounts[i as int], owner_maps[i as int],
                                states[i as int], *margin_config, prices.prices@, ts, nums[i as int], force_closing_enabled,
                                reliable_liquidator, Err::<MarginOutcome, MarginExecuteError>(MarginExecuteError::OwnerNotFound),
                                *account, owners@, *assets));
                        }
                        return Err(MarginBatchError { index: i, error: MarginExecuteError::OwnerNotFound });
                    },
                };
                let r = margin_execute_action(actor_id, &step.action, account, &mut owner, assets, margin_config,
                    &step.mbtl, prices, ts, num, &step.swap, force_closing_enabled, reliable_liquidator);
                owners.insert(id, owner);
                proof {
                    assert(owners@ =~= owners_before.insert(id@, owners@[id@]));
                }
                r
            },
        };
        match r {
            Ok(o) => {
                let opened = match &step.action {
                    MarginAction::OpenPosition { .. } => true,
                    _ => false,
                };
                if opened {
                    num = num + 1;
                }
                outcomes.push(o);
                proof {
                    accounts = accounts.push(*account);
                    owner_maps = owner_maps.push(owners@);
                    states = states.push(*assets);
                    nums = nums.push(num);
                    let t = steps@.take(i + 1);
                    assert(t.drop_last() =~= steps@.take(i as int));
                    assert forall|j: int| #![trigger t[j]] 0 <= j < t.len() implies {
                        &&& margin_step(actor_id@, t[j], accounts[j], owner_maps[j], states[j], *margin_config,
                            prices.prices@, ts, nums[j], force_closing_enabled, reliable_liquidator, Ok(outcomes@[j]),
                            accounts[j + 1], owner_maps[j + 1], states[j + 1])
                        &&& nums[j + 1] == num_after(t[j].action, nums[j])
                    } by {
                        if j < i {
                            assert(steps@.take(i as int)[j] == t[j]);
                        }
                    }
                }
            },
            Err(e) => {
                proof {
                    assert(margin_step(actor_id@, steps@[i as int], accounts[i as int], owner_maps[i as int], states[i as int],
                        *margin_config, prices.prices@, ts, nums[i as int], force_closing_enabled, reliable_liquidator,
                        Err::<MarginOutcome, MarginExecuteError>(e), *account, owners@, *assets));
                }
                return Err(MarginBatchError { index: i, error: e });
            },
        }
        i = i + 1;
    }
    assert(steps@.take(steps@.len() as int) =~= steps@);
    Ok((outcomes, num))
}

} // verus!
