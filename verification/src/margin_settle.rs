//! The return of a decrease trade: the tokens a dex gives back settle the
//! position's debt (see `settle_decrease_trade_return`), the position is
//! unlocked, or closed when no debt is left, and what is left over goes to
//! the user, the protocol owner or the liquidator by the operation.

use vstd::prelude::*;
use crate::account_map::AccountMap;
use crate::asset::Asset;
use crate::events::EventDataMarginDecreaseResult;
use crate::margin_account::{MarginAccount, benefits_deposits_fit, benefits_go_to_owner, deposited3, split,
    distribute_benefits};
use crate::margin_base_token_limit::MarginBaseTokenLimit;
use crate::margin_position::MarginTradingPosition;
use crate::margin_trading::{DecreaseOperation, SettlementBenefits, settled, settle_ok, closed, close_ok,
    settle_decrease_trade_return, settle_closed_position};
use crate::utils::{AccountId, Balance};

verus! {

/// Why the return of a trade could not be settled.
#[derive(Clone, Copy, PartialEq, Eq, Debug)]
pub enum SettleError {
    /// The user has no position of that id.
    PositionNotFound,
    /// A token of the position has no asset.
    AssetNotFound,
}

/// The position, the debt and position assets and the benefits once the
/// return `amount` of a trade of `operation` settled the position `mt`: the
/// debt token left over, and, when no debt is left, the collateral and the
/// position tokens (see `closed`).
pub open spec fn settlement(mt: MarginTradingPosition, asset_debt: Asset, asset_position: Asset,
    operation: DecreaseOperation, amount: nat) -> (MarginTradingPosition, Asset, Asset, SettlementBenefits)
{
    let (p1, ad, fee, s, c) = settled(mt, asset_debt, operation, amount);
    let b0 = SettlementBenefits { collateral_shares: 0, debt_token_shares: s as u128, position_token_shares: 0 };
    if p1.token_d_shares == 0 {
        let (ap, b) = closed(p1, asset_position, b0);
        (p1, ad, ap, b)
    } else {
        (p1, ad, asset_position, b0)
    }
}

/// The arithmetic of the settlement stays within bounds.
pub open spec fn settlement_ok(mt: MarginTradingPosition, user: MarginAccount, owner: MarginAccount,
    liquidator: MarginAccount, has_liquidator: bool, assets: Map<Seq<char>, Asset>, mbtl: MarginBaseTokenLimit,
    operation: DecreaseOperation, amount: nat) -> bool
{
    let (d, p) = (mt.token_d_id@, mt.token_p_id@);
    assets.contains_key(d) && assets.contains_key(p) ==> {
        let (p1, ad, ap, b) = settlement(mt, assets[d], assets[p], operation, amount);
        &&& d != p
        &&& settle_ok(mt, assets[d], operation, amount)
        &&& p1.token_d_shares == 0 ==> close_ok(p1, assets[p])
        &&& benefits_deposits_fit(operation, user, owner, liquidator, has_liquidator, p1, mbtl, b)
    }
}

/// Settles the return `amount` of the trade of kind `operation` of the
/// position `pos_id` of `user` (see `settlement`): refused, changing
/// nothing, when the user has no such position or a token of it has no
/// asset. The position is unlocked, or closed when no debt is left; the
/// benefits go by the operation (see `distribute_benefits`), `owner` being
/// the protocol owner's margin account and `liquidator` the liquidator's,
/// when `has_liquidator`. Returns the event of the result and, for a forced
/// close that left debt, the debt written off and the part of it the reserve
/// did not cover.
#[verifier::rlimit(80)]
pub fn on_decrease_trade_return(
    user: &mut MarginAccount,
    owner: &mut MarginAccount,
    liquidator: &mut MarginAccount,
    has_liquidator: bool,
    assets: &mut AccountMap<Asset>,
    mbtl: &MarginBaseTokenLimit,
    pos_id: &String,
    amount: Balance,
    operation: DecreaseOperation,
    liquidator_id: Option<AccountId>,
) -> (r: Result<(EventDataMarginDecreaseResult, Option<(Balance, Balance)>), SettleError>)
    requires
        old(user).wf(),
        old(owner).wf(),
        old(liquidator).wf(),
        old(assets).wf(),
        old(user).margin_positions@.contains_key(pos_id@) ==> settlement_ok(old(user).margin_positions@[pos_id@],
            *old(user), *old(owner), *old(liquidator), has_liquidator, old(assets)@, *mbtl, operation, amount as nat),
    ensures
        final(user).wf() && final(owner).wf() && final(liquidator).wf() && final(assets).wf(),
        ({
            let mt = old(user).margin_positions@[pos_id@];
            let (d, p) = (mt.token_d_id@, mt.token_p_id@);
            let a0 = old(assets)@;
            let unchanged = *final(user) == *old(user) && *final(owner) == *old(owner)
                && *final(liquidator) == *old(liquidator) && final(assets)@ == a0;
            if !old(user).margin_positions@.contains_key(pos_id@) {
                r == Err::<(EventDataMarginDecreaseResult, Option<(Balance, Balance)>), SettleError>(
                    SettleError::PositionNotFound) && unchanged
            } else if !(a0.contains_key(d) && a0.contains_key(p)) {
                r == Err::<(EventDataMarginDecreaseResult, Option<(Balance, Balance)>), SettleError>(
                    SettleError::AssetNotFound) && unchanged
            } else {
                let (p1, ad, ap, b) = settlement(mt, a0[d], a0[p], operation, amount as nat);
                let (_, _, fee, _, c) = settled(mt, a0[d], operation, amount as nat);
                let (mc, md, mp) = (p1.token_c_id@, p1.token_d_id@, p1.token_p_id@);
                let (bc, bd, bp) = (b.collateral_shares as nat, b.debt_token_shares as nat, b.position_token_shares as nat);
                let pr = mbtl.liq_benefit_protocol_rate as nat;
                let lr = mbtl.liq_benefit_liquidator_rate as nat;
                let (sc, sd, sp) = (split(bc, pr, lr), split(bd, pr, lr), split(bp, pr, lr));
                &&& r matches Ok((ev, cover)) && cover == c && ev.pos_id@ == pos_id@ && ev == (EventDataMarginDecreaseResult {
                    account_id: old(user).account_id,
                    pos_id: ev.pos_id,
                    liquidator_id,
                    token_c_id: p1.token_c_id,
                    token_c_shares: p1.token_c_shares,
                    token_d_id: p1.token_d_id,
                    token_d_shares: p1.token_d_shares,
                    token_p_id: p1.token_p_id,
                    token_p_amount: p1.token_p_amount,
                    holding_fee: fee as u128,
                })
                &&& final(assets)@ == a0.insert(d, ad).insert(p, ap)
                &&& final(user).account_id == old(user).account_id
                &&& final(user).margin_positions@ == (if p1.token_d_shares == 0 {
                    old(user).margin_positions@.remove(pos_id@)
                } else {
                    old(user).margin_positions@.insert(pos_id@, p1)
                })
                &&& final(owner).margin_positions == old(owner).margin_positions
                &&& final(liquidator).margin_positions == old(liquidator).margin_positions
                &&& if !(bc > 0 || bd > 0 || bp > 0) {
                    final(user).supplied@ == old(user).supplied@ && final(owner).supplied@ == old(owner).supplied@
                        && final(liquidator).supplied@ == old(liquidator).supplied@
                } else if operation is Liquidate && has_liquidator {
                    &&& final(owner).supplied@ == deposited3(old(owner).supplied@, mc, sc.0, md, sd.0, mp, sp.0)
                    &&& final(liquidator).supplied@ == deposited3(old(liquidator).supplied@, mc, sc.1, md, sd.1, mp, sp.1)
                    &&& final(user).supplied@ == deposited3(old(user).supplied@, mc, sc.2, md, sd.2, mp, sp.2)
                } else if benefits_go_to_owner(operation, has_liquidator) {
                    &&& final(owner).supplied@ == deposited3(old(owner).supplied@, mc, bc, md, bd, mp, bp)
                    &&& final(user).supplied@ == old(user).supplied@
                    &&& final(liquidator).supplied@ == old(liquidator).supplied@
                } else {
                    &&& final(user).supplied@ == deposited3(old(user).supplied@, mc, bc, md, bd, mp, bp)
                    &&& final(owner).supplied@ == old(owner).supplied@
                    &&& final(liquidator).supplied@ == old(liquidator).supplied@
                }
            }
        }),
{
    let mut position = match user.margin_positions.get_ref(pos_id) {
        Some(mt) => mt.copy(),
        None => { return Err(SettleError::PositionNotFound); },
    };
    if assets.get_ref(&position.token_d_id).is_none() || assets.get_ref(&position.token_p_id).is_none() {
        return Err(SettleError::AssetNotFound);
    }
    let ghost a0 = assets@;
    let ghost mt = position;
    let mut asset_debt = match assets.remove(&position.token_d_id) {
        Some(a) => a,
        None => { return Err(SettleError::AssetNotFound); },
    };
    let mut asset_position = match assets.remove(&position.token_p_id) {
        Some(a) => a,
        None => { return Err(SettleError::AssetNotFound); },
    };
    let (holding_fee, debt_token_shares, cover) = settle_decrease_trade_return(&mut position, &mut asset_debt, operation,
        amount);
    let mut benefits = SettlementBenefits { collateral_shares: 0, debt_token_shares, position_token_shares: 0 };
    let event = EventDataMarginDecreaseResult {
        account_id: user.account_id.clone(),
        pos_id: pos_id.clone(),
        liquidator_id,
        token_c_id: position.token_c_id.clone(),
        token_c_shares: position.token_c_shares,
        token_d_id: position.token_d_id.clone(),
        token_d_shares: position.token_d_shares,
        token_p_id: position.token_p_id.clone(),
        token_p_amount: position.token_p_amount,
        holding_fee,
    };
    if position.token_d_shares == 0 {
        settle_closed_position(&position, &mut asset_position, &mut benefits);
        user.margin_positions.remove(pos_id);
    } else {
        user.margin_positions.insert(pos_id, position.copy());
    }
    distribute_benefits(operation, user, owner, liquidator, has_liquidator, &position, mbtl, &benefits);
    assets.insert(&position.token_d_id, asset_debt);
    assets.insert(&position.token_p_id, asset_position);
    proof {
        assert(assets@ =~= a0.insert(mt.token_d_id@, asset_debt).insert(mt.token_p_id@, asset_position));
    }
    Ok((event, cover))
}

} // verus!
