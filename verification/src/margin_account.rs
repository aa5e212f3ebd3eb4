//! A margin account: the tokens it supplies for margin trading and its
//! positions, and the actions on them that need no trade.

use vstd::prelude::*;
use crate::account_lending::with_shares;
use crate::account_map::AccountMap;
use crate::asset::Asset;
use crate::big_decimal::{BigDecimal, big, half, div_raw, value_raw};
use crate::lending::{available, available_ok, pool_plus, pool_minus, ft_amount};
use crate::margin_health::{
    price_ok, hp_fee_ok, buffer_ok, spec_liquidatable, mtp_cap, mtp_owed, mtp_collateral_balance,
    is_mt_liquidatable, is_mt_forcecloseable, get_mtp_lr,
};
use crate::margin_position::MarginTradingPosition;
use crate::margin_base_token_limit::MarginBaseTokenLimit;
use crate::margin_trading::{DecreaseOperation, StopServiceFeeInfo, MarginAccountUpdates, SettlementBenefits, spec_benefit_distribution, benefit_distribution_ok, calculate_benefit_distribution};
use crate::pool::{spec_amount_to_shares, spec_shares_to_amount};
use crate::position::held;
use crate::prices::Price;
use crate::lending::pow10_u128;
use crate::utils::{AccountId, Balance, Shares, TokenId};
use crate::wide::p384;

verus! {

/// A margin account.
pub struct MarginAccount {
    /// The account's own id.
    pub account_id: AccountId,
    /// The shares of each token supplied for margin trading.
    pub supplied: AccountMap<Shares>,
    /// The margin trading positions, by id.
    pub margin_positions: AccountMap<MarginTradingPosition>,
}

/// Why a margin action on the supply or on collateral was refused.
#[derive(Clone, Copy, PartialEq, Eq, Debug)]
pub enum MarginAccountError {
    /// The amount exceeds what the asset has available.
    ExceedsAvailable,
    /// The account does not hold the supply shares needed.
    NotEnoughShares,
    /// There is no position of that id.
    PositionNotFound,
    /// The collateral token can not be used as collateral.
    NotCollateral,
    /// The position waits for the result of a trade.
    Locked,
    /// The collateral would not stay above zero.
    NotEnoughCollateral,
    /// The position would be liquidatable.
    Liquidatable,
    /// The position would be worth less than it owes.
    Forcecloseable,
    /// The position has no debt, so no leverage.
    NoDebt,
    /// The leverage would exceed the limit.
    LeverageTooHigh,
}

impl MarginAccount {
    /// No key is held twice.
    pub open spec fn wf(&self) -> bool {
        self.supplied.wf() && self.margin_positions.wf()
    }

    /// A new margin account with nothing supplied and no position.
    pub fn new(account_id: &AccountId) -> (r: MarginAccount)
        ensures
            r.wf(),
            r.account_id@ == account_id@,
            r.supplied@ == Map::<Seq<char>, Shares>::empty(),
            r.margin_positions@ == Map::<Seq<char>, MarginTradingPosition>::empty(),
    {
        MarginAccount { account_id: account_id.clone(), supplied: AccountMap::new(), margin_positions: AccountMap::new() }
    }

    /// Adds `shares` to the supply of `token_id`.
    pub fn deposit_supply_shares(&mut self, token_id: &TokenId, shares: Shares)
        requires
            old(self).wf(),
            held(old(self).supplied@, token_id@) + shares <= u128::MAX,
        ensures
            final(self).wf(),
            final(self).account_id == old(self).account_id,
            final(self).margin_positions == old(self).margin_positions,
            final(self).supplied@ == old(self).supplied@.insert(token_id@, (held(old(self).supplied@, token_id@) + shares) as u128),
    {
        let current = match self.supplied.get(token_id) {
            Some(s) => s,
            None => 0,
        };
        self.supplied.insert(token_id, current + shares);
    }

    /// Takes `shares` out of the supply of `token_id`, which must hold them;
    /// a token left with none is dropped.
    pub fn withdraw_supply_shares(&mut self, token_id: &TokenId, shares: Shares)
        requires
            old(self).wf(),
            old(self).supplied@.contains_key(token_id@),
            shares <= old(self).supplied@[token_id@],
        ensures
            final(self).wf(),
            final(self).account_id == old(self).account_id,
            final(self).margin_positions == old(self).margin_positions,
            final(self).supplied@ == with_shares(old(self).supplied@, token_id@, (old(self).supplied@[token_id@] - shares) as nat),
    {
        let current = match self.supplied.remove(token_id) {
            Some(s) => s,
            None => 0,
        };
        let left = current - shares;
        if left > 0 {
            self.supplied.insert(token_id, left);
        } else {
            assert(self.supplied@ =~= old(self).supplied@.remove(token_id@));
        }
    }
}

/// Deposits `amount` of the asset `token_id` into the margin account's
/// supply; returns the shares it buys (rounded down).
pub fn internal_margin_deposit(account: &mut MarginAccount, asset: &mut Asset, token_id: &TokenId, amount: Balance)
    -> (shares: Shares)
    requires
        old(account).wf(),
        spec_amount_to_shares(old(asset).supplied.shares as nat, old(asset).supplied.balance as nat, amount as nat, false)
            + held(old(account).supplied@, token_id@) <= u128::MAX,
        old(asset).supplied.shares + spec_amount_to_shares(old(asset).supplied.shares as nat,
            old(asset).supplied.balance as nat, amount as nat, false) <= u128::MAX,
        old(asset).supplied.balance + amount <= u128::MAX,
    ensures
        shares == spec_amount_to_shares(old(asset).supplied.shares as nat, old(asset).supplied.balance as nat, amount as nat, false),
        *final(asset) == (Asset { supplied: pool_plus(old(asset).supplied, shares as nat, amount as nat), ..*old(asset) }),
        final(account).wf(),
        final(account).account_id == old(account).account_id,
        final(account).margin_positions == old(account).margin_positions,
        final(account).supplied@ == old(account).supplied@.insert(token_id@,
            (held(old(account).supplied@, token_id@) + shares) as u128),
{
    let shares = asset.supplied.amount_to_shares(amount, false);
    account.deposit_supply_shares(token_id, shares);
    asset.supplied.deposit(shares, amount);
    shares
}

/// The shares and tokens a margin withdrawal of `amount` (all the account's
/// `held` shares when none) comes to: an amount costs its shares rounded up;
/// all the shares are worth their part rounded down.
pub open spec fn margin_withdrawal(asset: Asset, held_shares: nat, amount: Option<u128>) -> (nat, nat) {
    match amount {
        Some(a) => (spec_amount_to_shares(asset.supplied.shares as nat, asset.supplied.balance as nat, a as nat, true), a as nat),
        None => (held_shares, spec_shares_to_amount(asset.supplied.shares as nat, asset.supplied.balance as nat, held_shares, false)),
    }
}

/// What a margin withdrawal does: refused when it exceeds what the asset has
/// available; nothing is withdrawn when it comes to nothing in the token's
/// own decimals; else the account must hold the shares, which leave the
/// supply. Gives the shares, the amount and the amount in the token's
/// decimals.
pub open spec fn spec_margin_withdraw(asset: Asset, held_shares: nat, amount: Option<u128>)
    -> Result<(nat, nat, nat), MarginAccountError>
{
    let (s, a) = margin_withdrawal(asset, held_shares, amount);
    if a > available(asset) {
        Err(MarginAccountError::ExceedsAvailable)
    } else if ft_amount(a, asset.config.extra_decimals) > 0 {
        if s > held_shares { Err(MarginAccountError::NotEnoughShares) } else { Ok((s, a, ft_amount(a, asset.config.extra_decimals))) }
    } else {
        Ok((0, 0, 0))
    }
}

/// A margin withdrawal stays within the asset's bounds.
pub open spec fn margin_withdraw_ok(asset: Asset, held_shares: nat, amount: Option<u128>) -> bool {
    let (s, a) = margin_withdrawal(asset, held_shares, amount);
    &&& available_ok(asset)
    &&& asset.config.extra_decimals <= 38
    &&& s <= u128::MAX
    &&& s <= held_shares ==> s <= asset.supplied.shares && a <= asset.supplied.balance
}

/// Withdraws `amount` of the margin account's supply of `token_id` (all of
/// it when none; see `spec_margin_withdraw`); returns the amount and the
/// amount in the token's decimals to transfer. Nothing changes when refused
/// or when nothing is withdrawn.
pub fn internal_margin_withdraw_supply(account: &mut MarginAccount, asset: &mut Asset, token_id: &TokenId, amount: Option<Balance>)
    -> (r: Result<(Balance, Balance), MarginAccountError>)
    requires
        old(account).wf(),
        old(account).supplied@.contains_key(token_id@),
        margin_withdraw_ok(*old(asset), old(account).supplied@[token_id@] as nat, amount),
    ensures
        final(account).wf(),
        final(account).account_id == old(account).account_id,
        final(account).margin_positions == old(account).margin_positions,
        match spec_margin_withdraw(*old(asset), old(account).supplied@[token_id@] as nat, amount) {
            Ok((s, a, ft)) => r == Ok::<(Balance, Balance), MarginAccountError>((a as u128, ft as u128))
                && (ft > 0 ==> *final(asset) == (Asset { supplied: pool_minus(old(asset).supplied, s, a), ..*old(asset) })
                    && final(account).supplied@ == with_shares(old(account).supplied@, token_id@,
                        (old(account).supplied@[token_id@] - s) as nat))
                && (ft == 0 ==> *final(asset) == *old(asset) && final(account).supplied@ == old(account).supplied@),
            Err(e) => r == Err::<(Balance, Balance), MarginAccountError>(e) && *final(asset) == *old(asset)
                && final(account).supplied@ == old(account).supplied@,
        },
{
    let held_shares = match account.supplied.get(token_id) {
        Some(s) => s,
        None => 0,
    };
    let (shares, withdraw_amount) = match amount {
        Some(a) => (asset.supplied.amount_to_shares(a, true), a),
        None => (held_shares, asset.supplied.shares_to_amount(held_shares, false)),
    };
    if withdraw_amount > asset.available_amount() {
        return Err(MarginAccountError::ExceedsAvailable);
    }
    proof { crate::big_decimal::lemma_pow10_monotone(0, asset.config.extra_decimals as nat); }
    let ft = withdraw_amount / pow10_u128(asset.config.extra_decimals);
    if ft > 0 {
        if shares > held_shares {
            return Err(MarginAccountError::NotEnoughShares);
        }
        account.withdraw_supply_shares(token_id, shares);
        asset.supplied.withdraw(shares, withdraw_amount);
        Ok((withdraw_amount, ft))
    } else {
        Ok((0, 0))
    }
}

/// Adds `amount` of the margin account's supply to the collateral of the
/// position `pos_id`, whose collateral token is that of `asset_c`: the
/// shares it is worth (rounded down) leave the supply; returns the
/// collateral token and the amount those shares are worth (rounded down).
/// Refused when there is no such position, the token can not be used as
/// collateral or the account does not hold the shares; nothing changes then.
pub fn internal_margin_increase_collateral(account: &mut MarginAccount, asset_c: &Asset, pos_id: &String, amount: Balance)
    -> (r: Result<(TokenId, Balance), MarginAccountError>)
    requires
        old(account).wf(),
        spec_amount_to_shares(asset_c.supplied.shares as nat, asset_c.supplied.balance as nat, amount as nat, false) <= u128::MAX,
        old(account).margin_positions@.contains_key(pos_id@) ==> old(account).margin_positions@[pos_id@].token_c_shares
            + spec_amount_to_shares(asset_c.supplied.shares as nat, asset_c.supplied.balance as nat, amount as nat, false)
            <= u128::MAX,
    ensures
        final(account).wf(),
        final(account).account_id == old(account).account_id,
        ({
            let s = spec_amount_to_shares(asset_c.supplied.shares as nat, asset_c.supplied.balance as nat, amount as nat, false);
            let mt = old(account).margin_positions@[pos_id@];
            if !old(account).margin_positions@.contains_key(pos_id@) {
                r == Err::<(TokenId, Balance), MarginAccountError>(MarginAccountError::PositionNotFound)
                    && *final(account) == *old(account)
            } else if !asset_c.config.can_use_as_collateral {
                r == Err::<(TokenId, Balance), MarginAccountError>(MarginAccountError::NotCollateral)
                    && *final(account) == *old(account)
            } else if !(old(account).supplied@.contains_key(mt.token_c_id@) && s <= old(account).supplied@[mt.token_c_id@]) {
                r == Err::<(TokenId, Balance), MarginAccountError>(MarginAccountError::NotEnoughShares)
                    && *final(account) == *old(account)
            } else {
                r matches Ok((t, a)) && t@ == mt.token_c_id@
                    && a == spec_shares_to_amount(asset_c.supplied.shares as nat, asset_c.supplied.balance as nat, s, false)
                    && final(account).supplied@ == with_shares(old(account).supplied@, mt.token_c_id@,
                        (old(account).supplied@[mt.token_c_id@] - s) as nat)
                    && final(account).margin_positions@ == old(account).margin_positions@.insert(pos_id@,
                        MarginTradingPosition { token_c_shares: (mt.token_c_shares + s) as u128, ..mt })
            }
        }),
{
    let mt = match account.margin_positions.get_ref(pos_id) {
        Some(mt) => mt.copy(),
        None => { return Err(MarginAccountError::PositionNotFound); },
    };
    if !asset_c.config.can_use_as_collateral {
        return Err(MarginAccountError::NotCollateral);
    }
    let shares = asset_c.supplied.amount_to_shares(amount, false);
    let actual_amount = asset_c.supplied.shares_to_amount(shares, false);
    let held_shares = match account.supplied.get(&mt.token_c_id) {
        Some(s) => s,
        None => { return Err(MarginAccountError::NotEnoughShares); },
    };
    if shares > held_shares {
        return Err(MarginAccountError::NotEnoughShares);
    }
    account.withdraw_supply_shares(&mt.token_c_id, shares);
    let token_id = mt.token_c_id.clone();
    let new_mt = MarginTradingPosition { token_c_shares: mt.token_c_shares + shares, ..mt };
    account.margin_positions.insert(pos_id, new_mt);
    Ok((token_id, actual_amount))
}

/// The supply `m` with `shares` more of `token_id`, where there are any.
pub open spec fn deposited(m: Map<Seq<char>, Shares>, token_id: Seq<char>, shares: nat) -> Map<Seq<char>, Shares> {
    if shares > 0 { m.insert(token_id, (held(m, token_id) + shares) as u128) } else { m }
}

/// Adds `benefit_shares` of `token_id` to the margin account's supply, where
/// there are any.
pub fn deposit_benefit_to_account(account: &mut MarginAccount, token_id: &TokenId, benefit_shares: u128)
    requires
        old(account).wf(),
        held(old(account).supplied@, token_id@) + benefit_shares <= u128::MAX,
    ensures
        final(account).wf(),
        final(account).account_id == old(account).account_id,
        final(account).margin_positions == old(account).margin_positions,
        final(account).supplied@ == deposited(old(account).supplied@, token_id@, benefit_shares as nat),
{
    if benefit_shares > 0 {
        account.deposit_supply_shares(token_id, benefit_shares);
    }
}

/// Whether the parts of a split of `total` fit in the three accounts' supply of `token_id`.
pub open spec fn benefits_fit(owner: MarginAccount, liquidator: MarginAccount, user: MarginAccount, token_id: Seq<char>,
    total: nat, protocol_rate: nat, liquidator_rate: nat) -> bool
{
    let (o, l, u) = spec_benefit_distribution(total, protocol_rate, liquidator_rate);
    &&& held(owner.supplied@, token_id) + o <= u128::MAX
    &&& held(liquidator.supplied@, token_id) + l <= u128::MAX
    &&& held(user.supplied@, token_id) + u <= u128::MAX
}

/// Splits `total_benefit_shares` of `token_id` between the protocol owner,
/// the liquidator and the position's user (see `spec_benefit_distribution`)
/// and adds each part to that account's supply; returns the parts. Nothing
/// is split when there are no shares.
pub fn benefit_distribution(
    owner: &mut MarginAccount,
    liquidator: &mut MarginAccount,
    user: &mut MarginAccount,
    token_id: &TokenId,
    total_benefit_shares: u128,
    liq_benefit_protocol_rate: u32,
    liq_benefit_liquidator_rate: u32,
) -> (r: (u128, u128, u128))
    requires
        old(owner).wf(),
        old(liquidator).wf(),
        old(user).wf(),
        total_benefit_shares > 0 ==> benefit_distribution_ok(total_benefit_shares as nat, liq_benefit_protocol_rate as nat,
            liq_benefit_liquidator_rate as nat),
        total_benefit_shares > 0 ==> benefits_fit(*old(owner), *old(liquidator), *old(user), token_id@,
            total_benefit_shares as nat, liq_benefit_protocol_rate as nat, liq_benefit_liquidator_rate as nat),
    ensures
        final(owner).wf() && final(liquidator).wf() && final(user).wf(),
        final(owner).account_id == old(owner).account_id && final(owner).margin_positions == old(owner).margin_positions,
        final(liquidator).account_id == old(liquidator).account_id
            && final(liquidator).margin_positions == old(liquidator).margin_positions,
        final(user).account_id == old(user).account_id && final(user).margin_positions == old(user).margin_positions,
        total_benefit_shares == 0 ==> r == (0u128, 0u128, 0u128) && final(owner).supplied@ == old(owner).supplied@
            && final(liquidator).supplied@ == old(liquidator).supplied@ && final(user).supplied@ == old(user).supplied@,
        total_benefit_shares > 0 ==> ({
            let (o, l, u) = spec_benefit_distribution(total_benefit_shares as nat, liq_benefit_protocol_rate as nat,
                liq_benefit_liquidator_rate as nat);
            &&& (r.0 as nat, r.1 as nat, r.2 as nat) == (o, l, u)
            &&& final(owner).supplied@ == deposited(old(owner).supplied@, token_id@, o)
            &&& final(liquidator).supplied@ == deposited(old(liquidator).supplied@, token_id@, l)
            &&& final(user).supplied@ == deposited(old(user).supplied@, token_id@, u)
        }),
{
    if total_benefit_shares > 0 {
        let (to_owner, to_liquidator, to_user) =
            calculate_benefit_distribution(total_benefit_shares, liq_benefit_protocol_rate, liq_benefit_liquidator_rate);
        deposit_benefit_to_account(owner, token_id, to_owner);
        deposit_benefit_to_account(liquidator, token_id, to_liquidator);
        deposit_benefit_to_account(user, token_id, to_user);
        (to_owner, to_liquidator, to_user)
    } else {
        (0, 0, 0)
    }
}

/// The parts of a split of `total`, or none when there is nothing to split.
pub open spec fn split(total: nat, protocol_rate: nat, liquidator_rate: nat) -> (nat, nat, nat) {
    if total > 0 { spec_benefit_distribution(total, protocol_rate, liquidator_rate) } else { (0, 0, 0) }
}

/// The supply `m` after deposits of `a`, `b`, `c` shares of the tokens `x`,
/// `y`, `z`, in that order.
pub open spec fn deposited3(m: Map<Seq<char>, Shares>, x: Seq<char>, a: nat, y: Seq<char>, b: nat, z: Seq<char>, c: nat)
    -> Map<Seq<char>, Shares>
{
    deposited(deposited(deposited(m, x, a), y, b), z, c)
}

/// The three deposits fit.
pub open spec fn deposits3_fit(m: Map<Seq<char>, Shares>, x: Seq<char>, a: nat, y: Seq<char>, b: nat, z: Seq<char>, c: nat) -> bool {
    &&& held(m, x) + a <= u128::MAX
    &&& held(deposited(m, x, a), y) + b <= u128::MAX
    &&& held(deposited(deposited(m, x, a), y, b), z) + c <= u128::MAX
}

/// Splits the benefits of a liquidated position, in shares of its collateral
/// (`benefit_m_shares`), debt and position tokens, between the protocol
/// owner, the liquidator and the position's user at the rates of `mbtl`
/// (see `spec_benefit_distribution`), and adds each part to that account's
/// supply; returns the parts of each, per token.
pub fn account_supplied_updates(
    owner: &mut MarginAccount,
    liquidator: &mut MarginAccount,
    user: &mut MarginAccount,
    mt: &MarginTradingPosition,
    mbtl: &crate::margin_base_token_limit::MarginBaseTokenLimit,
    benefits: (u128, u128, u128),
) -> (r: (MarginAccountUpdates, MarginAccountUpdates, MarginAccountUpdates))
    requires
        old(owner).wf(),
        old(liquidator).wf(),
        old(user).wf(),
        ({
            let pr = mbtl.liq_benefit_protocol_rate as nat;
            let lr = mbtl.liq_benefit_liquidator_rate as nat;
            let (cm, cd, cp) = (benefits.0 as nat, benefits.1 as nat, benefits.2 as nat);
            let sc = split(cm, pr, lr);
            let sd = split(cd, pr, lr);
            let sp = split(cp, pr, lr);
            &&& cm > 0 ==> benefit_distribution_ok(cm, pr, lr)
            &&& cd > 0 ==> benefit_distribution_ok(cd, pr, lr)
            &&& cp > 0 ==> benefit_distribution_ok(cp, pr, lr)
            &&& deposits3_fit(old(owner).supplied@, mt.token_c_id@, sc.0, mt.token_d_id@, sd.0, mt.token_p_id@, sp.0)
            &&& deposits3_fit(old(liquidator).supplied@, mt.token_c_id@, sc.1, mt.token_d_id@, sd.1, mt.token_p_id@, sp.1)
            &&& deposits3_fit(old(user).supplied@, mt.token_c_id@, sc.2, mt.token_d_id@, sd.2, mt.token_p_id@, sp.2)
        }),
    ensures
        final(owner).wf() && final(liquidator).wf() && final(user).wf(),
        final(owner).margin_positions == old(owner).margin_positions,
        final(liquidator).margin_positions == old(liquidator).margin_positions,
        final(user).margin_positions == old(user).margin_positions,
        final(owner).account_id == old(owner).account_id,
        final(liquidator).account_id == old(liquidator).account_id,
        final(user).account_id == old(user).account_id,
        ({
            let pr = mbtl.liq_benefit_protocol_rate as nat;
            let lr = mbtl.liq_benefit_liquidator_rate as nat;
            let sc = split(benefits.0 as nat, pr, lr);
            let sd = split(benefits.1 as nat, pr, lr);
            let sp = split(benefits.2 as nat, pr, lr);
            &&& final(owner).supplied@ == deposited3(old(owner).supplied@, mt.token_c_id@, sc.0, mt.token_d_id@, sd.0, mt.token_p_id@, sp.0)
            &&& final(liquidator).supplied@ == deposited3(old(liquidator).supplied@, mt.token_c_id@, sc.1, mt.token_d_id@, sd.1,
                mt.token_p_id@, sp.1)
            &&& final(user).supplied@ == deposited3(old(user).supplied@, mt.token_c_id@, sc.2, mt.token_d_id@, sd.2, mt.token_p_id@, sp.2)
            &&& r.0.token_c_update.0@ == mt.token_c_id@ && r.0.token_c_update.1 == sc.0
            &&& r.0.token_d_update.0@ == mt.token_d_id@ && r.0.token_d_update.1 == sd.0
            &&& r.0.token_p_update.0@ == mt.token_p_id@ && r.0.token_p_update.1 == sp.0
            &&& r.1.token_c_update.0@ == mt.token_c_id@ && r.1.token_c_update.1 == sc.1
            &&& r.1.token_d_update.0@ == mt.token_d_id@ && r.1.token_d_update.1 == sd.1
            &&& r.1.token_p_update.0@ == mt.token_p_id@ && r.1.token_p_update.1 == sp.1
            &&& r.2.token_c_update.0@ == mt.token_c_id@ && r.2.token_c_update.1 == sc.2
            &&& r.2.token_d_update.0@ == mt.token_d_id@ && r.2.token_d_update.1 == sd.2
            &&& r.2.token_p_update.0@ == mt.token_p_id@ && r.2.token_p_update.1 == sp.2
        }),
{
    let (m, d, p) = benefits;
    let pr = mbtl.liq_benefit_protocol_rate;
    let lr = mbtl.liq_benefit_liquidator_rate;
    let (co, cl, cu) = benefit_distribution(owner, liquidator, user, &mt.token_c_id, m, pr, lr);
    let (d_o, dl, du) = benefit_distribution(owner, liquidator, user, &mt.token_d_id, d, pr, lr);
    let (po, pl, pu) = benefit_distribution(owner, liquidator, user, &mt.token_p_id, p, pr, lr);
    (
        MarginAccountUpdates {
            token_c_update: (mt.token_c_id.clone(), co),
            token_d_update: (mt.token_d_id.clone(), d_o),
            token_p_update: (mt.token_p_id.clone(), po),
        },
        MarginAccountUpdates {
            token_c_update: (mt.token_c_id.clone(), cl),
            token_d_update: (mt.token_d_id.clone(), dl),
            token_p_update: (mt.token_p_id.clone(), pl),
        },
        MarginAccountUpdates {
            token_c_update: (mt.token_c_id.clone(), cu),
            token_d_update: (mt.token_d_id.clone(), du),
            token_p_update: (mt.token_p_id.clone(), pu),
        },
    )
}

/// The service fee that a keeper executing a stop order is paid.
pub struct MarginStopServiceFee {
    pub token_id: AccountId,
    pub amount: u128,
}

/// Who is paid a stop-order service fee: the keeper that executed a stop,
/// where there is one; the position's owner otherwise.
pub fn stop_fee_recipient(operation: DecreaseOperation, position_owner_id: &AccountId, keeper_id: &Option<AccountId>)
    -> (r: AccountId)
    ensures
        r@ == (if operation == DecreaseOperation::Stop && keeper_id is Some { keeper_id->0@ } else { position_owner_id@ }),
{
    match (operation, keeper_id) {
        (DecreaseOperation::Stop, Some(k)) => k.clone(),
        _ => position_owner_id.clone(),
    }
}

/// Pays a stop-order service fee into the margin supply of its recipient;
/// returns the shares it buys (rounded down).
pub fn settle_stop_service_fee(fee_info: &StopServiceFeeInfo, recipient: &mut MarginAccount, asset: &mut Asset) -> (shares: Shares)
    requires
        old(recipient).wf(),
        spec_amount_to_shares(old(asset).supplied.shares as nat, old(asset).supplied.balance as nat, fee_info.amount as nat, false)
            + held(old(recipient).supplied@, fee_info.token_id@) <= u128::MAX,
        old(asset).supplied.shares + spec_amount_to_shares(old(asset).supplied.shares as nat,
            old(asset).supplied.balance as nat, fee_info.amount as nat, false) <= u128::MAX,
        old(asset).supplied.balance + fee_info.amount <= u128::MAX,
    ensures
        shares == spec_amount_to_shares(old(asset).supplied.shares as nat, old(asset).supplied.balance as nat,
            fee_info.amount as nat, false),
        *final(asset) == (Asset { supplied: pool_plus(old(asset).supplied, shares as nat, fee_info.amount as nat), ..*old(asset) }),
        final(recipient).wf(),
        final(recipient).account_id == old(recipient).account_id,
        final(recipient).margin_positions == old(recipient).margin_positions,
        final(recipient).supplied@ == old(recipient).supplied@.insert(fee_info.token_id@,
            (held(old(recipient).supplied@, fee_info.token_id@) + shares) as u128),
{
    internal_margin_deposit(recipient, asset, &fee_info.token_id, fee_info.amount)
}

/// The position with `shares` fewer collateral shares.
pub open spec fn collateral_reduced(mt: MarginTradingPosition, shares: nat) -> MarginTradingPosition {
    MarginTradingPosition { token_c_shares: (mt.token_c_shares - shares) as u128, ..mt }
}

/// What taking `amount` of collateral out of `mt` is refused for, if
/// anything, in the order checked: the position must not wait for a trade,
/// must keep some collateral (the shares taken rounded up), and must then
/// be neither liquidatable at `min_safety_buffer` nor worth less than it
/// owes, must have debt, and its leverage (what it owes over the value of
/// its collateral) must not pass `max_leverage_rate`.
pub open spec fn spec_decrease_collateral_refusal(
    mt: MarginTradingPosition,
    asset_c: Asset,
    price_c: Price,
    asset_d: Asset,
    price_d: Price,
    asset_p: Asset,
    price_p: Price,
    amount: nat,
    min_safety_buffer: u32,
    max_leverage_rate: u8,
) -> Option<MarginAccountError> {
    let s = spec_amount_to_shares(asset_c.supplied.shares as nat, asset_c.supplied.balance as nat, amount, true);
    let new = collateral_reduced(mt, s);
    if mt.is_locking {
        Some(MarginAccountError::Locked)
    } else if !(mt.token_c_shares > s) {
        Some(MarginAccountError::NotEnoughCollateral)
    } else if spec_liquidatable(mtp_cap(new, asset_c, price_c, asset_p, price_p), mtp_owed(new, asset_d, price_d),
        min_safety_buffer as nat) {
        Some(MarginAccountError::Liquidatable)
    } else if mtp_cap(new, asset_c, price_c, asset_p, price_p) < mtp_owed(new, asset_d, price_d) {
        Some(MarginAccountError::Forcecloseable)
    } else if new.token_d_shares == 0 {
        Some(MarginAccountError::NoDebt)
    } else if !(div_raw(mtp_owed(new, asset_d, price_d), value_raw(mtp_collateral_balance(new, asset_c), price_c,
        asset_c.config.extra_decimals)) <= max_leverage_rate * big()) {
        Some(MarginAccountError::LeverageTooHigh)
    } else {
        None
    }
}

/// The health of the position after the decrease can be computed.
pub open spec fn decrease_collateral_ok(
    mt: MarginTradingPosition,
    asset_c: Asset,
    price_c: Price,
    asset_d: Asset,
    price_d: Price,
    asset_p: Asset,
    price_p: Price,
    amount: nat,
    min_safety_buffer: u32,
) -> bool {
    let s = spec_amount_to_shares(asset_c.supplied.shares as nat, asset_c.supplied.balance as nat, amount, true);
    let new = collateral_reduced(mt, s);
    &&& s <= u128::MAX
    &&& price_ok(price_c, asset_c.config.extra_decimals)
    &&& price_ok(price_d, asset_d.config.extra_decimals)
    &&& price_ok(price_p, asset_p.config.extra_decimals)
    &&& hp_fee_ok(mt, asset_d)
    &&& buffer_ok(mtp_cap(new, asset_c, price_c, asset_p, price_p), mtp_owed(new, asset_d, price_d), min_safety_buffer as nat)
    &&& value_raw(mtp_collateral_balance(new, asset_c), price_c, asset_c.config.extra_decimals) != 0
    &&& mtp_owed(new, asset_d, price_d) * big() + half() < p384()
}

/// Takes `amount` of collateral out of the position `pos_id` back to the
/// margin account's supply (the shares rounded up), where the position stays
/// healthy (see `spec_decrease_collateral_refusal`); `asset_c`, `asset_d`,
/// `asset_p` are the assets of its collateral, debt and position tokens, at
/// the prices given. Returns the collateral token. Nothing changes when
/// refused.
pub fn internal_margin_decrease_collateral(
    account: &mut MarginAccount,
    pos_id: &String,
    amount: Balance,
    asset_c: &Asset,
    price_c: &Price,
    asset_d: &Asset,
    price_d: &Price,
    asset_p: &Asset,
    price_p: &Price,
    min_safety_buffer: u32,
    max_leverage_rate: u8,
) -> (r: Result<TokenId, MarginAccountError>)
    requires
        old(account).wf(),
        old(account).margin_positions@.contains_key(pos_id@) ==> {
            let mt = old(account).margin_positions@[pos_id@];
            let s = spec_amount_to_shares(asset_c.supplied.shares as nat, asset_c.supplied.balance as nat, amount as nat, true);
            &&& decrease_collateral_ok(mt, *asset_c, *price_c, *asset_d, *price_d, *asset_p, *price_p, amount as nat,
                min_safety_buffer)
            &&& held(old(account).supplied@, mt.token_c_id@) + s <= u128::MAX
        },
    ensures
        final(account).wf(),
        final(account).account_id == old(account).account_id,
        !old(account).margin_positions@.contains_key(pos_id@) ==>
            r == Err::<TokenId, MarginAccountError>(MarginAccountError::PositionNotFound) && *final(account) == *old(account),
        old(account).margin_positions@.contains_key(pos_id@) ==> ({
            let mt = old(account).margin_positions@[pos_id@];
            let s = spec_amount_to_shares(asset_c.supplied.shares as nat, asset_c.supplied.balance as nat, amount as nat, true);
            match spec_decrease_collateral_refusal(mt, *asset_c, *price_c, *asset_d, *price_d, *asset_p, *price_p,
                amount as nat, min_safety_buffer, max_leverage_rate) {
                Some(e) => r == Err::<TokenId, MarginAccountError>(e) && *final(account) == *old(account),
                None => r matches Ok(t) && t@ == mt.token_c_id@
                    && final(account).supplied@ == old(account).supplied@.insert(mt.token_c_id@,
                        (held(old(account).supplied@, mt.token_c_id@) + s) as u128)
                    && final(account).margin_positions@ == old(account).margin_positions@.insert(pos_id@,
                        collateral_reduced(mt, s)),
            }
        }),
{
    let mt = match account.margin_positions.get_ref(pos_id) {
        Some(mt) => mt.copy(),
        None => { return Err(MarginAccountError::PositionNotFound); },
    };
    if mt.is_locking {
        return Err(MarginAccountError::Locked);
    }
    let shares = asset_c.supplied.amount_to_shares(amount, true);
    if !(mt.token_c_shares > shares) {
        return Err(MarginAccountError::NotEnoughCollateral);
    }
    let new_mt = MarginTradingPosition { token_c_shares: mt.token_c_shares - shares, ..mt };
    if is_mt_liquidatable(&new_mt, asset_c, price_c, asset_d, price_d, asset_p, price_p, min_safety_buffer) {
        return Err(MarginAccountError::Liquidatable);
    }
    if is_mt_forcecloseable(&new_mt, asset_c, price_c, asset_d, price_d, asset_p, price_p) {
        return Err(MarginAccountError::Forcecloseable);
    }
    let lr = match get_mtp_lr(&new_mt, asset_c, price_c, asset_d, price_d) {
        Some(lr) => lr,
        None => { return Err(MarginAccountError::NoDebt); },
    };
    if !lr.le(&BigDecimal::from_u128(max_leverage_rate as u128)) {
        return Err(MarginAccountError::LeverageTooHigh);
    }
    let token_id = new_mt.token_c_id.clone();
    account.deposit_supply_shares(&token_id, shares);
    account.margin_positions.insert(pos_id, new_mt);
    Ok(token_id)
}

/// Where the benefits of a settled position go, by the operation: a
/// liquidation splits them between the protocol owner, the liquidator and
/// the position's user (all to the owner when the liquidator has no margin
/// account); a forced close gives them all to the owner; any other
/// operation gives them back to the user. Nothing moves when there are none.
pub open spec fn benefits_go_to_owner(operation: DecreaseOperation, has_liquidator: bool) -> bool {
    operation is ForceClose || (operation is Liquidate && !has_liquidator)
}

/// The deposits of the benefits fit in the supply of whoever receives them.
pub open spec fn benefits_deposits_fit(operation: DecreaseOperation, user: MarginAccount, owner: MarginAccount,
    liquidator: MarginAccount, has_liquidator: bool, position: MarginTradingPosition, mbtl: MarginBaseTokenLimit,
    benefits: SettlementBenefits) -> bool
{
    let (c, d, p) = (position.token_c_id@, position.token_d_id@, position.token_p_id@);
    let (bc, bd, bp) = (benefits.collateral_shares as nat, benefits.debt_token_shares as nat,
        benefits.position_token_shares as nat);
    let pr = mbtl.liq_benefit_protocol_rate as nat;
    let lr = mbtl.liq_benefit_liquidator_rate as nat;
    if operation is Liquidate && has_liquidator {
        let sc = split(bc, pr, lr);
        let sd = split(bd, pr, lr);
        let sp = split(bp, pr, lr);
        &&& bc > 0 ==> benefit_distribution_ok(bc, pr, lr)
        &&& bd > 0 ==> benefit_distribution_ok(bd, pr, lr)
        &&& bp > 0 ==> benefit_distribution_ok(bp, pr, lr)
        &&& deposits3_fit(owner.supplied@, c, sc.0, d, sd.0, p, sp.0)
        &&& deposits3_fit(liquidator.supplied@, c, sc.1, d, sd.1, p, sp.1)
        &&& deposits3_fit(user.supplied@, c, sc.2, d, sd.2, p, sp.2)
    } else if benefits_go_to_owner(operation, has_liquidator) {
        deposits3_fit(owner.supplied@, c, bc, d, bd, p, bp)
    } else {
        deposits3_fit(user.supplied@, c, bc, d, bd, p, bp)
    }
}

/// Hands out the benefits of the settled `position` by `operation` (see
/// `benefits_go_to_owner`): `user` holds the position, `owner` is the
/// protocol owner's margin account and `liquidator` the liquidator's, when
/// `has_liquidator`. Returns the changes of the user's supply, when it got
/// any part.
pub fn distribute_benefits(
    operation: DecreaseOperation,
    user: &mut MarginAccount,
    owner: &mut MarginAccount,
    liquidator: &mut MarginAccount,
    has_liquidator: bool,
    position: &MarginTradingPosition,
    mbtl: &MarginBaseTokenLimit,
    benefits: &SettlementBenefits,
) -> (r: Option<MarginAccountUpdates>)
    requires
        old(user).wf(),
        old(owner).wf(),
        old(liquidator).wf(),
        benefits_deposits_fit(operation, *old(user), *old(owner), *old(liquidator), has_liquidator, *position, *mbtl,
            *benefits),
    ensures
        final(user).wf() && final(owner).wf() && final(liquidator).wf(),
        final(user).margin_positions == old(user).margin_positions,
        final(owner).margin_positions == old(owner).margin_positions,
        final(liquidator).margin_positions == old(liquidator).margin_positions,
        final(user).account_id == old(user).account_id,
        final(owner).account_id == old(owner).account_id,
        final(liquidator).account_id == old(liquidator).account_id,
        ({
            let (c, d, p) = (position.token_c_id@, position.token_d_id@, position.token_p_id@);
            let (bc, bd, bp) = (benefits.collateral_shares as nat, benefits.debt_token_shares as nat,
                benefits.position_token_shares as nat);
            let pr = mbtl.liq_benefit_protocol_rate as nat;
            let lr = mbtl.liq_benefit_liquidator_rate as nat;
            let (sc, sd, sp) = (split(bc, pr, lr), split(bd, pr, lr), split(bp, pr, lr));
            if !(bc > 0 || bd > 0 || bp > 0) {
                r is None && final(user).supplied@ == old(user).supplied@ && final(owner).supplied@ == old(owner).supplied@
                    && final(liquidator).supplied@ == old(liquidator).supplied@
            } else if operation is Liquidate && has_liquidator {
                &&& final(owner).supplied@ == deposited3(old(owner).supplied@, c, sc.0, d, sd.0, p, sp.0)
                &&& final(liquidator).supplied@ == deposited3(old(liquidator).supplied@, c, sc.1, d, sd.1, p, sp.1)
                &&& final(user).supplied@ == deposited3(old(user).supplied@, c, sc.2, d, sd.2, p, sp.2)
                &&& r matches Some(u) && u.token_c_update.0@ == c && u.token_c_update.1 == sc.2
                    && u.token_d_update.0@ == d && u.token_d_update.1 == sd.2
                    && u.token_p_update.0@ == p && u.token_p_update.1 == sp.2
            } else if benefits_go_to_owner(operation, has_liquidator) {
                &&& final(owner).supplied@ == deposited3(old(owner).supplied@, c, bc, d, bd, p, bp)
                &&& final(user).supplied@ == old(user).supplied@
                &&& final(liquidator).supplied@ == old(liquidator).supplied@
                &&& r is None
            } else {
                &&& final(user).supplied@ == deposited3(old(user).supplied@, c, bc, d, bd, p, bp)
                &&& final(owner).supplied@ == old(owner).supplied@
                &&& final(liquidator).supplied@ == old(liquidator).supplied@
                &&& r matches Some(u) && u.token_c_update == (position.token_c_id, benefits.collateral_shares)
                    && u.token_d_update == (position.token_d_id, benefits.debt_token_shares)
                    && u.token_p_update == (position.token_p_id, benefits.position_token_shares)
            }
        }),
{
    if !benefits.has_any() {
        return None;
    }
    let liquidation = match operation {
        DecreaseOperation::Liquidate => true,
        _ => false,
    };
    let to_owner = match operation {
        DecreaseOperation::ForceClose => true,
        DecreaseOperation::Liquidate => !has_liquidator,
        _ => false,
    };
    if liquidation && has_liquidator {
        let (_, _, user_updates) = account_supplied_updates(owner, liquidator, user, position, mbtl,
            (benefits.collateral_shares, benefits.debt_token_shares, benefits.position_token_shares));
        Some(user_updates)
    } else if to_owner {
        deposit_benefit_to_account(owner, &position.token_c_id, benefits.collateral_shares);
        deposit_benefit_to_account(owner, &position.token_d_id, benefits.debt_token_shares);
        deposit_benefit_to_account(owner, &position.token_p_id, benefits.position_token_shares);
        None
    } else {
        deposit_benefit_to_account(user, &position.token_c_id, benefits.collateral_shares);
        deposit_benefit_to_account(user, &position.token_d_id, benefits.debt_token_shares);
        deposit_benefit_to_account(user, &position.token_p_id, benefits.position_token_shares);
        Some(benefits.to_margin_updates(position))
    }
}

} // verus!
