//! The lending actions of an account on one asset: what moves between the
//! asset's pools, the account's supply and the account's positions.

use vstd::prelude::*;
use crate::account::Account;
use crate::actions::AssetAmount;
use crate::asset::Asset;
use crate::lending::{
    LendingError, deposit_to_asset, withdraw_from_asset, spec_withdraw, withdraw_ok, collateral_shares,
    spec_collateral_shares, release_collateral_shares, spec_release_collateral, borrow_from_asset, spec_borrow,
    borrow_ok, repay_to_asset, spec_repay, repay_ok, pool_plus, amount_ok,
};
use crate::pool::spec_amount_to_shares;
use crate::big_decimal::pow10;
use crate::position::{
    Position, held, collateral_fits, collateral_added, collateral_taken, borrowed_added, borrowed_taken,
};
use crate::utils::{Balance, Shares, TokenId};

verus! {

/// The supply `m` of an account with its shares of `token_id` set to
/// `shares`; a token left with none is dropped.
pub open spec fn with_shares(m: Map<Seq<char>, Shares>, token_id: Seq<char>, shares: nat) -> Map<Seq<char>, Shares> {
    if shares == 0 { m.remove(token_id) } else { m.insert(token_id, shares as u128) }
}

/// The collateral of `token_id` in a position (of its LP token, in an LP-token
/// position).
pub open spec fn collateral_of(p: Position, token_id: Seq<char>) -> nat {
    match p {
        Position::RegularPosition(p) => p.collateral@[token_id] as nat,
        Position::LPTokenPosition(p) => p.collateral as nat,
    }
}

/// `b` differs from `a` in its supply alone.
pub open spec fn same_but_supplied(a: Account, b: Account) -> bool {
    &&& b.account_id == a.account_id
    &&& b.positions == a.positions
    &&& b.booster_staking == a.booster_staking
    &&& b.is_locked == a.is_locked
}

/// What a withdrawal does (see `spec_withdraw`): the account gives up the
/// shares where something is withdrawn; nothing changes when refused.
pub open spec fn withdrawn(account: Account, asset: Asset, asset_amount: AssetAmount,
    r: Result<(Balance, Balance), LendingError>, account2: Account, asset2: Asset) -> bool
{
    match spec_withdraw(asset, account.supplied@[asset_amount.token_id@] as nat, asset_amount) {
        Ok((a, s, amount, ft)) => r == Ok::<(Balance, Balance), LendingError>((amount as u128, ft as u128))
            && asset2 == a
            && same_but_supplied(account, account2)
            && account2.supplied@ == (if ft > 0 {
                with_shares(account.supplied@, asset_amount.token_id@, (account.supplied@[asset_amount.token_id@] - s) as nat)
            } else {
                account.supplied@
            }),
        Err(e) => r == Err::<(Balance, Balance), LendingError>(e) && asset2 == asset && account2 == account,
    }
}

/// Moving collateral into `position` stays within bounds.
pub open spec fn increase_collateral_fits(position: Seq<char>, account: Account, asset: Asset, asset_amount: AssetAmount,
    reliable_liquidator: bool) -> bool
{
    &&& amount_ok(asset.supplied, asset_amount, false)
    &&& spec_collateral_shares(asset, account.supplied@[asset_amount.token_id@] as nat, asset_amount, reliable_liquidator)
        matches Ok((s, a)) ==> (account.positions@.contains_key(position)
            ==> collateral_fits(account.positions@[position], asset_amount.token_id@, s as u128))
}

/// What moving supply into the collateral of `position` does (see
/// `spec_collateral_shares`); nothing changes when refused.
pub open spec fn collateral_increased(position: Seq<char>, account: Account, asset: Asset, asset_amount: AssetAmount,
    reliable_liquidator: bool, r: Result<Balance, LendingError>, account2: Account) -> bool
{
    match spec_collateral_shares(asset, account.supplied@[asset_amount.token_id@] as nat, asset_amount, reliable_liquidator) {
        Ok((s, a)) => r == Ok::<Balance, LendingError>(a as u128)
            && account2.supplied@ == with_shares(account.supplied@, asset_amount.token_id@,
                (account.supplied@[asset_amount.token_id@] - s) as nat)
            && account2.positions@ == account.positions@.insert(position, account2.positions@[position])
            && (exists|base: Position| #[trigger] account.position_or_fresh(position, base)
                && collateral_added(base, account2.positions@[position], asset_amount.token_id@, s as u128)),
        Err(e) => r == Err::<Balance, LendingError>(e) && account2 == account,
    }
}

/// Moving collateral of `position` back to the supply stays within bounds.
pub open spec fn decrease_collateral_fits(position: Seq<char>, account: Account, asset: Asset, asset_amount: AssetAmount) -> bool {
    &&& amount_ok(asset.supplied, asset_amount, false)
    &&& held(account.supplied@, asset_amount.token_id@) + collateral_of(account.positions@[position], asset_amount.token_id@)
        <= u128::MAX
}

/// What moving collateral of `position` back to the supply does (see
/// `spec_release_collateral`): the position closes when nothing is left in
/// it; nothing changes when refused.
pub open spec fn collateral_decreased(position: Seq<char>, account: Account, asset: Asset, asset_amount: AssetAmount,
    r: Result<Balance, LendingError>, account2: Account) -> bool
{
    let collateral = collateral_of(account.positions@[position], asset_amount.token_id@);
    match spec_release_collateral(asset, collateral, asset_amount) {
        Ok((s, a)) => r == Ok::<Balance, LendingError>(a as u128)
            && account2.supplied@ == with_shares(account.supplied@, asset_amount.token_id@,
                held(account.supplied@, asset_amount.token_id@) + s)
            && (exists|q: Position| #[trigger] collateral_taken(account.positions@[position], q, asset_amount.token_id@, s as u128)
                && account2.positions@ == (if q.holds_nothing() {
                    account.positions@.remove(position)
                } else {
                    account.positions@.insert(position, q)
                })),
        Err(e) => r == Err::<Balance, LendingError>(e) && account2 == account,
    }
}

/// Borrowing against `position` stays within bounds.
pub open spec fn borrow_fits(position: Seq<char>, account: Account, asset: Asset, asset_amount: AssetAmount,
    reliable_liquidator: bool) -> bool
{
    &&& borrow_ok(asset, asset_amount)
    &&& spec_borrow(asset, asset_amount, reliable_liquidator) matches Ok((a, b, s, amount)) ==> {
        &&& held(account.positions@[position].borrowed_view(), asset_amount.token_id@) + b <= u128::MAX
        &&& held(account.supplied@, asset_amount.token_id@) + s <= u128::MAX
    }
}

/// What borrowing against `position` does (see `spec_borrow`): the debt
/// joins the position and the borrowed tokens the supply; nothing changes
/// when refused.
pub open spec fn borrowed(position: Seq<char>, account: Account, asset: Asset, asset_amount: AssetAmount,
    reliable_liquidator: bool, r: Result<Balance, LendingError>, account2: Account, asset2: Asset) -> bool
{
    match spec_borrow(asset, asset_amount, reliable_liquidator) {
        Ok((a, b, s, amount)) => r == Ok::<Balance, LendingError>(amount as u128)
            && asset2 == a
            && account2.supplied@ == with_shares(account.supplied@, asset_amount.token_id@,
                held(account.supplied@, asset_amount.token_id@) + s)
            && account2.positions@ == account.positions@.insert(position, account2.positions@[position])
            && borrowed_added(account.positions@[position], account2.positions@[position], asset_amount.token_id@, b as u128),
        Err(e) => r == Err::<Balance, LendingError>(e) && asset2 == asset && account2 == account,
    }
}

/// Repaying a debt of `position` stays within bounds.
pub open spec fn repay_fits(position: Seq<char>, account: Account, asset: Asset, asset_amount: AssetAmount) -> bool {
    repay_ok(asset, account.positions@[position].borrowed_view()[asset_amount.token_id@] as nat,
        account.supplied@[asset_amount.token_id@] as nat, asset_amount)
}

/// What repaying a debt of `position` with the supply does (see
/// `spec_repay`); nothing changes when refused.
pub open spec fn repaid(position: Seq<char>, account: Account, asset: Asset, asset_amount: AssetAmount,
    r: Result<Balance, LendingError>, account2: Account, asset2: Asset) -> bool
{
    match spec_repay(asset, account.positions@[position].borrowed_view()[asset_amount.token_id@] as nat,
        account.supplied@[asset_amount.token_id@] as nat, asset_amount) {
        Ok((a, b, s, amount)) => r == Ok::<Balance, LendingError>(amount as u128)
            && asset2 == a
            && account2.supplied@ == with_shares(account.supplied@, asset_amount.token_id@,
                (account.supplied@[asset_amount.token_id@] - s) as nat)
            && account2.positions@ == account.positions@.insert(position, account2.positions@[position])
            && borrowed_taken(account.positions@[position], account2.positions@[position], asset_amount.token_id@, b as u128),
        Err(e) => r == Err::<Balance, LendingError>(e) && asset2 == asset && account2 == account,
    }
}

pub(crate) fn set_supplied_shares(account: &mut Account, token_id: &TokenId, shares: Shares)
    requires
        old(account).wf(),
    ensures
        final(account).wf(),
        same_but_supplied(*old(account), *final(account)),
        final(account).supplied@ == with_shares(old(account).supplied@, token_id@, shares as nat),
{
    if shares == 0 {
        account.supplied.remove(token_id);
    } else {
        account.supplied.insert(token_id, shares);
    }
}

pub(crate) fn supplied_shares(account: &Account, token_id: &TokenId) -> (r: Shares)
    requires
        account.wf(),
    ensures
        r == held(account.supplied@, token_id@),
{
    match account.supplied.get(token_id) {
        Some(s) => s,
        None => 0,
    }
}

/// Deposits `amount` of the asset `token_id` into the account's supply;
/// returns the shares it buys (rounded down).
pub fn internal_deposit(account: &mut Account, asset: &mut Asset, token_id: &TokenId, amount: Balance) -> (shares: Shares)
    requires
        old(account).wf(),
        spec_amount_to_shares(old(asset).supplied.shares as nat, old(asset).supplied.balance as nat, amount as nat, false)
            + held(old(account).supplied@, token_id@) <= u128::MAX,
        old(asset).supplied.shares + spec_amount_to_shares(old(asset).supplied.shares as nat,
            old(asset).supplied.balance as nat, amount as nat, false) <= u128::MAX,
        old(asset).supplied.balance + amount <= u128::MAX,
    ensures
        shares == spec_amount_to_shares(old(asset).supplied.shares as nat, old(asset).supplied.balance as nat, amount as nat, false),
        *final(asset) == (Asset { supplied: pool_plus(old(asset).supplied, shares as nat, amount as nat), ..*old(asset) }),
        final(account).wf(),
        same_but_supplied(*old(account), *final(account)),
        final(account).supplied@ == with_shares(old(account).supplied@, token_id@, (held(old(account).supplied@, token_id@) + shares) as nat),
{
    let shares = deposit_to_asset(asset, amount);
    let held_shares = supplied_shares(account, token_id);
    set_supplied_shares(account, token_id, held_shares + shares);
    shares
}

/// Withdraws `asset_amount` of the account's supply of the asset (see
/// `spec_withdraw`); returns the amount and the amount in the token's own
/// decimals to transfer. The account gives up the shares where something is
/// withdrawn; nothing changes when refused.
pub fn internal_withdraw(account: &mut Account, asset: &mut Asset, asset_amount: &AssetAmount)
    -> (r: Result<(Balance, Balance), LendingError>)
    requires
        old(account).wf(),
        old(account).supplied@.contains_key(asset_amount.token_id@),
        withdraw_ok(*old(asset), old(account).supplied@[asset_amount.token_id@] as nat, *asset_amount),
    ensures
        final(account).wf(),
        withdrawn(*old(account), *old(asset), *asset_amount, r, *final(account), *final(asset)),
{
    let held_shares = supplied_shares(account, &asset_amount.token_id);
    proof {
        match spec_withdraw(*old(asset), held_shares as nat, *asset_amount) {
            Ok((a, s, amount, ft)) => {
                let e = old(asset).config.extra_decimals as nat;
                crate::big_decimal::lemma_pow10_monotone(0, e);
                assert(ft <= amount) by (nonlinear_arith)
                    requires amount == 0 || ft == amount / pow10(e), ft == 0 || ft == amount / pow10(e), pow10(e) >= 1;
            },
            Err(_) => {},
        }
    }
    match withdraw_from_asset(asset, held_shares, asset_amount) {
        Ok((shares, amount, ft)) => {
            if ft > 0 {
                set_supplied_shares(account, &asset_amount.token_id, held_shares - shares);
            }
            Ok((amount, ft))
        },
        Err(e) => Err(e),
    }
}

/// Moves `asset_amount` of the account's supply of the asset into the
/// collateral of `position` (see `spec_collateral_shares`), opening the
/// position where the account has none; returns the amount. Nothing changes
/// when refused.
pub fn internal_increase_collateral(
    position: &String,
    account: &mut Account,
    asset: &Asset,
    asset_amount: &AssetAmount,
    reliable_liquidator: bool,
) -> (r: Result<Balance, LendingError>)
    requires
        old(account).wf(),
        old(account).supplied@.contains_key(asset_amount.token_id@),
        increase_collateral_fits(position@, *old(account), *asset, *asset_amount, reliable_liquidator),
    ensures
        final(account).wf(),
        collateral_increased(position@, *old(account), *asset, *asset_amount, reliable_liquidator, r, *final(account)),
{
    let held_shares = supplied_shares(account, &asset_amount.token_id);
    match collateral_shares(asset, held_shares, asset_amount, reliable_liquidator) {
        Ok((shares, amount)) => {
            set_supplied_shares(account, &asset_amount.token_id, held_shares - shares);
            let ghost mid = *account;
            account.increase_collateral(position, &asset_amount.token_id, shares);
            proof {
                let base = choose|base: Position| #[trigger] mid.position_or_fresh(position@, base)
                    && collateral_added(base, account.positions@[position@], asset_amount.token_id@, shares);
                assert(old(account).position_or_fresh(position@, base));
            }
            Ok(amount)
        },
        Err(e) => Err(e),
    }
}

/// Moves `asset_amount` of the collateral of `position` back to the
/// account's supply (see `spec_release_collateral`), closing the position
/// when nothing is left in it; returns the amount. Nothing changes when
/// refused.
pub fn internal_decrease_collateral(
    position: &String,
    account: &mut Account,
    asset: &Asset,
    asset_amount: &AssetAmount,
) -> (r: Result<Balance, LendingError>)
    requires
        old(account).wf(),
        old(account).positions@.contains_key(position@),
        old(account).positions@[position@] matches Position::RegularPosition(p)
            ==> p.collateral@.contains_key(asset_amount.token_id@),
        decrease_collateral_fits(position@, *old(account), *asset, *asset_amount),
    ensures
        final(account).wf(),
        collateral_decreased(position@, *old(account), *asset, *asset_amount, r, *final(account)),
{
    let collateral = account.internal_unwrap_collateral(position, &asset_amount.token_id);
    match release_collateral_shares(asset, collateral, asset_amount) {
        Ok((shares, amount)) => {
            account.decrease_collateral(position, &asset_amount.token_id, shares);
            let held_shares = supplied_shares(account, &asset_amount.token_id);
            set_supplied_shares(account, &asset_amount.token_id, held_shares + shares);
            Ok(amount)
        },
        Err(e) => Err(e),
    }
}

/// Borrows `asset_amount` of the asset against `position` (see
/// `spec_borrow`): the debt joins the position and the borrowed tokens the
/// account's supply; returns the amount. Nothing changes when refused.
pub fn internal_borrow(
    position: &String,
    account: &mut Account,
    asset: &mut Asset,
    asset_amount: &AssetAmount,
    reliable_liquidator: bool,
) -> (r: Result<Balance, LendingError>)
    requires
        old(account).wf(),
        old(account).positions@.contains_key(position@),
        borrow_fits(position@, *old(account), *old(asset), *asset_amount, reliable_liquidator),
    ensures
        final(account).wf(),
        borrowed(position@, *old(account), *old(asset), *asset_amount, reliable_liquidator, r, *final(account), *final(asset)),
{
    match borrow_from_asset(asset, asset_amount, reliable_liquidator) {
        Ok((borrowed_shares, shares, amount)) => {
            account.increase_borrowed(position, &asset_amount.token_id, borrowed_shares);
            let held_shares = supplied_shares(account, &asset_amount.token_id);
            set_supplied_shares(account, &asset_amount.token_id, held_shares + shares);
            Ok(amount)
        },
        Err(e) => Err(e),
    }
}

/// Repays `asset_amount` of the debt of `position` in the asset with the
/// account's supply of it (see `spec_repay`); returns the amount. Nothing
/// changes when refused.
pub fn internal_repay(
    position: &String,
    account: &mut Account,
    asset: &mut Asset,
    asset_amount: &AssetAmount,
) -> (r: Result<Balance, LendingError>)
    requires
        old(account).wf(),
        old(account).supplied@.contains_key(asset_amount.token_id@),
        old(account).positions@.contains_key(position@),
        old(account).positions@[position@].borrowed_view().contains_key(asset_amount.token_id@),
        repay_fits(position@, *old(account), *old(asset), *asset_amount),
    ensures
        final(account).wf(),
        repaid(position@, *old(account), *old(asset), *asset_amount, r, *final(account), *final(asset)),
{
    let borrowed = account.internal_unwrap_borrowed(position, &asset_amount.token_id);
    let held_shares = supplied_shares(account, &asset_amount.token_id);
    match repay_to_asset(asset, borrowed, held_shares, asset_amount) {
        Ok((borrowed_shares, shares, amount)) => {
            account.decrease_borrowed(position, &asset_amount.token_id, borrowed_shares);
            set_supplied_shares(account, &asset_amount.token_id, held_shares - shares);
            Ok(amount)
        },
        Err(e) => Err(e),
    }
}

} // verus!
