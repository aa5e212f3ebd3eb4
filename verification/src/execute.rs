//! One action of a batch carried out on the account and the assets: the
//! lending action it stands for, on the position it names, with the checks
//! that the account and the asset exist.

use vstd::prelude::*;
use crate::account::Account;
use crate::account_lending::{
    internal_withdraw, internal_increase_collateral, internal_decrease_collateral, internal_borrow, internal_repay,
    withdrawn, collateral_increased, collateral_decreased, borrowed, repaid, increase_collateral_fits,
    decrease_collateral_fits, borrow_fits, repay_fits,
};
use crate::account_map::AccountMap;
use crate::actions::{Action, AssetAmount};
use crate::asset::Asset;
use crate::actions::asset_amount_to_shares;
use crate::lending::{LendingError, lemma_shares_and_amount_fit, withdraw_ok, available_ok, amount_ok, repay_ok, collateral_shares};
use crate::pool::Pool;
use crate::position::{Position, held, collateral_fits};
use crate::utils::{Balance, Shares, REGULAR_POSITION};

verus! {

/// The lending actions.
#[derive(Clone, Copy, PartialEq, Eq, Debug, Structural)]
pub enum StepKind {
    Withdraw,
    IncreaseCollateral,
    DecreaseCollateral,
    Borrow,
    Repay,
}

/// What one action did, for the transfers and events that follow it.
#[derive(Clone, Copy, PartialEq, Eq, Debug, Structural)]
pub enum ActionOutcome {
    /// A withdrawal of `amount`; `ft_amount`, in the token's own decimals, is
    /// to be transferred (nothing was withdrawn where it is zero).
    Withdrawn { amount: Balance, ft_amount: Balance },
    /// A withdrawal of a token the account does not supply: nothing happens.
    NothingSupplied,
    /// The amount moved into collateral.
    CollateralIncreased(Balance),
    /// The amount of collateral moved back to the supply.
    CollateralDecreased(Balance),
    /// The amount borrowed.
    Borrowed(Balance),
    /// The amount repaid.
    Repaid(Balance),
    /// A liquidation or force-close: it works on another account, and
    /// changes nothing here.
    OnOtherAccount,
}

/// Why an action was refused.
#[derive(Clone, Copy, PartialEq, Eq, Debug, Structural)]
pub enum ExecuteError {
    /// The lending action itself was refused.
    Lending(LendingError),
    /// The token has no asset.
    AssetNotFound,
    /// The account does not supply the token.
    NotSupplied,
    /// The account has no position of that name.
    PositionNotFound,
    /// The regular position holds no collateral of the token.
    CollateralNotFound,
    /// The position has no debt in the token.
    BorrowedNotFound,
    /// The action's arithmetic would overflow.
    Overflow,
}

/// The lending action that `action` stands for, the position it works on
/// (the regular position unless it names one) and its amount; none for the
/// actions on other accounts.
pub open spec fn lending_step(action: Action) -> Option<(StepKind, Seq<char>, AssetAmount)> {
    let regular = REGULAR_POSITION@;
    match action {
        Action::Withdraw(a) => Some((StepKind::Withdraw, regular, a)),
        Action::ClientEchoWithdraw { client_echo, asset_amount } => Some((StepKind::Withdraw, regular, asset_amount)),
        Action::IncreaseCollateral(a) => Some((StepKind::IncreaseCollateral, regular, a)),
        Action::PositionIncreaseCollateral { position, asset_amount } =>
            Some((StepKind::IncreaseCollateral, position@, asset_amount)),
        Action::DecreaseCollateral(a) => Some((StepKind::DecreaseCollateral, regular, a)),
        Action::PositionDecreaseCollateral { position, asset_amount } =>
            Some((StepKind::DecreaseCollateral, position@, asset_amount)),
        Action::Borrow(a) => Some((StepKind::Borrow, regular, a)),
        Action::PositionBorrow { position, asset_amount } => Some((StepKind::Borrow, position@, asset_amount)),
        Action::Repay(a) => Some((StepKind::Repay, regular, a)),
        Action::PositionRepay { position, asset_amount } => Some((StepKind::Repay, position@, asset_amount)),
        _ => None,
    }
}

/// The lending action stays within the bounds of its arithmetic, where it
/// gets that far.
pub open spec fn step_fits(kind: StepKind, position: Seq<char>, account: Account, assets: AccountMap<Asset>,
    asset_amount: AssetAmount, reliable_liquidator: bool) -> bool
{
    let t = asset_amount.token_id@;
    match kind {
        StepKind::Withdraw => account.supplied@.contains_key(t) && assets@.contains_key(t)
            ==> withdraw_ok(assets@[t], account.supplied@[t] as nat, asset_amount),
        StepKind::IncreaseCollateral => assets@.contains_key(t) && account.supplied@.contains_key(t)
            ==> increase_collateral_fits(position, account, assets@[t], asset_amount, reliable_liquidator),
        StepKind::DecreaseCollateral => assets@.contains_key(t) && account.positions@.contains_key(position)
            ==> decrease_collateral_fits(position, account, assets@[t], asset_amount),
        StepKind::Borrow => assets@.contains_key(t) && account.positions@.contains_key(position)
            ==> borrow_fits(position, account, assets@[t], asset_amount, reliable_liquidator),
        StepKind::Repay => assets@.contains_key(t) && account.supplied@.contains_key(t)
            && account.positions@.contains_key(position)
            && account.positions@[position].borrowed_view().contains_key(t)
            ==> repay_fits(position, account, assets@[t], asset_amount),
    }
}

/// The result of a withdrawal that an outcome reports.
pub open spec fn withdraw_result(r: Result<ActionOutcome, ExecuteError>) -> Result<(Balance, Balance), LendingError> {
    match r {
        Ok(ActionOutcome::Withdrawn { amount, ft_amount }) => Ok((amount, ft_amount)),
        Err(ExecuteError::Lending(e)) => Err(e),
        _ => Err(LendingError::WithdrawDisabled),
    }
}

/// The amount (or the refusal) of a lending action that an outcome reports.
pub open spec fn lending_amount(r: Result<ActionOutcome, ExecuteError>) -> Result<Balance, LendingError> {
    match r {
        Ok(ActionOutcome::CollateralIncreased(a)) => Ok(a),
        Ok(ActionOutcome::CollateralDecreased(a)) => Ok(a),
        Ok(ActionOutcome::Borrowed(a)) => Ok(a),
        Ok(ActionOutcome::Repaid(a)) => Ok(a),
        Err(ExecuteError::Lending(e)) => Err(e),
        _ => Err(LendingError::ZeroShares),
    }
}

/// `r` is an outcome of the lending action `kind`, or its refusal.
pub open spec fn outcome_of(kind: StepKind, r: Result<ActionOutcome, ExecuteError>) -> bool {
    ||| r matches Err(ExecuteError::Lending(_))
    ||| match kind {
        StepKind::Withdraw => r matches Ok(ActionOutcome::Withdrawn { .. }),
        StepKind::IncreaseCollateral => r matches Ok(ActionOutcome::CollateralIncreased(_)),
        StepKind::DecreaseCollateral => r matches Ok(ActionOutcome::CollateralDecreased(_)),
        StepKind::Borrow => r matches Ok(ActionOutcome::Borrowed(_)),
        StepKind::Repay => r matches Ok(ActionOutcome::Repaid(_)),
    }
}

/// What the lending action `kind` on `position` does to the account and
/// the assets. A withdrawal of a token the account does not supply does
/// nothing. Otherwise the action is refused, changing nothing, when the
/// token has no asset, the account does not supply what it moves or repays
/// from, or lacks the position, the regular position's collateral or the
/// debt it works on, or its arithmetic would overflow (checked in that
/// order); else it is the lending action
/// of `account_lending` on the token's asset, which alone of the assets
/// changes.
pub open spec fn step_done(kind: StepKind, position: Seq<char>, account: Account, assets: AccountMap<Asset>,
    asset_amount: AssetAmount, reliable_liquidator: bool, r: Result<ActionOutcome, ExecuteError>,
    account2: Account, assets2: AccountMap<Asset>) -> bool
{
    let t = asset_amount.token_id@;
    let unchanged = account2 == account && assets2@ == assets@;
    let asset_set = assets2@ == assets@.insert(t, assets2@[t]);
    if kind == StepKind::Withdraw && !account.supplied@.contains_key(t) {
        r == Ok::<ActionOutcome, ExecuteError>(ActionOutcome::NothingSupplied) && unchanged
    } else if !assets@.contains_key(t) {
        r == Err::<ActionOutcome, ExecuteError>(ExecuteError::AssetNotFound) && unchanged
    } else if (kind == StepKind::IncreaseCollateral || kind == StepKind::Repay) && !account.supplied@.contains_key(t) {
        r == Err::<ActionOutcome, ExecuteError>(ExecuteError::NotSupplied) && unchanged
    } else if kind != StepKind::Withdraw && kind != StepKind::IncreaseCollateral && !account.positions@.contains_key(position) {
        r == Err::<ActionOutcome, ExecuteError>(ExecuteError::PositionNotFound) && unchanged
    } else if kind == StepKind::DecreaseCollateral && (account.positions@[position] matches Position::RegularPosition(p)
        && !p.collateral@.contains_key(t)) {
        r == Err::<ActionOutcome, ExecuteError>(ExecuteError::CollateralNotFound) && unchanged
    } else if kind == StepKind::Repay && !account.positions@[position].borrowed_view().contains_key(t) {
        r == Err::<ActionOutcome, ExecuteError>(ExecuteError::BorrowedNotFound) && unchanged
    } else if !step_fits(kind, position, account, assets, asset_amount, reliable_liquidator) {
        r == Err::<ActionOutcome, ExecuteError>(ExecuteError::Overflow) && unchanged
    } else {
        &&& outcome_of(kind, r)
        &&& match kind {
            StepKind::Withdraw => asset_set
                && withdrawn(account, assets@[t], asset_amount, withdraw_result(r), account2, assets2@[t]),
            StepKind::IncreaseCollateral => assets2@ == assets@
                && collateral_increased(position, account, assets@[t], asset_amount, reliable_liquidator,
                    lending_amount(r), account2),
            StepKind::DecreaseCollateral => assets2@ == assets@
                && collateral_decreased(position, account, assets@[t], asset_amount, lending_amount(r), account2),
            StepKind::Borrow => asset_set
                && borrowed(position, account, assets@[t], asset_amount, reliable_liquidator, lending_amount(r),
                    account2, assets2@[t]),
            StepKind::Repay => asset_set
                && repaid(position, account, assets@[t], asset_amount, lending_amount(r), account2, assets2@[t]),
        }
    }
}

/// A refused action changes nothing: where an action is refused, the
/// account and the assets (as a map) it leaves are those it was given.
pub proof fn lemma_refused_action_changes_nothing(kind: StepKind, position: Seq<char>, account: Account,
    assets: AccountMap<Asset>, asset_amount: AssetAmount, reliable_liquidator: bool, e: ExecuteError,
    account2: Account, assets2: AccountMap<Asset>)
    requires
        step_done(kind, position, account, assets, asset_amount, reliable_liquidator,
            Err::<ActionOutcome, ExecuteError>(e), account2, assets2),
    ensures
        account2 == account,
        assets2@ == assets@,
        step_done(kind, position, account, assets, asset_amount, reliable_liquidator,
            Err::<ActionOutcome, ExecuteError>(e), account, assets),
{
    let t = asset_amount.token_id@;
    if assets@.contains_key(t) && assets2@ == assets@.insert(t, assets2@[t]) && assets2@[t] == assets@[t] {
        assert(assets2@ =~= assets@);
        assert(assets@ =~= assets@.insert(t, assets@[t]));
    }
}

pub(crate) fn held_in(m: &AccountMap<Shares>, k: &String) -> (r: u128)
    requires
        m.wf(),
    ensures
        r == held(m@, k@),
{
    match m.get(k) {
        Some(s) => s,
        None => 0,
    }
}

pub(crate) fn amount_fits(pool: &Pool, asset_amount: &AssetAmount, inverse_round_direction: bool) -> (r: bool)
    ensures
        r == amount_ok(*pool, *asset_amount, inverse_round_direction),
{
    match asset_amount.amount {
        Some(a) => pool.try_amount_to_shares(a, !inverse_round_direction).is_some(),
        None => match asset_amount.max_amount {
            Some(m) => pool.try_amount_to_shares(m, !inverse_round_direction).is_some(),
            None => true,
        },
    }
}

fn available_fits(asset: &Asset) -> (r: bool)
    ensures
        r == available_ok(*asset),
{
    let supply = match asset.supplied.balance.checked_add(asset.reserved) {
        Some(x) => match x.checked_add(asset.prot_fee) {
            Some(y) => y,
            None => { return false; },
        },
        None => { return false; },
    };
    let debt = match asset.borrowed.balance.checked_add(asset.margin_debt.balance) {
        Some(x) => match x.checked_add(asset.margin_pending_debt) {
            Some(y) => y,
            None => { return false; },
        },
        None => { return false; },
    };
    debt <= supply
}

fn withdraw_fits(asset: &Asset, account_shares: Shares, asset_amount: &AssetAmount) -> (r: bool)
    ensures
        r == withdraw_ok(*asset, account_shares as nat, *asset_amount),
{
    if !available_fits(asset) || !amount_fits(&asset.supplied, asset_amount, false) || asset.config.extra_decimals > 38 {
        return false;
    }
    proof { lemma_shares_and_amount_fit(asset.supplied, account_shares as nat, *asset_amount, false); }
    match asset_amount_to_shares(&asset.supplied, account_shares, asset_amount, false) {
        Ok((s, a)) => s <= asset.supplied.shares && a <= asset.supplied.balance,
        Err(_) => true,
    }
}

fn collateral_room(p: &Position, token_id: &String, shares: Shares) -> (r: bool)
    requires
        p.wf(),
    ensures
        r == collateral_fits(*p, token_id@, shares),
{
    match p {
        Position::RegularPosition(q) => held_in(&q.collateral, token_id).checked_add(shares).is_some(),
        Position::LPTokenPosition(q) => q.collateral.checked_add(shares).is_some(),
    }
}

fn borrowed_held(p: &Position, token_id: &String) -> (r: u128)
    requires
        p.wf(),
    ensures
        r == held(p.borrowed_view(), token_id@),
{
    match p {
        Position::RegularPosition(q) => held_in(&q.borrowed, token_id),
        Position::LPTokenPosition(q) => held_in(&q.borrowed, token_id),
    }
}

fn borrow_fits_check(position: &String, account: &Account, asset: &Asset, asset_amount: &AssetAmount,
    reliable_liquidator: bool) -> (r: bool)
    requires
        account.wf(),
        account.positions@.contains_key(position@),
    ensures
        r == borrow_fits(position@, *account, *asset, *asset_amount, reliable_liquidator),
{
    if !available_fits(asset) {
        return false;
    }
    let avail = asset.available_amount();
    let max_borrow_shares = match asset.borrowed.try_amount_to_shares(avail, false) {
        Some(x) => x,
        None => { return false; },
    };
    if !amount_fits(&asset.borrowed, asset_amount, false) {
        return false;
    }
    proof { lemma_shares_and_amount_fit(asset.borrowed, max_borrow_shares as nat, *asset_amount, false); }
    match asset_amount_to_shares(&asset.borrowed, max_borrow_shares, asset_amount, false) {
        Err(_) => true,
        Ok((b, a)) => {
            let s = match asset.supplied.try_amount_to_shares(a, false) {
                Some(x) => x,
                None => { return false; },
            };
            let total = match asset.borrowed.balance.checked_add(asset.margin_debt.balance) {
                Some(x) => match x.checked_add(asset.margin_pending_debt) {
                    Some(y) => y,
                    None => { return false; },
                },
                None => { return false; },
            };
            if total.checked_add(a).is_none() || asset.borrowed.shares.checked_add(b).is_none()
                || asset.borrowed.balance.checked_add(a).is_none() || asset.supplied.shares.checked_add(s).is_none()
                || asset.supplied.balance.checked_add(a).is_none() {
                return false;
            }
            let refused = !asset.config.can_borrow || a > avail || (!reliable_liquidator && match asset.config.borrowed_limit {
                Some(limit) => !(total + a <= limit),
                None => false,
            });
            if refused {
                return true;
            }
            let p = match account.positions.get_ref(position) {
                Some(p) => p,
                None => { return true; },
            };
            assert(p.wf());
            borrowed_held(p, &asset_amount.token_id).checked_add(b).is_some()
                && held_in(&account.supplied, &asset_amount.token_id).checked_add(s).is_some()
        },
    }
}

pub(crate) fn repay_fits_check(asset: &Asset, borrowed_shares: Shares, account_shares: Shares, asset_amount: &AssetAmount) -> (r: bool)
    ensures
        r == repay_ok(*asset, borrowed_shares as nat, account_shares as nat, *asset_amount),
{
    if !amount_fits(&asset.borrowed, asset_amount, true) {
        return false;
    }
    proof { lemma_shares_and_amount_fit(asset.borrowed, borrowed_shares as nat, *asset_amount, true); }
    match asset_amount_to_shares(&asset.borrowed, borrowed_shares, asset_amount, true) {
        Err(_) => true,
        Ok((b, a)) => {
            let s = match asset.supplied.try_amount_to_shares(a, true) {
                Some(x) => x,
                None => { return false; },
            };
            if s <= account_shares {
                s <= asset.supplied.shares && a <= asset.supplied.balance && b <= asset.borrowed.shares
                    && a <= asset.borrowed.balance
            } else {
                let a2 = asset.supplied.shares_to_amount(account_shares, false);
                match asset.borrowed.try_amount_to_shares(a2, false) {
                    None => false,
                    Some(b2) => account_shares <= asset.supplied.shares && a2 <= asset.borrowed.balance
                        && b2 <= asset.borrowed.shares,
                }
            }
        },
    }
}

fn step_fits_check(kind: StepKind, position: &String, account: &Account, asset: &Asset, asset_amount: &AssetAmount,
    reliable_liquidator: bool) -> (r: bool)
    requires
        account.wf(),
        kind == StepKind::Withdraw || kind == StepKind::IncreaseCollateral || kind == StepKind::Repay
            ==> account.supplied@.contains_key(asset_amount.token_id@),
        kind == StepKind::DecreaseCollateral || kind == StepKind::Borrow || kind == StepKind::Repay
            ==> account.positions@.contains_key(position@),
        kind == StepKind::DecreaseCollateral ==> (account.positions@[position@] matches Position::RegularPosition(p)
            ==> p.collateral@.contains_key(asset_amount.token_id@)),
        kind == StepKind::Repay ==> account.positions@[position@].borrowed_view().contains_key(asset_amount.token_id@),
    ensures
        ({
            let t = asset_amount.token_id@;
            match kind {
                StepKind::Withdraw => r == withdraw_ok(*asset, account.supplied@[t] as nat, *asset_amount),
                StepKind::IncreaseCollateral => r == increase_collateral_fits(position@, *account, *asset, *asset_amount,
                    reliable_liquidator),
                StepKind::DecreaseCollateral => r == decrease_collateral_fits(position@, *account, *asset, *asset_amount),
                StepKind::Borrow => r == borrow_fits(position@, *account, *asset, *asset_amount, reliable_liquidator),
                StepKind::Repay => r == repay_fits(position@, *account, *asset, *asset_amount),
            }
        }),
{
    let token_id = &asset_amount.token_id;
    match kind {
        StepKind::Withdraw => withdraw_fits(asset, held_in(&account.supplied, token_id), asset_amount),
        StepKind::IncreaseCollateral => {
            if !amount_fits(&asset.supplied, asset_amount, false) {
                return false;
            }
            match collateral_shares(asset, held_in(&account.supplied, token_id), asset_amount, reliable_liquidator) {
                Err(_) => true,
                Ok((s, a)) => match account.positions.get_ref(position) {
                    Some(p) => {
                        assert(p.wf());
                        collateral_room(p, token_id, s)
                    },
                    None => true,
                },
            }
        },
        StepKind::DecreaseCollateral => {
            let c = account.internal_unwrap_collateral(position, token_id);
            amount_fits(&asset.supplied, asset_amount, false)
                && held_in(&account.supplied, token_id).checked_add(c).is_some()
        },
        StepKind::Borrow => borrow_fits_check(position, account, asset, asset_amount, reliable_liquidator),
        StepKind::Repay => {
            let b = account.internal_unwrap_borrowed(position, token_id);
            repay_fits_check(asset, b, held_in(&account.supplied, token_id), asset_amount)
        },
    }
}

fn step_parts(action: &Action) -> (r: Option<(StepKind, String, &AssetAmount)>)
    ensures
        match lending_step(*action) {
            Some((k, p, a)) => r matches Some((k2, p2, a2)) && k2 == k && p2@ == p && *a2 == a,
            None => r is None,
        },
{
    match action {
        Action::Withdraw(a) => Some((StepKind::Withdraw, REGULAR_POSITION.to_string(), a)),
        Action::ClientEchoWithdraw { client_echo, asset_amount } =>
            Some((StepKind::Withdraw, REGULAR_POSITION.to_string(), asset_amount)),
        Action::IncreaseCollateral(a) => Some((StepKind::IncreaseCollateral, REGULAR_POSITION.to_string(), a)),
        Action::PositionIncreaseCollateral { position, asset_amount } =>
            Some((StepKind::IncreaseCollateral, position.clone(), asset_amount)),
        Action::DecreaseCollateral(a) => Some((StepKind::DecreaseCollateral, REGULAR_POSITION.to_string(), a)),
        Action::PositionDecreaseCollateral { position, asset_amount } =>
            Some((StepKind::DecreaseCollateral, position.clone(), asset_amount)),
        Action::Borrow(a) => Some((StepKind::Borrow, REGULAR_POSITION.to_string(), a)),
        Action::PositionBorrow { position, asset_amount } => Some((StepKind::Borrow, position.clone(), asset_amount)),
        Action::Repay(a) => Some((StepKind::Repay, REGULAR_POSITION.to_string(), a)),
        Action::PositionRepay { position, asset_amount } => Some((StepKind::Repay, position.clone(), asset_amount)),
        _ => None,
    }
}

pub(crate) fn has_position(account: &Account, position: &String) -> (r: bool)
    requires
        account.wf(),
    ensures
        r == account.positions@.contains_key(position@),
{
    account.positions.get_ref(position).is_some()
}

pub(crate) fn lacks_regular_collateral(account: &Account, position: &String, token_id: &String) -> (r: bool)
    requires
        account.wf(),
        account.positions@.contains_key(position@),
    ensures
        r == (account.positions@[position@] matches Position::RegularPosition(p) && !p.collateral@.contains_key(token_id@)),
{
    match account.positions.get_ref(position) {
        Some(Position::RegularPosition(p)) => {
            assert(account.positions@[position@].wf());
            p.collateral.get(token_id).is_none()
        },
        _ => false,
    }
}

pub(crate) fn has_debt(account: &Account, position: &String, token_id: &String) -> (r: bool)
    requires
        account.wf(),
        account.positions@.contains_key(position@),
    ensures
        r == account.positions@[position@].borrowed_view().contains_key(token_id@),
{
    match account.positions.get_ref(position) {
        Some(Position::RegularPosition(p)) => {
            assert(account.positions@[position@].wf());
            p.borrowed.get(token_id).is_some()
        },
        Some(Position::LPTokenPosition(p)) => {
            assert(account.positions@[position@].wf());
            p.borrowed.get(token_id).is_some()
        },
        None => false,
    }
}

/// Carries out one action of the account on the assets (see `step_done`);
/// a liquidation or force-close, which works on another account, changes
/// nothing here. `reliable_liquidator` lifts the supply and borrow limits.
pub fn execute_action(account: &mut Account, assets: &mut AccountMap<Asset>, action: &Action, reliable_liquidator: bool)
    -> (r: Result<ActionOutcome, ExecuteError>)
    requires
        old(account).wf(),
        old(assets).wf(),
    ensures
        final(account).wf(),
        final(assets).wf(),
        match lending_step(*action) {
            Some((k, p, a)) => step_done(k, p, *old(account), *old(assets), a, reliable_liquidator, r,
                *final(account), *final(assets)),
            None => r == Ok::<ActionOutcome, ExecuteError>(ActionOutcome::OnOtherAccount)
                && *final(account) == *old(account) && *final(assets) == *old(assets),
        },
{
    let (kind, position, asset_amount) = match step_parts(action) {
        Some(x) => x,
        None => { return Ok(ActionOutcome::OnOtherAccount); },
    };
    let token_id = &asset_amount.token_id;
    if kind == StepKind::Withdraw && account.supplied.get(token_id).is_none() {
        return Ok(ActionOutcome::NothingSupplied);
    }
    if assets.get_ref(token_id).is_none() {
        return Err(ExecuteError::AssetNotFound);
    }
    if (kind == StepKind::IncreaseCollateral || kind == StepKind::Repay) && account.supplied.get(token_id).is_none() {
        return Err(ExecuteError::NotSupplied);
    }
    if kind != StepKind::Withdraw && kind != StepKind::IncreaseCollateral && !has_position(account, &position) {
        return Err(ExecuteError::PositionNotFound);
    }
    if kind == StepKind::DecreaseCollateral && lacks_regular_collateral(account, &position, token_id) {
        return Err(ExecuteError::CollateralNotFound);
    }
    if kind == StepKind::Repay && !has_debt(account, &position, token_id) {
        return Err(ExecuteError::BorrowedNotFound);
    }
    let fits = match assets.get_ref(token_id) {
        Some(asset) => step_fits_check(kind, &position, account, asset, asset_amount, reliable_liquidator),
        None => { return Err(ExecuteError::AssetNotFound); },
    };
    if !fits {
        return Err(ExecuteError::Overflow);
    }
    match kind {
        StepKind::IncreaseCollateral => {
            let asset = match assets.get_ref(token_id) { Some(a) => a, None => { return Err(ExecuteError::AssetNotFound); } };
            match internal_increase_collateral(&position, account, asset, asset_amount, reliable_liquidator) {
                Ok(amount) => Ok(ActionOutcome::CollateralIncreased(amount)),
                Err(e) => Err(ExecuteError::Lending(e)),
            }
        },
        StepKind::DecreaseCollateral => {
            let asset = match assets.get_ref(token_id) { Some(a) => a, None => { return Err(ExecuteError::AssetNotFound); } };
            match internal_decrease_collateral(&position, account, asset, asset_amount) {
                Ok(amount) => Ok(ActionOutcome::CollateralDecreased(amount)),
                Err(e) => Err(ExecuteError::Lending(e)),
            }
        },
        _ => {
            let ghost before = assets@;
            let mut asset = match assets.remove(token_id) { Some(a) => a, None => { return Err(ExecuteError::AssetNotFound); } };
            let r = match kind {
                StepKind::Withdraw => match internal_withdraw(account, &mut asset, asset_amount) {
                    Ok((amount, ft_amount)) => Ok(ActionOutcome::Withdrawn { amount, ft_amount }),
                    Err(e) => Err(ExecuteError::Lending(e)),
                },
                StepKind::Borrow => match internal_borrow(&position, account, &mut asset, asset_amount, reliable_liquidator) {
                    Ok(amount) => Ok(ActionOutcome::Borrowed(amount)),
                    Err(e) => Err(ExecuteError::Lending(e)),
                },
                _ => match internal_repay(&position, account, &mut asset, asset_amount) {
                    Ok(amount) => Ok(ActionOutcome::Repaid(amount)),
                    Err(e) => Err(ExecuteError::Lending(e)),
                },
            };
            assets.insert(token_id, asset);
            proof {
                assert(assets@ =~= before.insert(token_id@, assets@[token_id@]));
            }
            r
        },
    }
}

} // verus!
