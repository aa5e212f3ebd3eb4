//! What the lending actions of an account do to an asset: deposits,
//! withdrawals, collateral, borrowing and repayment, with the shares that
//! move between the asset's pools and the account.

use vstd::prelude::*;
use crate::actions::{AmountError, AssetAmount, asset_amount_to_shares, spec_asset_amount_to_shares};
use crate::asset::Asset;
use crate::big_decimal::pow10;
use crate::pool::{Pool, spec_amount_to_shares, spec_shares_to_amount};
use crate::utils::{Balance, Shares};

verus! {

/// Why a lending action was refused.
#[derive(Clone, Copy, PartialEq, Eq, Debug, Structural)]
pub enum LendingError {
    /// Deposits of the asset are not enabled.
    DepositDisabled,
    /// Withdrawals of the asset are not enabled.
    WithdrawDisabled,
    /// The asset can not be used as collateral.
    NotCollateral,
    /// The asset can not be borrowed.
    NotBorrowable,
    /// The asset has reached its supply limit.
    SupplyLimit,
    /// The borrow would exceed the borrow limit of the asset.
    BorrowLimit,
    /// The amount comes to zero shares or zero tokens.
    Amount(AmountError),
    /// The amount exceeds what is available to lend.
    ExceedsAvailable,
    /// The account does not hold the shares needed.
    NotEnoughShares,
    /// The account's supply repays less than the amount asked.
    NotEnoughSupplied,
    /// The repayment comes to zero tokens.
    ZeroRepayment,
    /// The repayment comes to zero debt shares.
    ZeroShares,
    /// The repayment exceeds the debt.
    ExceedsBorrowed,
}

/// `10^k` for `k <= 38`.
pub fn pow10_u128(k: u8) -> (r: u128)
    requires
        k <= 38,
    ensures
        r == pow10(k as nat),
{
    let mut acc: u128 = 1;
    let mut i: u8 = 0;
    while i < k
        invariant
            i <= k <= 38,
            acc == pow10(i as nat),
        decreases k - i,
    {
        proof { lemma_pow10_bound(i as nat); }
        acc = acc * 10;
        i = i + 1;
    }
    acc
}

proof fn lemma_pow10_bound(i: nat)
    requires
        i < 38,
    ensures
        pow10(i) * 10 <= u128::MAX,
{
    crate::big_decimal::lemma_pow10_monotone(i, 37);
    assert(pow10(37) == 10_000_000_000_000_000_000_000_000_000_000_000_000nat) by { reveal_with_fuel(pow10, 38); }
}

/// What the rounding down `a / 10^extra_decimals` of an amount held with
/// extra decimals gives in the token's own decimals.
pub open spec fn ft_amount(a: nat, extra_decimals: u8) -> nat {
    a / pow10(extra_decimals as nat)
}

/// `pool` with `shares` shares and `amount` tokens added.
pub open spec fn pool_plus(pool: Pool, shares: nat, amount: nat) -> Pool {
    Pool { shares: (pool.shares + shares) as u128, balance: (pool.balance + amount) as u128 }
}

/// `pool` with `shares` shares and `amount` tokens taken out.
pub open spec fn pool_minus(pool: Pool, shares: nat, amount: nat) -> Pool {
    Pool { shares: (pool.shares - shares) as u128, balance: (pool.balance - amount) as u128 }
}

/// What the asset can lend: its supply, reserve and protocol fees less
/// what is borrowed, owed as margin debt or pending.
pub open spec fn available(asset: Asset) -> int {
    asset.spec_total_supplied() - asset.spec_total_borrowed()
}

/// The sums that `available` adds up fit, and the debt does not exceed them.
pub open spec fn available_ok(asset: Asset) -> bool {
    &&& asset.supplied.balance + asset.reserved + asset.prot_fee <= u128::MAX
    &&& asset.borrowed.balance + asset.margin_debt.balance + asset.margin_pending_debt
        <= asset.supplied.balance + asset.reserved + asset.prot_fee
}

/// `asset_amount_to_shares` on `pool` computes its shares without overflow.
pub open spec fn amount_ok(pool: Pool, asset_amount: AssetAmount, inverse_round_direction: bool) -> bool {
    &&& asset_amount.amount matches Some(a) ==> spec_amount_to_shares(pool.shares as nat, pool.balance as nat, a as nat,
        !inverse_round_direction) <= u128::MAX
    &&& asset_amount.amount is None && asset_amount.max_amount is Some ==> spec_amount_to_shares(pool.shares as nat,
        pool.balance as nat, asset_amount.max_amount.unwrap() as nat, !inverse_round_direction) <= u128::MAX
}

/// The shares and tokens an amount comes to, or why it is refused.
pub open spec fn shares_and_amount(pool: Pool, available_shares: nat, asset_amount: AssetAmount, inverse_round_direction: bool)
    -> Result<(nat, nat), LendingError>
{
    let (s, a) = spec_asset_amount_to_shares(pool, available_shares, asset_amount, inverse_round_direction);
    if s == 0 {
        Err(LendingError::Amount(AmountError::ZeroShares))
    } else if a == 0 {
        Err(LendingError::Amount(AmountError::ZeroAmount))
    } else {
        Ok((s, a))
    }
}

/// The shares and tokens an amount comes to fit in a `u128`.
pub proof fn lemma_shares_and_amount_fit(pool: Pool, available_shares: nat, asset_amount: AssetAmount, inverse_round_direction: bool)
    requires
        amount_ok(pool, asset_amount, inverse_round_direction),
        available_shares <= u128::MAX,
    ensures
        spec_asset_amount_to_shares(pool, available_shares, asset_amount, inverse_round_direction).0 <= u128::MAX,
        spec_asset_amount_to_shares(pool, available_shares, asset_amount, inverse_round_direction).1 <= u128::MAX,
{
    crate::pool::lemma_shares_to_amount_le_balance(pool.shares as nat, pool.balance as nat, available_shares, inverse_round_direction);
    if asset_amount.amount is None && asset_amount.max_amount is Some {
        let s = spec_amount_to_shares(pool.shares as nat, pool.balance as nat, asset_amount.max_amount.unwrap() as nat,
            !inverse_round_direction);
        let shares = if available_shares <= s { available_shares } else { s };
        crate::pool::lemma_shares_to_amount_le_balance(pool.shares as nat, pool.balance as nat, shares, inverse_round_direction);
    }
}

fn to_shares(pool: &Pool, available_shares: Shares, asset_amount: &AssetAmount, inverse_round_direction: bool)
    -> (r: Result<(Shares, Balance), LendingError>)
    requires
        amount_ok(*pool, *asset_amount, inverse_round_direction),
    ensures
        match shares_and_amount(*pool, available_shares as nat, *asset_amount, inverse_round_direction) {
            Ok((s, a)) => r is Ok && r->Ok_0.0 == s && r->Ok_0.1 == a,
            Err(e) => r == Err::<(Shares, Balance), LendingError>(e),
        },
{
    proof { lemma_shares_and_amount_fit(*pool, available_shares as nat, *asset_amount, inverse_round_direction); }
    match asset_amount_to_shares(pool, available_shares, asset_amount, inverse_round_direction) {
        Ok(x) => Ok(x),
        Err(e) => Err(LendingError::Amount(e)),
    }
}

// ----- deposit -----

/// The amount held for a transfer of `ft_amount` of the token (in its own
/// decimals): the token's amount with its extra decimals; refused when
/// deposits are not enabled.
pub fn deposit_amount(asset: &Asset, ft_amount: u128) -> (r: Result<Balance, LendingError>)
    requires
        asset.config.extra_decimals <= 38,
        ft_amount * pow10(asset.config.extra_decimals as nat) <= u128::MAX,
    ensures
        !asset.config.can_deposit ==> r == Err::<Balance, LendingError>(LendingError::DepositDisabled),
        asset.config.can_deposit ==> r == Ok::<Balance, LendingError>((ft_amount * pow10(asset.config.extra_decimals as nat)) as u128),
{
    if !asset.config.can_deposit {
        return Err(LendingError::DepositDisabled);
    }
    Ok(ft_amount * pow10_u128(asset.config.extra_decimals))
}

/// Deposits `amount` into the supply of the asset; returns the shares it
/// buys (rounded down), which the account gets.
pub fn deposit_to_asset(asset: &mut Asset, amount: Balance) -> (shares: Shares)
    requires
        spec_amount_to_shares(old(asset).supplied.shares as nat, old(asset).supplied.balance as nat, amount as nat, false) <= u128::MAX,
        old(asset).supplied.shares + spec_amount_to_shares(old(asset).supplied.shares as nat, old(asset).supplied.balance as nat,
            amount as nat, false) <= u128::MAX,
        old(asset).supplied.balance + amount <= u128::MAX,
    ensures
        shares == spec_amount_to_shares(old(asset).supplied.shares as nat, old(asset).supplied.balance as nat, amount as nat, false),
        *final(asset) == (Asset { supplied: pool_plus(old(asset).supplied, shares as nat, amount as nat), ..*old(asset) }),
{
    let shares = asset.supplied.amount_to_shares(amount, false);
    asset.supplied.deposit(shares, amount);
    shares
}

// ----- withdraw -----

/// What withdrawing `asset_amount` out of the account's `account_shares`
/// of supply does: refused when withdrawals are disabled, the amount comes
/// to nothing or exceeds what is available; when it comes to nothing in the
/// token's own decimals, nothing is withdrawn; else the account must hold
/// the shares (rounded up for an amount), which leave the supply. Gives the
/// asset, the shares, the amount and the amount in the token's decimals.
pub open spec fn spec_withdraw(asset: Asset, account_shares: nat, asset_amount: AssetAmount) -> Result<(Asset, nat, nat, nat), LendingError> {
    if !asset.config.can_withdraw {
        Err(LendingError::WithdrawDisabled)
    } else {
        match shares_and_amount(asset.supplied, account_shares, asset_amount, false) {
            Err(e) => Err(e),
            Ok((s, a)) => if a > available(asset) {
                Err(LendingError::ExceedsAvailable)
            } else if ft_amount(a, asset.config.extra_decimals) > 0 {
                if s > account_shares {
                    Err(LendingError::NotEnoughShares)
                } else {
                    Ok((Asset { supplied: pool_minus(asset.supplied, s, a), ..asset }, s, a, ft_amount(a, asset.config.extra_decimals)))
                }
            } else {
                Ok((asset, 0, 0, 0))
            },
        }
    }
}

/// A withdrawal stays within the asset's bounds: the amounts can be
/// computed, and the supply holds what leaves it.
pub open spec fn withdraw_ok(asset: Asset, account_shares: nat, asset_amount: AssetAmount) -> bool {
    &&& available_ok(asset)
    &&& amount_ok(asset.supplied, asset_amount, false)
    &&& asset.config.extra_decimals <= 38
    &&& shares_and_amount(asset.supplied, account_shares, asset_amount, false) matches Ok((s, a))
        ==> s <= asset.supplied.shares && a <= asset.supplied.balance
}

/// Withdraws `asset_amount` from the supply of the asset, for an account
/// holding `account_shares` (see `spec_withdraw`); returns the shares the
/// account gives up, the amount, and the amount in the token's decimals to
/// transfer. The asset is unchanged when refused.
pub fn withdraw_from_asset(asset: &mut Asset, account_shares: Shares, asset_amount: &AssetAmount)
    -> (r: Result<(Shares, Balance, Balance), LendingError>)
    requires
        withdraw_ok(*old(asset), account_shares as nat, *asset_amount),
    ensures
        match spec_withdraw(*old(asset), account_shares as nat, *asset_amount) {
            Ok((a, s, amount, ft)) => r == Ok::<(Shares, Balance, Balance), LendingError>((s as u128, amount as u128, ft as u128))
                && *final(asset) == a,
            Err(e) => r == Err::<(Shares, Balance, Balance), LendingError>(e) && *final(asset) == *old(asset),
        },
{
    if !asset.config.can_withdraw {
        return Err(LendingError::WithdrawDisabled);
    }
    let (shares, amount) = match to_shares(&asset.supplied, account_shares, asset_amount, false) {
        Ok(x) => x,
        Err(e) => { return Err(e); },
    };
    let available_amount = asset.available_amount();
    if amount > available_amount {
        return Err(LendingError::ExceedsAvailable);
    }
    proof { crate::big_decimal::lemma_pow10_monotone(0, asset.config.extra_decimals as nat); }
    let ft = amount / pow10_u128(asset.config.extra_decimals);
    if ft > 0 {
        if shares > account_shares {
            return Err(LendingError::NotEnoughShares);
        }
        asset.supplied.withdraw(shares, amount);
        Ok((shares, amount, ft))
    } else {
        Ok((0, 0, 0))
    }
}

// ----- collateral -----

/// What moving `asset_amount` of the account's supply (`account_shares`)
/// into collateral gives: refused when the asset is no collateral, has
/// reached its supply limit (except for a reliable liquidator), the amount
/// comes to nothing, or the account does not hold the shares.
pub open spec fn spec_collateral_shares(asset: Asset, account_shares: nat, asset_amount: AssetAmount, reliable_liquidator: bool)
    -> Result<(nat, nat), LendingError>
{
    if !asset.config.can_use_as_collateral {
        Err(LendingError::NotCollateral)
    } else if !reliable_liquidator && asset.config.supplied_limit is Some
        && !(asset.supplied.balance <= asset.config.supplied_limit.unwrap()) {
        Err(LendingError::SupplyLimit)
    } else {
        match shares_and_amount(asset.supplied, account_shares, asset_amount, false) {
            Err(e) => Err(e),
            Ok((s, a)) => if s > account_shares { Err(LendingError::NotEnoughShares) } else { Ok((s, a)) },
        }
    }
}

/// The shares and amount of the account's supply that `asset_amount` moves
/// into collateral (see `spec_collateral_shares`).
pub fn collateral_shares(asset: &Asset, account_shares: Shares, asset_amount: &AssetAmount, reliable_liquidator: bool)
    -> (r: Result<(Shares, Balance), LendingError>)
    requires
        amount_ok(asset.supplied, *asset_amount, false),
    ensures
        match spec_collateral_shares(*asset, account_shares as nat, *asset_amount, reliable_liquidator) {
            Ok((s, a)) => r == Ok::<(Shares, Balance), LendingError>((s as u128, a as u128)),
            Err(e) => r == Err::<(Shares, Balance), LendingError>(e),
        },
{
    if !asset.config.can_use_as_collateral {
        return Err(LendingError::NotCollateral);
    }
    if !reliable_liquidator {
        if let Some(supplied_limit) = asset.config.supplied_limit {
            if !(asset.supplied.balance <= supplied_limit) {
                return Err(LendingError::SupplyLimit);
            }
        }
    }
    let (shares, amount) = match to_shares(&asset.supplied, account_shares, asset_amount, false) {
        Ok(x) => x,
        Err(e) => { return Err(e); },
    };
    if shares > account_shares {
        return Err(LendingError::NotEnoughShares);
    }
    Ok((shares, amount))
}

/// The shares and amount of the collateral (`collateral_shares`) that
/// `asset_amount` moves back to the account's supply; refused when it comes
/// to nothing or to more than the collateral.
pub open spec fn spec_release_collateral(asset: Asset, collateral_shares: nat, asset_amount: AssetAmount) -> Result<(nat, nat), LendingError> {
    match shares_and_amount(asset.supplied, collateral_shares, asset_amount, false) {
        Err(e) => Err(e),
        Ok((s, a)) => if s > collateral_shares { Err(LendingError::NotEnoughShares) } else { Ok((s, a)) },
    }
}

/// The shares and amount of collateral that `asset_amount` releases (see
/// `spec_release_collateral`).
pub fn release_collateral_shares(asset: &Asset, collateral_shares: Shares, asset_amount: &AssetAmount)
    -> (r: Result<(Shares, Balance), LendingError>)
    requires
        amount_ok(asset.supplied, *asset_amount, false),
    ensures
        match spec_release_collateral(*asset, collateral_shares as nat, *asset_amount) {
            Ok((s, a)) => r == Ok::<(Shares, Balance), LendingError>((s as u128, a as u128)),
            Err(e) => r == Err::<(Shares, Balance), LendingError>(e),
        },
{
    let (shares, amount) = match to_shares(&asset.supplied, collateral_shares, asset_amount, false) {
        Ok(x) => x,
        Err(e) => { return Err(e); },
    };
    if shares > collateral_shares {
        return Err(LendingError::NotEnoughShares);
    }
    Ok((shares, amount))
}

// ----- borrow -----

/// What borrowing `asset_amount` does: refused when the asset can not be
/// borrowed, the amount comes to nothing or exceeds what is available, or
/// the debt would pass the borrow limit (except for a reliable liquidator);
/// else the debt shares (rounded down, at most those of everything
/// available) join the borrowed pool, and the borrowed tokens join the
/// supply, buying the account supply shares (rounded down). Gives the asset,
/// the debt shares, the supply shares and the amount.
pub open spec fn spec_borrow(asset: Asset, asset_amount: AssetAmount, reliable_liquidator: bool) -> Result<(Asset, nat, nat, nat), LendingError> {
    let avail = available(asset);
    let max_borrow_shares = spec_amount_to_shares(asset.borrowed.shares as nat, asset.borrowed.balance as nat, avail as nat, false);
    if !asset.config.can_borrow {
        Err(LendingError::NotBorrowable)
    } else {
        match shares_and_amount(asset.borrowed, max_borrow_shares, asset_amount, false) {
            Err(e) => Err(e),
            Ok((b, a)) => if a > avail {
                Err(LendingError::ExceedsAvailable)
            } else if !reliable_liquidator && asset.config.borrowed_limit is Some
                && !(asset.spec_total_borrowed() + a <= asset.config.borrowed_limit.unwrap()) {
                Err(LendingError::BorrowLimit)
            } else {
                let s = spec_amount_to_shares(asset.supplied.shares as nat, asset.supplied.balance as nat, a, false);
                Ok((Asset { borrowed: pool_plus(asset.borrowed, b, a), supplied: pool_plus(asset.supplied, s, a), ..asset }, b, s, a))
            },
        }
    }
}

/// A borrow stays within the asset's bounds.
pub open spec fn borrow_ok(asset: Asset, asset_amount: AssetAmount) -> bool {
    let avail = available(asset);
    let max_borrow_shares = spec_amount_to_shares(asset.borrowed.shares as nat, asset.borrowed.balance as nat, avail as nat, false);
    &&& available_ok(asset)
    &&& max_borrow_shares <= u128::MAX
    &&& amount_ok(asset.borrowed, asset_amount, false)
    &&& shares_and_amount(asset.borrowed, max_borrow_shares, asset_amount, false) matches Ok((b, a)) ==> {
        let s = spec_amount_to_shares(asset.supplied.shares as nat, asset.supplied.balance as nat, a, false);
        &&& asset.spec_total_borrowed() + a <= u128::MAX
        &&& s <= u128::MAX
        &&& asset.borrowed.shares + b <= u128::MAX
        &&& asset.borrowed.balance + a <= u128::MAX
        &&& asset.supplied.shares + s <= u128::MAX
        &&& asset.supplied.balance + a <= u128::MAX
    }
}

/// Borrows `asset_amount` from the asset (see `spec_borrow`); returns the
/// debt shares and supply shares the account gets, and the amount. The
/// asset is unchanged when refused.
pub fn borrow_from_asset(asset: &mut Asset, asset_amount: &AssetAmount, reliable_liquidator: bool)
    -> (r: Result<(Shares, Shares, Balance), LendingError>)
    requires
        borrow_ok(*old(asset), *asset_amount),
    ensures
        match spec_borrow(*old(asset), *asset_amount, reliable_liquidator) {
            Ok((a, b, s, amount)) => r == Ok::<(Shares, Shares, Balance), LendingError>((b as u128, s as u128, amount as u128))
                && *final(asset) == a,
            Err(e) => r == Err::<(Shares, Shares, Balance), LendingError>(e) && *final(asset) == *old(asset),
        },
{
    if !asset.config.can_borrow {
        return Err(LendingError::NotBorrowable);
    }
    let available_amount = asset.available_amount();
    let max_borrow_shares = asset.borrowed.amount_to_shares(available_amount, false);
    let (borrowed_shares, amount) = match to_shares(&asset.borrowed, max_borrow_shares, asset_amount, false) {
        Ok(x) => x,
        Err(e) => { return Err(e); },
    };
    if amount > available_amount {
        return Err(LendingError::ExceedsAvailable);
    }
    if !reliable_liquidator {
        if let Some(borrowed_limit) = asset.config.borrowed_limit {
            if !(asset.borrowed.balance + asset.margin_debt.balance + asset.margin_pending_debt + amount <= borrowed_limit) {
                return Err(LendingError::BorrowLimit);
            }
        }
    }
    let supplied_shares = asset.supplied.amount_to_shares(amount, false);
    asset.borrowed.deposit(borrowed_shares, amount);
    asset.supplied.deposit(supplied_shares, amount);
    Ok((borrowed_shares, supplied_shares, amount))
}

// ----- repay -----

/// What repaying `asset_amount` of a debt of `borrowed_shares` out of the
/// account's supply (`account_shares`) does: the debt shares an amount
/// retires are rounded down (the tokens that shares cost, up); the supply
/// shares it takes, rounded up, must be held by the account,
/// else the account's whole supply repays what it is worth (rounded down),
/// which must reach an amount asked for, not be nothing, and buy back some
/// of the debt (rounded down); the debt shares repaid may not exceed the
/// debt. The tokens leave both the supply and the borrowed pool. Gives the
/// asset, the debt shares repaid, the supply shares spent and the amount.
pub open spec fn spec_repay(asset: Asset, borrowed_shares: nat, account_shares: nat, asset_amount: AssetAmount)
    -> Result<(Asset, nat, nat, nat), LendingError>
{
    match shares_and_amount(asset.borrowed, borrowed_shares, asset_amount, true) {
        Err(e) => Err(e),
        Ok((b, a)) => {
            let s = spec_amount_to_shares(asset.supplied.shares as nat, asset.supplied.balance as nat, a, true);
            if s > account_shares {
                let a2 = spec_shares_to_amount(asset.supplied.shares as nat, asset.supplied.balance as nat, account_shares, false);
                let b2 = spec_amount_to_shares(asset.borrowed.shares as nat, asset.borrowed.balance as nat, a2, false);
                if asset_amount.amount is Some && a2 < asset_amount.amount.unwrap() {
                    Err(LendingError::NotEnoughSupplied)
                } else if a2 == 0 {
                    Err(LendingError::ZeroRepayment)
                } else if b2 == 0 {
                    Err(LendingError::ZeroShares)
                } else if b2 > borrowed_shares {
                    Err(LendingError::ExceedsBorrowed)
                } else {
                    Ok((Asset { supplied: pool_minus(asset.supplied, account_shares, a2), borrowed: pool_minus(asset.borrowed, b2, a2), ..asset },
                        b2, account_shares, a2))
                }
            } else if b > borrowed_shares {
                Err(LendingError::ExceedsBorrowed)
            } else {
                Ok((Asset { supplied: pool_minus(asset.supplied, s, a), borrowed: pool_minus(asset.borrowed, b, a), ..asset }, b, s, a))
            }
        },
    }
}

/// A repayment stays within the asset's bounds.
pub open spec fn repay_ok(asset: Asset, borrowed_shares: nat, account_shares: nat, asset_amount: AssetAmount) -> bool {
    &&& amount_ok(asset.borrowed, asset_amount, true)
    &&& shares_and_amount(asset.borrowed, borrowed_shares, asset_amount, true) matches Ok((b, a)) ==> {
        let s = spec_amount_to_shares(asset.supplied.shares as nat, asset.supplied.balance as nat, a, true);
        let a2 = spec_shares_to_amount(asset.supplied.shares as nat, asset.supplied.balance as nat, account_shares, false);
        let b2 = spec_amount_to_shares(asset.borrowed.shares as nat, asset.borrowed.balance as nat, a2, false);
        &&& s <= u128::MAX
        &&& s <= account_shares ==> s <= asset.supplied.shares && a <= asset.supplied.balance
            && b <= asset.borrowed.shares && a <= asset.borrowed.balance
        &&& s > account_shares ==> {
            &&& b2 <= u128::MAX
            &&& account_shares <= asset.supplied.shares
            &&& a2 <= asset.borrowed.balance
            &&& b2 <= asset.borrowed.shares
        }
    }
}

/// The debt shares repaid, the supply shares spent and the amount when
/// `asset_amount` of a debt of `borrowed_shares` is repaid with the account's
/// supply of `account_shares` (see `spec_repay`), or why it is refused.
pub fn repay_split(asset: &Asset, borrowed_shares: Shares, account_shares: Shares, asset_amount: &AssetAmount)
    -> (r: Result<(Shares, Shares, Balance), LendingError>)
    requires
        repay_ok(*asset, borrowed_shares as nat, account_shares as nat, *asset_amount),
    ensures
        match spec_repay(*asset, borrowed_shares as nat, account_shares as nat, *asset_amount) {
            Ok((_, b, s, amount)) => r == Ok::<(Shares, Shares, Balance), LendingError>((b as u128, s as u128, amount as u128)),
            Err(e) => r == Err::<(Shares, Shares, Balance), LendingError>(e),
        },
{
    let (mut b, mut amount) = match to_shares(&asset.borrowed, borrowed_shares, asset_amount, true) {
        Ok(x) => x,
        Err(e) => { return Err(e); },
    };
    let mut s = asset.supplied.amount_to_shares(amount, true);
    if s > account_shares {
        s = account_shares;
        amount = asset.supplied.shares_to_amount(s, false);
        if let Some(min_amount) = asset_amount.amount {
            if amount < min_amount {
                return Err(LendingError::NotEnoughSupplied);
            }
        }
        if amount == 0 {
            return Err(LendingError::ZeroRepayment);
        }
        b = asset.borrowed.amount_to_shares(amount, false);
        if b == 0 {
            return Err(LendingError::ZeroShares);
        }
        if b > borrowed_shares {
            return Err(LendingError::ExceedsBorrowed);
        }
        proof { crate::pool::lemma_shares_to_amount_le_balance(asset.supplied.shares as nat, asset.supplied.balance as nat,
            account_shares as nat, false); }
    } else if b > borrowed_shares {
        return Err(LendingError::ExceedsBorrowed);
    }
    Ok((b, s, amount))
}


/// Repays `asset_amount` of a debt of `borrowed_shares` with the account's
/// supply of `account_shares` (see `spec_repay`); returns the debt shares
/// repaid, the supply shares spent and the amount. The asset is unchanged
/// when refused.
pub fn repay_to_asset(asset: &mut Asset, borrowed_shares: Shares, account_shares: Shares, asset_amount: &AssetAmount)
    -> (r: Result<(Shares, Shares, Balance), LendingError>)
    requires
        repay_ok(*old(asset), borrowed_shares as nat, account_shares as nat, *asset_amount),
    ensures
        match spec_repay(*old(asset), borrowed_shares as nat, account_shares as nat, *asset_amount) {
            Ok((a, b, s, amount)) => r == Ok::<(Shares, Shares, Balance), LendingError>((b as u128, s as u128, amount as u128))
                && *final(asset) == a,
            Err(e) => r == Err::<(Shares, Shares, Balance), LendingError>(e) && *final(asset) == *old(asset),
        },
{
    let (b, s, amount) = match repay_split(asset, borrowed_shares, account_shares, asset_amount) {
        Ok(x) => x,
        Err(e) => { return Err(e); },
    };
    proof {
        crate::pool::lemma_shares_to_amount_le_balance(asset.supplied.shares as nat, asset.supplied.balance as nat,
            account_shares as nat, false);
    }
    asset.supplied.withdraw(s, amount);
    asset.borrowed.withdraw(b, amount);
    Ok((b, s, amount))
}

/// The asset lends no more than it holds: what is borrowed, owed as margin
/// debt or pending does not exceed its supply, reserve and protocol fees.
pub open spec fn solvent(asset: Asset) -> bool {
    asset.spec_total_borrowed() <= asset.spec_total_supplied()
}

/// A withdrawal keeps the asset solvent: it takes no more than is available.
pub proof fn lemma_withdraw_keeps_solvency(asset: Asset, account_shares: nat, asset_amount: AssetAmount)
    requires
        solvent(asset),
        withdraw_ok(asset, account_shares, asset_amount),
    ensures
        spec_withdraw(asset, account_shares, asset_amount) matches Ok((a, s, amount, ft))
            ==> solvent(a) && available(a) == available(asset) - amount
                && asset.supplied.balance - a.supplied.balance == amount && s <= account_shares,
{
}

/// A borrow keeps the asset solvent: the borrowed tokens join the supply of
/// the borrower, so the debt and the supply grow by the same amount and what
/// is available does not change.
pub proof fn lemma_borrow_keeps_solvency(asset: Asset, asset_amount: AssetAmount, reliable_liquidator: bool)
    requires
        solvent(asset),
        borrow_ok(asset, asset_amount),
    ensures
        spec_borrow(asset, asset_amount, reliable_liquidator) matches Ok((a, b, s, amount))
            ==> solvent(a) && available(a) == available(asset)
                && a.borrowed.balance - asset.borrowed.balance == amount
                && a.supplied.balance - asset.supplied.balance == amount,
{
}

/// A repayment keeps the asset solvent: the supply pays the debt, both
/// shrink by the same amount, and the account gives up no more supply or
/// debt shares than it holds.
pub proof fn lemma_repay_keeps_solvency(asset: Asset, borrowed_shares: nat, account_shares: nat, asset_amount: AssetAmount)
    requires
        solvent(asset),
        repay_ok(asset, borrowed_shares, account_shares, asset_amount),
    ensures
        spec_repay(asset, borrowed_shares, account_shares, asset_amount) matches Ok((a, b, s, amount))
            ==> solvent(a) && available(a) == available(asset)
                && asset.borrowed.balance - a.borrowed.balance == amount
                && asset.supplied.balance - a.supplied.balance == amount
                && s <= account_shares && b <= borrowed_shares,
{
    if spec_repay(asset, borrowed_shares, account_shares, asset_amount) is Ok {
        lemma_asset_amount_within_available(asset.borrowed, borrowed_shares, asset_amount, true);
        crate::pool::lemma_shares_to_amount_le_balance(asset.supplied.shares as nat, asset.supplied.balance as nat,
            account_shares, false);
    }
}

/// A deposit adds to what is available.
pub proof fn lemma_deposit_keeps_solvency(asset: Asset, amount: nat, shares: nat)
    requires
        solvent(asset),
        asset.supplied.balance + amount <= u128::MAX,
        asset.supplied.shares + shares <= u128::MAX,
    ensures
        solvent(Asset { supplied: pool_plus(asset.supplied, shares, amount), ..asset }),
        available(Asset { supplied: pool_plus(asset.supplied, shares, amount), ..asset }) == available(asset) + amount,
{
}

/// The shares an amount comes to without an amount given are at most those available.
proof fn lemma_asset_amount_within_available(pool: Pool, available_shares: nat, asset_amount: AssetAmount, inverse_round_direction: bool)
    ensures
        asset_amount.amount is None ==> spec_asset_amount_to_shares(pool, available_shares, asset_amount, inverse_round_direction).0 <= available_shares,
{
}

} // verus!
