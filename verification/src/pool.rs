//! A pool of tokens owned by shareholders.

use vstd::prelude::*;
use crate::utils::{Balance, Shares, u128_ratio};
use crate::wide::{p512, wide_from_u128, wide_to_u128, wide_add, wide_mul, wide_div, wide_lt};

verus! {

/// Tokens held in common, divided into shares.
#[derive(Clone, Copy)]
pub struct Pool {
    /// The number of shares.
    pub shares: Shares,
    /// The number of tokens that the shares stand for together.
    pub balance: Balance,
}

/// Shares that `amount` tokens buy in a pool of `shares` shares and `balance`
/// tokens: proportional, rounded up or down; one for one in an empty pool.
pub open spec fn spec_amount_to_shares(shares: nat, balance: nat, amount: nat, round_up: bool) -> nat {
    if balance > 0 {
        (shares * amount + if round_up { (balance - 1) as nat } else { 0 }) / balance
    } else {
        amount
    }
}

/// Tokens that `s` shares stand for in a pool of `shares` shares and `balance`
/// tokens: proportional, rounded up or down; all of the balance when `s` is
/// not less than the pool's shares.
pub open spec fn spec_shares_to_amount(shares: nat, balance: nat, s: nat, round_up: bool) -> nat {
    if s >= shares {
        balance
    } else {
        (balance * s + if round_up { (shares - 1) as nat } else { 0 }) / shares
    }
}

/// `a * b / d` rounded up, for `d > 0`.
pub open spec fn spec_round_up_ratio(a: nat, b: nat, d: nat) -> nat {
    (a * b + (d - 1) as nat) / d
}

impl Pool {
    /// The empty pool.
    pub open spec fn new_spec() -> Pool {
        Pool { shares: 0, balance: 0 }
    }

    /// An empty pool.
    pub fn new() -> (r: Pool)
        ensures
            r == Pool::new_spec(),
    {
        Pool { shares: 0, balance: 0 }
    }

    /// The shares that `amount` tokens are worth, rounded up or down.
    pub fn amount_to_shares(&self, amount: Balance, round_up: bool) -> (r: Shares)
        requires
            spec_amount_to_shares(self.shares as nat, self.balance as nat, amount as nat, round_up) <= u128::MAX,
        ensures
            r as nat == spec_amount_to_shares(self.shares as nat, self.balance as nat, amount as nat, round_up),
    {
        if self.balance > 0 {
            if round_up {
                self.div_round_up(self.shares, amount)
            } else {
                u128_ratio(self.shares, amount, self.balance)
            }
        } else {
            amount
        }
    }

    /// The shares that `amount` tokens are worth (see `amount_to_shares`),
    /// where they fit in a `u128`; `None` where they do not.
    pub fn try_amount_to_shares(&self, amount: Balance, round_up: bool) -> (r: Option<Shares>)
        ensures
            r is Some <==> spec_amount_to_shares(self.shares as nat, self.balance as nat, amount as nat, round_up) <= u128::MAX,
            r matches Some(s) ==> s as nat == spec_amount_to_shares(self.shares as nat, self.balance as nat, amount as nat, round_up),
    {
        if self.balance > 0 {
            let wa = wide_from_u128(self.shares);
            let wb = wide_from_u128(amount);
            assert((self.shares as nat) * (amount as nat) <= (u128::MAX as nat) * (u128::MAX as nat)) by (nonlinear_arith)
                requires self.shares as nat <= u128::MAX, amount as nat <= u128::MAX;
            let extra: u128 = if round_up { self.balance - 1 } else { 0 };
            assert((self.shares as nat) * (amount as nat) + (extra as nat) < p512());
            let s = wide_add(wide_mul(wa, wb), wide_from_u128(extra));
            let q = wide_div(s, wide_from_u128(self.balance));
            if wide_lt(wide_from_u128(u128::MAX), q) {
                None
            } else {
                Some(wide_to_u128(q))
            }
        } else {
            Some(amount)
        }
    }

    /// `(a * b + balance - 1) / balance`, for a pool with a balance.
    fn div_round_up(&self, a: u128, b: u128) -> (r: u128)
        requires
            self.balance > 0,
            spec_round_up_ratio(a as nat, b as nat, self.balance as nat) <= u128::MAX,
        ensures
            r as nat == spec_round_up_ratio(a as nat, b as nat, self.balance as nat),
    {
        round_up_ratio(a, b, self.balance)
    }

    /// The tokens that `shares` shares are worth, rounded up or down.
    pub fn shares_to_amount(&self, shares: Shares, round_up: bool) -> (r: Balance)
        ensures
            r as nat == spec_shares_to_amount(self.shares as nat, self.balance as nat, shares as nat, round_up),
            r <= self.balance,
    {
        if shares >= self.shares {
            self.balance
        } else {
            proof { lemma_part_le(self.balance as nat, shares as nat, self.shares as nat, round_up); }
            if round_up {
                round_up_ratio(self.balance, shares, self.shares)
            } else {
                u128_ratio(self.balance, shares, self.shares)
            }
        }
    }

    /// Adds shares and the tokens they bring.
    pub fn deposit(&mut self, shares: Shares, amount: Balance)
        requires
            old(self).shares + shares <= u128::MAX,
            old(self).balance + amount <= u128::MAX,
        ensures
            final(self).shares == old(self).shares + shares,
            final(self).balance == old(self).balance + amount,
    {
        self.shares = self.shares + shares;
        self.balance = self.balance + amount;
    }

    /// Takes out shares and the tokens they take with them.
    pub fn withdraw(&mut self, shares: Shares, amount: Balance)
        requires
            shares <= old(self).shares,
            amount <= old(self).balance,
        ensures
            final(self).shares == old(self).shares - shares,
            final(self).balance == old(self).balance - amount,
    {
        self.shares = self.shares - shares;
        self.balance = self.balance - amount;
    }
}

proof fn lemma_part_le(balance: nat, s: nat, shares: nat, round_up: bool)
    requires
        s < shares,
    ensures
        (balance * s + if round_up { (shares - 1) as nat } else { 0 }) / shares <= balance,
{
    let extra: nat = if round_up { (shares - 1) as nat } else { 0 };
    assert((balance * s + extra) / shares <= balance) by (nonlinear_arith)
        requires s < shares, extra <= shares - 1;
}

/// `(a * b + d - 1) / d`: `a * b / d` rounded up.
fn round_up_ratio(a: u128, b: u128, d: u128) -> (r: u128)
    requires
        d > 0,
        spec_round_up_ratio(a as nat, b as nat, d as nat) <= u128::MAX,
    ensures
        r as nat == spec_round_up_ratio(a as nat, b as nat, d as nat),
{
    let wa = wide_from_u128(a);
    let wb = wide_from_u128(b);
    assert((a as nat) * (b as nat) <= (u128::MAX as nat) * (u128::MAX as nat)) by (nonlinear_arith)
        requires a as nat <= u128::MAX, b as nat <= u128::MAX;
    assert((a as nat) * (b as nat) + ((d - 1) as nat) < p512());
    let s = wide_add(wide_mul(wa, wb), wide_from_u128(d - 1));
    let q = wide_div(s, wide_from_u128(d));
    wide_to_u128(q)
}

} // verus!

verus! {

/// Rounding always favours the pool: shares bought for an amount, rounded
/// down, are worth no more than the amount, and rounded up no less; tokens
/// paid out for shares, rounded down, are worth no more than the shares, and
/// rounded up no less.
pub proof fn lemma_rounding_favours_pool(shares: nat, balance: nat, amount: nat, s: nat)
    requires
        balance > 0,
        s < shares,
    ensures
        spec_amount_to_shares(shares, balance, amount, false) * balance <= shares * amount,
        spec_amount_to_shares(shares, balance, amount, true) * balance >= shares * amount,
        spec_shares_to_amount(shares, balance, s, false) * shares <= balance * s,
        spec_shares_to_amount(shares, balance, s, true) * shares >= balance * s,
{
    let a = shares * amount;
    assert(((a + 0) / balance) * balance <= a) by (nonlinear_arith) requires balance > 0, a >= 0;
    assert(((a + (balance - 1) as nat) / balance) * balance >= a) by (nonlinear_arith) requires balance > 0, a >= 0;
    let b = balance * s;
    assert(((b + 0) / shares) * shares <= b) by (nonlinear_arith) requires shares > 0, b >= 0;
    assert(((b + (shares - 1) as nat) / shares) * shares >= b) by (nonlinear_arith) requires shares > 0, b >= 0;
}

/// Supplying creates no value: the shares that `amount` buys (rounded down)
/// are worth, once added to the pool, at most `amount` when withdrawn again
/// (rounded down). A pool holding tokens but no shares is left out: there the
/// first shares take the whole balance.
pub proof fn lemma_deposit_withdraw_no_gain(shares: nat, balance: nat, amount: nat)
    requires
        shares > 0 || balance == 0,
    ensures
        spec_shares_to_amount(
            shares + spec_amount_to_shares(shares, balance, amount, false),
            balance + amount,
            spec_amount_to_shares(shares, balance, amount, false),
            false,
        ) <= amount,
{
    let s = spec_amount_to_shares(shares, balance, amount, false);
    if balance > 0 {
        assert(s * balance <= shares * amount) by (nonlinear_arith)
            requires balance > 0, s == (shares * amount + 0) / balance;
        if s < shares + s {
            assert((balance + amount) * s <= amount * (shares + s)) by (nonlinear_arith)
                requires s * balance <= shares * amount;
            assert(((balance + amount) * s + 0) / (shares + s) <= amount) by (nonlinear_arith)
                requires (balance + amount) * s <= amount * (shares + s), shares + s > 0;
        }
    } else {
        if s < shares + s {
            assert(s == amount);
            assert((amount * s + 0) / (shares + s) <= amount) by (nonlinear_arith)
                requires s == amount, shares + s > 0, shares >= 0;
        }
    }
}

/// Shares are never worth more than the whole balance.
pub proof fn lemma_shares_to_amount_le_balance(shares: nat, balance: nat, s: nat, round_up: bool)
    ensures
        spec_shares_to_amount(shares, balance, s, round_up) <= balance,
{
    if s < shares {
        lemma_part_le(balance, s, shares, round_up);
    }
}

} // verus!
