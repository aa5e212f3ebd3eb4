//! The health of a lending position: its collateral and debt valued at
//! prices and weighted by volatility, the discount at which it may be
//! liquidated, and the checks of a liquidation.

use vstd::prelude::*;
use crate::big_decimal::{BigDecimal, big, half, div_raw, mul_raw, mul_fits, value_raw};
use crate::asset::Asset;
use crate::margin_health::{price_ok, price_usable};
use crate::pool::{Pool, spec_shares_to_amount};
use crate::prices::Price;
use crate::utils::{MAX_RATIO, Shares};
use crate::wide::{p128, p384};

verus! {

/// Shares of one token in a position, with what values them: the pool they
/// are shares of, the token's extra decimals, volatility ratio (basis
/// points) and price.
#[derive(Clone, Copy)]
pub struct ValuedShares {
    pub pool: Pool,
    pub extra_decimals: u8,
    pub volatility_ratio: u32,
    pub price: Price,
    pub shares: Shares,
}

/// The raw value of the tokens the shares stand for (rounded up for debt).
pub open spec fn shares_value(v: ValuedShares, round_up: bool) -> nat {
    value_raw(spec_shares_to_amount(v.pool.shares as nat, v.pool.balance as nat, v.shares as nat, round_up), v.price, v.extra_decimals)
}

/// Collateral counts for its value times its volatility ratio (rounded to
/// the nearest).
pub open spec fn collateral_weight(v: ValuedShares) -> nat {
    (shares_value(v, false) * (v.volatility_ratio as nat) + 5000) / 10000
}

/// Debt counts for its value (rounded up) over its volatility ratio (rounded
/// to the nearest).
pub open spec fn debt_weight(v: ValuedShares) -> nat {
    (shares_value(v, true) * 10000 + ((v.volatility_ratio / 2) as nat)) / (v.volatility_ratio as nat)
}

/// The weighted value of collateral.
pub open spec fn collateral_sum(items: Seq<ValuedShares>) -> nat
    decreases items.len(),
{
    if items.len() == 0 { 0 } else { collateral_sum(items.drop_last()) + collateral_weight(items.last()) }
}

/// The weighted value of debt.
pub open spec fn debt_sum(items: Seq<ValuedShares>) -> nat
    decreases items.len(),
{
    if items.len() == 0 { 0 } else { debt_sum(items.drop_last()) + debt_weight(items.last()) }
}

/// Every item can be valued: its price is usable and its volatility ratio
/// is a ratio that is not zero.
pub open spec fn items_ok(items: Seq<ValuedShares>) -> bool {
    forall|i: int| 0 <= i < items.len() ==> {
        &&& price_ok(#[trigger] items[i].price, items[i].extra_decimals)
        &&& 0 < items[i].volatility_ratio <= MAX_RATIO
    }
}

/// The weighted collateral of every prefix stays below `2^370`, far within 384 bits.
pub open spec fn collateral_sums_fit(items: Seq<ValuedShares>) -> bool {
    forall|n: int| 0 <= n <= items.len() ==> #[trigger] collateral_sum(items.take(n)) < p370()
}

/// The weighted debt of every prefix stays below `2^370`.
pub open spec fn debt_sums_fit(items: Seq<ValuedShares>) -> bool {
    forall|n: int| 0 <= n <= items.len() ==> #[trigger] debt_sum(items.take(n)) < p370()
}

/// `2^370`
pub open spec fn p370() -> nat {
    0x4_0000_0000_0000_0000_0000_0000_0000_0000_0000_0000_0000_0000_0000_0000_0000_0000_0000_0000_0000_0000_0000_0000_0000nat
}

proof fn lemma_p370()
    ensures
        p370() * 2 < p384(),
        p128() * p128() * big() * 10000 + 10000 < p370(),
{
    assert(p384() == p128() * p128() * p128());
    assert(p128() == 0x1_0000_0000_0000_0000_0000_0000_0000_0000nat);
    assert(big() == 1_000_000_000_000_000_000_000_000_000nat);
}

/// The value of the tokens that one item's shares stand for.
fn item_value(v: &ValuedShares, round_up: bool) -> (r: BigDecimal)
    requires
        price_ok(v.price, v.extra_decimals),
    ensures
        r@ == shares_value(*v, round_up),
        r@ < p128() * p128() * big(),
        r.wf(),
{
    let balance = v.pool.shares_to_amount(v.shares, round_up);
    let r = BigDecimal::from_balance_price(balance, &v.price, v.extra_decimals);
    r
}

/// The weighted value of the collateral items.
pub fn get_collateral_sum_with_volatility_ratio(items: &Vec<ValuedShares>) -> (r: BigDecimal)
    requires
        items_ok(items@),
        collateral_sums_fit(items@),
    ensures
        r@ == collateral_sum(items@),
        r.wf(),
{
    let mut sum = BigDecimal::zero();
    let mut i: usize = 0;
    proof { lemma_p370(); }
    while i < items.len()
        invariant
            i <= items@.len(),
            items_ok(items@),
            collateral_sums_fit(items@),
            sum@ == collateral_sum(items@.take(i as int)),
            sum.wf(),
            p370() * 2 < p384(),
            p128() * p128() * big() * 10000 + 10000 < p370(),
        decreases items@.len() - i,
    {
        let item = &items[i];
        assert(price_ok(items@[i as int].price, items@[i as int].extra_decimals));
        let v = item_value(item, false);
        assert(v@ * (item.volatility_ratio as nat) + 5000 < p384()) by (nonlinear_arith)
            requires v@ < p128() * p128() * big(), item.volatility_ratio <= 10000,
                p128() * p128() * big() * 10000 + 10000 < p370(), p370() * 2 < p384();
        let w = v.mul_ratio(item.volatility_ratio);
        let ghost t = items@.take(i as int + 1);
        assert(t.drop_last() =~= items@.take(i as int));
        assert(t.last() == items@[i as int]);
        assert(collateral_sum(t) < p370());
        sum = sum.add(w);
        i = i + 1;
    }
    assert(items@.take(items@.len() as int) =~= items@);
    sum
}

/// The weighted value of the debt items.
pub fn get_borrowed_sum_with_volatility_ratio(items: &Vec<ValuedShares>) -> (r: BigDecimal)
    requires
        items_ok(items@),
        debt_sums_fit(items@),
    ensures
        r@ == debt_sum(items@),
        r.wf(),
{
    let mut sum = BigDecimal::zero();
    let mut i: usize = 0;
    proof { lemma_p370(); }
    while i < items.len()
        invariant
            i <= items@.len(),
            items_ok(items@),
            debt_sums_fit(items@),
            sum@ == debt_sum(items@.take(i as int)),
            sum.wf(),
            p370() * 2 < p384(),
            p128() * p128() * big() * 10000 + 10000 < p370(),
        decreases items@.len() - i,
    {
        let item = &items[i];
        assert(price_ok(items@[i as int].price, items@[i as int].extra_decimals));
        assert(0 < items@[i as int].volatility_ratio <= MAX_RATIO);
        let v = item_value(item, true);
        assert(v@ * 10000 + ((item.volatility_ratio / 2) as nat) < p384()) by (nonlinear_arith)
            requires v@ < p128() * p128() * big(), item.volatility_ratio <= 10000,
                p128() * p128() * big() * 10000 + 10000 < p370(), p370() * 2 < p384();
        let w = v.div_ratio(item.volatility_ratio);
        let ghost t = items@.take(i as int + 1);
        assert(t.drop_last() =~= items@.take(i as int));
        assert(t.last() == items@[i as int]);
        assert(debt_sum(t) < p370());
        sum = sum.add(w);
        i = i + 1;
    }
    assert(items@.take(items@.len() as int) =~= items@);
    sum
}

proof fn lemma_sum_prefix_bound(items: Seq<ValuedShares>, i: int, debt: bool)
    requires
        0 <= i < items.len(),
        !debt ==> collateral_sum(items.take(i + 1)) >= p370(),
        debt ==> debt_sum(items.take(i + 1)) >= p370(),
    ensures
        !debt ==> !collateral_sums_fit(items),
        debt ==> !debt_sums_fit(items),
{
}

/// The weighted value of the collateral items (see
/// `get_collateral_sum_with_volatility_ratio`), where every item can be
/// valued and the sums stay below `2^370`; `None` otherwise.
pub fn try_collateral_sum(items: &Vec<ValuedShares>) -> (r: Option<BigDecimal>)
    ensures
        r is Some <==> items_ok(items@) && collateral_sums_fit(items@),
        r matches Some(c) ==> c@ == collateral_sum(items@) && c.wf(),
{
    let mut sum = BigDecimal::zero();
    let mut i: usize = 0;
    proof { lemma_p370(); }
    assert(items@.take(0) =~= Seq::<ValuedShares>::empty());
    while i < items.len()
        invariant
            i <= items@.len(),
            forall|j: int| 0 <= j < i ==> price_ok(#[trigger] items@[j].price, items@[j].extra_decimals)
                && 0 < items@[j].volatility_ratio <= MAX_RATIO,
            forall|n: int| 0 <= n <= i ==> #[trigger] collateral_sum(items@.take(n)) < p370(),
            sum@ == collateral_sum(items@.take(i as int)),
            sum.wf(),
            p370() * 2 < p384(),
            p128() * p128() * big() * 10000 + 10000 < p370(),
        decreases items@.len() - i,
    {
        let item = &items[i];
        if !(price_usable(&item.price, item.extra_decimals) && 0 < item.volatility_ratio && item.volatility_ratio <= MAX_RATIO) {
            return None;
        }
        assert(price_ok(items@[i as int].price, items@[i as int].extra_decimals)
            && 0 < items@[i as int].volatility_ratio <= MAX_RATIO);
        let v = item_value(item, false);
        assert(v@ * (item.volatility_ratio as nat) + 5000 < p384()) by (nonlinear_arith)
            requires v@ < p128() * p128() * big(), item.volatility_ratio <= 10000,
                p128() * p128() * big() * 10000 + 10000 < p370(), p370() * 2 < p384();
        let w = v.mul_ratio(item.volatility_ratio);
        let ghost t = items@.take(i as int + 1);
        assert(t.drop_last() =~= items@.take(i as int));
        assert(t.last() == items@[i as int]);
        assert(w@ <= p128() * p128() * big() * 10000) by (nonlinear_arith)
            requires w@ == (v@ * (item.volatility_ratio as nat) + 5000) / 10000, v@ < p128() * p128() * big(),
                item.volatility_ratio <= 10000;
        sum = sum.add(w);
        if !sum.is_below_p370() {
            proof { lemma_sum_prefix_bound(items@, i as int, false); }
            return None;
        }
        assert forall|j: int| 0 <= j < i + 1 implies price_ok(#[trigger] items@[j].price, items@[j].extra_decimals)
            && 0 < items@[j].volatility_ratio <= MAX_RATIO by {
            if j < i {
                assert(price_ok(items@[j].price, items@[j].extra_decimals));
            }
        }
        i = i + 1;
    }
    assert(items@.take(items@.len() as int) =~= items@);
    Some(sum)
}

/// The weighted value of the debt items (see
/// `get_borrowed_sum_with_volatility_ratio`), where every item can be valued
/// and the sums stay below `2^370`; `None` otherwise.
#[verifier::spinoff_prover]
pub fn try_borrowed_sum(items: &Vec<ValuedShares>) -> (r: Option<BigDecimal>)
    ensures
        r is Some <==> items_ok(items@) && debt_sums_fit(items@),
        r matches Some(b) ==> b@ == debt_sum(items@) && b.wf(),
{
    let mut sum = BigDecimal::zero();
    let mut i: usize = 0;
    proof { lemma_p370(); }
    assert(items@.take(0) =~= Seq::<ValuedShares>::empty());
    while i < items.len()
        invariant
            i <= items@.len(),
            forall|j: int| 0 <= j < i ==> price_ok(#[trigger] items@[j].price, items@[j].extra_decimals)
                && 0 < items@[j].volatility_ratio <= MAX_RATIO,
            forall|n: int| 0 <= n <= i ==> #[trigger] debt_sum(items@.take(n)) < p370(),
            sum@ == debt_sum(items@.take(i as int)),
            sum.wf(),
            p370() * 2 < p384(),
            p128() * p128() * big() * 10000 + 10000 < p370(),
        decreases items@.len() - i,
    {
        let item = &items[i];
        if !(price_usable(&item.price, item.extra_decimals) && 0 < item.volatility_ratio && item.volatility_ratio <= MAX_RATIO) {
            return None;
        }
        assert(price_ok(items@[i as int].price, items@[i as int].extra_decimals)
            && 0 < items@[i as int].volatility_ratio <= MAX_RATIO);
        let v = item_value(item, true);
        assert(v@ * 10000 + ((item.volatility_ratio / 2) as nat) < p384()) by (nonlinear_arith)
            requires v@ < p128() * p128() * big(), item.volatility_ratio <= 10000,
                p128() * p128() * big() * 10000 + 10000 < p370(), p370() * 2 < p384();
        let w = v.div_ratio(item.volatility_ratio);
        let ghost t = items@.take(i as int + 1);
        assert(t.drop_last() =~= items@.take(i as int));
        assert(t.last() == items@[i as int]);
        assert(w@ <= p128() * p128() * big() * 10000 + 10000) by (nonlinear_arith)
            requires w@ == (v@ * 10000 + ((item.volatility_ratio / 2) as nat)) / (item.volatility_ratio as nat),
                v@ < p128() * p128() * big(), item.volatility_ratio >= 1, item.volatility_ratio <= 10000;
        sum = sum.add(w);
        if !sum.is_below_p370() {
            proof { lemma_sum_prefix_bound(items@, i as int, true); }
            return None;
        }
        assert forall|j: int| 0 <= j < i + 1 implies price_ok(#[trigger] items@[j].price, items@[j].extra_decimals)
            && 0 < items@[j].volatility_ratio <= MAX_RATIO by {
            if j < i {
                assert(price_ok(items@[j].price, items@[j].extra_decimals));
            }
        }
        i = i + 1;
    }
    assert(items@.take(items@.len() as int) =~= items@);
    Some(sum)
}

/// The discount at which a position whose weighted debt is `b` and
/// weighted collateral `c` may be liquidated: nothing while the collateral
/// covers the debt, else half the shortfall's share of the debt.
pub open spec fn spec_discount(c: nat, b: nat) -> nat {
    if b <= c { 0 } else { div_raw(div_raw((b - c) as nat, b), 2 * big()) }
}

/// The discount at which the position may be liquidated (see
/// `spec_discount`); nothing without debt.
pub fn compute_max_discount(collateral: &Vec<ValuedShares>, borrowed: &Vec<ValuedShares>) -> (r: BigDecimal)
    requires
        items_ok(collateral@),
        items_ok(borrowed@),
        collateral_sums_fit(collateral@),
        debt_sums_fit(borrowed@),
        debt_sum(borrowed@) * big() + half() < p384(),
    ensures
        borrowed@.len() == 0 ==> r@ == 0,
        borrowed@.len() > 0 ==> r@ == spec_discount(collateral_sum(collateral@), debt_sum(borrowed@)),
        r.wf(),
{
    if borrowed.len() == 0 {
        return BigDecimal::zero();
    }
    let c = get_collateral_sum_with_volatility_ratio(collateral);
    let b = get_borrowed_sum_with_volatility_ratio(borrowed);
    discount_of_sums(c, b)
}

/// The discount of a position whose weighted collateral is `c` and weighted
/// debt `b` (see `spec_discount`).
pub fn discount_of_sums(c: BigDecimal, b: BigDecimal) -> (r: BigDecimal)
    requires
        b.wf(),
        b@ * big() + half() < p384(),
    ensures
        r@ == spec_discount(c@, b@),
        r.wf(),
{
    if b.le(&c) {
        BigDecimal::zero()
    } else {
        let gap = b.sub(c);
        assert(gap@ * big() + half() < p384()) by (nonlinear_arith)
            requires gap@ <= b@, b@ * big() + half() < p384();
        let share = gap.div(b);
        proof { lemma_share_below_one(gap@, b@); }
        share.div(BigDecimal::from_u128(2))
    }
}

/// A part of a whole is less than two.
proof fn lemma_share_below_one(gap: nat, b: nat)
    requires
        0 < gap <= b,
    ensures
        div_raw(gap, b) < 2 * big(),
        div_raw(gap, b) * big() + half() < p384(),
{
    assert(gap * big() + half() < 2 * big() * b) by (nonlinear_arith)
        requires gap <= b, b >= 1, half() < big(), big() > 0;
    assert((gap * big() + half()) / b < 2 * big()) by (nonlinear_arith)
        requires gap * big() + half() < 2 * big() * b, b > 0;
    assert(2 * big() * big() + half() < p384()) by (nonlinear_arith)
        requires big() == 1_000_000_000_000_000_000_000_000_000nat, p384() == p128() * p128() * p128(),
            p128() == 0x1_0000_0000_0000_0000_0000_0000_0000_0000nat, half() < big();
    assert(div_raw(gap, b) * big() + half() < p384()) by (nonlinear_arith)
        requires div_raw(gap, b) < 2 * big(), 2 * big() * big() + half() < p384(), big() > 0;
}

/// The discount is nothing while the collateral covers the debt, only
/// something when it does not, and always less than one, so that what is
/// left of a value after it is never negative.
pub proof fn lemma_discount_below_one(c: nat, b: nat)
    ensures
        b <= c ==> spec_discount(c, b) == 0,
        spec_discount(c, b) > 0 ==> b > c,
        spec_discount(c, b) <= big(),
{
    if b > c {
        lemma_share_below_one((b - c) as nat, b);
        let share = div_raw((b - c) as nat, b);
        assert((share * big() + half()) / (2 * big()) <= big()) by (nonlinear_arith)
            requires share < 2 * big(), half() < big(), big() > 0;
    }
}

/// Why a liquidation was refused.
#[derive(Clone, Copy, PartialEq, Eq, Debug)]
pub enum LiquidationError {
    /// The account is not at risk.
    NotAtRisk,
    /// The debt repaid is worth less than the collateral taken at its discount.
    NotEnoughRepaid,
    /// The account would no longer be at risk: too much was liquidated.
    TooLarge,
    /// The account's health would not improve.
    HealthNotImproved,
    /// The reserve can not cover a debt.
    NotEnoughReserve,
}

/// Why a liquidation of an account at discount `max_discount`, taking
/// collateral worth `collateral_taken` for debt worth `borrowed_repaid` and
/// leaving the account at discount `new_max_discount`, is refused, if it is:
/// the account must be at risk, the collateral at its discount must not be
/// worth more than the debt repaid, and the account must stay at risk with
/// a smaller discount.
pub open spec fn spec_liquidation_refusal(max_discount: nat, collateral_taken: nat, borrowed_repaid: nat, new_max_discount: nat)
    -> Option<LiquidationError>
{
    if !(max_discount > 0) {
        Some(LiquidationError::NotAtRisk)
    } else if mul_raw(collateral_taken, (big() - max_discount) as nat) > borrowed_repaid {
        Some(LiquidationError::NotEnoughRepaid)
    } else if !(new_max_discount > 0) {
        Some(LiquidationError::TooLarge)
    } else if !(new_max_discount < max_discount) {
        Some(LiquidationError::HealthNotImproved)
    } else {
        None
    }
}

/// Checks a liquidation (see `spec_liquidation_refusal`).
pub fn check_liquidation(max_discount: &BigDecimal, collateral_taken_sum: &BigDecimal, borrowed_repaid_sum: &BigDecimal,
    new_max_discount: &BigDecimal) -> (r: Result<(), LiquidationError>)
    requires
        max_discount@ <= big(),
        max_discount@ > 0 ==> mul_fits(collateral_taken_sum@, (big() - max_discount@) as nat),
    ensures
        match spec_liquidation_refusal(max_discount@, collateral_taken_sum@, borrowed_repaid_sum@, new_max_discount@) {
            None => r is Ok,
            Some(e) => r == Err::<(), LiquidationError>(e),
        },
{
    let zero = BigDecimal::zero();
    if !zero.lt(max_discount) {
        return Err(LiquidationError::NotAtRisk);
    }
    let keep = BigDecimal::one().sub(*max_discount);
    let discounted_collateral_taken = collateral_taken_sum.mul(keep);
    if borrowed_repaid_sum.lt(&discounted_collateral_taken) {
        return Err(LiquidationError::NotEnoughRepaid);
    }
    if !zero.lt(new_max_discount) {
        return Err(LiquidationError::TooLarge);
    }
    if !new_max_discount.lt(max_discount) {
        return Err(LiquidationError::HealthNotImproved);
    }
    Ok(())
}

// ----- closing by force -----

/// The asset once `shares` of collateral closed by force go to its reserve:
/// the tokens they stand for (rounded down) leave the supply for the reserve.
pub open spec fn collateral_to_reserve(asset: Asset, shares: nat) -> (Asset, nat) {
    let amount = spec_shares_to_amount(asset.supplied.shares as nat, asset.supplied.balance as nat, shares, false);
    (Asset {
        reserved: (asset.reserved + amount) as u128,
        supplied: Pool { shares: (asset.supplied.shares - shares) as u128, balance: (asset.supplied.balance - amount) as u128 },
        ..asset
    }, amount)
}

/// Moves `shares` of collateral closed by force into the reserve (see
/// `collateral_to_reserve`); returns the amount.
pub fn force_close_collateral(asset: &mut Asset, shares: Shares) -> (amount: u128)
    requires
        shares <= old(asset).supplied.shares,
        old(asset).reserved + spec_shares_to_amount(old(asset).supplied.shares as nat, old(asset).supplied.balance as nat,
            shares as nat, false) <= u128::MAX,
    ensures
        (*final(asset), amount as nat) == collateral_to_reserve(*old(asset), shares as nat),
{
    let amount = asset.supplied.shares_to_amount(shares, false);
    asset.reserved = asset.reserved + amount;
    asset.supplied.withdraw(shares, amount);
    amount
}

/// The asset once `shares` of debt closed by force are paid by its reserve:
/// the tokens they stand for (rounded up) leave the reserve and the debt;
/// refused when the reserve does not hold them.
pub open spec fn debt_from_reserve(asset: Asset, shares: nat) -> Result<(Asset, nat), LiquidationError> {
    let amount = spec_shares_to_amount(asset.borrowed.shares as nat, asset.borrowed.balance as nat, shares, true);
    if asset.reserved >= amount {
        Ok((Asset {
            reserved: (asset.reserved - amount) as u128,
            borrowed: Pool { shares: (asset.borrowed.shares - shares) as u128, balance: (asset.borrowed.balance - amount) as u128 },
            ..asset
        }, amount))
    } else {
        Err(LiquidationError::NotEnoughReserve)
    }
}

/// Pays `shares` of debt closed by force from the reserve (see
/// `debt_from_reserve`); returns the amount. The asset is unchanged when
/// refused.
pub fn force_close_debt(asset: &mut Asset, shares: Shares) -> (r: Result<u128, LiquidationError>)
    requires
        shares <= old(asset).borrowed.shares,
    ensures
        match debt_from_reserve(*old(asset), shares as nat) {
            Ok((a, amount)) => r == Ok::<u128, LiquidationError>(amount as u128) && *final(asset) == a,
            Err(e) => r == Err::<u128, LiquidationError>(e) && *final(asset) == *old(asset),
        },
{
    let amount = asset.borrowed.shares_to_amount(shares, true);
    if asset.reserved < amount {
        return Err(LiquidationError::NotEnoughReserve);
    }
    asset.reserved = asset.reserved - amount;
    asset.borrowed.withdraw(shares, amount);
    Ok(amount)
}

/// Closing by force moves value, it creates none: collateral only moves
/// from the supply to the reserve, and debt is paid out of the reserve, the
/// reserve and the debt shrinking together.
pub proof fn lemma_force_close_moves_value(asset: Asset, collateral_shares: nat, debt_shares: nat)
    requires
        collateral_shares <= asset.supplied.shares,
        asset.reserved + spec_shares_to_amount(asset.supplied.shares as nat, asset.supplied.balance as nat,
            collateral_shares, false) <= u128::MAX,
        debt_shares <= asset.borrowed.shares,
    ensures
        ({
            let (a, amount) = collateral_to_reserve(asset, collateral_shares);
            a.supplied.balance + a.reserved == asset.supplied.balance + asset.reserved
                && a.borrowed == asset.borrowed
        }),
        debt_from_reserve(asset, debt_shares) matches Ok((a, amount)) ==> {
            &&& asset.reserved - a.reserved == amount
            &&& asset.borrowed.balance - a.borrowed.balance == amount
            &&& a.supplied == asset.supplied
        },
{
    crate::pool::lemma_shares_to_amount_le_balance(asset.supplied.shares as nat, asset.supplied.balance as nat, collateral_shares, false);
    crate::pool::lemma_shares_to_amount_le_balance(asset.borrowed.shares as nat, asset.borrowed.balance as nat, debt_shares, true);
}

} // verus!
