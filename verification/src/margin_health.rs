//! The health of margin positions: their value in collateral and position
//! tokens against their debt and holding-position fee, and the checks that
//! decide whether a position may open, must be liquidated or closed by force.

use vstd::prelude::*;
use crate::asset::Asset;
use crate::big_decimal::{BigDecimal, big, half, div_raw, pow10, price_decimals, value_raw, balance_in_price_raw,
    balance_in_price_ok};
use crate::margin_position::MarginTradingPosition;
use crate::pool::{Pool, spec_amount_to_shares, spec_shares_to_amount};
use crate::margin_trading::{DecreaseOperation, debt_amount, holding_fee};
use crate::prices::Price;
use crate::utils::{Balance, MAX_RATIO, UNIT, u128_ratio};
use crate::wide::{p128, p384};

verus! {

/// A value can be taken at `price` for a token with `extra_decimals`: the
/// decimals add up within a `u8` and their power of ten fits in 384 bits.
pub open spec fn price_ok(price: Price, extra_decimals: u8) -> bool {
    &&& price.decimals + extra_decimals <= 255
    &&& price_decimals(price, extra_decimals) > 27 ==> pow10((price_decimals(price, extra_decimals) - 27) as nat) < p384()
}

/// Whether values at `price` of a token with `extra_decimals` can be
/// computed (see `price_ok`).
pub fn price_usable(price: &Price, extra_decimals: u8) -> (r: bool)
    ensures
        r == price_ok(*price, extra_decimals),
{
    let d: u16 = price.decimals as u16 + extra_decimals as u16;
    if d > 255 {
        return false;
    }
    if d <= 27 {
        return true;
    }
    proof { crate::big_decimal::lemma_pow10_below_p384((d - 27) as nat); }
    d - 27 <= 115
}

/// A position worth `cap` against `debt` is liquidatable at the safety
/// buffer `safety_buffer_rate` (basis points): it still covers its debt, but
/// no longer once the buffer (rounded to the nearest) is taken off its worth.
pub open spec fn spec_liquidatable(cap: nat, debt: nat, safety_buffer_rate: nat) -> bool {
    cap >= debt && cap - (cap * safety_buffer_rate + 5000) / 10000 < debt
}

/// Taking the buffer off a worth that covers the debt does not go below zero.
pub open spec fn buffer_ok(cap: nat, debt: nat, safety_buffer_rate: nat) -> bool {
    cap >= debt ==> (cap * safety_buffer_rate + 5000) / 10000 <= cap
}

/// Sums of two values, and their parts by a ratio, fit in 384 bits.
proof fn lemma_sum_bound(a: nat, b: nat)
    requires
        a < p128() * p128() * big(),
        b < p128() * p128() * big(),
    ensures
        a + b < p384(),
        (a + b) * 10000 + 5000 < p384(),
{
    assert(big() < 0x1_0000_0000_0000_0000_0000_0000nat);
    assert(p128() * p128() * big() * 2 * 10001 < p384()) by (nonlinear_arith)
        requires big() < 0x1_0000_0000_0000_0000_0000_0000nat, p128() == 0x1_0000_0000_0000_0000_0000_0000_0000_0000nat,
            p384() == p128() * p128() * p128();
    assert((a + b) * 10000 + 5000 < p384()) by (nonlinear_arith)
        requires a + b < p128() * p128() * big() * 2, p128() * p128() * big() * 2 * 10001 < p384();
}

/// Whether the position of `token_c_amount` collateral and `token_p_amount`
/// position tokens against `token_d_amount` of debt, at these prices, would
/// be liquidatable at `safety_buffer_rate`.
pub fn is_open_position_liquidatable(
    token_c_amount: Balance,
    token_c_price: &Price,
    token_c_extra_decimals: u8,
    token_d_amount: Balance,
    token_d_price: &Price,
    token_d_extra_decimals: u8,
    token_p_amount: Balance,
    token_p_price: &Price,
    token_p_extra_decimals: u8,
    safety_buffer_rate: u32,
) -> (r: bool)
    requires
        price_ok(*token_c_price, token_c_extra_decimals),
        price_ok(*token_d_price, token_d_extra_decimals),
        price_ok(*token_p_price, token_p_extra_decimals),
        buffer_ok(
            value_raw(token_c_amount as nat, *token_c_price, token_c_extra_decimals)
                + value_raw(token_p_amount as nat, *token_p_price, token_p_extra_decimals),
            value_raw(token_d_amount as nat, *token_d_price, token_d_extra_decimals),
            safety_buffer_rate as nat,
        ),
    ensures
        r == spec_liquidatable(
            value_raw(token_c_amount as nat, *token_c_price, token_c_extra_decimals)
                + value_raw(token_p_amount as nat, *token_p_price, token_p_extra_decimals),
            value_raw(token_d_amount as nat, *token_d_price, token_d_extra_decimals),
            safety_buffer_rate as nat,
        ),
{
    let c = BigDecimal::from_balance_price(token_c_amount, token_c_price, token_c_extra_decimals);
    let p = BigDecimal::from_balance_price(token_p_amount, token_p_price, token_p_extra_decimals);
    let total_debt = BigDecimal::from_balance_price(token_d_amount, token_d_price, token_d_extra_decimals);
    proof { lemma_sum_bound(c@, p@); }
    let total_cap = c.add(p);
    liquidatable(total_cap, total_debt, safety_buffer_rate)
}

/// `spec_liquidatable` on computed values.
fn liquidatable(total_cap: BigDecimal, total_debt: BigDecimal, safety_buffer_rate: u32) -> (r: bool)
    requires
        total_cap.wf(),
        total_cap@ * 10000 + 5000 < p384(),
        buffer_ok(total_cap@, total_debt@, safety_buffer_rate as nat),
    ensures
        r == spec_liquidatable(total_cap@, total_debt@, safety_buffer_rate as nat),
{
    if total_debt.le(&total_cap) {
        assert(total_cap@ * (safety_buffer_rate as nat) + 5000 < p384()) by (nonlinear_arith)
            requires total_cap@ * 10000 + 5000 < p384(), safety_buffer_rate <= u32::MAX,
                (total_cap@ * (safety_buffer_rate as nat) + 5000) / 10000 <= total_cap@;
        let buffer = total_cap.mul_ratio(safety_buffer_rate);
        let rest = total_cap.sub(buffer);
        rest.lt(&total_debt)
    } else {
        false
    }
}

/// Whether the position of `token_c_amount` collateral and `token_p_amount`
/// position tokens would not cover `token_d_amount` of debt at these prices.
pub fn is_open_position_forcecloseable(
    token_c_amount: Balance,
    token_c_price: &Price,
    token_c_extra_decimals: u8,
    token_d_amount: Balance,
    token_d_price: &Price,
    token_d_extra_decimals: u8,
    token_p_amount: Balance,
    token_p_price: &Price,
    token_p_extra_decimals: u8,
) -> (r: bool)
    requires
        price_ok(*token_c_price, token_c_extra_decimals),
        price_ok(*token_d_price, token_d_extra_decimals),
        price_ok(*token_p_price, token_p_extra_decimals),
    ensures
        r == (value_raw(token_c_amount as nat, *token_c_price, token_c_extra_decimals)
            + value_raw(token_p_amount as nat, *token_p_price, token_p_extra_decimals)
            < value_raw(token_d_amount as nat, *token_d_price, token_d_extra_decimals)),
{
    let c = BigDecimal::from_balance_price(token_c_amount, token_c_price, token_c_extra_decimals);
    let p = BigDecimal::from_balance_price(token_p_amount, token_p_price, token_p_extra_decimals);
    let total_debt = BigDecimal::from_balance_price(token_d_amount, token_d_price, token_d_extra_decimals);
    proof { lemma_sum_bound(c@, p@); }
    let total_cap = c.add(p);
    total_cap.lt(&total_debt)
}

/// The leverage of a position about to open: the value of its debt over the
/// value of its collateral; `None` when either amount is zero.
pub fn get_open_position_lr(
    token_c_amount: Balance,
    token_c_price: &Price,
    token_c_extra_decimals: u8,
    token_d_amount: Balance,
    token_d_price: &Price,
    token_d_extra_decimals: u8,
) -> (r: Option<BigDecimal>)
    requires
        price_ok(*token_c_price, token_c_extra_decimals),
        price_ok(*token_d_price, token_d_extra_decimals),
        token_c_amount != 0 && token_d_amount != 0 ==> {
            &&& value_raw(token_c_amount as nat, *token_c_price, token_c_extra_decimals) != 0
            &&& value_raw(token_d_amount as nat, *token_d_price, token_d_extra_decimals) * big() + half() < p384()
        },
    ensures
        (token_c_amount == 0 || token_d_amount == 0) ==> r is None,
        !(token_c_amount == 0 || token_d_amount == 0) ==> (r matches Some(lr) && lr@ == div_raw(
            value_raw(token_d_amount as nat, *token_d_price, token_d_extra_decimals),
            value_raw(token_c_amount as nat, *token_c_price, token_c_extra_decimals),
        )),
{
    if token_c_amount == 0 || token_d_amount == 0 {
        None
    } else {
        let d = BigDecimal::from_balance_price(token_d_amount, token_d_price, token_d_extra_decimals);
        let c = BigDecimal::from_balance_price(token_c_amount, token_c_price, token_c_extra_decimals);
        Some(d.div(c))
    }
}

/// The collateral of `mtp` in tokens, rounded down.
pub open spec fn mtp_collateral_balance(mtp: MarginTradingPosition, asset_c: Asset) -> nat {
    spec_shares_to_amount(asset_c.supplied.shares as nat, asset_c.supplied.balance as nat, mtp.token_c_shares as nat, false)
}

/// The debt of `mtp` in tokens, rounded up.
pub open spec fn mtp_debt_balance(mtp: MarginTradingPosition, asset_d: Asset) -> nat {
    spec_shares_to_amount(asset_d.margin_debt.shares as nat, asset_d.margin_debt.balance as nat, mtp.token_d_shares as nat, true)
}

/// The holding-position fee of `mtp` in tokens: its debt capital times the
/// interest accumulated by one `UNIT` since it opened, rounded down.
pub open spec fn mtp_hp_fee(mtp: MarginTradingPosition, asset_d: Asset) -> nat {
    (mtp.debt_cap as nat) * ((asset_d.unit_acc_hp_interest - mtp.uahpi_at_open) as nat) / (UNIT as nat)
}

/// The holding-position fee can be computed: the accumulated interest has
/// not gone back, and the fee fits in a `u128`.
pub open spec fn hp_fee_ok(mtp: MarginTradingPosition, asset_d: Asset) -> bool {
    asset_d.unit_acc_hp_interest >= mtp.uahpi_at_open && mtp_hp_fee(mtp, asset_d) <= u128::MAX
}

/// The value of the collateral of `mtp`.
pub fn get_mtp_collateral_value(mtp: &MarginTradingPosition, asset_c: &Asset, price_c: &Price) -> (r: BigDecimal)
    requires
        price_ok(*price_c, asset_c.config.extra_decimals),
    ensures
        r@ == value_raw(mtp_collateral_balance(*mtp, *asset_c), *price_c, asset_c.config.extra_decimals),
        r@ < p128() * p128() * big(),
        r.wf(),
{
    let balance_c = asset_c.supplied.shares_to_amount(mtp.token_c_shares, false);
    BigDecimal::from_balance_price(balance_c, price_c, asset_c.config.extra_decimals)
}

/// The value of the position tokens of `mtp`.
pub fn get_mtp_position_value(mtp: &MarginTradingPosition, asset_p: &Asset, price_p: &Price) -> (r: BigDecimal)
    requires
        price_ok(*price_p, asset_p.config.extra_decimals),
    ensures
        r@ == value_raw(mtp.token_p_amount as nat, *price_p, asset_p.config.extra_decimals),
        r@ < p128() * p128() * big(),
        r.wf(),
{
    BigDecimal::from_balance_price(mtp.token_p_amount, price_p, asset_p.config.extra_decimals)
}

/// The value of the debt of `mtp`.
pub fn get_mtp_debt_value(mtp: &MarginTradingPosition, asset_d: &Asset, price_d: &Price) -> (r: BigDecimal)
    requires
        price_ok(*price_d, asset_d.config.extra_decimals),
    ensures
        r@ == value_raw(mtp_debt_balance(*mtp, *asset_d), *price_d, asset_d.config.extra_decimals),
        r@ < p128() * p128() * big(),
        r.wf(),
{
    let balance_d = asset_d.margin_debt.shares_to_amount(mtp.token_d_shares, true);
    BigDecimal::from_balance_price(balance_d, price_d, asset_d.config.extra_decimals)
}

/// The value of the holding-position fee of `mtp` (zero when there is none).
pub fn get_mtp_hp_fee_value(mtp: &MarginTradingPosition, asset_d: &Asset, price_d: &Price) -> (r: BigDecimal)
    requires
        price_ok(*price_d, asset_d.config.extra_decimals),
        hp_fee_ok(*mtp, *asset_d),
    ensures
        r@ == value_raw(mtp_hp_fee(*mtp, *asset_d), *price_d, asset_d.config.extra_decimals),
        r@ < p128() * p128() * big(),
        r.wf(),
{
    let total_hp_fee = u128_ratio(mtp.debt_cap, asset_d.unit_acc_hp_interest - mtp.uahpi_at_open, UNIT);
    if total_hp_fee > 0 {
        BigDecimal::from_balance_price(total_hp_fee, price_d, asset_d.config.extra_decimals)
    } else {
        let z = BigDecimal::zero();
        assert(value_raw(0, *price_d, asset_d.config.extra_decimals) == 0) by {
            let d = price_decimals(*price_d, asset_d.config.extra_decimals);
            let m = price_d.multiplier as nat;
            assert(0 * m == 0);
            if d > 27 {
                crate::big_decimal::lemma_pow10_monotone(0, (d - 27) as nat);
                let k = pow10((d - 27) as nat);
                assert(0nat / k == 0) by (nonlinear_arith) requires k >= 1;
            } else {
                let k = pow10((27 - d) as nat);
                assert(0nat * k == 0);
            }
        }
        assert(0 < p128() * p128() * big()) by (nonlinear_arith) requires p128() > 0, big() > 0;
        z
    }
}

/// What `mtp` is worth: its collateral and position tokens.
pub open spec fn mtp_cap(mtp: MarginTradingPosition, asset_c: Asset, price_c: Price, asset_p: Asset, price_p: Price) -> nat {
    value_raw(mtp_collateral_balance(mtp, asset_c), price_c, asset_c.config.extra_decimals)
        + value_raw(mtp.token_p_amount as nat, price_p, asset_p.config.extra_decimals)
}

/// What `mtp` owes: its debt and holding-position fee.
pub open spec fn mtp_owed(mtp: MarginTradingPosition, asset_d: Asset, price_d: Price) -> nat {
    value_raw(mtp_debt_balance(mtp, asset_d), price_d, asset_d.config.extra_decimals)
        + value_raw(mtp_hp_fee(mtp, asset_d), price_d, asset_d.config.extra_decimals)
}

/// Whether `mt` is liquidatable at `safety_buffer_rate`: what it is worth
/// covers what it owes, but not once the buffer is taken off.
pub fn is_mt_liquidatable(
    mt: &MarginTradingPosition,
    asset_c: &Asset,
    price_c: &Price,
    asset_d: &Asset,
    price_d: &Price,
    asset_p: &Asset,
    price_p: &Price,
    safety_buffer_rate: u32,
) -> (r: bool)
    requires
        price_ok(*price_c, asset_c.config.extra_decimals),
        price_ok(*price_d, asset_d.config.extra_decimals),
        price_ok(*price_p, asset_p.config.extra_decimals),
        hp_fee_ok(*mt, *asset_d),
        buffer_ok(mtp_cap(*mt, *asset_c, *price_c, *asset_p, *price_p), mtp_owed(*mt, *asset_d, *price_d),
            safety_buffer_rate as nat),
    ensures
        r == spec_liquidatable(mtp_cap(*mt, *asset_c, *price_c, *asset_p, *price_p), mtp_owed(*mt, *asset_d, *price_d),
            safety_buffer_rate as nat),
{
    let c = get_mtp_collateral_value(mt, asset_c, price_c);
    let p = get_mtp_position_value(mt, asset_p, price_p);
    let d = get_mtp_debt_value(mt, asset_d, price_d);
    let f = get_mtp_hp_fee_value(mt, asset_d, price_d);
    proof {
        lemma_sum_bound(c@, p@);
        lemma_sum_bound(d@, f@);
    }
    let total_cap = c.add(p);
    let total_owed = d.add(f);
    liquidatable(total_cap, total_owed, safety_buffer_rate)
}

/// Whether `mt` is worth less than it owes.
pub fn is_mt_forcecloseable(
    mt: &MarginTradingPosition,
    asset_c: &Asset,
    price_c: &Price,
    asset_d: &Asset,
    price_d: &Price,
    asset_p: &Asset,
    price_p: &Price,
) -> (r: bool)
    requires
        price_ok(*price_c, asset_c.config.extra_decimals),
        price_ok(*price_d, asset_d.config.extra_decimals),
        price_ok(*price_p, asset_p.config.extra_decimals),
        hp_fee_ok(*mt, *asset_d),
    ensures
        r == (mtp_cap(*mt, *asset_c, *price_c, *asset_p, *price_p) < mtp_owed(*mt, *asset_d, *price_d)),
{
    let c = get_mtp_collateral_value(mt, asset_c, price_c);
    let p = get_mtp_position_value(mt, asset_p, price_p);
    let d = get_mtp_debt_value(mt, asset_d, price_d);
    let f = get_mtp_hp_fee_value(mt, asset_d, price_d);
    proof {
        lemma_sum_bound(c@, p@);
        lemma_sum_bound(d@, f@);
    }
    let total_cap = c.add(p);
    let total_owed = d.add(f);
    total_cap.lt(&total_owed)
}

/// The leverage of `mt`: what it owes over the value of its collateral;
/// `None` when it has no collateral or no debt shares.
pub fn get_mtp_lr(mt: &MarginTradingPosition, asset_c: &Asset, price_c: &Price, asset_d: &Asset, price_d: &Price) -> (r: Option<BigDecimal>)
    requires
        price_ok(*price_c, asset_c.config.extra_decimals),
        price_ok(*price_d, asset_d.config.extra_decimals),
        hp_fee_ok(*mt, *asset_d),
        mt.token_c_shares != 0 && mt.token_d_shares != 0 ==> {
            &&& value_raw(mtp_collateral_balance(*mt, *asset_c), *price_c, asset_c.config.extra_decimals) != 0
            &&& mtp_owed(*mt, *asset_d, *price_d) * big() + half() < p384()
        },
    ensures
        (mt.token_c_shares == 0 || mt.token_d_shares == 0) ==> r is None,
        !(mt.token_c_shares == 0 || mt.token_d_shares == 0) ==> (r matches Some(lr) && lr@ == div_raw(
            mtp_owed(*mt, *asset_d, *price_d),
            value_raw(mtp_collateral_balance(*mt, *asset_c), *price_c, asset_c.config.extra_decimals),
        )),
{
    if mt.token_c_shares == 0 || mt.token_d_shares == 0 {
        None
    } else {
        let d = get_mtp_debt_value(mt, asset_d, price_d);
        let f = get_mtp_hp_fee_value(mt, asset_d, price_d);
        proof { lemma_sum_bound(d@, f@); }
        let c = get_mtp_collateral_value(mt, asset_c, price_c);
        Some(d.add(f).div(c))
    }
}

/// Whether `min_amount_out` is a reasonable least output for swapping
/// `amount_in` of the input token: not below what `amount_in` is worth in
/// the output token at these prices, less `max_slippage_rate` (basis points)
/// of it.
pub fn is_min_amount_out_reasonable(
    amount_in: Balance,
    asset_in: &Asset,
    price_in: &Price,
    asset_out: &Asset,
    price_out: &Price,
    min_amount_out: Balance,
    max_slippage_rate: u32,
) -> (r: bool)
    requires
        price_ok(*price_in, asset_in.config.extra_decimals),
        balance_in_price_ok(value_raw(amount_in as nat, *price_in, asset_in.config.extra_decimals), *price_out,
            asset_out.config.extra_decimals),
        ({
            let amount_out = balance_in_price_raw(value_raw(amount_in as nat, *price_in, asset_in.config.extra_decimals),
                *price_out, asset_out.config.extra_decimals);
            amount_out * (max_slippage_rate as nat) / 10000 <= amount_out
        }),
    ensures
        ({
            let amount_out = balance_in_price_raw(value_raw(amount_in as nat, *price_in, asset_in.config.extra_decimals),
                *price_out, asset_out.config.extra_decimals);
            r == (min_amount_out >= amount_out - amount_out * (max_slippage_rate as nat) / 10000)
        }),
{
    let value_in = BigDecimal::from_balance_price(amount_in, price_in, asset_in.config.extra_decimals);
    let amount_out = value_in.to_balance_in_price(price_out, asset_out.config.extra_decimals);
    min_amount_out >= amount_out - u128_ratio(amount_out, max_slippage_rate as u128, MAX_RATIO as u128)
}

/// Liquidation and closing by force are for different positions: a
/// liquidatable position still covers what it owes, one closed by force does
/// not.
pub proof fn lemma_liquidation_excludes_force_close(cap: nat, debt: nat, safety_buffer_rate: nat)
    ensures
        spec_liquidatable(cap, debt, safety_buffer_rate) ==> !(cap < debt),
{
}

/// Without a safety buffer no position is liquidatable; a larger buffer
/// leaves every liquidatable position liquidatable.
pub proof fn lemma_liquidatable_grows_with_buffer(cap: nat, debt: nat, buffer: nat, larger_buffer: nat)
    requires
        buffer <= larger_buffer,
    ensures
        !spec_liquidatable(cap, debt, 0),
        spec_liquidatable(cap, debt, buffer) ==> spec_liquidatable(cap, debt, larger_buffer),
{
    assert((cap * 0 + 5000) / 10000 == 0) by (nonlinear_arith);
    assert((cap * buffer + 5000) / 10000 <= (cap * larger_buffer + 5000) / 10000) by (nonlinear_arith)
        requires buffer <= larger_buffer;
}

// ----- decreasing a position -----

/// Why a decrease of a margin position was refused.
#[derive(Clone, Copy, PartialEq, Eq, Debug)]
pub enum DecreaseError {
    /// The debt asset has no minimum borrowed amount.
    MissingMinBorrowedAmount,
    /// A partial decrease would leave less debt than the minimum.
    RemainingDebtTooLow,
    /// A close or liquidation would trade for less than the debt, and the
    /// collateral is not the debt token.
    TradeUnderDebt,
    /// The collateral can not make up what the trade leaves of the debt.
    NotAllDebtRepaid,
    /// There are not enough position tokens (and collateral of that token) to trade.
    NotEnoughPositionAsset,
}

/// The debt and holding-position fee of `mt` can be computed and added up.
pub open spec fn debt_and_fee_ok(mt: MarginTradingPosition, asset_d: Asset) -> bool {
    &&& asset_d.unit_acc_hp_interest >= mt.uahpi_at_open
    &&& holding_fee(mt, asset_d) <= u128::MAX
    &&& debt_amount(mt, asset_d) + holding_fee(mt, asset_d) <= u128::MAX
}

/// What the decrease of `mt` by an operation asking at least
/// `min_token_d_amount` of the debt token is refused for, if anything. A
/// partial decrease that does not repay the debt and fee must leave at least
/// the minimum borrowed amount; a close or a liquidation that does not must
/// have collateral in the debt token worth more shares than the rest (rounded
/// up).
pub open spec fn spec_decrease_refusal(operation: DecreaseOperation, mt: MarginTradingPosition, asset_d: Asset, min_token_d_amount: nat) -> Option<DecreaseError> {
    let owed = debt_amount(mt, asset_d) + holding_fee(mt, asset_d);
    if min_token_d_amount >= owed {
        None
    } else if operation is Decrease {
        match asset_d.config.min_borrowed_amount {
            None => Some(DecreaseError::MissingMinBorrowedAmount),
            Some(m) => if owed - min_token_d_amount >= m { None } else { Some(DecreaseError::RemainingDebtTooLow) },
        }
    } else if operation is Close || operation is Liquidate {
        if mt.token_c_id@ != mt.token_d_id@ {
            Some(DecreaseError::TradeUnderDebt)
        } else if mt.token_c_shares > spec_amount_to_shares(asset_d.supplied.shares as nat, asset_d.supplied.balance as nat,
            (owed - min_token_d_amount) as nat, true) {
            None
        } else {
            Some(DecreaseError::NotAllDebtRepaid)
        }
    } else {
        None
    }
}

/// Checks that a decrease asking at least `min_token_d_amount` of the debt
/// token leaves a sound debt (see `spec_decrease_refusal`).
pub fn check_decrease_debt(operation: DecreaseOperation, mt: &MarginTradingPosition, asset_d: &Asset, min_token_d_amount: Balance) -> (r: Result<(), DecreaseError>)
    requires
        debt_and_fee_ok(*mt, *asset_d),
        (operation is Close || operation is Liquidate) && mt.token_c_id@ == mt.token_d_id@
            && min_token_d_amount < debt_amount(*mt, *asset_d) + holding_fee(*mt, *asset_d)
            ==> spec_amount_to_shares(asset_d.supplied.shares as nat, asset_d.supplied.balance as nat,
                (debt_amount(*mt, *asset_d) + holding_fee(*mt, *asset_d) - min_token_d_amount) as nat, true) <= u128::MAX,
    ensures
        match spec_decrease_refusal(operation, *mt, *asset_d, min_token_d_amount as nat) {
            None => r is Ok,
            Some(e) => r == Err::<(), DecreaseError>(e),
        },
{
    let total_debt_amount = asset_d.margin_debt.shares_to_amount(mt.token_d_shares, true);
    let hp_fee = u128_ratio(mt.debt_cap, asset_d.unit_acc_hp_interest - mt.uahpi_at_open, UNIT);
    let owed = total_debt_amount + hp_fee;
    if min_token_d_amount >= owed {
        return Ok(());
    }
    match operation {
        DecreaseOperation::Decrease => {
            match asset_d.config.min_borrowed_amount {
                None => Err(DecreaseError::MissingMinBorrowedAmount),
                Some(m) => if owed - min_token_d_amount >= m { Ok(()) } else { Err(DecreaseError::RemainingDebtTooLow) },
            }
        },
        DecreaseOperation::Close | DecreaseOperation::Liquidate => {
            if mt.token_c_id != mt.token_d_id {
                return Err(DecreaseError::TradeUnderDebt);
            }
            let gap_shares = asset_d.supplied.amount_to_shares(owed - min_token_d_amount, true);
            if mt.token_c_shares > gap_shares { Ok(()) } else { Err(DecreaseError::NotAllDebtRepaid) }
        },
        _ => Ok(()),
    }
}

/// The position and position asset once `token_p_amount` position tokens
/// are put into a trade: taken from the position's tokens, and where those
/// do not suffice, the rest from its collateral (when that is the position
/// token; shares rounded up); the position is locked until the trade returns.
pub open spec fn traded_out(mt: MarginTradingPosition, asset_p: Asset, token_p_amount: nat) -> Result<(MarginTradingPosition, Asset), DecreaseError> {
    if token_p_amount > mt.token_p_amount {
        let gap = (token_p_amount - mt.token_p_amount) as nat;
        let gap_shares = spec_amount_to_shares(asset_p.supplied.shares as nat, asset_p.supplied.balance as nat, gap, true);
        if mt.token_c_id@ != mt.token_p_id@ || gap_shares > mt.token_c_shares {
            Err(DecreaseError::NotEnoughPositionAsset)
        } else {
            Ok((MarginTradingPosition {
                token_c_shares: (mt.token_c_shares - gap_shares) as u128,
                token_p_amount: 0,
                is_locking: true,
                ..mt
            }, Asset {
                supplied: Pool {
                    shares: (asset_p.supplied.shares - gap_shares) as u128,
                    balance: (asset_p.supplied.balance - gap) as u128,
                },
                margin_position: (asset_p.margin_position - mt.token_p_amount) as u128,
                ..asset_p
            }))
        }
    } else {
        Ok((MarginTradingPosition { token_p_amount: (mt.token_p_amount - token_p_amount) as u128, is_locking: true, ..mt },
            Asset { margin_position: (asset_p.margin_position - token_p_amount) as u128, ..asset_p }))
    }
}

/// Taking the position tokens out stays within the pools' bounds.
pub open spec fn trade_out_ok(mt: MarginTradingPosition, asset_p: Asset, token_p_amount: nat) -> bool {
    if token_p_amount > mt.token_p_amount {
        let gap = (token_p_amount - mt.token_p_amount) as nat;
        let gap_shares = spec_amount_to_shares(asset_p.supplied.shares as nat, asset_p.supplied.balance as nat, gap, true);
        &&& mt.token_c_id@ == mt.token_p_id@ ==> gap_shares <= u128::MAX
        &&& mt.token_c_id@ == mt.token_p_id@ && gap_shares <= mt.token_c_shares ==> {
            &&& gap_shares <= asset_p.supplied.shares
            &&& gap <= asset_p.supplied.balance
            &&& mt.token_p_amount <= asset_p.margin_position
        }
    } else {
        token_p_amount <= asset_p.margin_position
    }
}

/// Puts `token_p_amount` position tokens of `mt` into a trade (see
/// `traded_out`); refused, with nothing changed, when there are not enough.
pub fn take_position_tokens_for_trade(mt: &mut MarginTradingPosition, asset_p: &mut Asset, token_p_amount: Balance) -> (r: Result<(), DecreaseError>)
    requires
        trade_out_ok(*old(mt), *old(asset_p), token_p_amount as nat),
    ensures
        match traded_out(*old(mt), *old(asset_p), token_p_amount as nat) {
            Ok((m, a)) => r is Ok && *final(mt) == m && *final(asset_p) == a,
            Err(e) => r == Err::<(), DecreaseError>(e) && *final(mt) == *old(mt) && *final(asset_p) == *old(asset_p),
        },
{
    if token_p_amount > mt.token_p_amount {
        if mt.token_c_id != mt.token_p_id {
            return Err(DecreaseError::NotEnoughPositionAsset);
        }
        let gap = token_p_amount - mt.token_p_amount;
        let gap_shares = asset_p.supplied.amount_to_shares(gap, true);
        if gap_shares > mt.token_c_shares {
            return Err(DecreaseError::NotEnoughPositionAsset);
        }
        mt.token_c_shares = mt.token_c_shares - gap_shares;
        asset_p.supplied.withdraw(gap_shares, gap);
        asset_p.margin_position = asset_p.margin_position - mt.token_p_amount;
        mt.token_p_amount = 0;
    } else {
        asset_p.margin_position = asset_p.margin_position - token_p_amount;
        mt.token_p_amount = mt.token_p_amount - token_p_amount;
    }
    mt.is_locking = true;
    Ok(())
}

// ----- opening a position -----

/// Why opening a margin position was refused.
#[derive(Clone, Copy, PartialEq, Eq, Debug)]
pub enum OpenError {
    /// The collateral asset can not be used as collateral.
    NotCollateral,
    /// The debt asset can not be borrowed.
    NotBorrowable,
    /// The collateral asset has reached its supply limit.
    SupplyLimit,
    /// The debt would exceed the borrow limit of its asset.
    BorrowLimit,
    /// The debt asset has no minimum borrowed amount.
    MissingMinBorrowedAmount,
    /// The debt is below the minimum borrowed amount.
    DebtTooLow,
}

/// What opening a position with collateral asset `asset_c` and
/// `token_d_amount` of debt in `asset_d` is refused for, if anything, in
/// the order checked; the supply and borrow limits do not apply to a
/// reliable liquidator. The size of the debt is checked apart (see
/// `spec_debt_size_refusal`).
pub open spec fn spec_open_refusal(asset_c: Asset, asset_d: Asset, token_d_amount: nat, reliable_liquidator: bool) -> Option<OpenError> {
    if !asset_c.config.can_use_as_collateral {
        Some(OpenError::NotCollateral)
    } else if !asset_d.config.can_borrow {
        Some(OpenError::NotBorrowable)
    } else if !reliable_liquidator && asset_c.config.supplied_limit is Some
        && !(asset_c.supplied.balance <= asset_c.config.supplied_limit.unwrap()) {
        Some(OpenError::SupplyLimit)
    } else if !reliable_liquidator && asset_d.config.borrowed_limit is Some
        && !(asset_d.borrowed.balance + token_d_amount <= asset_d.config.borrowed_limit.unwrap()) {
        Some(OpenError::BorrowLimit)
    } else {
        None
    }
}

/// What a debt of `token_d_amount` in `asset_d` is refused for, if anything:
/// the asset must set a minimum borrowed amount, and the debt reach it.
pub open spec fn spec_debt_size_refusal(asset_d: Asset, token_d_amount: nat) -> Option<OpenError> {
    if asset_d.config.min_borrowed_amount is None {
        Some(OpenError::MissingMinBorrowedAmount)
    } else if !(token_d_amount >= asset_d.config.min_borrowed_amount.unwrap()) {
        Some(OpenError::DebtTooLow)
    } else {
        None
    }
}

/// Checks the size of the debt of a position about to open (see
/// `spec_debt_size_refusal`).
pub fn check_debt_size(asset_d: &Asset, token_d_amount: Balance) -> (r: Result<(), OpenError>)
    ensures
        match spec_debt_size_refusal(*asset_d, token_d_amount as nat) {
            None => r is Ok,
            Some(e) => r == Err::<(), OpenError>(e),
        },
{
    match asset_d.config.min_borrowed_amount {
        None => Err(OpenError::MissingMinBorrowedAmount),
        Some(m) => if token_d_amount >= m { Ok(()) } else { Err(OpenError::DebtTooLow) },
    }
}

/// Checks the assets of a position about to open (see `spec_open_refusal`).
pub fn check_open_position_assets(asset_c: &Asset, asset_d: &Asset, token_d_amount: Balance, reliable_liquidator: bool) -> (r: Result<(), OpenError>)
    requires
        !reliable_liquidator && asset_d.config.borrowed_limit is Some ==> asset_d.borrowed.balance + token_d_amount <= u128::MAX,
    ensures
        match spec_open_refusal(*asset_c, *asset_d, token_d_amount as nat, reliable_liquidator) {
            None => r is Ok,
            Some(e) => r == Err::<(), OpenError>(e),
        },
{
    if !asset_c.config.can_use_as_collateral {
        return Err(OpenError::NotCollateral);
    }
    if !asset_d.config.can_borrow {
        return Err(OpenError::NotBorrowable);
    }
    if !reliable_liquidator {
        if let Some(supplied_limit) = asset_c.config.supplied_limit {
            if !(asset_c.supplied.balance <= supplied_limit) {
                return Err(OpenError::SupplyLimit);
            }
        }
        if let Some(borrowed_limit) = asset_d.config.borrowed_limit {
            if !(asset_d.borrowed.balance + token_d_amount <= borrowed_limit) {
                return Err(OpenError::BorrowLimit);
            }
        }
    }
    Ok(())
}

// ----- a trade that failed -----

/// The position and position asset once a decrease trade of `amount_in`
/// position tokens failed and is undone: the position gets back its
/// `pre_token_p_amount` position tokens, and what the trade took beyond them
/// returns to the supply as collateral (its shares rounded down).
pub open spec fn decrease_reverted(mt: MarginTradingPosition, asset_p: Asset, amount_in: nat, pre_token_p_amount: nat)
    -> (MarginTradingPosition, Asset)
{
    if amount_in > pre_token_p_amount {
        let gap = (amount_in - pre_token_p_amount) as nat;
        let gap_shares = spec_amount_to_shares(asset_p.supplied.shares as nat, asset_p.supplied.balance as nat, gap, false);
        (MarginTradingPosition {
            token_c_shares: (mt.token_c_shares + gap_shares) as u128,
            token_p_amount: pre_token_p_amount as u128,
            is_locking: false,
            ..mt
        }, Asset {
            margin_position: (asset_p.margin_position + pre_token_p_amount) as u128,
            supplied: Pool {
                shares: (asset_p.supplied.shares + gap_shares) as u128,
                balance: (asset_p.supplied.balance + gap) as u128,
            },
            ..asset_p
        })
    } else {
        (MarginTradingPosition { token_p_amount: pre_token_p_amount as u128, is_locking: false, ..mt },
            Asset { margin_position: (asset_p.margin_position + amount_in) as u128, ..asset_p })
    }
}

/// Undoing the trade stays within bounds.
pub open spec fn revert_ok(mt: MarginTradingPosition, asset_p: Asset, amount_in: nat, pre_token_p_amount: nat) -> bool {
    if amount_in > pre_token_p_amount {
        let gap = (amount_in - pre_token_p_amount) as nat;
        let gap_shares = spec_amount_to_shares(asset_p.supplied.shares as nat, asset_p.supplied.balance as nat, gap, false);
        &&& asset_p.margin_position + pre_token_p_amount <= u128::MAX
        &&& gap_shares <= u128::MAX
        &&& asset_p.supplied.shares + gap_shares <= u128::MAX
        &&& asset_p.supplied.balance + gap <= u128::MAX
        &&& mt.token_c_shares + gap_shares <= u128::MAX
        &&& pre_token_p_amount <= u128::MAX
    } else {
        &&& asset_p.margin_position + amount_in <= u128::MAX
        &&& pre_token_p_amount <= u128::MAX
    }
}

/// Undoes a decrease trade of `amount_in` position tokens that failed (see
/// `decrease_reverted`).
pub fn revert_decrease_trade(mt: &mut MarginTradingPosition, asset_p: &mut Asset, amount_in: Balance, pre_token_p_amount: Balance)
    requires
        revert_ok(*old(mt), *old(asset_p), amount_in as nat, pre_token_p_amount as nat),
    ensures
        (*final(mt), *final(asset_p)) == decrease_reverted(*old(mt), *old(asset_p), amount_in as nat, pre_token_p_amount as nat),
{
    if amount_in > pre_token_p_amount {
        asset_p.margin_position = asset_p.margin_position + pre_token_p_amount;
        let gap = amount_in - pre_token_p_amount;
        let gap_shares = asset_p.supplied.amount_to_shares(gap, false);
        asset_p.supplied.deposit(gap_shares, gap);
        mt.token_c_shares = mt.token_c_shares + gap_shares;
    } else {
        asset_p.margin_position = asset_p.margin_position + amount_in;
    }
    mt.is_locking = false;
    mt.token_p_amount = pre_token_p_amount;
}

/// A failed decrease trade is undone: putting `amount` position tokens into a
/// trade and reverting it gives the position back its position tokens and
/// the asset its margin position and supply balance; the collateral never
/// grows, and comes back whole when the position's own tokens sufficed. A
/// trade that takes the whole supply of the position token is left out:
/// the emptied pool then sells shares one for one.
pub proof fn lemma_revert_undoes_trade_out(mt: MarginTradingPosition, asset_p: Asset, amount: nat)
    requires
        trade_out_ok(mt, asset_p, amount),
        amount > mt.token_p_amount ==> amount - mt.token_p_amount < asset_p.supplied.balance,
        traded_out(mt, asset_p, amount) is Ok,
        revert_ok(traded_out(mt, asset_p, amount)->Ok_0.0, traded_out(mt, asset_p, amount)->Ok_0.1, amount, mt.token_p_amount as nat),
    ensures
        ({
            let (m1, a1) = traded_out(mt, asset_p, amount)->Ok_0;
            let (m2, a2) = decrease_reverted(m1, a1, amount, mt.token_p_amount as nat);
            &&& m2.token_p_amount == mt.token_p_amount
            &&& a2.margin_position == asset_p.margin_position
            &&& a2.supplied.balance == asset_p.supplied.balance
            &&& m2.token_c_shares <= mt.token_c_shares
            &&& amount <= mt.token_p_amount ==> m2 == (MarginTradingPosition { is_locking: false, ..mt }) && a2 == asset_p
            &&& !m2.is_locking
        }),
{
    if amount > mt.token_p_amount {
        let (m1, a1) = traded_out(mt, asset_p, amount)->Ok_0;
        let gap = (amount - mt.token_p_amount) as nat;
        let up = spec_amount_to_shares(asset_p.supplied.shares as nat, asset_p.supplied.balance as nat, gap, true);
        let down = spec_amount_to_shares(a1.supplied.shares as nat, a1.supplied.balance as nat, gap, false);
        assert(a1.supplied.shares == asset_p.supplied.shares - up);
        assert(a1.supplied.balance == asset_p.supplied.balance - gap);
        lemma_rebuy_not_more(asset_p.supplied.shares as nat, asset_p.supplied.balance as nat, gap);
        assert(down <= up);
    }
}

/// Shares withdrawn for `gap` tokens (rounded up) are no fewer than the
/// shares those tokens buy back in the smaller pool (rounded down).
proof fn lemma_rebuy_not_more(shares: nat, balance: nat, gap: nat)
    requires
        gap < balance,
        spec_amount_to_shares(shares, balance, gap, true) <= shares,
    ensures
        spec_amount_to_shares((shares - spec_amount_to_shares(shares, balance, gap, true)) as nat, (balance - gap) as nat, gap, false)
            <= spec_amount_to_shares(shares, balance, gap, true),
{
    let up = spec_amount_to_shares(shares, balance, gap, true);
    let s2 = (shares - up) as nat;
    let b2 = (balance - gap) as nat;
    if balance > 0 {
        assert(up * balance >= shares * gap) by (nonlinear_arith)
            requires balance > 0, up == (shares * gap + (balance - 1) as nat) / balance;
        if b2 > 0 {
            // down = s2 * gap / b2 and (shares - up) * gap <= up * (balance - gap)
            assert(s2 * gap <= up * b2) by (nonlinear_arith)
                requires up * balance >= shares * gap, s2 == shares - up, b2 == balance - gap, up <= shares, gap <= balance;
            assert((s2 * gap + 0) / b2 <= up) by (nonlinear_arith) requires s2 * gap <= up * b2, b2 > 0;
        }
    } else {
        assert(gap == 0);
    }
}

// ----- direct liquidation -----

/// The debt asset and position asset after a direct liquidation of `mt`:
/// the liquidator's supply of the debt token pays the debt and the
/// holding-position fee (the supply shares needed rounded up; the debt
/// leaves the margin-debt pool), and the position tokens return to the
/// supply of their asset (their shares rounded down). Also gives those
/// supply shares of the debt token, and of the position token.
pub open spec fn liquidated_direct(mt: MarginTradingPosition, asset_debt: Asset, asset_position: Asset) -> (Asset, Asset, nat, nat) {
    let debt = debt_amount(mt, asset_debt);
    let fee = holding_fee(mt, asset_debt);
    let need = spec_amount_to_shares(asset_debt.supplied.shares as nat, asset_debt.supplied.balance as nat, debt + fee, true);
    let position_shares = spec_amount_to_shares(asset_position.supplied.shares as nat, asset_position.supplied.balance as nat,
        mt.token_p_amount as nat, false);
    (Asset {
        supplied: Pool {
            shares: (asset_debt.supplied.shares - need) as u128,
            balance: (asset_debt.supplied.balance - (debt + fee)) as u128,
        },
        margin_debt: Pool {
            shares: (asset_debt.margin_debt.shares - mt.token_d_shares) as u128,
            balance: (asset_debt.margin_debt.balance - debt) as u128,
        },
        ..asset_debt
    }, Asset {
        margin_position: (asset_position.margin_position - mt.token_p_amount) as u128,
        supplied: Pool {
            shares: (asset_position.supplied.shares + position_shares) as u128,
            balance: (asset_position.supplied.balance + mt.token_p_amount) as u128,
        },
        ..asset_position
    }, need, position_shares)
}

/// A direct liquidation stays within the pools' bounds.
pub open spec fn liquidate_direct_ok(mt: MarginTradingPosition, asset_debt: Asset, asset_position: Asset) -> bool {
    let debt = debt_amount(mt, asset_debt);
    let fee = holding_fee(mt, asset_debt);
    let need = spec_amount_to_shares(asset_debt.supplied.shares as nat, asset_debt.supplied.balance as nat, debt + fee, true);
    let position_shares = spec_amount_to_shares(asset_position.supplied.shares as nat, asset_position.supplied.balance as nat,
        mt.token_p_amount as nat, false);
    &&& debt_and_fee_ok(mt, asset_debt)
    &&& need <= asset_debt.supplied.shares
    &&& debt + fee <= asset_debt.supplied.balance
    &&& mt.token_d_shares <= asset_debt.margin_debt.shares
    &&& position_shares <= u128::MAX
    &&& mt.token_p_amount <= asset_position.margin_position
    &&& asset_position.supplied.shares + position_shares <= u128::MAX
    &&& asset_position.supplied.balance + mt.token_p_amount <= u128::MAX
}

/// Settles the assets of a direct liquidation of `mt` (see
/// `liquidated_direct`); returns the supply shares of the debt token the
/// liquidator pays, and the supply shares of the position token it gets.
pub fn liquidate_direct_assets(mt: &MarginTradingPosition, asset_debt: &mut Asset, asset_position: &mut Asset) -> (r: (u128, u128))
    requires
        liquidate_direct_ok(*mt, *old(asset_debt), *old(asset_position)),
    ensures
        (*final(asset_debt), *final(asset_position), r.0 as nat, r.1 as nat) == liquidated_direct(*mt, *old(asset_debt), *old(asset_position)),
{
    let total_debt_amount = asset_debt.margin_debt.shares_to_amount(mt.token_d_shares, true);
    let hp_fee = u128_ratio(mt.debt_cap, asset_debt.unit_acc_hp_interest - mt.uahpi_at_open, UNIT);
    let need_debt_supplied_shares = asset_debt.supplied.amount_to_shares(total_debt_amount + hp_fee, true);
    asset_debt.supplied.withdraw(need_debt_supplied_shares, total_debt_amount + hp_fee);
    proof { crate::pool::lemma_shares_to_amount_le_balance(asset_debt.margin_debt.shares as nat,
        asset_debt.margin_debt.balance as nat, mt.token_d_shares as nat, true); }
    asset_debt.margin_debt.withdraw(mt.token_d_shares, total_debt_amount);
    let position_shares = asset_position.supplied.amount_to_shares(mt.token_p_amount, false);
    asset_position.margin_position = asset_position.margin_position - mt.token_p_amount;
    asset_position.supplied.deposit(position_shares, mt.token_p_amount);
    (need_debt_supplied_shares, position_shares)
}

} // verus!
