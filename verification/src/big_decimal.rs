//! Fixed-point decimal numbers with 27 decimals, held in 384 bits.
//!
//! A `BigDecimal` whose raw value is `r` stands for `r / 10^27`. Arithmetic
//! overflows of the 384-bit raw value are not allowed: the operations ask in
//! `requires` for results that fit.

use vstd::prelude::*;
use crate::wide::{words_value, p64, p384, p512, p128, wide_from_u128, wide_to_u128, wide_add, wide_sub,
    wide_mul, wide_div, wide_lt, wide_is_zero};
use crate::utils::{Balance, MAX_RATIO};
use crate::prices::Price;

verus! {

/// The number of decimals of a `BigDecimal`.
pub const NUM_DECIMALS: u8 = 27;
/// 10^27, the raw value of one.
pub const BIG_DIVISOR: u128 = 1_000_000_000_000_000_000_000_000_000u128;
/// Half of `BIG_DIVISOR`, added before a division to round to the nearest.
pub const HALF_DIVISOR: u128 = 500_000_000_000_000_000_000_000_000u128;
/// A rate written as a raw `BigDecimal` value (for example a per-millisecond compounding rate).
pub type LowU128 = u128;

/// The raw value of one.
pub open spec fn big() -> nat { 1_000_000_000_000_000_000_000_000_000nat }
/// Half the raw value of one.
pub open spec fn half() -> nat { 500_000_000_000_000_000_000_000_000nat }

/// Raw value of the product of two numbers with raw values `a` and `b`, rounded to the nearest.
pub open spec fn mul_raw(a: nat, b: nat) -> nat { (a * b + half()) / big() }

/// Raw value of the quotient of two numbers with raw values `a` and `b`.
pub open spec fn div_raw(a: nat, b: nat) -> nat { (a * big() + half()) / b }

/// Whether `mul_raw(a, b)` is computed without overflowing 384 bits.
pub open spec fn mul_fits(a: nat, b: nat) -> bool { a * b + half() < p384() }

/// Raw value of `x^e` computed by repeated squaring, starting from the
/// accumulated result `res`, with the rounding of each product.
pub open spec fn pow_acc(res: nat, x: nat, e: nat) -> nat
    decreases e,
{
    if e == 0 {
        res
    } else {
        let res2 = if e % 2 == 1 { mul_raw(res, x) } else { res };
        if e / 2 == 0 { res2 } else { pow_acc(res2, mul_raw(x, x), e / 2) }
    }
}

/// Whether every product of `pow_acc(res, x, e)` fits in 384 bits.
pub open spec fn pow_fits(res: nat, x: nat, e: nat) -> bool
    decreases e,
{
    if e == 0 {
        true
    } else {
        let res2 = if e % 2 == 1 { mul_raw(res, x) } else { res };
        &&& (e % 2 == 1 ==> mul_fits(res, x))
        &&& (e / 2 != 0 ==> mul_fits(x, x) && pow_fits(res2, mul_raw(x, x), e / 2))
    }
}

/// Raw value of `x^e` as `BigDecimal::pow` computes it.
pub open spec fn pow_raw(x: nat, e: nat) -> nat { pow_acc(big(), x, e) }

/// A fixed-point number with 27 decimals.
#[derive(Clone, Copy)]
pub struct BigDecimal {
    words: [u64; 8],
}

impl View for BigDecimal {
    type V = nat;

    /// The raw value: the number times 10^27.
    closed spec fn view(&self) -> nat {
        words_value(self.words)
    }
}

proof fn lemma_div_le(a: nat, d: nat)
    requires
        d >= 1,
    ensures
        a / d <= a,
{
    assert(a / d <= a) by (nonlinear_arith) requires d >= 1;
}

impl BigDecimal {
    /// Whether the raw value fits in 384 bits.
    pub open spec fn wf(self) -> bool {
        self@ < p384()
    }

    /// Zero.
    pub fn zero() -> (r: BigDecimal)
        ensures
            r@ == 0,
            r.wf(),
    {
        BigDecimal { words: wide_from_u128(0) }
    }

    /// One.
    pub fn one() -> (r: BigDecimal)
        ensures
            r@ == big(),
            r.wf(),
    {
        BigDecimal { words: wide_from_u128(BIG_DIVISOR) }
    }

    /// The whole number `a`.
    pub fn from_u128(a: u128) -> (r: BigDecimal)
        ensures
            r@ == a * big(),
            r.wf(),
    {
        let w = wide_mul(wide_from_u128(a), wide_from_u128(BIG_DIVISOR));
        assert((a as nat) * big() < p384()) by (nonlinear_arith)
            requires a <= u128::MAX, p384() == p128() * p128() * p128(), big() < p128(),
                p128() == 0x1_0000_0000_0000_0000_0000_0000_0000_0000nat;
        BigDecimal { words: w }
    }

    /// The number whose raw value is `a`, e.g. a compounding rate given in raw form.
    pub fn from_low_u128(a: LowU128) -> (r: BigDecimal)
        ensures
            r@ == a,
            r.wf(),
    {
        assert((a as nat) < p384()) by (nonlinear_arith)
            requires a <= u128::MAX, p384() == p128() * p128() * p128(),
                p128() == 0x1_0000_0000_0000_0000_0000_0000_0000_0000nat;
        BigDecimal { words: wide_from_u128(a) }
    }

    /// The ratio `r / 10000`.
    pub fn from_ratio(r: u32) -> (res: BigDecimal)
        ensures
            res@ == r * 100_000_000_000_000_000_000_000nat,
            res.wf(),
    {
        let w = wide_from_u128((r as u128) * 100_000_000_000_000_000_000_000u128);
        BigDecimal { words: w }
    }

    /// The raw value, where it fits in a `u128`.
    pub fn raw_u128(&self) -> (r: u128)
        requires
            self@ < p128(),
        ensures
            r == self@,
    {
        wide_to_u128(self.words)
    }

    /// Whether the number is zero.
    pub fn is_zero(&self) -> (r: bool)
        ensures
            r == (self@ == 0),
    {
        wide_is_zero(self.words)
    }

    /// Whether `self < other`.
    pub fn lt(&self, other: &BigDecimal) -> (r: bool)
        ensures
            r == (self@ < other@),
    {
        wide_lt(self.words, other.words)
    }

    /// Whether `self <= other`.
    pub fn le(&self, other: &BigDecimal) -> (r: bool)
        ensures
            r == (self@ <= other@),
    {
        !wide_lt(other.words, self.words)
    }

    /// Whether the raw value is below `2^370`.
    pub fn is_below_p370(&self) -> (r: bool)
        ensures
            r == (self@ < crate::position_health::p370()),
    {
        let bound: [u64; 8] = [0, 0, 0, 0, 0, 0x4_0000_0000_0000u64, 0, 0];
        assert(words_value(bound) == crate::position_health::p370()) by {
            assert(p64() == 0x1_0000_0000_0000_0000nat);
        }
        wide_lt(self.words, bound)
    }

    /// Whether dividing by this number, `div`, can take it as its
    /// dividend: its raw value times `10^27`, plus a half, stays below
    /// `2^384`.
    pub fn mul_big_fits(&self) -> (r: bool)
        requires
            self.wf(),
        ensures
            r == (self@ * big() + half() < p384()),
    {
        assert(self@ * big() < p512()) by (nonlinear_arith)
            requires self@ < p384(), big() < p128(), p512() == p384() * p128();
        let p = wide_mul(self.words, wide_from_u128(BIG_DIVISOR));
        assert(self@ * big() + half() < p512()) by (nonlinear_arith)
            requires self@ < p384(), big() < p128(), half() < big(), p512() == p384() * p128(), p384() > 1;
        let s = wide_add(p, wide_from_u128(500_000_000_000_000_000_000_000_000u128));
        let bound: [u64; 8] = [0, 0, 0, 0, 0, 0, 1, 0];
        assert(words_value(bound) == p384()) by {
            assert(p64() == 0x1_0000_0000_0000_0000nat);
            assert(p128() == 0x1_0000_0000_0000_0000_0000_0000_0000_0000nat);
        }
        wide_lt(s, bound)
    }

    /// Whether `mul_ratio` can take this number with `ratio`: its raw value
    /// times the ratio, plus a half, stays below `2^384`.
    pub fn mul_ratio_fits(&self, ratio: u32) -> (r: bool)
        requires
            self.wf(),
        ensures
            r == (self@ * (ratio as nat) + 5000 < p384()),
    {
        assert(self@ * (ratio as nat) + 5000 < p512()) by (nonlinear_arith)
            requires self@ < p384(), ratio < p128(), p512() == p384() * p128(), p384() > 5000;
        let p = wide_mul(self.words, wide_from_u128(ratio as u128));
        let s = wide_add(p, wide_from_u128(5000));
        let bound: [u64; 8] = [0, 0, 0, 0, 0, 0, 1, 0];
        assert(words_value(bound) == p384()) by {
            assert(p64() == 0x1_0000_0000_0000_0000nat);
            assert(p128() == 0x1_0000_0000_0000_0000_0000_0000_0000_0000nat);
        }
        wide_lt(s, bound)
    }

    /// The sum, where it stays below `2^384`; `None` otherwise.
    pub fn checked_add(self, rhs: BigDecimal) -> (r: Option<BigDecimal>)
        requires
            self.wf(),
            rhs.wf(),
        ensures
            r is Some <==> self@ + rhs@ < p384(),
            r matches Some(x) ==> x@ == self@ + rhs@ && x.wf(),
    {
        assert(self@ + rhs@ < p512()) by (nonlinear_arith)
            requires self@ < p384(), rhs@ < p384(), p512() == p384() * p128(), p128() > 2;
        let s = wide_add(self.words, rhs.words);
        let bound: [u64; 8] = [0, 0, 0, 0, 0, 0, 1, 0];
        assert(words_value(bound) == p384()) by {
            assert(p64() == 0x1_0000_0000_0000_0000nat);
            assert(p128() == 0x1_0000_0000_0000_0000_0000_0000_0000_0000nat);
        }
        if wide_lt(s, bound) {
            Some(BigDecimal { words: s })
        } else {
            None
        }
    }

    /// Whether `mul` can take this number and `rhs` (see `mul_fits`), for
    /// an `rhs` below `2^128`.
    pub fn mul_fits_check(&self, rhs: &BigDecimal) -> (r: bool)
        requires
            self.wf(),
            rhs@ < p128(),
        ensures
            r == mul_fits(self@, rhs@),
    {
        assert(self@ * rhs@ + half() < p512()) by (nonlinear_arith)
            requires self@ < p384(), rhs@ < p128(), p512() == p384() * p128(), half() < p384(), p384() > 1;
        let p = wide_mul(self.words, rhs.words);
        let s = wide_add(p, wide_from_u128(HALF_DIVISOR));
        let bound: [u64; 8] = [0, 0, 0, 0, 0, 0, 1, 0];
        assert(words_value(bound) == p384()) by {
            assert(p64() == 0x1_0000_0000_0000_0000nat);
            assert(p128() == 0x1_0000_0000_0000_0000_0000_0000_0000_0000nat);
        }
        wide_lt(s, bound)
    }

    /// The sum.
    pub fn add(self, rhs: BigDecimal) -> (r: BigDecimal)
        requires
            self@ + rhs@ < p384(),
        ensures
            r@ == self@ + rhs@,
            r.wf(),
    {
        BigDecimal { words: wide_add(self.words, rhs.words) }
    }

    /// The difference, for `rhs <= self`.
    pub fn sub(self, rhs: BigDecimal) -> (r: BigDecimal)
        requires
            self.wf(),
            rhs@ <= self@,
        ensures
            r@ == self@ - rhs@,
            r.wf(),
    {
        BigDecimal { words: wide_sub(self.words, rhs.words) }
    }

    /// The product, rounded to the nearest.
    pub fn mul(self, rhs: BigDecimal) -> (r: BigDecimal)
        requires
            mul_fits(self@, rhs@),
        ensures
            r@ == mul_raw(self@, rhs@),
            r.wf(),
    {
        let p = wide_mul(self.words, rhs.words);
        let s = wide_add(p, wide_from_u128(HALF_DIVISOR));
        let q = wide_div(s, wide_from_u128(BIG_DIVISOR));
        proof { lemma_div_le(self@ * rhs@ + half(), big()); }
        BigDecimal { words: q }
    }

    /// The quotient, for a divisor that is not zero.
    pub fn div(self, rhs: BigDecimal) -> (r: BigDecimal)
        requires
            rhs@ != 0,
            self@ * big() + half() < p384(),
        ensures
            r@ == div_raw(self@, rhs@),
            r.wf(),
    {
        let p = wide_mul(self.words, wide_from_u128(BIG_DIVISOR));
        let s = wide_add(p, wide_from_u128(HALF_DIVISOR));
        let q = wide_div(s, rhs.words);
        proof { lemma_div_le(self@ * big() + half(), rhs@); }
        BigDecimal { words: q }
    }

    /// The number divided by the whole number `rhs`, rounded down.
    pub fn div_u128(self, rhs: u128) -> (r: BigDecimal)
        requires
            self.wf(),
            rhs > 0,
        ensures
            r@ == self@ / (rhs as nat),
            r.wf(),
    {
        let q = wide_div(self.words, wide_from_u128(rhs));
        proof { lemma_div_le(self@, rhs as nat); }
        BigDecimal { words: q }
    }

    /// The number times the whole number `rhs`, rounded to the nearest whole number.
    pub fn round_mul_u128(self, rhs: u128) -> (r: u128)
        requires
            self@ * (rhs as nat) + half() < p384(),
            (self@ * (rhs as nat) + half()) / big() <= u128::MAX,
        ensures
            r == (self@ * (rhs as nat) + half()) / big(),
    {
        let p = wide_mul(self.words, wide_from_u128(rhs));
        let s = wide_add(p, wide_from_u128(HALF_DIVISOR));
        let q = wide_div(s, wide_from_u128(BIG_DIVISOR));
        wide_to_u128(q)
    }

    /// The number rounded to the nearest whole number.
    pub fn round_u128(self) -> (r: u128)
        requires
            self@ + half() < p384(),
            (self@ + half()) / big() <= u128::MAX,
        ensures
            r == (self@ + half()) / big(),
    {
        let s = wide_add(self.words, wide_from_u128(HALF_DIVISOR));
        let q = wide_div(s, wide_from_u128(BIG_DIVISOR));
        wide_to_u128(q)
    }

    /// The whole part of the number.
    pub fn round_down_u128(self) -> (r: u128)
        requires
            self@ / big() <= u128::MAX,
        ensures
            r == self@ / big(),
    {
        let q = wide_div(self.words, wide_from_u128(BIG_DIVISOR));
        wide_to_u128(q)
    }

    /// The number times the ratio `ratio / 10000`, rounded to the nearest.
    pub fn mul_ratio(self, ratio: u32) -> (r: BigDecimal)
        requires
            self@ * (ratio as nat) + 5000 < p384(),
        ensures
            r@ == (self@ * (ratio as nat) + 5000) / 10000,
            r.wf(),
    {
        let p = wide_mul(self.words, wide_from_u128(ratio as u128));
        let s = wide_add(p, wide_from_u128((MAX_RATIO / 2) as u128));
        let q = wide_div(s, wide_from_u128(MAX_RATIO as u128));
        proof { lemma_div_le(self@ * (ratio as nat) + 5000, 10000); }
        BigDecimal { words: q }
    }

    /// The number divided by the ratio `ratio / 10000`, rounded to the nearest.
    pub fn div_ratio(self, ratio: u32) -> (r: BigDecimal)
        requires
            ratio > 0,
            self@ * 10000 + ((ratio / 2) as nat) < p384(),
        ensures
            r@ == (self@ * 10000 + ((ratio / 2) as nat)) / (ratio as nat),
            r.wf(),
    {
        let p = wide_mul(self.words, wide_from_u128(MAX_RATIO as u128));
        let s = wide_add(p, wide_from_u128((ratio / 2) as u128));
        let q = wide_div(s, wide_from_u128(ratio as u128));
        proof { lemma_div_le(self@ * 10000 + ((ratio / 2) as nat), ratio as nat); }
        BigDecimal { words: q }
    }

    /// `self` to the power `exponent`, by repeated squaring with the rounding of
    /// each product.
    pub fn pow(self, exponent: u64) -> (r: BigDecimal)
        requires
            self.wf(),
            pow_fits(big(), self@, exponent as nat),
        ensures
            r@ == pow_raw(self@, exponent as nat),
            r.wf(),
    {
        let mut res = BigDecimal::one();
        let mut x = self;
        let mut e: u64 = exponent;
        while e != 0
            invariant
                res.wf(),
                x.wf(),
                pow_acc(res@, x@, e as nat) == pow_raw(self@, exponent as nat),
                pow_fits(res@, x@, e as nat),
            decreases e,
        {
            assert((e & 1 != 0) == (e % 2 == 1)) by (bit_vector);
            assert(e >> 1 == e / 2) by (bit_vector);
            if e & 1 != 0 {
                res = res.mul(x);
            }
            e = e >> 1;
            if e != 0 {
                x = x.mul(x);
            }
        }
        res
    }
}

/// Multiplying numbers of at least one by each other gives at least one.
pub proof fn lemma_mul_raw_at_least_one(a: nat, b: nat)
    requires
        a >= big(),
        b >= big(),
    ensures
        mul_raw(a, b) >= b,
        mul_raw(a, b) >= big(),
{
    assert(a * b >= big() * b) by (nonlinear_arith) requires a >= big();
    assert((a * b + half()) / big() >= b) by (nonlinear_arith)
        requires a * b >= big() * b, big() > 0;
}

/// A power of a number of at least one is at least one.
pub proof fn lemma_pow_acc_at_least_one(res: nat, x: nat, e: nat)
    requires
        res >= big(),
        x >= big(),
    ensures
        pow_acc(res, x, e) >= big(),
    decreases e,
{
    if e != 0 {
        let res2 = if e % 2 == 1 { mul_raw(res, x) } else { res };
        lemma_mul_raw_at_least_one(res, x);
        lemma_mul_raw_at_least_one(x, x);
        if e / 2 != 0 {
            lemma_pow_acc_at_least_one(res2, mul_raw(x, x), e / 2);
        }
    }
}

/// One is neutral: multiplying by one, or dividing by one, gives the number back.
pub proof fn lemma_one_is_neutral(a: nat)
    ensures
        mul_raw(a, big()) == a,
        mul_raw(big(), a) == a,
        div_raw(a, big()) == a,
{
    assert((a * big() + half()) / big() == a) by (nonlinear_arith)
        requires half() < big(), big() > 0;
    assert(big() * a == a * big()) by (nonlinear_arith);
}

/// 10^k.
pub open spec fn pow10(k: nat) -> nat
    decreases k,
{
    if k == 0 { 1 } else { 10 * pow10((k - 1) as nat) }
}

/// Powers of ten are positive.
proof fn lemma_pow10_pos(k: nat)
    ensures
        pow10(k) >= 1,
    decreases k,
{
    if k > 0 {
        lemma_pow10_pos((k - 1) as nat);
    }
}

/// Powers of ten grow.
pub proof fn lemma_pow10_monotone(i: nat, j: nat)
    requires
        i <= j,
    ensures
        1 <= pow10(i) <= pow10(j),
    decreases j,
{
    lemma_pow10_pos(i);
    if i < j {
        lemma_pow10_monotone(i, (j - 1) as nat);
    }
}

proof fn lemma_pow10_27()
    ensures
        pow10(27) == big(),
{
    reveal_with_fuel(pow10, 28);
}

/// Powers of ten multiply by adding exponents.
pub proof fn lemma_pow10_add(a: nat, b: nat)
    ensures
        pow10(a + b) == pow10(a) * pow10(b),
    decreases b,
{
    if b > 0 {
        let c = (b - 1) as nat;
        lemma_pow10_add(a, c);
        assert(a + b == (a + c) + 1);
        assert(pow10(a + b) == 10 * pow10(a + c));
        assert(pow10(b) == 10 * pow10(c));
        let x = pow10(a);
        let y = pow10(c);
        assert(x * (10 * y) == 10 * (x * y)) by (nonlinear_arith);
    } else {
        assert(a + b == a);
        assert(pow10(b) == 1);
    }
}

/// The powers of ten below `2^384` are those up to `10^115`.
pub proof fn lemma_pow10_below_p384(k: nat)
    ensures
        pow10(k) < p384() <==> k <= 115,
{
    lemma_pow10_27();
    assert(pow10(8) == 100_000_000) by { reveal_with_fuel(pow10, 9); }
    assert(pow10(7) == 10_000_000) by { reveal_with_fuel(pow10, 8); }
    lemma_pow10_add(27, 27);
    lemma_pow10_add(54, 27);
    lemma_pow10_add(81, 27);
    lemma_pow10_add(108, 7);
    lemma_pow10_add(108, 8);
    assert(pow10(115) < p384()) by (nonlinear_arith)
        requires pow10(115) == big() * big() * big() * big() * 10_000_000,
            big() == 1_000_000_000_000_000_000_000_000_000nat, p384() == p128() * p128() * p128(),
            p128() == 0x1_0000_0000_0000_0000_0000_0000_0000_0000nat;
    assert(pow10(116) >= p384()) by (nonlinear_arith)
        requires pow10(116) == big() * big() * big() * big() * 100_000_000,
            big() == 1_000_000_000_000_000_000_000_000_000nat, p384() == p128() * p128() * p128(),
            p128() == 0x1_0000_0000_0000_0000_0000_0000_0000_0000nat;
    if k <= 115 {
        lemma_pow10_monotone(k, 115);
    } else {
        lemma_pow10_monotone(116, k);
    }
}

/// 10^k in 512 bits.
fn wide_pow10(k: u32) -> (r: [u64; 8])
    requires
        pow10(k as nat) < p512(),
    ensures
        words_value(r) == pow10(k as nat),
{
    let mut acc = wide_from_u128(1);
    let ten = wide_from_u128(10);
    let mut i: u32 = 0;
    while i < k
        invariant
            i <= k,
            words_value(acc) == pow10(i as nat),
            words_value(ten) == 10,
            pow10(k as nat) < p512(),
        decreases k - i,
    {
        proof { lemma_pow10_monotone((i + 1) as nat, k as nat); }
        acc = wide_mul(acc, ten);
        i = i + 1;
    }
    acc
}

/// The decimals that a price and a token's extra decimals divide by.
pub open spec fn price_decimals(price: Price, extra_decimals: u8) -> nat {
    (price.decimals + extra_decimals) as nat
}

/// Raw value of `balance` tokens at `price`: `balance * multiplier /
/// 10^(decimals + extra_decimals)`, rounded down where it has more than 27
/// decimals.
pub open spec fn value_raw(balance: nat, price: Price, extra_decimals: u8) -> nat {
    let d = price_decimals(price, extra_decimals);
    if d > 27 {
        balance * (price.multiplier as nat) / pow10((d - 27) as nat)
    } else {
        balance * (price.multiplier as nat) * pow10((27 - d) as nat)
    }
}

/// The amount of a token at `price` that the raw value `v` is worth,
/// rounded down.
pub open spec fn balance_in_price_raw(v: nat, price: Price, extra_decimals: u8) -> nat {
    let d = price_decimals(price, extra_decimals);
    if d > 27 {
        v * pow10((d - 27) as nat) / (price.multiplier as nat)
    } else {
        v / pow10((27 - d) as nat) / (price.multiplier as nat)
    }
}

/// `balance_in_price_raw` is computed without overflow or division by zero.
pub open spec fn balance_in_price_ok(v: nat, price: Price, extra_decimals: u8) -> bool {
    let d = price_decimals(price, extra_decimals);
    &&& price.decimals + extra_decimals <= 255
    &&& price.multiplier > 0
    &&& d > 27 ==> pow10((d - 27) as nat) < p384() && v * pow10((d - 27) as nat) < p384()
    &&& balance_in_price_raw(v, price, extra_decimals) <= u128::MAX
}

impl BigDecimal {
    /// The value of `balance` tokens (with `extra_decimals` more decimals
    /// than the token itself) at `price`.
    pub fn from_balance_price(balance: Balance, price: &Price, extra_decimals: u8) -> (r: BigDecimal)
        requires
            price.decimals + extra_decimals <= 255,
            price_decimals(*price, extra_decimals) > 27 ==> pow10((price_decimals(*price, extra_decimals) - 27) as nat) < p384(),
        ensures
            r@ == value_raw(balance as nat, *price, extra_decimals),
            r.wf(),
            r@ < p128() * p128() * big(),
    {
        let d: u8 = price.decimals + extra_decimals;
        let ghost m = price.multiplier as nat;
        let ghost b = balance as nat;
        assert(m * b < p128() * p128()) by (nonlinear_arith) requires m < p128(), b < p128();
        assert(m * b == b * m) by (nonlinear_arith);
        assert(p128() * p128() < p512()) by (nonlinear_arith)
            requires p512() == p128() * p128() * p128() * p128(), p128() > 1;
        let num = wide_mul(wide_from_u128(price.multiplier), wide_from_u128(balance));
        proof { lemma_pow10_27(); }
        if d > 27 {
            proof { lemma_pow10_monotone(0, (d - 27) as nat); }
            let q = wide_div(num, wide_pow10((d - 27) as u32));
            assert(b * m / pow10((d - 27) as nat) <= b * m) by (nonlinear_arith)
                requires pow10((d - 27) as nat) >= 1;
            assert(b * m < p128() * p128() * big()) by (nonlinear_arith)
                requires b * m < p128() * p128(), big() >= 1;
            BigDecimal { words: q }
        } else {
            proof { lemma_pow10_monotone((27 - d) as nat, 27); }
            let f = wide_pow10((27 - d) as u32);
            assert(b * m * pow10((27 - d) as nat) < p128() * p128() * big()) by (nonlinear_arith)
                requires b * m < p128() * p128(), 1 <= pow10((27 - d) as nat) <= big();
            assert(p128() * p128() * big() < p384()) by (nonlinear_arith)
                requires big() < p128(), p128() > 0, p384() == p128() * p128() * p128();
            let v = wide_mul(num, f);
            BigDecimal { words: v }
        }
    }

    /// The amount of a token (with `extra_decimals` more decimals than the
    /// token itself) at `price` that this value is worth, rounded down.
    pub fn to_balance_in_price(&self, price: &Price, extra_decimals: u8) -> (r: Balance)
        requires
            self.wf(),
            balance_in_price_ok(self@, *price, extra_decimals),
        ensures
            r == balance_in_price_raw(self@, *price, extra_decimals),
    {
        let d: u8 = price.decimals + extra_decimals;
        proof { lemma_pow10_27(); }
        let mult = wide_from_u128(price.multiplier);
        if d > 27 {
            let f = wide_pow10((d - 27) as u32);
            let val = wide_mul(self.words, f);
            wide_to_u128(wide_div(val, mult))
        } else {
            proof { lemma_pow10_monotone((27 - d) as nat, 27); }
            let f = wide_pow10((27 - d) as u32);
            let val = wide_div(self.words, f);
            wide_to_u128(wide_div(val, mult))
        }
    }
}

} // verus!
