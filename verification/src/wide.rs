//! Unsigned integers of 512 bits held as eight little-endian 64-bit words.
//! The arithmetic on them is done by `primitive_types::U512`.

use vstd::prelude::*;
use primitive_types::U512;

verus! {

/// 2^64
pub open spec fn p64() -> nat { 0x1_0000_0000_0000_0000nat }

/// 2^128
pub open spec fn p128() -> nat { 0x1_0000_0000_0000_0000_0000_0000_0000_0000nat }

/// 2^384
pub open spec fn p384() -> nat { p128() * p128() * p128() }

/// 2^512
pub open spec fn p512() -> nat { p128() * p128() * p128() * p128() }

/// The number that the eight little-endian words stand for.
pub open spec fn words_value(w: [u64; 8]) -> nat {
    w[0] as nat + p64() * (w[1] as nat + p64() * (w[2] as nat + p64() * (w[3] as nat
        + p64() * (w[4] as nat + p64() * (w[5] as nat + p64() * (w[6] as nat + p64() * (w[7] as nat)))))))
}

proof fn lemma_words_value_bounds(w: [u64; 8])
    ensures
        words_value(w) < p512(),
        words_value(w) < p128() <==> (w[2] == 0 && w[3] == 0 && w[4] == 0 && w[5] == 0 && w[6] == 0 && w[7] == 0),
        (w[2] == 0 && w[3] == 0 && w[4] == 0 && w[5] == 0 && w[6] == 0 && w[7] == 0) ==>
            words_value(w) == w[0] as nat + p64() * (w[1] as nat),
        words_value(w) == 0 <==> (w[0] == 0 && w[1] == 0 && w[2] == 0 && w[3] == 0 && w[4] == 0 && w[5] == 0 && w[6] == 0 && w[7] == 0),
{
    let m = p64() - 1;
    assert(w[7] as nat <= m);
    let t7 = w[7] as nat;
    let t6 = w[6] as nat + p64() * t7;
    assert(t6 < p64() * p64()) by (nonlinear_arith) requires w[6] as nat <= m, t7 <= m, m == p64() - 1, t6 == w[6] as nat + p64() * t7;
    let t5 = w[5] as nat + p64() * t6;
    assert(t5 < p64() * p64() * p64()) by (nonlinear_arith) requires w[5] as nat <= m, t6 < p64() * p64(), m == p64() - 1, t5 == w[5] as nat + p64() * t6;
    let t4 = w[4] as nat + p64() * t5;
    assert(t4 < p64() * p64() * p64() * p64()) by (nonlinear_arith) requires w[4] as nat <= m, t5 < p64() * p64() * p64(), m == p64() - 1, t4 == w[4] as nat + p64() * t5;
    let t3 = w[3] as nat + p64() * t4;
    assert(t3 < p64() * p64() * p64() * p64() * p64()) by (nonlinear_arith) requires w[3] as nat <= m, t4 < p64() * p64() * p64() * p64(), m == p64() - 1, t3 == w[3] as nat + p64() * t4;
    let t2 = w[2] as nat + p64() * t3;
    assert(t2 < p64() * p64() * p64() * p64() * p64() * p64()) by (nonlinear_arith) requires w[2] as nat <= m, t3 < p64() * p64() * p64() * p64() * p64(), m == p64() - 1, t2 == w[2] as nat + p64() * t3;
    let t1 = w[1] as nat + p64() * t2;
    let t0 = w[0] as nat + p64() * t1;
    assert(t0 == words_value(w));
    assert(p64() * p64() * p64() * p64() * p64() * p64() * p64() * p64() == p512()) by (nonlinear_arith);
    assert(t0 < p512()) by (nonlinear_arith) requires w[0] as nat <= m, w[1] as nat <= m,
        t2 < p64() * p64() * p64() * p64() * p64() * p64(), m == p64() - 1, t1 == w[1] as nat + p64() * t2,
        t0 == w[0] as nat + p64() * t1, p64() * p64() * p64() * p64() * p64() * p64() * p64() * p64() == p512();
    assert(p64() * p64() == p128());
    if t2 == 0 {
        assert(w[2] == 0 && t3 == 0) by (nonlinear_arith) requires t2 == w[2] as nat + p64() * t3, t2 == 0, p64() > 0;
        assert(w[3] == 0 && t4 == 0) by (nonlinear_arith) requires t3 == w[3] as nat + p64() * t4, t3 == 0, p64() > 0;
        assert(w[4] == 0 && t5 == 0) by (nonlinear_arith) requires t4 == w[4] as nat + p64() * t5, t4 == 0, p64() > 0;
        assert(w[5] == 0 && t6 == 0) by (nonlinear_arith) requires t5 == w[5] as nat + p64() * t6, t5 == 0, p64() > 0;
        assert(w[6] == 0 && t7 == 0) by (nonlinear_arith) requires t6 == w[6] as nat + p64() * t7, t6 == 0, p64() > 0;
    } else {
        assert(t0 >= p128()) by (nonlinear_arith) requires t2 >= 1, t1 == w[1] as nat + p64() * t2,
            t0 == w[0] as nat + p64() * t1, p64() * p64() == p128(), p64() > 0;
        assert(!(w[2] == 0 && w[3] == 0 && w[4] == 0 && w[5] == 0 && w[6] == 0 && w[7] == 0));
    }
    if !(w[2] == 0 && w[3] == 0 && w[4] == 0 && w[5] == 0 && w[6] == 0 && w[7] == 0) {
        assert(t2 != 0) by (nonlinear_arith) requires t2 == w[2] as nat + p64() * t3, t3 == w[3] as nat + p64() * t4,
            t4 == w[4] as nat + p64() * t5, t5 == w[5] as nat + p64() * t6, t6 == w[6] as nat + p64() * t7,
            t7 == w[7] as nat, p64() > 0,
            !(w[2] == 0 && w[3] == 0 && w[4] == 0 && w[5] == 0 && w[6] == 0 && w[7] == 0);
    }
    assert(w[0] as nat + p64() * (w[1] as nat) < p128()) by (nonlinear_arith) requires w[0] as nat <= m, w[1] as nat <= m, m == p64() - 1, p64() * p64() == p128();
    if t0 == 0 {
        assert(w[0] == 0 && t1 == 0) by (nonlinear_arith) requires t0 == w[0] as nat + p64() * t1, t0 == 0, p64() > 0;
        assert(w[1] == 0 && t2 == 0) by (nonlinear_arith) requires t1 == w[1] as nat + p64() * t2, t1 == 0, p64() > 0;
    }
}

/// The words of a `u128`.
pub fn wide_from_u128(x: u128) -> (r: [u64; 8])
    ensures
        words_value(r) == x as nat,
{
    let lo: u64 = x as u64;
    let hi: u64 = (x >> 64u32) as u64;
    assert(x == lo as u128 + (hi as u128) * 0x1_0000_0000_0000_0000u128) by (bit_vector)
        requires lo == x as u64, hi == (x >> 64u32) as u64;
    let r: [u64; 8] = [lo, hi, 0, 0, 0, 0, 0, 0];
    proof { lemma_words_value_bounds(r); }
    r
}

/// The `u128` that the words stand for, where it fits.
pub fn wide_to_u128(w: [u64; 8]) -> (r: u128)
    requires
        words_value(w) < p128(),
    ensures
        r as nat == words_value(w),
{
    proof { lemma_words_value_bounds(w); }
    let lo: u64 = w[0];
    let hi: u64 = w[1];
    let r: u128 = (lo as u128) | ((hi as u128) << 64u32);
    assert(r == lo as u128 + (hi as u128) * 0x1_0000_0000_0000_0000u128) by (bit_vector)
        requires r == (lo as u128) | ((hi as u128) << 64u32);
    r
}

/// Whether the words stand for zero.
pub fn wide_is_zero(w: [u64; 8]) -> (r: bool)
    ensures
        r == (words_value(w) == 0),
{
    proof { lemma_words_value_bounds(w); }
    w[0] == 0 && w[1] == 0 && w[2] == 0 && w[3] == 0 && w[4] == 0 && w[5] == 0 && w[6] == 0 && w[7] == 0
}

/// `U512 + U512`: the sum, where it fits in 512 bits (it panics otherwise).
#[verifier::external_body]
pub(crate) fn wide_add(a: [u64; 8], b: [u64; 8]) -> (r: [u64; 8])
    requires
        words_value(a) + words_value(b) < p512(),
    ensures
        words_value(r) == words_value(a) + words_value(b),
{
    (U512(a) + U512(b)).0
}

/// `U512 - U512`: the difference, where it is not negative (it panics otherwise).
#[verifier::external_body]
pub(crate) fn wide_sub(a: [u64; 8], b: [u64; 8]) -> (r: [u64; 8])
    requires
        words_value(b) <= words_value(a),
    ensures
        words_value(r) == words_value(a) - words_value(b),
{
    (U512(a) - U512(b)).0
}

/// `U512 * U512`: the product, where it fits in 512 bits (it panics otherwise).
#[verifier::external_body]
pub(crate) fn wide_mul(a: [u64; 8], b: [u64; 8]) -> (r: [u64; 8])
    requires
        words_value(a) * words_value(b) < p512(),
    ensures
        words_value(r) == words_value(a) * words_value(b),
{
    (U512(a) * U512(b)).0
}

/// `U512 / U512`: the quotient rounded down, for a divisor that is not zero
/// (it panics otherwise).
#[verifier::external_body]
pub(crate) fn wide_div(a: [u64; 8], b: [u64; 8]) -> (r: [u64; 8])
    requires
        words_value(b) != 0,
    ensures
        words_value(r) == words_value(a) / words_value(b),
{
    (U512(a) / U512(b)).0
}

/// `U512 < U512`: whether the first number is the smaller.
#[verifier::external_body]
pub(crate) fn wide_lt(a: [u64; 8], b: [u64; 8]) -> (r: bool)
    ensures
        r == (words_value(a) < words_value(b)),
{
    U512(a) < U512(b)
}

} // verus!
