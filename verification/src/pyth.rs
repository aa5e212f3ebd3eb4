//! Prices from the Pyth oracle: what the contract knows of each token's feed,
//! the conversion of a Pyth price into a `Price`, and the checks made on what
//! the oracle and the staking contracts report.

use vstd::prelude::*;
use crate::big_decimal::{BigDecimal, big, half, mul_raw, div_raw, mul_fits, pow10, lemma_pow10_monotone};
use crate::wide::p384;
use crate::prices::Price;
use crate::account_map::AccountMap;
use crate::utils::TokenId;
use crate::lending::pow10_u128;
use crate::json::hex_char;
use crate::utils::{Timestamp, sec_to_nano, u128_ratio, spec_u128_ratio, push_new, string_views, push_if_new};
use vstd::string::StringSliceAdditionalSpecFns;

verus! {

/// The identifier of a Pyth price feed.
#[derive(Clone, PartialEq, Eq, Hash)]
pub struct PriceIdentifier(pub [u8; 32]);

/// Why a text is not a price feed identifier.
#[derive(Debug, PartialEq, Eq)]
pub enum PriceIdentifierError {
    /// The text is not 64 bytes long; it has this many.
    WrongLength(usize),
    /// One of the 64 bytes is not a hex digit.
    InvalidHex,
}

/// The value of one staked NEAR-like token in its smallest unit (10^24): the
/// staking contracts report the underlying amount that this many are worth.
pub const ONE_NEAR: u128 = 1_000_000_000_000_000_000_000_000u128;

/// What the contract knows of the Pyth feed of a token.
#[derive(Clone)]
pub struct TokenPythInfo {
    /// The decimals of the token.
    pub decimals: u8,
    /// The decimal digits kept of the feed's price.
    pub fraction_digits: u8,
    pub price_identifier: PriceIdentifier,
    /// A view method of the token's contract whose result scales the price
    /// (the value of one staked token in the underlying one).
    pub extra_call: Option<String>,
    /// A fixed price used in place of the feed.
    pub default_price: Option<Price>,
}

/// A price reported by Pyth: `price * 10^expo`.
#[derive(PartialEq, Eq, Debug)]
pub struct PythPrice {
    pub price: i64,
    /// Confidence interval around the price.
    pub conf: u64,
    /// The exponent.
    pub expo: i32,
    /// Unix time, in seconds, at which the price was computed.
    pub publish_time: i64,
}

/// The raw fixed-point value that the conversion of a Pyth price computes
/// before it keeps the whole part: the price, scaled by `10^expo`, then by
/// `10^fraction_digits`, with the rounding of each fixed-point operation.
pub open spec fn pyth_scaled(price: nat, expo: int) -> nat {
    if expo > 0 {
        mul_raw(price * big(), pow10(expo as nat) * big())
    } else {
        div_raw(price * big(), pow10((-expo) as nat) * big())
    }
}

/// See `pyth_scaled`.
pub open spec fn pyth_multiplier_raw(price: nat, expo: int, fraction_digits: nat) -> nat {
    mul_raw(pyth_scaled(price, expo), pow10(fraction_digits) * big())
}

/// The inputs on which the conversion of a Pyth price neither meets an invalid
/// price nor overflows.
pub open spec fn pyth_conversion_ok(token_info: TokenPythInfo, pyth_price: PythPrice) -> bool {
    let price = pyth_price.price as nat;
    let expo = pyth_price.expo as int;
    &&& pyth_price.price > 0
    &&& -38 <= expo <= 38
    &&& token_info.fraction_digits <= 38
    &&& token_info.decimals + token_info.fraction_digits <= u8::MAX
    &&& (expo > 0 ==> mul_fits(price * big(), pow10(expo as nat) * big()))
    &&& (expo <= 0 ==> price * big() * big() + half() < p384())
    &&& mul_fits(pyth_scaled(price, expo), pow10(token_info.fraction_digits as nat) * big())
    &&& pyth_multiplier_raw(price, expo, token_info.fraction_digits as nat) / big() <= u128::MAX
}

/// The price of a token from its Pyth price: the Pyth price scaled to keep
/// `fraction_digits` more decimal digits, its whole part as the multiplier, and
/// the token's decimals plus those digits as the decimals.
pub fn pyth_price_to_price_oracle_price(token_info: &TokenPythInfo, pyth_price: &PythPrice) -> (r: Price)
    requires
        pyth_conversion_ok(*token_info, *pyth_price),
    ensures
        r.multiplier == pyth_multiplier_raw(pyth_price.price as nat, pyth_price.expo as int,
            token_info.fraction_digits as nat) / big(),
        r.decimals == token_info.decimals + token_info.fraction_digits,
{
    let price = pyth_price.price as u128;
    let expo = pyth_price.expo;
    let multiplier = BigDecimal::from_u128(price);
    let e: u8 = if expo > 0 { expo as u8 } else { (-expo) as u8 };
    let scale = BigDecimal::from_u128(pow10_u128(e));
    let scaled = if expo > 0 { multiplier.mul(scale) } else {
        proof { lemma_pow10_monotone(0, e as nat); }
        multiplier.div(scale)
    };
    let digits = BigDecimal::from_u128(pow10_u128(token_info.fraction_digits));
    let m = scaled.mul(digits);
    Price {
        multiplier: m.round_down_u128(),
        decimals: token_info.decimals + token_info.fraction_digits,
    }
}

/// The price of a token from its Pyth price and, for a staked token, the
/// amount of the underlying token that `ONE_NEAR` of it is worth, as its
/// contract reports it: the converted price scaled by that amount.
pub fn token_price_from_pyth(token_info: &TokenPythInfo, pyth_price: &PythPrice, extra_call_amount: Option<u128>)
    -> (r: Price)
    requires
        pyth_conversion_ok(*token_info, *pyth_price),
        extra_call_amount matches Some(a) ==> spec_u128_ratio(
            pyth_multiplier_raw(pyth_price.price as nat, pyth_price.expo as int, token_info.fraction_digits as nat) / big(),
            a as nat, ONE_NEAR as nat) <= u128::MAX,
    ensures
        r.decimals == token_info.decimals + token_info.fraction_digits,
        ({
            let m = pyth_multiplier_raw(pyth_price.price as nat, pyth_price.expo as int, token_info.fraction_digits as nat) / big();
            r.multiplier == match extra_call_amount {
                Some(a) => spec_u128_ratio(m, a as nat, ONE_NEAR as nat),
                None => m,
            }
        }),
{
    let price = pyth_price_to_price_oracle_price(token_info, pyth_price);
    match extra_call_amount {
        Some(a) => Price { multiplier: u128_ratio(price.multiplier, a, ONE_NEAR), decimals: price.decimals },
        None => price,
    }
}

/// Whether a Pyth price published at `publish_time` (Unix seconds) is still
/// valid at `now` (nanoseconds) when prices stay valid `valid_duration_sec`
/// seconds: the time must be positive and, taken as a 32-bit number of
/// seconds, plus the validity, must not end before `now`.
pub fn pyth_price_is_fresh(publish_time: i64, valid_duration_sec: u32, now: Timestamp) -> (r: bool)
    requires
        publish_time > 0 ==> (publish_time as u32) + valid_duration_sec <= u32::MAX,
    ensures
        r == (publish_time > 0 && ((publish_time as u32) + valid_duration_sec) * 1_000_000_000 >= now),
{
    publish_time > 0 && sec_to_nano(publish_time as u32 + valid_duration_sec) >= now
}

/// Whether a staking token's new price may follow the last one recorded, where
/// its asset limits the change to `max_change_rate` basis points: it must not
/// fall, and may rise by at most that part of the last price. With no limit or
/// no last price, every price is accepted.
pub fn staking_token_price_in_range(max_change_rate: Option<u32>, last_price: Option<u128>, price: u128) -> (r: bool)
    requires
        match (max_change_rate, last_price) {
            (Some(rate), Some(last)) => last <= price ==> last + spec_u128_ratio(last as nat, rate as nat, 10000) <= u128::MAX,
            _ => true,
        },
    ensures
        r == match (max_change_rate, last_price) {
            (Some(rate), Some(last)) => last <= price && price <= last + spec_u128_ratio(last as nat, rate as nat, 10000),
            _ => true,
        },
{
    match (max_change_rate, last_price) {
        (Some(rate), Some(last)) => last <= price && last + u128_ratio(last, rate as u128, 10000) >= price,
        _ => true,
    }
}

/// The calls to wait for before the prices of tokens with these feeds are
/// known, in order and each once: each feed's identifier in hex, then the
/// token's extra call where it has one.
pub open spec fn price_flags(infos: Seq<TokenPythInfo>) -> Seq<Seq<char>>
    decreases infos.len(),
{
    if infos.len() == 0 {
        Seq::empty()
    } else {
        let info = infos.last();
        let with_feed = push_new(price_flags(infos.drop_last()), hex_lower(info.price_identifier.0@));
        match info.extra_call {
            Some(c) => push_new(with_feed, c@),
            None => with_feed,
        }
    }
}

/// The calls that the prices of tokens with these feeds wait for, each once:
/// for each token in turn its feed's identifier in hex, then its extra call.
pub fn token_involved_promise_flags(infos: &Vec<TokenPythInfo>) -> (r: Vec<String>)
    ensures
        string_views(r@) == price_flags(infos@),
{
    let mut flags: Vec<String> = Vec::new();
    let mut i: usize = 0;
    while i < infos.len()
        invariant
            i <= infos.len(),
            string_views(flags@) == price_flags(infos@.take(i as int)),
        decreases infos.len() - i,
    {
        let info = &infos[i];
        push_if_new(&mut flags, info.price_identifier.to_string());
        match &info.extra_call {
            Some(c) => push_if_new(&mut flags, c.clone()),
            None => {},
        }
        proof {
            assert(infos@.take(i + 1).drop_last() =~= infos@.take(i as int));
            assert(infos@.take(i + 1).last() == infos@[i as int]);
        }
        i = i + 1;
    }
    proof {
        assert(infos@.take(infos.len() as int) =~= infos@);
    }
    flags
}

/// Of the involved tokens, in order: those whose prices the oracle must give
/// (their feed info has no fixed price), and the fixed prices of the others.
pub open spec fn promise_split(ids: Seq<Seq<char>>, infos: Map<Seq<char>, TokenPythInfo>) -> (Seq<Seq<char>>, Map<Seq<char>, Price>)
    decreases ids.len(),
{
    if ids.len() == 0 {
        (Seq::empty(), Map::empty())
    } else {
        let (asked, fixed) = promise_split(ids.drop_last(), infos);
        let t = ids.last();
        match infos[t].default_price {
            Some(p) => (asked, fixed.insert(t, p)),
            None => (asked.push(t), fixed),
        }
    }
}

/// Splits the involved tokens (see `promise_split`); every one of them must
/// have feed info.
pub fn prepare_promise_tokens(involved_tokens: &Vec<TokenId>, token_pyth_info: &AccountMap<TokenPythInfo>)
    -> (r: (Vec<TokenId>, AccountMap<Price>))
    requires
        token_pyth_info.wf(),
        forall|i: int| 0 <= i < involved_tokens@.len() ==> token_pyth_info@.contains_key(#[trigger] involved_tokens@[i]@),
    ensures
        r.1.wf(),
        (string_views(r.0@), r.1@) == promise_split(string_views(involved_tokens@), token_pyth_info@),
{
    let ghost ids = string_views(involved_tokens@);
    let mut asked: Vec<TokenId> = Vec::new();
    let mut fixed: AccountMap<Price> = AccountMap::new();
    let n = involved_tokens.len();
    let mut i: usize = 0;
    proof {
        assert(string_views(asked@) =~= Seq::<Seq<char>>::empty());
        assert(ids.take(0) =~= Seq::<Seq<char>>::empty());
    }
    while i < n
        invariant
            n == involved_tokens@.len(),
            ids == string_views(involved_tokens@),
            i <= n,
            token_pyth_info.wf(),
            fixed.wf(),
            forall|j: int| 0 <= j < involved_tokens@.len() ==> token_pyth_info@.contains_key(#[trigger] involved_tokens@[j]@),
            (string_views(asked@), fixed@) == promise_split(ids.take(i as int), token_pyth_info@),
        decreases n - i,
    {
        let t = &involved_tokens[i];
        proof {
            assert(ids.take(i + 1).drop_last() =~= ids.take(i as int));
            assert(ids.take(i + 1).last() == t@);
        }
        let info = match token_pyth_info.get_ref(t) {
            Some(info) => info,
            None => { return (asked, fixed); },
        };
        match info.default_price {
            Some(p) => fixed.insert(t, p),
            None => {
                let ghost before = asked@;
                asked.push(t.clone());
                proof { assert(string_views(asked@) =~= string_views(before).push(t@)); }
            },
        }
        i = i + 1;
    }
    proof {
        assert(ids.take(n as int) =~= ids);
    }
    (asked, fixed)
}

/// The digits of `bytes` in lower-case hex, two per byte, high half first.
pub open spec fn hex_lower(bytes: Seq<u8>) -> Seq<char> {
    Seq::new(2 * bytes.len(), |i: int|
        if i % 2 == 0 { hex_char((bytes[i / 2] / 16) as nat) } else { hex_char((bytes[i / 2] % 16) as nat) })
}

/// A hex digit, in either case.
pub open spec fn is_hex_digit(b: u8) -> bool {
    (48 <= b <= 57) || (97 <= b <= 102) || (65 <= b <= 70)
}

/// The value of the hex digit `b`.
pub open spec fn hex_value(b: u8) -> nat {
    if 48 <= b <= 57 { (b - 48) as nat } else if 97 <= b <= 102 { (b - 87) as nat } else { (b - 55) as nat }
}

/// Whether every byte is a hex digit.
pub open spec fn all_hex_digits(data: Seq<u8>) -> bool {
    forall|i: int| 0 <= i < data.len() ==> is_hex_digit(#[trigger] data[i])
}

/// The bytes that pairs of hex digits stand for, high half first.
pub open spec fn hex_decoded(data: Seq<u8>) -> Seq<u8> {
    Seq::new(data.len() / 2, |i: int| (hex_value(data[2 * i]) * 16 + hex_value(data[2 * i + 1])) as u8)
}

#[verifier::external_type_specification]
#[verifier::external_body]
pub struct ExFromHexError(hex::FromHexError);

/// `hex::encode`: the bytes written as lower-case hex digits, two per byte,
/// high half first.
#[verifier::external_body]
fn hex_encode_32(bytes: &[u8; 32]) -> (r: String)
    ensures
        r@ == hex_lower(bytes@),
{
    hex::encode(bytes)
}

/// `hex::decode_to_slice` into 32 bytes from 64: it fails exactly when one of
/// the 64 is not a hex digit (of either case); otherwise byte `i` is the one
/// that the digits at `2i` and `2i + 1` stand for.
#[verifier::external_body]
fn hex_decode_32(data: &[u8]) -> (r: Result<[u8; 32], hex::FromHexError>)
    requires
        data@.len() == 64,
    ensures
        r is Ok <==> all_hex_digits(data@),
        r matches Ok(b) ==> b@ == hex_decoded(data@),
{
    let mut out = [0u8; 32];
    match hex::decode_to_slice(data, &mut out) {
        Ok(()) => Ok(out),
        Err(e) => Err(e),
    }
}

impl PriceIdentifier {
    /// The identifier as 64 lower-case hex digits.
    pub fn to_string(&self) -> (r: String)
        ensures
            r@ == hex_lower(self.0@),
    {
        hex_encode_32(&self.0)
    }

    /// The identifier written as 64 hex digits of either case.
    pub fn from_hex(value: &str) -> (r: Result<PriceIdentifier, PriceIdentifierError>)
        ensures
            value.spec_bytes().len() != 64 ==> r == Err::<PriceIdentifier, PriceIdentifierError>(
                PriceIdentifierError::WrongLength(value.spec_bytes().len() as usize)),
            value.spec_bytes().len() == 64 ==> (r is Ok <==> all_hex_digits(value.spec_bytes())),
            value.spec_bytes().len() == 64 && !all_hex_digits(value.spec_bytes())
                ==> r == Err::<PriceIdentifier, PriceIdentifierError>(PriceIdentifierError::InvalidHex),
            r matches Ok(id) ==> id.0@ == hex_decoded(value.spec_bytes()),
    {
        let bytes = value.as_bytes();
        if bytes.len() != 64 {
            return Err(PriceIdentifierError::WrongLength(bytes.len()));
        }
        match hex_decode_32(bytes) {
            Ok(b) => Ok(PriceIdentifier(b)),
            Err(_) => Err(PriceIdentifierError::InvalidHex),
        }
    }
}

proof fn lemma_hex_char(d: nat)
    requires
        d < 16,
    ensures
        '\0' <= hex_char(d) <= '\u{7f}',
        is_hex_digit(hex_char(d) as u8),
        hex_value(hex_char(d) as u8) == d,
{
}

/// The hex form of an identifier reads back as that identifier: a text whose
/// chars are those that `to_string` writes is 64 bytes, all hex digits, that
/// `from_hex` decodes to the identifier's bytes.
pub proof fn lemma_hex_form_reads_back(id: PriceIdentifier, s: &str)
    requires
        s@ == hex_lower(id.0@),
    ensures
        s.spec_bytes().len() == 64,
        all_hex_digits(s.spec_bytes()),
        hex_decoded(s.spec_bytes()) == id.0@,
{
    let b = id.0@;
    assert(b.len() == 32);
    assert forall|i: int| 0 <= i < s@.len() implies '\0' <= #[trigger] s@[i] <= '\u{7f}' by {
        if i % 2 == 0 { lemma_hex_char((b[i / 2] / 16) as nat); } else { lemma_hex_char((b[i / 2] % 16) as nat); }
    }
    assert(vstd::string::is_ascii(s));
    vstd::string::is_ascii_spec_bytes(s);
    let bytes = s.spec_bytes();
    assert(bytes.len() == 64);
    assert forall|i: int| 0 <= i < 64 implies is_hex_digit(#[trigger] bytes[i])
        && hex_value(bytes[i]) == (if i % 2 == 0 { b[i / 2] / 16 } else { b[i / 2] % 16 }) by {
        assert(bytes[i] == s@[i] as u8);
        if i % 2 == 0 { lemma_hex_char((b[i / 2] / 16) as nat); } else { lemma_hex_char((b[i / 2] % 16) as nat); }
    }
    assert forall|i: int| 0 <= i < 32 implies #[trigger] hex_decoded(bytes)[i] == b[i] by {
        assert(is_hex_digit(bytes[2 * i]) && is_hex_digit(bytes[2 * i + 1]));
        assert((2 * i) / 2 == i && (2 * i + 1) / 2 == i && (2 * i) % 2 == 0 && (2 * i + 1) % 2 == 1);
        assert((b[i] / 16) * 16 + b[i] % 16 == b[i]);
    }
    assert(hex_decoded(bytes) =~= b);
}

proof fn lemma_mul_raw_whole(a: nat, b: nat)
    ensures
        mul_raw(a * big(), b * big()) == a * b * big(),
{
    assert(a * big() * (b * big()) + half() == a * b * big() * big() + half()) by (nonlinear_arith);
    assert((a * b * big() * big() + half()) / big() == a * b * big()) by (nonlinear_arith)
        requires half() < big(), big() > 0;
}

proof fn lemma_pow10_add(i: nat, j: nat)
    ensures
        pow10(i + j) == pow10(i) * pow10(j),
    decreases i,
{
    if i > 0 {
        lemma_pow10_add((i - 1) as nat, j);
        assert(pow10(i + j) == 10 * pow10((i - 1 + j) as nat));
        assert(10 * (pow10((i - 1) as nat) * pow10(j)) == (10 * pow10((i - 1) as nat)) * pow10(j))
            by (nonlinear_arith);
        assert(pow10(i) == 10 * pow10((i - 1) as nat));
    } else {
        assert(pow10(i) == 1);
        assert(pow10(i + j) == pow10(j));
        assert(1 * pow10(j) == pow10(j));
    }
}

/// A Pyth price with a non-negative exponent converts exactly: the multiplier
/// is `price * 10^(expo + fraction_digits)`, with nothing lost to rounding.
pub proof fn lemma_whole_exponent_is_exact(price: nat, expo: nat, fraction_digits: nat)
    ensures
        pyth_multiplier_raw(price, expo as int, fraction_digits) / big()
            == price * pow10(expo + fraction_digits),
{
    let s = price * pow10(expo);
    if expo > 0 {
        lemma_mul_raw_whole(price, pow10(expo));
    } else {
        assert(pow10(0) == 1);
        assert(s == price) by (nonlinear_arith) requires s == price * pow10(expo), pow10(expo) == 1;
        assert(pow10(0) * big() == big());
        crate::big_decimal::lemma_one_is_neutral(price * big());
    }
    assert(pyth_scaled(price, expo as int) == s * big());
    lemma_mul_raw_whole(s, pow10(fraction_digits));
    lemma_pow10_add(expo, fraction_digits);
    assert(s * pow10(fraction_digits) * big() / big() == s * pow10(fraction_digits)) by (nonlinear_arith)
        requires big() > 0;
    assert(s * pow10(fraction_digits) == price * (pow10(expo) * pow10(fraction_digits))) by (nonlinear_arith)
        requires s == price * pow10(expo);
}

} // verus!
