//! Shadow LP-token positions: what one share of an exchange pool holds, the
//! pool a position is on, and what an amount of LP tokens is worth in the
//! pool's tokens.

use vstd::prelude::*;
use crate::account_map::AccountMap;
use crate::actions::Action;
use crate::asset::Asset;
use crate::big_decimal::{BigDecimal, big, pow10, value_raw, price_decimals};
use crate::lending::pow10_u128;
use crate::prices::{Price, Prices};
use crate::utils::{AccountId, Balance, Timestamp, to_nano, u128_ratio, spec_u128_ratio, try_u128_ratio};
use crate::margin_health::{price_ok, price_usable};
use crate::wide::{p128, p384};

verus! {

/// An amount of a token.
pub struct TokenAmount {
    pub token_id: AccountId,
    pub amount: u128,
}

/// What one unit of LP shares of a pool holds, as last reported by the
/// exchange.
pub struct UnitShareTokens {
    /// When the exchange reported it.
    pub timestamp: Timestamp,
    /// The decimals of the LP shares: a unit is `10^decimals` of them.
    pub decimals: u8,
    /// The tokens one unit holds.
    pub tokens: Vec<TokenAmount>,
}

/// What the exchange asks the contract to do with a shadow deposit or
/// withdrawal.
pub enum ShadowReceiverMsg {
    Execute { actions: Vec<Action> },
}

/// The index of the first `c` in `s` at or after `i`; -1 when there is none.
pub open spec fn find_from(s: Seq<char>, c: char, i: int) -> int
    decreases s.len() - i,
{
    if i < 0 || i >= s.len() {
        -1
    } else if s[i] == c {
        i
    } else {
        find_from(s, c, i + 1)
    }
}

/// The second piece of `s` split at `-`: what lies between the first dash
/// and the next one (or the end); none when `s` has no dash.
pub open spec fn second_piece(s: Seq<char>) -> Option<Seq<char>> {
    let i = find_from(s, '-', 0);
    if i < 0 {
        None
    } else {
        let j = find_from(s, '-', i + 1);
        Some(s.subrange(i + 1, if j < 0 { s.len() as int } else { j }))
    }
}

/// The number that decimal digits stand for.
pub open spec fn digits_value(d: Seq<char>) -> nat
    decreases d.len(),
{
    if d.len() == 0 { 0 } else { digits_value(d.drop_last()) * 10 + ((d.last() as nat) - 48) as nat }
}

/// Whether every char is a decimal digit.
pub open spec fn all_decimal_digits(d: Seq<char>) -> bool {
    forall|i: int| 0 <= i < d.len() ==> '0' <= #[trigger] d[i] <= '9'
}

/// How `str::parse::<u64>` reads a text: an optional `+`, then at least one
/// decimal digit and nothing else, standing for at most `u64::MAX`.
pub open spec fn parsed_u64(s: Seq<char>) -> Option<u64> {
    let d = if s.len() > 0 && s[0] == '+' { s.subrange(1, s.len() as int) } else { s };
    if d.len() > 0 && all_decimal_digits(d) && digits_value(d) <= u64::MAX {
        Some(digits_value(d) as u64)
    } else {
        None
    }
}

fn find_char_from(s: &str, c: char, i: usize) -> (r: Option<usize>)
    requires
        i <= s@.len(),
    ensures
        match r {
            Some(k) => k as int == find_from(s@, c, i as int),
            None => find_from(s@, c, i as int) == -1,
        },
    decreases s@.len() - i,
{
    let n = s.unicode_len();
    if i >= n {
        None
    } else if s.get_char(i) == c {
        Some(i)
    } else {
        find_char_from(s, c, i + 1)
    }
}

proof fn lemma_find_from_bounds(s: Seq<char>, c: char, i: int)
    ensures
        find_from(s, c, i) == -1 || (i <= find_from(s, c, i) < s.len() && s[find_from(s, c, i)] == c),
    decreases s.len() - i,
{
    if !(i < 0 || i >= s.len()) && s[i] != c {
        lemma_find_from_bounds(s, c, i + 1);
    }
}

/// The value of a text of digits, where it fits in a `u64`; see `parsed_u64`.
pub fn parse_u64(s: &str) -> (r: Option<u64>)
    ensures
        r == parsed_u64(s@),
{
    let n = s.unicode_len();
    let start: usize = if n > 0 && s.get_char(0) == '+' { 1 } else { 0 };
    let ghost d = if n > 0 && s@[0] == '+' { s@.subrange(1, s@.len() as int) } else { s@ };
    assert(d =~= s@.subrange(start as int, n as int));
    if start >= n {
        return None;
    }
    let mut value: u64 = 0;
    let mut i: usize = start;
    while i < n
        invariant
            start <= i <= n,
            n == s@.len(),
            d == s@.subrange(start as int, n as int),
            d == (if s@.len() > 0 && s@[0] == '+' { s@.subrange(1, s@.len() as int) } else { s@ }),
            all_decimal_digits(s@.subrange(start as int, i as int)),
            value as nat == digits_value(s@.subrange(start as int, i as int)),
        decreases n - i,
    {
        let c = s.get_char(i);
        let ghost pre = s@.subrange(start as int, i as int);
        let ghost next = s@.subrange(start as int, i + 1);
        assert(next.drop_last() =~= pre);
        assert(next.last() == c);
        assert(d[i - start] == c);
        if !('0' <= c && c <= '9') {
            assert(!all_decimal_digits(d));
            return None;
        }
        let digit = (c as u32 - 48) as u64;
        assert(all_decimal_digits(next));
        assert(digits_value(next) == digits_value(pre) * 10 + digit);
        if value > (u64::MAX - digit) / 10 {
            assert(value * 10 + digit > u64::MAX) by (nonlinear_arith)
                requires value > (u64::MAX - digit) / 10, digit <= 9;
            assert(d.subrange(0, (i - start) + 1) =~= next);
            proof { lemma_digits_grow(d, (i - start) as int + 1); }
            return None;
        }
        value = value * 10 + digit;
        i = i + 1;
    }
    assert(s@.subrange(start as int, n as int) =~= d);
    Some(value)
}

/// A longer prefix of digits stands for no less.
proof fn lemma_digits_grow(d: Seq<char>, k: int)
    requires
        0 <= k <= d.len(),
        all_decimal_digits(d.subrange(0, k)),
    ensures
        all_decimal_digits(d) ==> digits_value(d.subrange(0, k)) <= digits_value(d),
    decreases d.len() - k,
{
    if k < d.len() && all_decimal_digits(d) {
        assert(d.subrange(0, k + 1).drop_last() =~= d.subrange(0, k));
        assert(all_decimal_digits(d.subrange(0, k + 1)));
        lemma_digits_grow(d, k + 1);
    } else if k == d.len() {
        assert(d.subrange(0, k) =~= d);
    }
}

/// The exchange pool of a shadow position named `<prefix>-<pool id>`: the
/// number after the first dash (up to the next one); none when there is no
/// dash or no such number.
pub fn parse_pool_id(position: &str) -> (r: Option<u64>)
    ensures
        r == match second_piece(position@) { Some(p) => parsed_u64(p), None => None },
{
    let n = position.unicode_len();
    match find_char_from(position, '-', 0) {
        None => None,
        Some(i) => {
            proof { lemma_find_from_bounds(position@, '-', 0); }
            let j = match find_char_from(position, '-', i + 1) {
                Some(j) => {
                    proof { lemma_find_from_bounds(position@, '-', i + 1); }
                    j
                },
                None => n,
            };
            parse_u64(position.substring_char(i + 1, j))
        },
    }
}

/// Whether LP info reported at `info.timestamp` is still valid at `now`
/// (nanoseconds) when it stays valid `valid_duration_sec` seconds.
pub fn lp_token_info_is_fresh(info: &UnitShareTokens, valid_duration_sec: u32, now: Timestamp) -> (r: bool)
    requires
        info.timestamp <= now,
    ensures
        r == (now - info.timestamp <= valid_duration_sec * 1_000_000_000),
{
    now - info.timestamp <= to_nano(valid_duration_sec)
}

/// The balance of a pool token that `lp_amount` of LP tokens (held with
/// `lp_extra_decimals` extra decimals) holds, when a unit of `10^decimals`
/// LP shares holds `amount` of it (with `extra_decimals` extra decimals):
/// rounded down.
pub open spec fn underlying_balance(amount: nat, extra_decimals: u8, lp_amount: nat, lp_extra_decimals: u8, decimals: u8) -> nat {
    spec_u128_ratio(amount * pow10(extra_decimals as nat), lp_amount,
        pow10(lp_extra_decimals as nat) * pow10(decimals as nat))
}

/// The balances, in each token's own decimals, and the summed value at
/// `prices` of what `lp_amount` LP tokens hold of the pool's `tokens`.
pub open spec fn underlying(tokens: Seq<TokenAmount>, assets: Map<Seq<char>, Asset>, prices: Map<Seq<char>, Price>,
    lp_amount: nat, lp_extra_decimals: u8, decimals: u8) -> (Seq<nat>, nat)
    decreases tokens.len(),
{
    if tokens.len() == 0 {
        (Seq::empty(), 0)
    } else {
        let (mins, sum) = underlying(tokens.drop_last(), assets, prices, lp_amount, lp_extra_decimals, decimals);
        let t = tokens.last();
        let ed = assets[t.token_id@].config.extra_decimals;
        let b = underlying_balance(t.amount as nat, ed, lp_amount, lp_extra_decimals, decimals);
        (mins.push(b / pow10(ed as nat)), sum + value_raw(b, prices[t.token_id@], ed))
    }
}

/// Each pool token has an asset and a price, and the balances and values
/// are computed without overflow.
pub open spec fn underlying_ok(tokens: Seq<TokenAmount>, assets: Map<Seq<char>, Asset>, prices: Map<Seq<char>, Price>,
    lp_amount: nat, lp_extra_decimals: u8, decimals: u8) -> bool
{
    &&& tokens.len() < 0x1_0000_0000
    &&& lp_extra_decimals <= 38
    &&& decimals <= 38
    &&& pow10(lp_extra_decimals as nat) * pow10(decimals as nat) <= u128::MAX
    &&& forall|i: int| 0 <= i < tokens.len() ==> {
        let t = #[trigger] tokens[i];
        let ed = assets[t.token_id@].config.extra_decimals;
        let p = prices[t.token_id@];
        &&& assets.contains_key(t.token_id@)
        &&& prices.contains_key(t.token_id@)
        &&& ed <= 38
        &&& t.amount * pow10(ed as nat) <= u128::MAX
        &&& underlying_balance(t.amount as nat, ed, lp_amount, lp_extra_decimals, decimals) <= u128::MAX
        &&& p.decimals + ed <= 255
        &&& price_decimals(p, ed) > 27 ==> pow10((price_decimals(p, ed) - 27) as nat) < p384()
    }
}

/// What `lp_amount` LP tokens (held with `lp_extra_decimals` extra decimals)
/// hold of the pool's tokens, by `unit` (see `underlying`): the least amount
/// of each token, in its own decimals, that taking them out must give, and
/// their summed value at `prices`.
pub fn lp_token_underlying(unit: &UnitShareTokens, lp_amount: Balance, lp_extra_decimals: u8, assets: &AccountMap<Asset>,
    prices: &Prices) -> (r: (Vec<u128>, BigDecimal))
    requires
        assets.wf(),
        prices.prices.wf(),
        underlying_ok(unit.tokens@, assets@, prices.prices@, lp_amount as nat, lp_extra_decimals, unit.decimals),
    ensures
        ({
            let (mins, sum) = underlying(unit.tokens@, assets@, prices.prices@, lp_amount as nat, lp_extra_decimals, unit.decimals);
            &&& r.0@.len() == mins.len()
            &&& forall|i: int| 0 <= i < mins.len() ==> r.0@[i] == mins[i]
            &&& r.1@ == sum
        }),
        r.1.wf(),
{
    let unit_share = pow10_u128(unit.decimals);
    let lp_scale = pow10_u128(lp_extra_decimals);
    let denom = lp_scale * unit_share;
    proof {
        crate::big_decimal::lemma_pow10_monotone(0, lp_extra_decimals as nat);
        crate::big_decimal::lemma_pow10_monotone(0, unit.decimals as nat);
        assert(denom > 0) by (nonlinear_arith) requires denom == lp_scale * unit_share, lp_scale >= 1, unit_share >= 1;
    }
    let mut mins: Vec<u128> = Vec::new();
    let mut sum = BigDecimal::zero();
    let n = unit.tokens.len();
    let mut i: usize = 0;
    assert(unit.tokens@.take(0) =~= Seq::<TokenAmount>::empty());
    while i < n
        invariant
            n == unit.tokens@.len(),
            i <= n,
            assets.wf(),
            prices.prices.wf(),
            denom > 0,
            denom == pow10(lp_extra_decimals as nat) * pow10(unit.decimals as nat),
            underlying_ok(unit.tokens@, assets@, prices.prices@, lp_amount as nat, lp_extra_decimals, unit.decimals),
            mins@.len() == i,
            sum.wf(),
            ({
                let (m, s) = underlying(unit.tokens@.take(i as int), assets@, prices.prices@, lp_amount as nat,
                    lp_extra_decimals, unit.decimals);
                &&& forall|j: int| 0 <= j < i ==> mins@[j] == m[j]
                &&& m.len() == i
                &&& sum@ == s
                &&& s <= (i as nat) * (p128() * p128() * big())
            }),
        decreases n - i,
    {
        let t = &unit.tokens[i];
        assert(unit.tokens@.take(i + 1).drop_last() =~= unit.tokens@.take(i as int));
        assert(unit.tokens@.take(i + 1).last() == unit.tokens@[i as int]);
        let asset = match assets.get_ref(&t.token_id) {
            Some(a) => a,
            None => { return (mins, sum); },
        };
        let ed = asset.config.extra_decimals;
        let scale = pow10_u128(ed);
        proof { crate::big_decimal::lemma_pow10_monotone(0, ed as nat); }
        let balance = u128_ratio(t.amount * scale, lp_amount, denom);
        let price = prices.get_unwrap(&t.token_id);
        let value = BigDecimal::from_balance_price(balance, &price, ed);
        proof {
            let ghost (m, s) = underlying(unit.tokens@.take(i as int), assets@, prices.prices@, lp_amount as nat,
                lp_extra_decimals, unit.decimals);
            assert(s + value@ <= (i + 1) as nat * (p128() * p128() * big())) by (nonlinear_arith)
                requires s <= (i as nat) * (p128() * p128() * big()), value@ < p128() * p128() * big();
            assert((i + 1) as nat * (p128() * p128() * big()) <= p384()) by (nonlinear_arith)
                requires i + 1 <= 0x1_0000_0000, p384() == p128() * p128() * p128(),
                    p128() == 0x1_0000_0000_0000_0000_0000_0000_0000_0000nat, big() < 0x1_0000_0000_0000_0000_0000_0000_0000nat;
            assert(s + value@ < p384()) by (nonlinear_arith)
                requires s + value@ <= (i + 1) as nat * (p128() * p128() * big()), (i + 1) as nat * (p128() * p128() * big()) <= p384(),
                    value@ < p128() * p128() * big(), s <= (i as nat) * (p128() * p128() * big());
        }
        mins.push(balance / scale);
        sum = sum.add(value);
        i = i + 1;
    }
    proof {
        assert(unit.tokens@.take(n as int) =~= unit.tokens@);
    }
    (mins, sum)
}

/// Whether what `lp_amount` LP tokens hold can be computed by `unit`
/// (see `underlying_ok`).
pub fn underlying_fits(unit: &UnitShareTokens, lp_amount: Balance, lp_extra_decimals: u8, assets: &AccountMap<Asset>,
    prices: &Prices) -> (r: bool)
    requires
        assets.wf(),
        prices.prices.wf(),
    ensures
        r == underlying_ok(unit.tokens@, assets@, prices.prices@, lp_amount as nat, lp_extra_decimals, unit.decimals),
{
    let n = unit.tokens.len();
    if n as u64 >= 0x1_0000_0000u64 || lp_extra_decimals > 38 || unit.decimals > 38 {
        return false;
    }
    let denom = match pow10_u128(lp_extra_decimals).checked_mul(pow10_u128(unit.decimals)) {
        Some(d) => d,
        None => { return false; },
    };
    proof {
        crate::big_decimal::lemma_pow10_monotone(0, lp_extra_decimals as nat);
        crate::big_decimal::lemma_pow10_monotone(0, unit.decimals as nat);
        assert(denom > 0) by (nonlinear_arith)
            requires denom == pow10(lp_extra_decimals as nat) * pow10(unit.decimals as nat),
                pow10(lp_extra_decimals as nat) >= 1, pow10(unit.decimals as nat) >= 1;
    }
    let mut i: usize = 0;
    while i < n
        invariant
            n == unit.tokens@.len(),
            i <= n,
            assets.wf(),
            prices.prices.wf(),
            denom > 0,
            denom == pow10(lp_extra_decimals as nat) * pow10(unit.decimals as nat),
            forall|j: int| 0 <= j < i ==> {
                let t = #[trigger] unit.tokens@[j];
                let ed = assets@[t.token_id@].config.extra_decimals;
                let p = prices.prices@[t.token_id@];
                &&& assets@.contains_key(t.token_id@)
                &&& prices.prices@.contains_key(t.token_id@)
                &&& ed <= 38
                &&& t.amount * pow10(ed as nat) <= u128::MAX
                &&& underlying_balance(t.amount as nat, ed, lp_amount as nat, lp_extra_decimals, unit.decimals) <= u128::MAX
                &&& p.decimals + ed <= 255
                &&& price_decimals(p, ed) > 27 ==> pow10((price_decimals(p, ed) - 27) as nat) < p384()
            },
        decreases n - i,
    {
        let t = &unit.tokens[i];
        let asset = match assets.get_ref(&t.token_id) {
            Some(a) => a,
            None => { return false; },
        };
        let price = match prices.prices.get(&t.token_id) {
            Some(p) => p,
            None => { return false; },
        };
        let ed = asset.config.extra_decimals;
        if ed > 38 {
            return false;
        }
        let scaled = match t.amount.checked_mul(pow10_u128(ed)) {
            Some(x) => x,
            None => { return false; },
        };
        if try_u128_ratio(scaled, lp_amount, denom).is_none() {
            return false;
        }
        if !price_usable(&price, ed) {
            return false;
        }
        i = i + 1;
    }
    true
}

} // verus!
