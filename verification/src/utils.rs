//! Shared constants, ratios and time conversions.

use vstd::prelude::*;
use crate::wide::{words_value, p128, wide_from_u128, wide_to_u128, wide_mul, wide_div, wide_lt, p512};
use crate::account_map::AccountMap;

verus! {

/// An account on NEAR, written as its name.
pub type AccountId = String;
/// A token, written as the account of its contract.
pub type TokenId = String;
/// An amount of tokens.
pub type Balance = u128;
/// A number of shares of a pool.
pub type Shares = u128;
/// A point in time, in nanoseconds.
pub type Timestamp = u64;
/// A length of time, in nanoseconds.
pub type Duration = u64;
/// A length of time, in seconds.
pub type DurationSec = u32;

/// Ratios are written in basis points: 10000 is 100%.
pub const MAX_RATIO: u32 = 10000;
/// One unit of accumulated holding-position interest (10^18).
pub const UNIT: u128 = 1_000_000_000_000_000_000u128;
/// Milliseconds in a year of 365 days.
pub const MS_PER_YEAR: u64 = 31536000000u64;
/// The smallest non-zero number of shares that a pool of an asset may hold.
pub const MIN_RESERVE_SHARES: u128 = 1_000_000u128;
/// The name of the regular (non-LP) position.
pub const REGULAR_POSITION: &'static str = "REGULAR";
/// Positions whose name starts with this hold shadow LP tokens of the exchange.
pub const SHADOW_V1_TOKEN_PREFIX: &'static str = "shadow_ref_v1-";

/// `a * num / denom`, rounded down.
pub open spec fn spec_u128_ratio(a: nat, num: nat, denom: nat) -> nat {
    a * num / denom
}

/// `a * num / denom` rounded down, computed without overflow of the product.
/// The result must fit in a `u128` and `denom` must not be zero.
pub fn u128_ratio(a: u128, num: u128, denom: u128) -> (r: Balance)
    requires
        denom > 0,
        spec_u128_ratio(a as nat, num as nat, denom as nat) <= u128::MAX,
    ensures
        r as nat == spec_u128_ratio(a as nat, num as nat, denom as nat),
{
    let wa = wide_from_u128(a);
    let wn = wide_from_u128(num);
    let wd = wide_from_u128(denom);
    assert((a as nat) * (num as nat) < p512()) by (nonlinear_arith)
        requires a as nat <= u128::MAX, num as nat <= u128::MAX, p512() > 0x1_0000_0000_0000_0000_0000_0000_0000_0000nat * 0x1_0000_0000_0000_0000_0000_0000_0000_0000nat;
    let prod = wide_mul(wa, wn);
    let q = wide_div(prod, wd);
    assert(words_value(q) < p128());
    wide_to_u128(q)
}

/// `a * num / denom` rounded down (see `u128_ratio`), where it fits in a
/// `u128`; `None` where it does not.
pub fn try_u128_ratio(a: u128, num: u128, denom: u128) -> (r: Option<Balance>)
    requires
        denom > 0,
    ensures
        r is Some <==> spec_u128_ratio(a as nat, num as nat, denom as nat) <= u128::MAX,
        r matches Some(x) ==> x as nat == spec_u128_ratio(a as nat, num as nat, denom as nat),
{
    let wa = wide_from_u128(a);
    let wn = wide_from_u128(num);
    let wd = wide_from_u128(denom);
    assert((a as nat) * (num as nat) < p512()) by (nonlinear_arith)
        requires a as nat <= u128::MAX, num as nat <= u128::MAX, p512() > 0x1_0000_0000_0000_0000_0000_0000_0000_0000nat * 0x1_0000_0000_0000_0000_0000_0000_0000_0000nat;
    let prod = wide_mul(wa, wn);
    let q = wide_div(prod, wd);
    if wide_lt(wide_from_u128(u128::MAX), q) {
        None
    } else {
        Some(wide_to_u128(q))
    }
}

/// The part `r / 10000` of `balance`, rounded down.
pub fn ratio(balance: Balance, r: u32) -> (res: Balance)
    requires
        r <= MAX_RATIO,
    ensures
        res as nat == (balance as nat) * (r as nat) / 10000,
        res <= balance,
        r == MAX_RATIO ==> res == balance,
        r == 0 ==> res == 0,
{
    assert((balance as nat) * (r as nat) / 10000 <= balance as nat) by (nonlinear_arith)
        requires r <= 10000;
    assert((balance as nat) * 10000 / 10000 == balance as nat) by (nonlinear_arith);
    u128_ratio(balance, r as u128, MAX_RATIO as u128)
}

/// Nanoseconds to whole milliseconds, rounded down.
pub fn nano_to_ms(nano: u64) -> (r: u64)
    ensures
        r == nano / 1_000_000,
{
    nano / 1_000_000
}

/// Milliseconds to nanoseconds.
pub fn ms_to_nano(ms: u64) -> (r: u64)
    requires
        ms * 1_000_000 <= u64::MAX,
    ensures
        r == ms * 1_000_000,
{
    ms * 1_000_000
}

/// Seconds to nanoseconds.
pub fn sec_to_nano(sec: u32) -> (r: u64)
    ensures
        r == sec * 1_000_000_000,
{
    assert(sec * 1_000_000_000 <= u64::MAX) by (nonlinear_arith) requires sec <= u32::MAX;
    (sec as u64) * 1_000_000_000
}

/// Seconds to nanoseconds.
pub fn to_nano(sec: DurationSec) -> (r: u64)
    ensures
        r == sec * 1_000_000_000,
{
    sec_to_nano(sec)
}

} // verus!

verus! {

/// Whether `s` starts with `prefix`.
pub open spec fn spec_starts_with(s: Seq<char>, prefix: Seq<char>) -> bool {
    prefix.len() <= s.len() && s.subrange(0, prefix.len() as int) == prefix
}

/// Whether `s` starts with `prefix`.
pub fn starts_with(s: &str, prefix: &str) -> (r: bool)
    ensures
        r == spec_starts_with(s@, prefix@),
{
    let n = prefix.unicode_len();
    let m = s.unicode_len();
    if n > m {
        return false;
    }
    let mut i: usize = 0;
    while i < n
        invariant
            i <= n,
            n == prefix@.len(),
            n <= m,
            m == s@.len(),
            forall|j: int| 0 <= j < i ==> #[trigger] s@[j] == prefix@[j],
        decreases n - i,
    {
        if s.get_char(i) != prefix.get_char(i) {
            assert(s@.subrange(0, n as int)[i as int] != prefix@[i as int]);
            return false;
        }
        i = i + 1;
    }
    assert(s@.subrange(0, n as int) =~= prefix@);
    true
}

} // verus!

verus! {

/// Whether `s` ends with `suffix`.
pub open spec fn spec_ends_with(s: Seq<char>, suffix: Seq<char>) -> bool {
    suffix.len() <= s.len() && s.subrange(s.len() - suffix.len(), s.len() as int) == suffix
}

/// Whether `s` ends with `suffix`.
pub fn ends_with(s: &str, suffix: &str) -> (r: bool)
    ensures
        r == spec_ends_with(s@, suffix@),
{
    let n = suffix.unicode_len();
    let m = s.unicode_len();
    if n > m {
        return false;
    }
    let off = m - n;
    let mut i: usize = 0;
    while i < n
        invariant
            i <= n,
            n == suffix@.len(),
            n <= m,
            m == s@.len(),
            off == m - n,
            forall|j: int| 0 <= j < i ==> #[trigger] s@[off + j] == suffix@[j],
        decreases n - i,
    {
        if s.get_char(off + i) != suffix.get_char(i) {
            assert(s@.subrange(off as int, m as int)[i as int] != suffix@[i as int]);
            return false;
        }
        i = i + 1;
    }
    assert(s@.subrange(off as int, m as int) =~= suffix@) by {
        assert forall|j: int| 0 <= j < n implies #[trigger] s@.subrange(off as int, m as int)[j] == suffix@[j] by {
            assert(s@[off + j] == suffix@[j]);
        }
    }
    true
}

/// The token id that ETH had before its bridge moved.
pub fn get_eth_old_account_id() -> (r: AccountId)
    ensures
        r@ == "aurora"@,
{
    "aurora".to_owned()
}

/// The token id of ETH now: the mainnet bridge where the contract runs on an
/// account ending in `.near`, the testnet bridge otherwise.
pub fn get_eth_new_account_id(current_account_id: &str) -> (r: AccountId)
    ensures
        r@ == (if spec_ends_with(current_account_id@, ".near"@) { "eth.bridge.near"@ } else { "eth.sepolia.testnet"@ }),
{
    if ends_with(current_account_id, ".near") {
        "eth.bridge.near".to_owned()
    } else {
        "eth.sepolia.testnet".to_owned()
    }
}

/// The shares of a map with those of the old ETH token id moved over to the
/// new one (see `get_eth_new_account_id`); the map unchanged where it holds
/// none.
pub open spec fn eth_token_moved(assets: Map<Seq<char>, Shares>, current_account_id: Seq<char>) -> Map<Seq<char>, Shares> {
    if assets.contains_key("aurora"@) {
        assets.remove("aurora"@).insert(
            (if spec_ends_with(current_account_id, ".near"@) { "eth.bridge.near"@ } else { "eth.sepolia.testnet"@ }),
            assets["aurora"@],
        )
    } else {
        assets
    }
}

/// Moves the shares an account holds of the old ETH token id over to the
/// new one (see `get_eth_new_account_id`); nothing changes where it holds
/// none.
pub fn update_account_assets_eth_token_id(assets: &mut AccountMap<Shares>, current_account_id: &str)
    requires
        old(assets).wf(),
    ensures
        final(assets).wf(),
        final(assets)@ == eth_token_moved(old(assets)@, current_account_id@),
{
    let old_id = get_eth_old_account_id();
    if let Some(shares) = assets.remove(&old_id) {
        let new_id = get_eth_new_account_id(current_account_id);
        assets.insert(&new_id, shares);
    } else {
        assert(assets@ =~= old(assets)@.remove("aurora"@));
    }
}

/// Whether two strings hold the same chars.
pub fn str_eq(a: &str, b: &str) -> (r: bool)
    ensures
        r == (a@ == b@),
{
    let n = a.unicode_len();
    let m = b.unicode_len();
    if n != m {
        return false;
    }
    let mut i: usize = 0;
    while i < n
        invariant
            i <= n,
            n == a@.len(),
            m == b@.len(),
            n == m,
            forall|j: int| 0 <= j < i ==> a@[j] == b@[j],
        decreases n - i,
    {
        if a.get_char(i) != b.get_char(i) {
            return false;
        }
        i = i + 1;
    }
    assert(a@ =~= b@);
    true
}

/// `flags` with `f` appended, unless it holds it already.
pub open spec fn push_new(flags: Seq<Seq<char>>, f: Seq<char>) -> Seq<Seq<char>> {
    if flags.contains(f) { flags } else { flags.push(f) }
}

/// The views of a vector of strings.
pub open spec fn string_views(v: Seq<String>) -> Seq<Seq<char>> {
    v.map_values(|s: String| s@)
}

/// Appends `f` to `flags` unless they hold it already.
pub fn push_if_new(flags: &mut Vec<String>, f: String)
    ensures
        string_views(final(flags)@) == push_new(string_views(old(flags)@), f@),
{
    let mut i: usize = 0;
    while i < flags.len()
        invariant
            i <= flags.len(),
            forall|j: int| 0 <= j < i ==> flags@[j]@ != f@,
        decreases flags.len() - i,
    {
        if flags[i] == f {
            proof {
                assert(string_views(flags@)[i as int] == f@);
            }
            return;
        }
        i = i + 1;
    }
    proof {
        assert(!string_views(flags@).contains(f@)) by {
            if string_views(flags@).contains(f@) {
                let j = choose|j: int| 0 <= j < string_views(flags@).len() && string_views(flags@)[j] == f@;
                assert(flags@[j]@ == f@);
            }
        }
    }
    let ghost before = flags@;
    flags.push(f);
    proof {
        assert(string_views(flags@) =~= string_views(before).push(f@));
    }
}

} // verus!
