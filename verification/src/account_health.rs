//! The health of an account's position at given prices: its collateral and
//! debt valued token by token from the assets and prices, an LP token's
//! collateral through what its shares hold of the pool's tokens, and the
//! discount at which it may be liquidated.

use vstd::prelude::*;
use crate::account::Account;
use crate::account_map::AccountMap;
use crate::asset::Asset;
use crate::big_decimal::{BigDecimal, big, half, value_raw};
use crate::margin_health::price_usable;
use crate::lending::pow10_u128;
use crate::pool::spec_shares_to_amount;
use crate::position::{Position, LPTokenPosition};
use crate::position_health::{
    ValuedShares, collateral_sum, debt_sum, items_ok, collateral_sums_fit, debt_sums_fit, p370, spec_discount,
    discount_of_sums, try_collateral_sum, try_borrowed_sum, lemma_discount_below_one,
};
use crate::prices::{Price, Prices};
use crate::shadow::{TokenAmount, UnitShareTokens, underlying_balance, underlying_ok};
use crate::utils::{Shares, try_u128_ratio};
use crate::wide::{p128, p384};

verus! {

/// Every token held in `shares` has an asset and a price.
pub open spec fn shares_known(shares: AccountMap<Shares>, assets: Map<Seq<char>, Asset>, prices: Map<Seq<char>, Price>) -> bool {
    forall|i: int| 0 <= i < shares.pairs().len() ==> {
        &&& #[trigger] assets.contains_key(shares.pairs()[i].0)
        &&& prices.contains_key(shares.pairs()[i].0)
    }
}

/// What values `shares` of the token `token_id`: the asset's supplied pool
/// (its borrowed pool, for a debt), extra decimals and volatility ratio, and
/// the token's price.
pub open spec fn valued(token_id: Seq<char>, shares: Shares, assets: Map<Seq<char>, Asset>, prices: Map<Seq<char>, Price>,
    is_borrowing: bool) -> ValuedShares
{
    let a = assets[token_id];
    ValuedShares {
        pool: if is_borrowing { a.borrowed } else { a.supplied },
        extra_decimals: a.config.extra_decimals,
        volatility_ratio: a.config.volatility_ratio,
        price: prices[token_id],
        shares,
    }
}

/// The shares held in `shares`, each with what values it, in order.
pub open spec fn valued_items(shares: AccountMap<Shares>, assets: Map<Seq<char>, Asset>, prices: Map<Seq<char>, Price>,
    is_borrowing: bool) -> Seq<ValuedShares>
{
    Seq::new(shares.pairs().len(), |i: int| valued(shares.pairs()[i].0, shares.pairs()[i].1, assets, prices, is_borrowing))
}

/// The shares held in `shares`, each with what values it (see `valued`).
pub fn valued_shares(shares: &AccountMap<Shares>, assets: &AccountMap<Asset>, prices: &Prices, is_borrowing: bool)
    -> (r: Vec<ValuedShares>)
    requires
        shares.wf(),
        assets.wf(),
        prices.prices.wf(),
        shares_known(*shares, assets@, prices.prices@),
    ensures
        r@ == valued_items(*shares, assets@, prices.prices@, is_borrowing),
{
    let n = shares.len();
    let mut items: Vec<ValuedShares> = Vec::new();
    let mut i: usize = 0;
    while i < n
        invariant
            n == shares.pairs().len(),
            i <= n,
            shares.wf(),
            assets.wf(),
            prices.prices.wf(),
            shares_known(*shares, assets@, prices.prices@),
            items@ =~= valued_items(*shares, assets@, prices.prices@, is_borrowing).take(i as int),
        decreases n - i,
    {
        let (token_id, s) = shares.entry_at(i);
        assert(assets@.contains_key(shares.pairs()[i as int].0));
        let asset = match assets.get_ref(token_id) {
            Some(a) => a,
            None => { return items; },
        };
        let price = prices.get_unwrap(token_id);
        let item = ValuedShares {
            pool: if is_borrowing { asset.borrowed } else { asset.supplied },
            extra_decimals: asset.config.extra_decimals,
            volatility_ratio: asset.config.volatility_ratio,
            price,
            shares: s,
        };
        items.push(item);
        i = i + 1;
    }
    items
}

/// What the pool token `t` held in `lp_balance` LP tokens counts for: the
/// value of its balance, weighted by its volatility ratio (rounded to the
/// nearest).
pub open spec fn lp_token_weight(t: TokenAmount, assets: Map<Seq<char>, Asset>, prices: Map<Seq<char>, Price>,
    lp_balance: nat, lp_extra_decimals: u8, decimals: u8) -> nat
{
    let a = assets[t.token_id@];
    let ed = a.config.extra_decimals;
    (value_raw(underlying_balance(t.amount as nat, ed, lp_balance, lp_extra_decimals, decimals), prices[t.token_id@], ed)
        * (a.config.volatility_ratio as nat) + 5000) / 10000
}

/// What the pool tokens held in `lp_balance` LP tokens count for, summed.
pub open spec fn lp_tokens_weight(tokens: Seq<TokenAmount>, assets: Map<Seq<char>, Asset>, prices: Map<Seq<char>, Price>,
    lp_balance: nat, lp_extra_decimals: u8, decimals: u8) -> nat
    decreases tokens.len(),
{
    if tokens.len() == 0 {
        0
    } else {
        lp_tokens_weight(tokens.drop_last(), assets, prices, lp_balance, lp_extra_decimals, decimals)
            + lp_token_weight(tokens.last(), assets, prices, lp_balance, lp_extra_decimals, decimals)
    }
}

/// The LP tokens that an LP-token position's collateral shares are worth
/// (rounded down).
pub open spec fn lp_balance(p: LPTokenPosition, assets: Map<Seq<char>, Asset>) -> nat {
    let la = assets[p.lpt_id@];
    spec_shares_to_amount(la.supplied.shares as nat, la.supplied.balance as nat, p.collateral as nat, false)
}

/// The weighted collateral of an LP-token position, where one unit of the
/// pool's LP shares holds `unit`: what its pool tokens count for, weighted
/// in turn by the LP token's volatility ratio.
pub open spec fn lp_collateral_weight(p: LPTokenPosition, unit: UnitShareTokens, assets: Map<Seq<char>, Asset>,
    prices: Map<Seq<char>, Price>) -> nat
{
    let la = assets[p.lpt_id@];
    (lp_tokens_weight(unit.tokens@, assets, prices, lp_balance(p, assets), la.config.extra_decimals, unit.decimals)
        * (la.config.volatility_ratio as nat) + 5000) / 10000
}

/// The LP token has an asset, its pool tokens have assets and prices, and
/// the weighted collateral is computed without overflow.
pub open spec fn lp_weight_ok(p: LPTokenPosition, unit: UnitShareTokens, assets: Map<Seq<char>, Asset>,
    prices: Map<Seq<char>, Price>) -> bool
{
    let la = assets[p.lpt_id@];
    let w = lp_tokens_weight(unit.tokens@, assets, prices, lp_balance(p, assets), la.config.extra_decimals, unit.decimals);
    &&& assets.contains_key(p.lpt_id@)
    &&& underlying_ok(unit.tokens@, assets, prices, lp_balance(p, assets), la.config.extra_decimals, unit.decimals)
    &&& w < p370()
    &&& w * (la.config.volatility_ratio as nat) + 5000 < p384()
}

proof fn lemma_lp_weight_prefix(tokens: Seq<TokenAmount>, k: int, assets: Map<Seq<char>, Asset>,
    prices: Map<Seq<char>, Price>, lp_balance: nat, lp_extra_decimals: u8, decimals: u8)
    requires
        0 <= k <= tokens.len(),
    ensures
        lp_tokens_weight(tokens.take(k), assets, prices, lp_balance, lp_extra_decimals, decimals)
            <= lp_tokens_weight(tokens, assets, prices, lp_balance, lp_extra_decimals, decimals),
    decreases tokens.len() - k,
{
    if k < tokens.len() {
        assert(tokens.take(k + 1).drop_last() =~= tokens.take(k));
        lemma_lp_weight_prefix(tokens, k + 1, assets, prices, lp_balance, lp_extra_decimals, decimals);
    } else {
        assert(tokens.take(k) =~= tokens);
    }
}

proof fn lemma_weight_bound()
    ensures
        p128() * p128() * big() * 0x1_0000_0000 + 5000 < p384(),
{
    assert(p384() == p128() * p128() * p128());
    assert(p128() == 0x1_0000_0000_0000_0000_0000_0000_0000_0000nat);
    assert(big() == 1_000_000_000_000_000_000_000_000_000nat);
}

/// The weighted collateral of an LP-token position (see
/// `lp_collateral_weight`), where it can be computed (see `lp_weight_ok`);
/// `None` otherwise.
pub fn lp_collateral_sum(p: &LPTokenPosition, unit: &UnitShareTokens, assets: &AccountMap<Asset>, prices: &Prices)
    -> (r: Option<BigDecimal>)
    requires
        assets.wf(),
        prices.prices.wf(),
    ensures
        r is Some <==> lp_weight_ok(*p, *unit, assets@, prices.prices@),
        r matches Some(c) ==> c@ == lp_collateral_weight(*p, *unit, assets@, prices.prices@) && c.wf(),
{
    let la = match assets.get_ref(&p.lpt_id) {
        Some(a) => a,
        None => { return None; },
    };
    let lp_amount = la.supplied.shares_to_amount(p.collateral, false);
    let lp_ed = la.config.extra_decimals;
    let n = unit.tokens.len();
    if n as u64 >= 0x1_0000_0000u64 || lp_ed > 38 || unit.decimals > 38 {
        return None;
    }
    let unit_share = pow10_u128(unit.decimals);
    let lp_scale = pow10_u128(lp_ed);
    let denom = match lp_scale.checked_mul(unit_share) {
        Some(d) => d,
        None => { return None; },
    };
    proof {
        crate::big_decimal::lemma_pow10_monotone(0, lp_ed as nat);
        crate::big_decimal::lemma_pow10_monotone(0, unit.decimals as nat);
        assert(denom > 0) by (nonlinear_arith) requires denom == lp_scale * unit_share, lp_scale >= 1, unit_share >= 1;
        lemma_weight_bound();
        assert(p370() < p384()) by {
            assert(p384() == p128() * p128() * p128());
            assert(p128() == 0x1_0000_0000_0000_0000_0000_0000_0000_0000nat);
        }
    }
    assert(lp_amount as nat == lp_balance(*p, assets@));
    let ghost total = lp_tokens_weight(unit.tokens@, assets@, prices.prices@, lp_amount as nat, lp_ed, unit.decimals);
    let mut sum = BigDecimal::zero();
    let mut i: usize = 0;
    assert(unit.tokens@.take(0) =~= Seq::<TokenAmount>::empty());
    while i < n
        invariant
            n == unit.tokens@.len(),
            i <= n,
            assets.wf(),
            prices.prices.wf(),
            denom > 0,
            denom == crate::big_decimal::pow10(lp_ed as nat) * crate::big_decimal::pow10(unit.decimals as nat),
            forall|j: int| 0 <= j < i ==> {
                let t = #[trigger] unit.tokens@[j];
                let ed = assets@[t.token_id@].config.extra_decimals;
                let pr = prices.prices@[t.token_id@];
                &&& assets@.contains_key(t.token_id@)
                &&& prices.prices@.contains_key(t.token_id@)
                &&& ed <= 38
                &&& t.amount * crate::big_decimal::pow10(ed as nat) <= u128::MAX
                &&& underlying_balance(t.amount as nat, ed, lp_amount as nat, lp_ed, unit.decimals) <= u128::MAX
                &&& pr.decimals + ed <= 255
                &&& crate::big_decimal::price_decimals(pr, ed) > 27
                    ==> crate::big_decimal::pow10((crate::big_decimal::price_decimals(pr, ed) - 27) as nat) < p384()
            },
            total == lp_tokens_weight(unit.tokens@, assets@, prices.prices@, lp_amount as nat, lp_ed, unit.decimals),
            assets@.contains_key(p.lpt_id@),
            lp_amount as nat == lp_balance(*p, assets@),
            lp_ed == assets@[p.lpt_id@].config.extra_decimals,
            p370() < p384(),
            p128() * p128() * big() * 0x1_0000_0000 + 5000 < p384(),
            sum@ == lp_tokens_weight(unit.tokens@.take(i as int), assets@, prices.prices@, lp_amount as nat, lp_ed, unit.decimals),
            sum@ < p370(),
            sum.wf(),
        decreases n - i,
    {
        let t = &unit.tokens[i];
        assert(unit.tokens@.take(i + 1).drop_last() =~= unit.tokens@.take(i as int));
        assert(unit.tokens@.take(i + 1).last() == unit.tokens@[i as int]);
        let asset = match assets.get_ref(&t.token_id) {
            Some(a) => a,
            None => {
                assert(unit.tokens@[i as int] == *t);
                return None;
            },
        };
        let price = match prices.prices.get(&t.token_id) {
            Some(x) => x,
            None => {
                assert(unit.tokens@[i as int] == *t);
                return None;
            },
        };
        let ed = asset.config.extra_decimals;
        if ed > 38 {
            assert(unit.tokens@[i as int] == *t);
            return None;
        }
        let scale = pow10_u128(ed);
        let scaled = match t.amount.checked_mul(scale) {
            Some(x) => x,
            None => {
                assert(unit.tokens@[i as int] == *t);
                return None;
            },
        };
        assert(scaled as nat == t.amount * crate::big_decimal::pow10(ed as nat));
        let balance = match try_u128_ratio(scaled, lp_amount, denom) {
            Some(x) => x,
            None => {
                assert(unit.tokens@[i as int] == *t);
                assert(underlying_balance(t.amount as nat, ed, lp_amount as nat, lp_ed, unit.decimals) > u128::MAX);
                assert(!underlying_ok(unit.tokens@, assets@, prices.prices@, lp_amount as nat, lp_ed, unit.decimals));
                assert(!lp_weight_ok(*p, *unit, assets@, prices.prices@));
                return None;
            },
        };
        assert(balance as nat == underlying_balance(t.amount as nat, ed, lp_amount as nat, lp_ed, unit.decimals));
        if !price_usable(&price, ed) {
            assert(unit.tokens@[i as int] == *t);
            return None;
        }
        let value = BigDecimal::from_balance_price(balance, &price, ed);
        assert(value@ * (asset.config.volatility_ratio as nat) + 5000 < p384()) by (nonlinear_arith)
            requires value@ < p128() * p128() * big(), asset.config.volatility_ratio < 0x1_0000_0000,
                p128() * p128() * big() * 0x1_0000_0000 + 5000 < p384();
        let w = value.mul_ratio(asset.config.volatility_ratio);
        assert(w@ <= p128() * p128() * big() * 0x1_0000_0000) by (nonlinear_arith)
            requires w@ == (value@ * (asset.config.volatility_ratio as nat) + 5000) / 10000,
                value@ < p128() * p128() * big(), asset.config.volatility_ratio < 0x1_0000_0000;
        assert(w@ == lp_token_weight(unit.tokens@[i as int], assets@, prices.prices@, lp_amount as nat, lp_ed, unit.decimals));
        sum = sum.add(w);
        assert(sum@ == lp_tokens_weight(unit.tokens@.take(i + 1), assets@, prices.prices@, lp_amount as nat, lp_ed, unit.decimals));
        if !sum.is_below_p370() {
            proof {
                lemma_lp_weight_prefix(unit.tokens@, i + 1, assets@, prices.prices@, lp_amount as nat, lp_ed, unit.decimals);
                assert(total >= p370());
                assert(!lp_weight_ok(*p, *unit, assets@, prices.prices@));
            }
            return None;
        }
        assert(unit.tokens@[i as int] == *t);
        i = i + 1;
    }
    proof {
        assert(unit.tokens@.take(n as int) =~= unit.tokens@);
    }
    if !sum.mul_ratio_fits(la.config.volatility_ratio) {
        return None;
    }
    Some(sum.mul_ratio(la.config.volatility_ratio))
}

/// The discount at which position `position` of the account may be
/// liquidated at `prices`: nothing where the account has no such position;
/// else `spec_discount` of its weighted collateral and debt, an LP-token
/// position's collateral being weighted through `lp_info`, what one unit of
/// its pool's LP shares holds.
pub open spec fn position_discount(account: Account, position: Seq<char>, assets: Map<Seq<char>, Asset>,
    prices: Map<Seq<char>, Price>, lp_info: Option<UnitShareTokens>) -> nat
{
    if !account.positions@.contains_key(position) {
        0
    } else {
        match account.positions@[position] {
            Position::RegularPosition(p) => spec_discount(collateral_sum(valued_items(p.collateral, assets, prices, false)),
                debt_sum(valued_items(p.borrowed, assets, prices, true))),
            Position::LPTokenPosition(p) => spec_discount(lp_collateral_weight(p, lp_info.unwrap(), assets, prices),
                debt_sum(valued_items(p.borrowed, assets, prices, true))),
        }
    }
}

/// The discount of a position is never more than one.
pub proof fn lemma_position_discount_at_most_one(account: Account, position: Seq<char>, assets: Map<Seq<char>, Asset>,
    prices: Map<Seq<char>, Price>, lp_info: Option<UnitShareTokens>)
    ensures
        position_discount(account, position, assets, prices, lp_info) <= big(),
{
    if account.positions@.contains_key(position) {
        match account.positions@[position] {
            Position::RegularPosition(p) => lemma_discount_below_one(collateral_sum(valued_items(p.collateral, assets, prices, false)),
                debt_sum(valued_items(p.borrowed, assets, prices, true))),
            Position::LPTokenPosition(p) => lemma_discount_below_one(lp_collateral_weight(p, lp_info.unwrap(), assets, prices),
                debt_sum(valued_items(p.borrowed, assets, prices, true))),
        }
    }
}

/// The debts of a position can be valued, and their weighted sum leaves room
/// for the discount.
pub open spec fn debts_ok(borrowed: AccountMap<Shares>, assets: Map<Seq<char>, Asset>, prices: Map<Seq<char>, Price>) -> bool {
    let items = valued_items(borrowed, assets, prices, true);
    &&& shares_known(borrowed, assets, prices)
    &&& items_ok(items)
    &&& debt_sums_fit(items)
    &&& debt_sum(items) * big() + half() < p384()
}

/// Where position `position` owes something, everything it holds can be
/// valued at the prices without overflow; an LP-token position comes with
/// the holdings of a unit of its pool's LP shares.
pub open spec fn position_valuable(account: Account, position: Seq<char>, assets: Map<Seq<char>, Asset>,
    prices: Map<Seq<char>, Price>, lp_info: Option<UnitShareTokens>) -> bool
{
    account.positions@.contains_key(position) && account.positions@[position].borrowed_view() != Map::<Seq<char>, Shares>::empty()
        ==> match account.positions@[position] {
        Position::RegularPosition(p) => {
            let items = valued_items(p.collateral, assets, prices, false);
            &&& shares_known(p.collateral, assets, prices)
            &&& items_ok(items)
            &&& collateral_sums_fit(items)
            &&& debts_ok(p.borrowed, assets, prices)
        },
        Position::LPTokenPosition(p) => {
            &&& lp_info is Some
            &&& lp_weight_ok(p, lp_info.unwrap(), assets, prices)
            &&& debts_ok(p.borrowed, assets, prices)
        },
    }
}

fn shares_all_known(shares: &AccountMap<Shares>, assets: &AccountMap<Asset>, prices: &Prices) -> (r: bool)
    requires
        shares.wf(),
        assets.wf(),
        prices.prices.wf(),
    ensures
        r == shares_known(*shares, assets@, prices.prices@),
{
    let n = shares.len();
    let mut i: usize = 0;
    while i < n
        invariant
            n == shares.pairs().len(),
            i <= n,
            shares.wf(),
            assets.wf(),
            prices.prices.wf(),
            forall|j: int| 0 <= j < i ==> {
                &&& #[trigger] assets@.contains_key(shares.pairs()[j].0)
                &&& prices.prices@.contains_key(shares.pairs()[j].0)
            },
        decreases n - i,
    {
        let (token_id, _) = shares.entry_at(i);
        if assets.get_ref(token_id).is_none() || prices.prices.get(token_id).is_none() {
            return false;
        }
        i = i + 1;
    }
    true
}

/// The weighted debt of `borrowed`, where it can be valued and leaves room
/// for the discount (see `debts_ok`); `None` otherwise.
fn try_debt(borrowed: &AccountMap<Shares>, assets: &AccountMap<Asset>, prices: &Prices) -> (r: Option<BigDecimal>)
    requires
        borrowed.wf(),
        assets.wf(),
        prices.prices.wf(),
    ensures
        r is Some <==> debts_ok(*borrowed, assets@, prices.prices@),
        r matches Some(b) ==> b@ == debt_sum(valued_items(*borrowed, assets@, prices.prices@, true)) && b.wf(),
{
    if !shares_all_known(borrowed, assets, prices) {
        return None;
    }
    let items = valued_shares(borrowed, assets, prices, true);
    let b = match try_borrowed_sum(&items) {
        Some(b) => b,
        None => { return None; },
    };
    if !b.mul_big_fits() {
        return None;
    }
    Some(b)
}

/// The discount at which position `position` of the account may be
/// liquidated at the prices (see `position_discount`), where everything it
/// holds can be valued (see `position_valuable`); `None` otherwise. A
/// position that owes nothing has no discount.
pub fn position_max_discount(account: &Account, position: &String, assets: &AccountMap<Asset>, prices: &Prices,
    lp_info: Option<&UnitShareTokens>) -> (r: Option<BigDecimal>)
    requires
        account.wf(),
        assets.wf(),
        prices.prices.wf(),
    ensures
        r is Some <==> position_valuable(*account, position@, assets@, prices.prices@,
            match lp_info { Some(u) => Some(*u), None => None }),
        r matches Some(d) ==> d@ == position_discount(*account, position@, assets@, prices.prices@,
            match lp_info { Some(u) => Some(*u), None => None }) && d.wf(),
{
    let p = match account.positions.get_ref(position) {
        Some(p) => p,
        None => { return Some(BigDecimal::zero()); },
    };
    assert(p.wf());
    if p.is_no_borrowed() {
        proof {
            match p {
                Position::RegularPosition(q) => {
                    assert(q.borrowed.pairs().len() == 0) by {
                        if q.borrowed.pairs().len() > 0 { q.borrowed.lemma_view_at(0); }
                    }
                    assert(valued_items(q.borrowed, assets@, prices.prices@, true) =~= Seq::<ValuedShares>::empty());
                },
                Position::LPTokenPosition(q) => {
                    assert(q.borrowed.pairs().len() == 0) by {
                        if q.borrowed.pairs().len() > 0 { q.borrowed.lemma_view_at(0); }
                    }
                    assert(valued_items(q.borrowed, assets@, prices.prices@, true) =~= Seq::<ValuedShares>::empty());
                },
            }
        }
        return Some(BigDecimal::zero());
    }
    match p {
        Position::RegularPosition(q) => {
            if !shares_all_known(&q.collateral, assets, prices) {
                return None;
            }
            let collateral = valued_shares(&q.collateral, assets, prices, false);
            let c = match try_collateral_sum(&collateral) {
                Some(c) => c,
                None => { return None; },
            };
            let b = match try_debt(&q.borrowed, assets, prices) {
                Some(b) => b,
                None => { return None; },
            };
            Some(discount_of_sums(c, b))
        },
        Position::LPTokenPosition(q) => {
            let unit = match lp_info {
                Some(u) => u,
                None => { return None; },
            };
            let c = match lp_collateral_sum(q, unit, assets, prices) {
                Some(c) => c,
                None => { return None; },
            };
            let b = match try_debt(&q.borrowed, assets, prices) {
                Some(b) => b,
                None => { return None; },
            };
            Some(discount_of_sums(c, b))
        },
    }
}

} // verus!
