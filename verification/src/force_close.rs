//! Closing by force a regular position whose debt is worth more than its
//! collateral: the collateral goes to the reserves of its assets, and the
//! reserves pay the debts.

use vstd::prelude::*;
use crate::account::Account;
use crate::account_health::{position_max_discount, position_valuable, position_discount};
use crate::account_map::AccountMap;
use crate::asset::Asset;
use crate::big_decimal::BigDecimal;
use crate::liquidation::{values_sum, sum_values};
use crate::margin_health::{price_ok, price_usable};
use crate::pool::spec_shares_to_amount;
use crate::position::Position;
use crate::position_health::{collateral_to_reserve, debt_from_reserve, force_close_collateral, force_close_debt};
use crate::prices::{Price, Prices};
use crate::utils::{Balance, Shares, REGULAR_POSITION};
use crate::wide::p384;

verus! {

/// Why closing by force was refused.
#[derive(Clone, Copy, PartialEq, Eq, Debug)]
pub enum ForceCloseError {
    /// Closing by force is not enabled.
    Disabled,
    /// The position can not be valued at the prices.
    NotValuable,
    /// The account has no regular position.
    PositionNotFound,
    /// The position under the regular name is not a regular position.
    NotRegular,
    /// A token of the position has no asset, or no price that can value it.
    NoPrice,
    /// The shares of the position do not fit the asset's pools, or a sum
    /// would overflow.
    Overflow,
    /// A reserve can not cover a debt.
    NotEnoughReserve,
    /// The debt is worth no more than the collateral.
    NotUnderwater,
}

/// What the closing came to: the values of the collateral and of the debt,
/// the position's discount before, and the amount of each token of the
/// collateral and of the debt, in the order the position held them.
pub struct ForceCloseSums {
    pub collateral_sum: BigDecimal,
    pub borrowed_sum: BigDecimal,
    pub discount: BigDecimal,
    pub collateral_amounts: Vec<Balance>,
    pub borrowed_amounts: Vec<Balance>,
}

/// Every token of `pairs` has an asset, and a price that can value it.
pub open spec fn pairs_valued(pairs: Seq<(Seq<char>, Shares)>, assets: Map<Seq<char>, Asset>, prices: Map<Seq<char>, Price>)
    -> bool
{
    forall|i: int| 0 <= i < pairs.len() ==> {
        let t = #[trigger] pairs[i].0;
        &&& assets.contains_key(t)
        &&& prices.contains_key(t)
        &&& price_ok(prices[t], assets[t].config.extra_decimals)
    }
}

/// What values each token of `pairs`: its price and its asset's extra
/// decimals.
pub open spec fn pairs_valuers(pairs: Seq<(Seq<char>, Shares)>, assets: Map<Seq<char>, Asset>, prices: Map<Seq<char>, Price>)
    -> Seq<(Price, u8)>
{
    Seq::new(pairs.len(), |i: int| (prices[pairs[i].0], assets[pairs[i].0].config.extra_decimals))
}

/// The assets once the collateral `pairs` went to the reserves, in order
/// (see `collateral_to_reserve`), with the amount of each; `None` where the
/// shares do not fit a pool or a reserve would overflow.
pub open spec fn collateral_closed(assets: Map<Seq<char>, Asset>, pairs: Seq<(Seq<char>, Shares)>)
    -> Option<(Map<Seq<char>, Asset>, Seq<Balance>)>
    decreases pairs.len(),
{
    if pairs.len() == 0 {
        Some((assets, Seq::empty()))
    } else {
        match collateral_closed(assets, pairs.drop_last()) {
            None => None,
            Some((m, amounts)) => {
                let t = pairs.last().0;
                let s = pairs.last().1;
                let a = m[t];
                if s > a.supplied.shares
                    || a.reserved + spec_shares_to_amount(a.supplied.shares as nat, a.supplied.balance as nat, s as nat, false)
                        > u128::MAX {
                    None
                } else {
                    let (a2, amount) = collateral_to_reserve(a, s as nat);
                    Some((m.insert(t, a2), amounts.push(amount as u128)))
                }
            },
        }
    }
}

/// The assets once the reserves paid the debts `pairs`, in order (see
/// `debt_from_reserve`), with the amount of each; refused where the shares
/// do not fit a pool or a reserve falls short.
pub open spec fn debts_closed(assets: Map<Seq<char>, Asset>, pairs: Seq<(Seq<char>, Shares)>)
    -> Result<(Map<Seq<char>, Asset>, Seq<Balance>), ForceCloseError>
    decreases pairs.len(),
{
    if pairs.len() == 0 {
        Ok((assets, Seq::empty()))
    } else {
        match debts_closed(assets, pairs.drop_last()) {
            Err(e) => Err(e),
            Ok((m, amounts)) => {
                let t = pairs.last().0;
                let s = pairs.last().1;
                if s > m[t].borrowed.shares {
                    Err(ForceCloseError::Overflow)
                } else {
                    match debt_from_reserve(m[t], s as nat) {
                        Err(_) => Err(ForceCloseError::NotEnoughReserve),
                        Ok((a2, amount)) => Ok((m.insert(t, a2), amounts.push(amount as u128))),
                    }
                }
            },
        }
    }
}

fn pair_valuers(shares: &AccountMap<Shares>, assets: &AccountMap<Asset>, prices: &Prices) -> (r: Option<Vec<(Price, u8)>>)
    requires
        shares.wf(),
        assets.wf(),
        prices.prices.wf(),
    ensures
        r is Some <==> pairs_valued(shares.pairs(), assets@, prices.prices@),
        r matches Some(v) ==> v@ == pairs_valuers(shares.pairs(), assets@, prices.prices@),
{
    let n = shares.len();
    let mut v: Vec<(Price, u8)> = Vec::new();
    let mut i: usize = 0;
    while i < n
        invariant
            n == shares.pairs().len(),
            i <= n,
            shares.wf(),
            assets.wf(),
            prices.prices.wf(),
            forall|j: int| 0 <= j < i ==> {
                let t = #[trigger] shares.pairs()[j].0;
                &&& assets@.contains_key(t)
                &&& prices.prices@.contains_key(t)
                &&& price_ok(prices.prices@[t], assets@[t].config.extra_decimals)
            },
            v@ =~= pairs_valuers(shares.pairs(), assets@, prices.prices@).take(i as int),
        decreases n - i,
    {
        let (t, _) = shares.entry_at(i);
        let asset = match assets.get_ref(t) {
            Some(a) => a,
            None => { return None; },
        };
        let price = match prices.prices.get(t) {
            Some(p) => p,
            None => { return None; },
        };
        if !price_usable(&price, asset.config.extra_decimals) {
            return None;
        }
        v.push((price, asset.config.extra_decimals));
        i = i + 1;
    }
    Some(v)
}

proof fn lemma_collateral_closed_stays_none(assets: Map<Seq<char>, Asset>, pairs: Seq<(Seq<char>, Shares)>, k: int)
    requires
        0 <= k <= pairs.len(),
        collateral_closed(assets, pairs.take(k)) is None,
    ensures
        collateral_closed(assets, pairs) is None,
    decreases pairs.len() - k,
{
    if k < pairs.len() {
        assert(pairs.take(k + 1).drop_last() =~= pairs.take(k));
        lemma_collateral_closed_stays_none(assets, pairs, k + 1);
    } else {
        assert(pairs.take(k) =~= pairs);
    }
}

proof fn lemma_debts_closed_stays_err(assets: Map<Seq<char>, Asset>, pairs: Seq<(Seq<char>, Shares)>, k: int)
    requires
        0 <= k <= pairs.len(),
        debts_closed(assets, pairs.take(k)) is Err,
    ensures
        debts_closed(assets, pairs) == debts_closed(assets, pairs.take(k)),
    decreases pairs.len() - k,
{
    if k < pairs.len() {
        assert(pairs.take(k + 1).drop_last() =~= pairs.take(k));
        lemma_debts_closed_stays_err(assets, pairs, k + 1);
    } else {
        assert(pairs.take(k) =~= pairs);
    }
}

fn close_collateral(collateral: &AccountMap<Shares>, assets: &mut AccountMap<Asset>) -> (r: Option<Vec<Balance>>)
    requires
        collateral.wf(),
        old(assets).wf(),
        forall|j: int| 0 <= j < collateral.pairs().len() ==> #[trigger] old(assets)@.contains_key(collateral.pairs()[j].0),
    ensures
        final(assets).wf(),
        match collateral_closed(old(assets)@, collateral.pairs()) {
            None => r is None,
            Some((m, amounts)) => r matches Some(v) && v@ == amounts && final(assets)@ == m,
        },
        r matches Some(v) ==> v@.len() == collateral.pairs().len() && final(assets)@.dom() =~= old(assets)@.dom(),
{
    let ghost pairs = collateral.pairs();
    let n = collateral.len();
    let mut amounts: Vec<Balance> = Vec::new();
    let mut i: usize = 0;
    assert(pairs.take(0) =~= Seq::<(Seq<char>, Shares)>::empty());
    while i < n
        invariant
            n == pairs.len(),
            pairs == collateral.pairs(),
            i <= n,
            collateral.wf(),
            assets.wf(),
            forall|j: int| 0 <= j < pairs.len() ==> #[trigger] assets@.contains_key(pairs[j].0),
            collateral_closed(old(assets)@, pairs.take(i as int)) == Some((assets@, amounts@)),
            amounts@.len() == i,
            assets@.dom() =~= old(assets)@.dom(),
        decreases n - i,
    {
        let (t, s) = collateral.entry_at(i);
        assert(pairs.take(i + 1).drop_last() =~= pairs.take(i as int));
        assert(pairs.take(i + 1).last() == pairs[i as int]);
        assert(assets@.contains_key(pairs[i as int].0));
        let ghost before = assets@;
        let mut a = match assets.remove(t) {
            Some(a) => a,
            None => { return None; },
        };
        let preview = a.supplied.shares_to_amount(s, false);
        if s > a.supplied.shares || a.reserved.checked_add(preview).is_none() {
            assets.insert(t, a);
            proof { lemma_collateral_closed_stays_none(old(assets)@, pairs, i + 1); }
            return None;
        }
        let amount = force_close_collateral(&mut a, s);
        assets.insert(t, a);
        amounts.push(amount);
        proof {
            assert(assets@ =~= before.insert(t@, assets@[t@]));
            assert(assets@.dom() =~= before.dom());
            assert forall|j: int| 0 <= j < pairs.len() implies #[trigger] assets@.contains_key(pairs[j].0) by {
                assert(before.contains_key(pairs[j].0));
            }
        }
        i = i + 1;
    }
    assert(pairs.take(n as int) =~= pairs);
    Some(amounts)
}

fn close_debts(borrowed: &AccountMap<Shares>, assets: &mut AccountMap<Asset>) -> (r: Result<Vec<Balance>, ForceCloseError>)
    requires
        borrowed.wf(),
        old(assets).wf(),
        forall|j: int| 0 <= j < borrowed.pairs().len() ==> #[trigger] old(assets)@.contains_key(borrowed.pairs()[j].0),
    ensures
        final(assets).wf(),
        match debts_closed(old(assets)@, borrowed.pairs()) {
            Err(e) => r == Err::<Vec<Balance>, ForceCloseError>(e),
            Ok((m, amounts)) => r matches Ok(v) && v@ == amounts && final(assets)@ == m,
        },
        r matches Ok(v) ==> v@.len() == borrowed.pairs().len(),
{
    let ghost pairs = borrowed.pairs();
    let n = borrowed.len();
    let mut amounts: Vec<Balance> = Vec::new();
    let mut i: usize = 0;
    assert(pairs.take(0) =~= Seq::<(Seq<char>, Shares)>::empty());
    while i < n
        invariant
            n == pairs.len(),
            pairs == borrowed.pairs(),
            i <= n,
            borrowed.wf(),
            assets.wf(),
            forall|j: int| 0 <= j < pairs.len() ==> #[trigger] assets@.contains_key(pairs[j].0),
            debts_closed(old(assets)@, pairs.take(i as int)) == Ok::<(Map<Seq<char>, Asset>, Seq<Balance>), ForceCloseError>((assets@, amounts@)),
            amounts@.len() == i,
        decreases n - i,
    {
        let (t, s) = borrowed.entry_at(i);
        assert(pairs.take(i + 1).drop_last() =~= pairs.take(i as int));
        assert(pairs.take(i + 1).last() == pairs[i as int]);
        assert(assets@.contains_key(pairs[i as int].0));
        let ghost before = assets@;
        let mut a = match assets.remove(t) {
            Some(a) => a,
            None => { return Err(ForceCloseError::Overflow); },
        };
        if s > a.borrowed.shares {
            assets.insert(t, a);
            proof { lemma_debts_closed_stays_err(old(assets)@, pairs, i + 1); }
            return Err(ForceCloseError::Overflow);
        }
        match force_close_debt(&mut a, s) {
            Ok(amount) => {
                assets.insert(t, a);
                amounts.push(amount);
                proof {
                    assert(assets@ =~= before.insert(t@, assets@[t@]));
                    assert forall|j: int| 0 <= j < pairs.len() implies #[trigger] assets@.contains_key(pairs[j].0) by {
                        assert(before.contains_key(pairs[j].0));
                    }
                }
            },
            Err(_) => {
                assets.insert(t, a);
                proof { lemma_debts_closed_stays_err(old(assets)@, pairs, i + 1); }
                return Err(ForceCloseError::NotEnoughReserve);
            },
        }
        i = i + 1;
    }
    assert(pairs.take(n as int) =~= pairs);
    Ok(amounts)
}

/// What closing by force the regular position `rp` did, from the assets
/// `assets`: refused where a token of it can not be valued, a pool or
/// reserve does not fit (see `collateral_closed`, `debts_closed`), a sum
/// would overflow, or the debt is worth no more than the collateral. Else
/// the account has the position no longer, the assets are those after the
/// closing, and the sums are the values of what moved.
pub open spec fn force_closed(position: Seq<char>, account: Account, rp: crate::position::RegularPosition,
    assets: Map<Seq<char>, Asset>, prices: Map<Seq<char>, Price>, discount: nat, r: Result<ForceCloseSums, ForceCloseError>,
    account2: Account, assets2: Map<Seq<char>, Asset>) -> bool
{
    let cp = rp.collateral.pairs();
    let bp = rp.borrowed.pairs();
    if !pairs_valued(cp, assets, prices) || !pairs_valued(bp, assets, prices) {
        r == Err::<ForceCloseSums, ForceCloseError>(ForceCloseError::NoPrice)
    } else {
        match collateral_closed(assets, cp) {
            None => r == Err::<ForceCloseSums, ForceCloseError>(ForceCloseError::Overflow),
            Some((m1, collateral_amounts)) => match debts_closed(m1, bp) {
                Err(e) => r == Err::<ForceCloseSums, ForceCloseError>(e),
                Ok((m2, borrowed_amounts)) => {
                    let cs = values_sum(collateral_amounts, pairs_valuers(cp, assets, prices));
                    let bs = values_sum(borrowed_amounts, pairs_valuers(bp, assets, prices));
                    if cs >= p384() || bs >= p384() {
                        r == Err::<ForceCloseSums, ForceCloseError>(ForceCloseError::Overflow)
                    } else if bs <= cs {
                        r == Err::<ForceCloseSums, ForceCloseError>(ForceCloseError::NotUnderwater)
                    } else {
                        &&& r matches Ok(sums) && sums.collateral_sum@ == cs && sums.borrowed_sum@ == bs
                            && sums.discount@ == discount && sums.collateral_amounts@ == collateral_amounts
                            && sums.borrowed_amounts@ == borrowed_amounts
                        &&& assets2 == m2
                        &&& account.same_but_positions(account2)
                        &&& account2.positions@ == account.positions@.remove(position)
                    }
                },
            },
        }
    }
}

/// Closes by force the regular position of `liquidation_account`: refused,
/// changing nothing, where closing by force is not enabled, the position
/// can not be valued, or the account has no regular position under the
/// regular name; else as `force_closed` says. On success, what the closing
/// came to.
pub fn internal_force_close(liquidation_account: &mut Account, assets: &mut AccountMap<Asset>, prices: &Prices,
    force_closing_enabled: bool) -> (r: Result<ForceCloseSums, ForceCloseError>)
    requires
        old(liquidation_account).wf(),
        old(assets).wf(),
        prices.prices.wf(),
    ensures
        ({
            let position = REGULAR_POSITION@;
            let a0 = old(assets)@;
            let p = prices.prices@;
            let liq = *old(liquidation_account);
            let unchanged = *final(liquidation_account) == liq && *final(assets) == *old(assets);
            if !force_closing_enabled {
                r == Err::<ForceCloseSums, ForceCloseError>(ForceCloseError::Disabled) && unchanged
            } else if !position_valuable(liq, position, a0, p, None) {
                r == Err::<ForceCloseSums, ForceCloseError>(ForceCloseError::NotValuable) && unchanged
            } else if !liq.positions@.contains_key(position) {
                r == Err::<ForceCloseSums, ForceCloseError>(ForceCloseError::PositionNotFound) && unchanged
            } else {
                match liq.positions@[position] {
                    Position::LPTokenPosition(_) => r == Err::<ForceCloseSums, ForceCloseError>(ForceCloseError::NotRegular)
                        && unchanged,
                    Position::RegularPosition(rp) => force_closed(position, liq, rp, a0, p,
                        position_discount(liq, position, a0, p, None), r, *final(liquidation_account), final(assets)@),
                }
            }
        }),
{
    if !force_closing_enabled {
        return Err(ForceCloseError::Disabled);
    }
    let position = REGULAR_POSITION.to_string();
    let discount = match position_max_discount(liquidation_account, &position, assets, prices, None) {
        Some(d) => d,
        None => { return Err(ForceCloseError::NotValuable); },
    };
    let (collateral_valuers, borrowed_valuers) = match liquidation_account.positions.get_ref(&position) {
        None => { return Err(ForceCloseError::PositionNotFound); },
        Some(Position::LPTokenPosition(_)) => { return Err(ForceCloseError::NotRegular); },
        Some(Position::RegularPosition(rp)) => {
            assert(liquidation_account.positions@[position@].wf());
            let c = match pair_valuers(&rp.collateral, assets, prices) {
                Some(v) => v,
                None => { return Err(ForceCloseError::NoPrice); },
            };
            let b = match pair_valuers(&rp.borrowed, assets, prices) {
                Some(v) => v,
                None => { return Err(ForceCloseError::NoPrice); },
            };
            (c, b)
        },
    };
    let ghost liq0 = *liquidation_account;
    let ghost a0 = assets@;
    let rp = match liquidation_account.positions.remove(&position) {
        Some(Position::RegularPosition(rp)) => rp,
        _ => { return Err(ForceCloseError::PositionNotFound); },
    };
    assert(liq0.positions@[position@].wf());
    assert(collateral_valuers@ == pairs_valuers(rp.collateral.pairs(), a0, prices.prices@));
    assert(borrowed_valuers@ == pairs_valuers(rp.borrowed.pairs(), a0, prices.prices@));
    assert(forall|j: int| 0 <= j < rp.borrowed.pairs().len() ==> #[trigger] a0.contains_key(rp.borrowed.pairs()[j].0));
    let collateral_amounts = match close_collateral(&rp.collateral, assets) {
        Some(v) => v,
        None => { return Err(ForceCloseError::Overflow); },
    };
    assert(forall|j: int| 0 <= j < rp.borrowed.pairs().len() ==> #[trigger] assets@.contains_key(rp.borrowed.pairs()[j].0));
    let borrowed_amounts = match close_debts(&rp.borrowed, assets) {
        Ok(v) => v,
        Err(e) => { return Err(e); },
    };
    let collateral_sum = match sum_values(&collateral_amounts, &collateral_valuers) {
        Some(x) => x,
        None => { return Err(ForceCloseError::Overflow); },
    };
    let borrowed_sum = match sum_values(&borrowed_amounts, &borrowed_valuers) {
        Some(x) => x,
        None => { return Err(ForceCloseError::Overflow); },
    };
    if !collateral_sum.lt(&borrowed_sum) {
        return Err(ForceCloseError::NotUnderwater);
    }
    Ok(ForceCloseSums { collateral_sum, borrowed_sum, discount, collateral_amounts, borrowed_amounts })
}

} // verus!
