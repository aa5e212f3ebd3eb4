//! The liquidation of an account's regular position by another account:
//! the liquidator repays debts of the position from its own supply and takes
//! collateral of the position into its supply, at the position's discount;
//! the liquidated account must stay at risk, but healthier.

use vstd::prelude::*;
use crate::account::Account;
use crate::account_lending::{with_shares, same_but_supplied, collateral_of, set_supplied_shares, supplied_shares};
use crate::account_map::AccountMap;
use crate::actions::AssetAmount;
use crate::asset::Asset;
use crate::execute::{ExecuteError, held_in, amount_fits, repay_fits_check, has_position, lacks_regular_collateral, has_debt};
use crate::lending::{amount_ok, repay_ok, spec_repay, repay_to_asset, spec_release_collateral, release_collateral_shares};
use crate::position::{Position, held, collateral_taken, borrowed_taken};
use crate::account_health::{position_max_discount, position_valuable, position_discount, lemma_position_discount_at_most_one};
use crate::big_decimal::{BigDecimal, big, mul_fits, value_raw};
use crate::margin_health::{price_ok, price_usable};
use crate::position_health::{LiquidationError, spec_liquidation_refusal, check_liquidation};
use crate::prices::{Price, Prices};
use crate::shadow::UnitShareTokens;
use crate::utils::{Balance, REGULAR_POSITION};
use crate::wide::p384;

verus! {

/// What a liquidator repaying `asset_amount` of the debt of the position
/// `position` of the account `liq` from its own supply does: refused,
/// changing nothing, when the token has no asset, the liquidator does not
/// supply it, `liq` lacks the position or the debt, or the arithmetic would
/// overflow (checked in that order); else as `spec_repay` says, with the
/// liquidator's supply paying for `liq`'s debt.
pub open spec fn liquidation_repaid(position: Seq<char>, account: Account, liq: Account, assets: AccountMap<Asset>,
    asset_amount: AssetAmount, r: Result<Balance, ExecuteError>, account2: Account, liq2: Account,
    assets2: AccountMap<Asset>) -> bool
{
    let t = asset_amount.token_id@;
    let unchanged = account2 == account && liq2 == liq && assets2@ == assets@;
    if !assets@.contains_key(t) {
        r == Err::<Balance, ExecuteError>(ExecuteError::AssetNotFound) && unchanged
    } else if !account.supplied@.contains_key(t) {
        r == Err::<Balance, ExecuteError>(ExecuteError::NotSupplied) && unchanged
    } else if !liq.positions@.contains_key(position) {
        r == Err::<Balance, ExecuteError>(ExecuteError::PositionNotFound) && unchanged
    } else if !liq.positions@[position].borrowed_view().contains_key(t) {
        r == Err::<Balance, ExecuteError>(ExecuteError::BorrowedNotFound) && unchanged
    } else if !repay_ok(assets@[t], liq.positions@[position].borrowed_view()[t] as nat, account.supplied@[t] as nat,
        asset_amount) {
        r == Err::<Balance, ExecuteError>(ExecuteError::Overflow) && unchanged
    } else {
        match spec_repay(assets@[t], liq.positions@[position].borrowed_view()[t] as nat, account.supplied@[t] as nat,
            asset_amount) {
            Ok((a, b, s, amount)) => r == Ok::<Balance, ExecuteError>(amount as u128)
                && assets2@ == assets@.insert(t, a)
                && same_but_supplied(account, account2)
                && account2.supplied@ == with_shares(account.supplied@, t, (account.supplied@[t] - s) as nat)
                && liq.same_but_positions(liq2)
                && liq2.positions@ == liq.positions@.insert(position, liq2.positions@[position])
                && borrowed_taken(liq.positions@[position], liq2.positions@[position], t, b as u128),
            Err(e) => r == Err::<Balance, ExecuteError>(ExecuteError::Lending(e)) && unchanged,
        }
    }
}

/// What a liquidator taking `asset_amount` of the collateral of the
/// position `position` of the account `liq` into its own supply does:
/// refused, changing nothing, when the token has no asset, `liq` lacks the
/// position or the regular position's collateral, or the arithmetic would
/// overflow; else as `spec_release_collateral` says, with the shares going
/// to the liquidator's supply and the position closing when nothing is left
/// in it.
pub open spec fn collateral_seized(position: Seq<char>, account: Account, liq: Account, assets: AccountMap<Asset>,
    asset_amount: AssetAmount, r: Result<Balance, ExecuteError>, account2: Account, liq2: Account) -> bool
{
    let t = asset_amount.token_id@;
    let unchanged = account2 == account && liq2 == liq;
    if !assets@.contains_key(t) {
        r == Err::<Balance, ExecuteError>(ExecuteError::AssetNotFound) && unchanged
    } else if !liq.positions@.contains_key(position) {
        r == Err::<Balance, ExecuteError>(ExecuteError::PositionNotFound) && unchanged
    } else if liq.positions@[position] matches Position::RegularPosition(p) && !p.collateral@.contains_key(t) {
        r == Err::<Balance, ExecuteError>(ExecuteError::CollateralNotFound) && unchanged
    } else if !amount_ok(assets@[t].supplied, asset_amount, false) {
        r == Err::<Balance, ExecuteError>(ExecuteError::Overflow) && unchanged
    } else {
        match spec_release_collateral(assets@[t], collateral_of(liq.positions@[position], t), asset_amount) {
            Ok((s, a)) => if held(account.supplied@, t) + s > u128::MAX {
                r == Err::<Balance, ExecuteError>(ExecuteError::Overflow) && unchanged
            } else {
                &&& r == Ok::<Balance, ExecuteError>(a as u128)
                &&& same_but_supplied(account, account2)
                &&& account2.supplied@ == with_shares(account.supplied@, t, held(account.supplied@, t) + s)
                &&& liq.same_but_positions(liq2)
                &&& exists|q: Position| #[trigger] collateral_taken(liq.positions@[position], q, t, s as u128)
                    && liq2.positions@ == (if q.holds_nothing() {
                        liq.positions@.remove(position)
                    } else {
                        liq.positions@.insert(position, q)
                    })
            },
            Err(e) => r == Err::<Balance, ExecuteError>(ExecuteError::Lending(e)) && unchanged,
        }
    }
}

/// Repays `asset_amount` of the debt of `liquidation_account`'s position
/// `position` from `account`'s supply (see `liquidation_repaid`); returns the
/// amount.
pub fn internal_liquidate_repay(position: &String, account: &mut Account, liquidation_account: &mut Account,
    assets: &mut AccountMap<Asset>, asset_amount: &AssetAmount) -> (r: Result<Balance, ExecuteError>)
    requires
        old(account).wf(),
        old(liquidation_account).wf(),
        old(assets).wf(),
    ensures
        final(account).wf(),
        final(liquidation_account).wf(),
        final(assets).wf(),
        liquidation_repaid(position@, *old(account), *old(liquidation_account), *old(assets), *asset_amount, r,
            *final(account), *final(liquidation_account), *final(assets)),
{
    let token_id = &asset_amount.token_id;
    if assets.get_ref(token_id).is_none() {
        return Err(ExecuteError::AssetNotFound);
    }
    if account.supplied.get(token_id).is_none() {
        return Err(ExecuteError::NotSupplied);
    }
    if !has_position(liquidation_account, position) {
        return Err(ExecuteError::PositionNotFound);
    }
    if !has_debt(liquidation_account, position, token_id) {
        return Err(ExecuteError::BorrowedNotFound);
    }
    let borrowed = liquidation_account.internal_unwrap_borrowed(position, token_id);
    let held_shares = supplied_shares(account, token_id);
    let fits = match assets.get_ref(token_id) {
        Some(asset) => repay_fits_check(asset, borrowed, held_shares, asset_amount),
        None => { return Err(ExecuteError::AssetNotFound); },
    };
    if !fits {
        return Err(ExecuteError::Overflow);
    }
    let ghost before = assets@;
    let mut asset = match assets.remove(token_id) {
        Some(a) => a,
        None => { return Err(ExecuteError::AssetNotFound); },
    };
    let r = match repay_to_asset(&mut asset, borrowed, held_shares, asset_amount) {
        Ok((b, s, amount)) => {
            liquidation_account.decrease_borrowed(position, token_id, b);
            set_supplied_shares(account, token_id, held_shares - s);
            Ok(amount)
        },
        Err(e) => Err(ExecuteError::Lending(e)),
    };
    assets.insert(token_id, asset);
    proof {
        assert(assets@ =~= before.insert(token_id@, assets@[token_id@]));
        assert(before =~= before.insert(token_id@, before[token_id@]));
    }
    r
}

/// Takes `asset_amount` of the collateral of `liquidation_account`'s
/// position `position` into `account`'s supply (see `collateral_seized`);
/// returns the amount.
pub fn internal_liquidate_take(position: &String, account: &mut Account, liquidation_account: &mut Account,
    assets: &AccountMap<Asset>, asset_amount: &AssetAmount) -> (r: Result<Balance, ExecuteError>)
    requires
        old(account).wf(),
        old(liquidation_account).wf(),
        assets.wf(),
    ensures
        final(account).wf(),
        final(liquidation_account).wf(),
        collateral_seized(position@, *old(account), *old(liquidation_account), *assets, *asset_amount, r,
            *final(account), *final(liquidation_account)),
{
    let token_id = &asset_amount.token_id;
    let asset = match assets.get_ref(token_id) {
        Some(a) => a,
        None => { return Err(ExecuteError::AssetNotFound); },
    };
    if !has_position(liquidation_account, position) {
        return Err(ExecuteError::PositionNotFound);
    }
    if lacks_regular_collateral(liquidation_account, position, token_id) {
        return Err(ExecuteError::CollateralNotFound);
    }
    if !amount_fits(&asset.supplied, asset_amount, false) {
        return Err(ExecuteError::Overflow);
    }
    let collateral = liquidation_account.internal_unwrap_collateral(position, token_id);
    match release_collateral_shares(asset, collateral, asset_amount) {
        Ok((shares, amount)) => {
            let held_shares = held_in(&account.supplied, token_id);
            let total = match held_shares.checked_add(shares) {
                Some(x) => x,
                None => { return Err(ExecuteError::Overflow); },
            };
            liquidation_account.decrease_collateral(position, token_id, shares);
            set_supplied_shares(account, token_id, total);
            Ok(amount)
        },
        Err(e) => Err(ExecuteError::Lending(e)),
    }
}

/// Why a liquidation was refused.
#[derive(Clone, Copy, PartialEq, Eq, Debug)]
pub enum LiquidateError {
    /// The liquidated position can not be valued at the prices.
    NotValuable,
    /// A token repaid or taken has no asset, or no price that can value it.
    NoPrice,
    /// The repayment of `in_assets[index]` was refused.
    RepayFailed { index: usize, error: ExecuteError },
    /// The taking of `out_assets[index]` was refused.
    TakeFailed { index: usize, error: ExecuteError },
    /// The values summed would overflow.
    Overflow,
    /// The checks of a liquidation refused it.
    Refused(LiquidationError),
    /// What one LP share holds was reported too long ago.
    StaleLpInfo,
}

/// What a liquidation comes to: the values of the collateral taken and of
/// the debt repaid, and the discount of the position before and after.
pub struct LiquidationSums {
    pub collateral_taken_sum: BigDecimal,
    pub borrowed_repaid_sum: BigDecimal,
    pub max_discount: BigDecimal,
    pub new_max_discount: BigDecimal,
}

/// `accounts`, `liqs` and `states` are the states that the repayments
/// `in_assets` go through, one after the other, each succeeding with its
/// amount in `amounts`.
pub open spec fn is_repay_run(position: Seq<char>, in_assets: Seq<AssetAmount>, accounts: Seq<Account>, liqs: Seq<Account>,
    states: Seq<AccountMap<Asset>>, amounts: Seq<Balance>) -> bool
{
    &&& accounts.len() == in_assets.len() + 1
    &&& liqs.len() == in_assets.len() + 1
    &&& states.len() == in_assets.len() + 1
    &&& amounts.len() == in_assets.len()
    &&& forall|i: int| #![trigger in_assets[i]] 0 <= i < in_assets.len() ==> liquidation_repaid(position, accounts[i], liqs[i],
        states[i], in_assets[i], Ok(amounts[i]), accounts[i + 1], liqs[i + 1], states[i + 1])
}

/// `accounts` and `liqs` are the states that the takings `out_assets` go
/// through, one after the other, each succeeding with its amount in
/// `amounts`.
pub open spec fn is_take_run(position: Seq<char>, out_assets: Seq<AssetAmount>, accounts: Seq<Account>, liqs: Seq<Account>,
    assets: AccountMap<Asset>, amounts: Seq<Balance>) -> bool
{
    &&& accounts.len() == out_assets.len() + 1
    &&& liqs.len() == out_assets.len() + 1
    &&& amounts.len() == out_assets.len()
    &&& forall|i: int| #![trigger out_assets[i]] 0 <= i < out_assets.len() ==> collateral_seized(position, accounts[i], liqs[i],
        assets, out_assets[i], Ok(amounts[i]), accounts[i + 1], liqs[i + 1])
}

/// Every token has an asset, and a price that can value it.
pub open spec fn tokens_valued(tokens: Seq<AssetAmount>, assets: Map<Seq<char>, Asset>, prices: Map<Seq<char>, Price>) -> bool {
    forall|i: int| 0 <= i < tokens.len() ==> {
        let t = #[trigger] tokens[i].token_id@;
        &&& assets.contains_key(t)
        &&& prices.contains_key(t)
        &&& price_ok(prices[t], assets[t].config.extra_decimals)
    }
}

/// What values each token: its price and its asset's extra decimals.
pub open spec fn valuers_of(tokens: Seq<AssetAmount>, assets: Map<Seq<char>, Asset>, prices: Map<Seq<char>, Price>)
    -> Seq<(Price, u8)>
{
    Seq::new(tokens.len(), |i: int| (prices[tokens[i].token_id@], assets[tokens[i].token_id@].config.extra_decimals))
}

/// The values of the amounts, each at its price, summed.
pub open spec fn values_sum(amounts: Seq<Balance>, valuers: Seq<(Price, u8)>) -> nat
    decreases amounts.len(),
{
    if amounts.len() == 0 {
        0
    } else {
        values_sum(amounts.drop_last(), valuers) + value_raw(amounts.last() as nat, valuers[amounts.len() - 1].0,
            valuers[amounts.len() - 1].1)
    }
}

/// The checks once everything was repaid and taken: the sums must fit,
/// the position be valued again, and the liquidation pass
/// `spec_liquidation_refusal`.
pub open spec fn liquidation_finished(position: Seq<char>, liq: Account, assets: Map<Seq<char>, Asset>,
    prices: Map<Seq<char>, Price>, lp_info: Option<UnitShareTokens>, max_discount: nat, collateral_taken: nat,
    borrowed_repaid: nat, r: Result<LiquidationSums, LiquidateError>) -> bool
{
    if collateral_taken >= p384() || borrowed_repaid >= p384() {
        r == Err::<LiquidationSums, LiquidateError>(LiquidateError::Overflow)
    } else if !position_valuable(liq, position, assets, prices, lp_info) {
        r == Err::<LiquidationSums, LiquidateError>(LiquidateError::NotValuable)
    } else if !mul_fits(collateral_taken, (big() - max_discount) as nat) {
        r == Err::<LiquidationSums, LiquidateError>(LiquidateError::Overflow)
    } else {
        let new_max_discount = position_discount(liq, position, assets, prices, lp_info);
        match spec_liquidation_refusal(max_discount, collateral_taken, borrowed_repaid, new_max_discount) {
            Some(e) => r == Err::<LiquidationSums, LiquidateError>(LiquidateError::Refused(e)),
            None => r matches Ok(sums) && sums.collateral_taken_sum@ == collateral_taken
                && sums.borrowed_repaid_sum@ == borrowed_repaid && sums.max_discount@ == max_discount
                && sums.new_max_discount@ == new_max_discount,
        }
    }
}

/// What a liquidation of a position at risk did: the repayments ran up to
/// one that was refused; or all ran, and the takings ran up to one that was
/// refused; or all ran, and the final checks decide, on the states they
/// leave.
pub open spec fn liquidation_done(position: Seq<char>, in_assets: Seq<AssetAmount>, out_assets: Seq<AssetAmount>,
    account: Account, liq: Account, assets: AccountMap<Asset>, prices: Map<Seq<char>, Price>, max_discount: nat,
    r: Result<LiquidationSums, LiquidateError>, account2: Account, liq2: Account, assets2: AccountMap<Asset>) -> bool
{
    ||| exists|k: int, accounts: Seq<Account>, liqs: Seq<Account>, states: Seq<AccountMap<Asset>>, amounts: Seq<Balance>,
        e: ExecuteError| {
        &&& 0 <= k < in_assets.len()
        &&& #[trigger] is_repay_run(position, in_assets.take(k), accounts, liqs, states, amounts)
        &&& accounts[0] == account && liqs[0] == liq && states[0] == assets
        &&& #[trigger] liquidation_repaid(position, accounts[k], liqs[k], states[k], in_assets[k],
            Err::<Balance, ExecuteError>(e), accounts[k], liqs[k], states[k])
        &&& r == Err::<LiquidationSums, LiquidateError>(LiquidateError::RepayFailed { index: k as usize, error: e })
        &&& account2 == accounts[k] && liq2 == liqs[k] && assets2@ == states[k]@
    }
    ||| exists|accounts: Seq<Account>, liqs: Seq<Account>, states: Seq<AccountMap<Asset>>, amounts: Seq<Balance>,
        k: int, taken_accounts: Seq<Account>, taken_liqs: Seq<Account>, taken: Seq<Balance>, e: ExecuteError| {
        &&& #[trigger] is_repay_run(position, in_assets, accounts, liqs, states, amounts)
        &&& accounts[0] == account && liqs[0] == liq && states[0] == assets
        &&& 0 <= k < out_assets.len()
        &&& #[trigger] is_take_run(position, out_assets.take(k), taken_accounts, taken_liqs, states.last(), taken)
        &&& taken_accounts[0] == accounts.last() && taken_liqs[0] == liqs.last()
        &&& #[trigger] collateral_seized(position, taken_accounts[k], taken_liqs[k], states.last(), out_assets[k],
            Err::<Balance, ExecuteError>(e), taken_accounts[k], taken_liqs[k])
        &&& r == Err::<LiquidationSums, LiquidateError>(LiquidateError::TakeFailed { index: k as usize, error: e })
        &&& account2 == taken_accounts[k] && liq2 == taken_liqs[k] && assets2 == states.last()
    }
    ||| exists|accounts: Seq<Account>, liqs: Seq<Account>, states: Seq<AccountMap<Asset>>, amounts: Seq<Balance>,
        taken_accounts: Seq<Account>, taken_liqs: Seq<Account>, taken: Seq<Balance>| {
        &&& #[trigger] is_repay_run(position, in_assets, accounts, liqs, states, amounts)
        &&& accounts[0] == account && liqs[0] == liq && states[0] == assets
        &&& #[trigger] is_take_run(position, out_assets, taken_accounts, taken_liqs, states.last(), taken)
        &&& taken_accounts[0] == accounts.last() && taken_liqs[0] == liqs.last()
        &&& account2 == taken_accounts.last() && liq2 == taken_liqs.last() && assets2 == states.last()
        &&& liquidation_finished(position, liq2, assets2@, prices, None, max_discount,
            values_sum(taken, valuers_of(out_assets, assets@, prices)),
            values_sum(amounts, valuers_of(in_assets, assets@, prices)), r)
    }
}

pub(crate) fn token_valuers(tokens: &Vec<AssetAmount>, assets: &AccountMap<Asset>, prices: &Prices) -> (r: Option<Vec<(Price, u8)>>)
    requires
        assets.wf(),
        prices.prices.wf(),
    ensures
        r is Some <==> tokens_valued(tokens@, assets@, prices.prices@),
        r matches Some(v) ==> v@ == valuers_of(tokens@, assets@, prices.prices@),
{
    let mut v: Vec<(Price, u8)> = Vec::new();
    let mut i: usize = 0;
    while i < tokens.len()
        invariant
            i <= tokens@.len(),
            assets.wf(),
            prices.prices.wf(),
            forall|j: int| 0 <= j < i ==> {
                let t = #[trigger] tokens@[j].token_id@;
                &&& assets@.contains_key(t)
                &&& prices.prices@.contains_key(t)
                &&& price_ok(prices.prices@[t], assets@[t].config.extra_decimals)
            },
            v@ =~= valuers_of(tokens@, assets@, prices.prices@).take(i as int),
        decreases tokens@.len() - i,
    {
        let t = &tokens[i].token_id;
        let asset = match assets.get_ref(t) {
            Some(a) => a,
            None => { return None; },
        };
        let price = match prices.prices.get(t) {
            Some(p) => p,
            None => { return None; },
        };
        if !price_usable(&price, asset.config.extra_decimals) {
            return None;
        }
        v.push((price, asset.config.extra_decimals));
        i = i + 1;
    }
    Some(v)
}

proof fn lemma_values_sum_prefix(amounts: Seq<Balance>, valuers: Seq<(Price, u8)>, k: int)
    requires
        0 <= k <= amounts.len(),
    ensures
        values_sum(amounts.take(k), valuers) <= values_sum(amounts, valuers),
    decreases amounts.len() - k,
{
    if k < amounts.len() {
        assert(amounts.take(k + 1).drop_last() =~= amounts.take(k));
        lemma_values_sum_prefix(amounts, valuers, k + 1);
    } else {
        assert(amounts.take(k) =~= amounts);
    }
}

pub(crate) fn sum_values(amounts: &Vec<Balance>, valuers: &Vec<(Price, u8)>) -> (r: Option<BigDecimal>)
    requires
        amounts@.len() == valuers@.len(),
        forall|i: int| 0 <= i < valuers@.len() ==> price_ok(#[trigger] valuers@[i].0, valuers@[i].1),
    ensures
        r is Some <==> values_sum(amounts@, valuers@) < p384(),
        r matches Some(x) ==> x@ == values_sum(amounts@, valuers@) && x.wf(),
{
    let mut sum = BigDecimal::zero();
    let mut i: usize = 0;
    assert(amounts@.take(0) =~= Seq::<Balance>::empty());
    while i < amounts.len()
        invariant
            i <= amounts@.len(),
            amounts@.len() == valuers@.len(),
            forall|j: int| 0 <= j < valuers@.len() ==> price_ok(#[trigger] valuers@[j].0, valuers@[j].1),
            sum@ == values_sum(amounts@.take(i as int), valuers@),
            sum.wf(),
        decreases amounts@.len() - i,
    {
        let (price, ed) = valuers[i];
        assert(price_ok(valuers@[i as int].0, valuers@[i as int].1));
        let v = BigDecimal::from_balance_price(amounts[i], &price, ed);
        let ghost t = amounts@.take(i + 1);
        assert(t.drop_last() =~= amounts@.take(i as int));
        assert(t.last() == amounts@[i as int]);
        assert(t.len() - 1 == i);
        sum = match sum.checked_add(v) {
            Some(x) => x,
            None => {
                proof { lemma_values_sum_prefix(amounts@, valuers@, i + 1); }
                return None;
            },
        };
        i = i + 1;
    }
    assert(amounts@.take(amounts@.len() as int) =~= amounts@);
    Some(sum)
}

/// Liquidates the regular position of `liquidation_account` by `account`:
/// refused, changing nothing, where the position can not be valued, is not
/// at risk, or a token repaid or taken can not be valued; else the
/// repayments `in_assets` and then the takings `out_assets` run in turn,
/// and the final checks decide (see `liquidation_done`). On success, what
/// the liquidation came to.
pub fn internal_liquidate(
    account: &mut Account,
    liquidation_account: &mut Account,
    assets: &mut AccountMap<Asset>,
    prices: &Prices,
    in_assets: &Vec<AssetAmount>,
    out_assets: &Vec<AssetAmount>,
) -> (r: Result<LiquidationSums, LiquidateError>)
    requires
        old(account).wf(),
        old(liquidation_account).wf(),
        old(assets).wf(),
        prices.prices.wf(),
    ensures
        ({
            let position = REGULAR_POSITION@;
            let a0 = old(assets)@;
            let p = prices.prices@;
            let unchanged = *final(account) == *old(account) && *final(liquidation_account) == *old(liquidation_account)
                && *final(assets) == *old(assets);
            if !position_valuable(*old(liquidation_account), position, a0, p, None) {
                r == Err::<LiquidationSums, LiquidateError>(LiquidateError::NotValuable) && unchanged
            } else if position_discount(*old(liquidation_account), position, a0, p, None) == 0 {
                r == Err::<LiquidationSums, LiquidateError>(LiquidateError::Refused(LiquidationError::NotAtRisk)) && unchanged
            } else if !tokens_valued(in_assets@, a0, p) || !tokens_valued(out_assets@, a0, p) {
                r == Err::<LiquidationSums, LiquidateError>(LiquidateError::NoPrice) && unchanged
            } else {
                liquidation_done(position, in_assets@, out_assets@, *old(account), *old(liquidation_account), *old(assets),
                    p, position_discount(*old(liquidation_account), position, a0, p, None), r, *final(account),
                    *final(liquidation_account), *final(assets))
            }
        }),
{
    let position = REGULAR_POSITION.to_string();
    let max_discount = match position_max_discount(liquidation_account, &position, assets, prices, None) {
        Some(d) => d,
        None => { return Err(LiquidateError::NotValuable); },
    };
    if max_discount.is_zero() {
        return Err(LiquidateError::Refused(LiquidationError::NotAtRisk));
    }
    let in_valuers = match token_valuers(in_assets, assets, prices) {
        Some(v) => v,
        None => { return Err(LiquidateError::NoPrice); },
    };
    let out_valuers = match token_valuers(out_assets, assets, prices) {
        Some(v) => v,
        None => { return Err(LiquidateError::NoPrice); },
    };
    let ghost a0 = *assets;
    let ghost mut accounts: Seq<Account> = seq![*account];
    let ghost mut liqs: Seq<Account> = seq![*liquidation_account];
    let ghost mut states: Seq<AccountMap<Asset>> = seq![*assets];
    let mut repaid: Vec<Balance> = Vec::new();
    let mut i: usize = 0;
    assert(in_assets@.take(0) =~= Seq::<AssetAmount>::empty());
    while i < in_assets.len()
        invariant
            i <= in_assets@.len(),
            account.wf(),
            liquidation_account.wf(),
            assets.wf(),
            is_repay_run(position@, in_assets@.take(i as int), accounts, liqs, states, repaid@),
            accounts[0] == *old(account),
            liqs[0] == *old(liquidation_account),
            states[0] == *old(assets),
            accounts.last() == *account,
            liqs.last() == *liquidation_account,
            states.last() == *assets,
            position@ == REGULAR_POSITION@,
            a0 == *old(assets),
            position_valuable(*old(liquidation_account), position@, a0@, prices.prices@, None),
            max_discount@ == position_discount(*old(liquidation_account), position@, a0@, prices.prices@, None),
            max_discount@ != 0,
            max_discount.wf(),
            tokens_valued(in_assets@, a0@, prices.prices@),
            tokens_valued(out_assets@, a0@, prices.prices@),
            in_valuers@ == valuers_of(in_assets@, a0@, prices.prices@),
            out_valuers@ == valuers_of(out_assets@, a0@, prices.prices@),
            prices.prices.wf(),
        decreases in_assets@.len() - i,
    {
        match internal_liquidate_repay(&position, account, liquidation_account, assets, &in_assets[i]) {
            Ok(amount) => {
                repaid.push(amount);
                proof {
                    accounts = accounts.push(*account);
                    liqs = liqs.push(*liquidation_account);
                    states = states.push(*assets);
                    let t = in_assets@.take(i + 1);
                    assert(t.drop_last() =~= in_assets@.take(i as int));
                    assert forall|j: int| #![trigger t[j]] 0 <= j < t.len() implies liquidation_repaid(position@,
                        accounts[j], liqs[j], states[j], t[j], Ok(repaid@[j]), accounts[j + 1], liqs[j + 1],
                        states[j + 1]) by {
                        if j < i {
                            assert(in_assets@.take(i as int)[j] == t[j]);
                        }
                    }
                }
            },
            Err(e) => {
                proof {
                    assert(liquidation_repaid(position@, accounts[i as int], liqs[i as int], states[i as int],
                        in_assets@[i as int], Err::<Balance, ExecuteError>(e), accounts[i as int], liqs[i as int],
                        states[i as int]));
                    assert(is_repay_run(position@, in_assets@.take(i as int), accounts, liqs, states, repaid@));
                }
                return Err(LiquidateError::RepayFailed { index: i, error: e });
            },
        }
        i = i + 1;
    }
    assert(in_assets@.take(in_assets@.len() as int) =~= in_assets@);
    assert(is_repay_run(position@, in_assets@, accounts, liqs, states, repaid@));
    let ghost mut taken_accounts: Seq<Account> = seq![*account];
    let ghost mut taken_liqs: Seq<Account> = seq![*liquidation_account];
    let mut taken: Vec<Balance> = Vec::new();
    let mut i: usize = 0;
    assert(out_assets@.take(0) =~= Seq::<AssetAmount>::empty());
    while i < out_assets.len()
        invariant
            i <= out_assets@.len(),
            account.wf(),
            liquidation_account.wf(),
            assets.wf(),
            is_repay_run(position@, in_assets@, accounts, liqs, states, repaid@),
            accounts[0] == *old(account),
            liqs[0] == *old(liquidation_account),
            states[0] == *old(assets),
            states.last() == *assets,
            is_take_run(position@, out_assets@.take(i as int), taken_accounts, taken_liqs, *assets, taken@),
            taken_accounts[0] == accounts.last(),
            taken_liqs[0] == liqs.last(),
            taken_accounts.last() == *account,
            taken_liqs.last() == *liquidation_account,
            position@ == REGULAR_POSITION@,
            a0 == *old(assets),
            position_valuable(*old(liquidation_account), position@, a0@, prices.prices@, None),
            max_discount@ == position_discount(*old(liquidation_account), position@, a0@, prices.prices@, None),
            max_discount@ != 0,
            max_discount.wf(),
            tokens_valued(in_assets@, a0@, prices.prices@),
            tokens_valued(out_assets@, a0@, prices.prices@),
            in_valuers@ == valuers_of(in_assets@, a0@, prices.prices@),
            out_valuers@ == valuers_of(out_assets@, a0@, prices.prices@),
            prices.prices.wf(),
        decreases out_assets@.len() - i,
    {
        match internal_liquidate_take(&position, account, liquidation_account, assets, &out_assets[i]) {
            Ok(amount) => {
                taken.push(amount);
                proof {
                    taken_accounts = taken_accounts.push(*account);
                    taken_liqs = taken_liqs.push(*liquidation_account);
                    let t = out_assets@.take(i + 1);
                    assert(t.drop_last() =~= out_assets@.take(i as int));
                    assert forall|j: int| #![trigger t[j]] 0 <= j < t.len() implies collateral_seized(position@,
                        taken_accounts[j], taken_liqs[j], *assets, t[j], Ok(taken@[j]), taken_accounts[j + 1],
                        taken_liqs[j + 1]) by {
                        if j < i {
                            assert(out_assets@.take(i as int)[j] == t[j]);
                        }
                    }
                }
            },
            Err(e) => {
                proof {
                    assert(collateral_seized(position@, taken_accounts[i as int], taken_liqs[i as int], states.last(),
                        out_assets@[i as int], Err::<Balance, ExecuteError>(e), taken_accounts[i as int],
                        taken_liqs[i as int]));
                    assert(is_take_run(position@, out_assets@.take(i as int), taken_accounts, taken_liqs, states.last(),
                        taken@));
                }
                return Err(LiquidateError::TakeFailed { index: i, error: e });
            },
        }
        i = i + 1;
    }
    assert(out_assets@.take(out_assets@.len() as int) =~= out_assets@);
    assert(is_take_run(position@, out_assets@, taken_accounts, taken_liqs, *assets, taken@));
    let collateral_taken_sum = match sum_values(&taken, &out_valuers) {
        Some(x) => x,
        None => { return Err(LiquidateError::Overflow); },
    };
    let borrowed_repaid_sum = match sum_values(&repaid, &in_valuers) {
        Some(x) => x,
        None => { return Err(LiquidateError::Overflow); },
    };
    let new_max_discount = match position_max_discount(liquidation_account, &position, assets, prices, None) {
        Some(d) => d,
        None => { return Err(LiquidateError::NotValuable); },
    };
    proof {
        lemma_position_discount_at_most_one(*old(liquidation_account), position@, a0@, prices.prices@, None);
    }
    let keep = BigDecimal::one().sub(max_discount);
    if !collateral_taken_sum.mul_fits_check(&keep) {
        return Err(LiquidateError::Overflow);
    }
    match check_liquidation(&max_discount, &collateral_taken_sum, &borrowed_repaid_sum, &new_max_discount) {
        Err(e) => Err(LiquidateError::Refused(e)),
        Ok(()) => Ok(LiquidationSums { collateral_taken_sum, borrowed_repaid_sum, max_discount, new_max_discount }),
    }
}

/// A liquidation that passes its checks (of a regular position, or of an
/// LP-token position valued with `lp_info`) leaves the liquidated position
/// at risk but healthier: its new discount is above zero and below the one
/// it had, and the debt repaid is worth at least the collateral taken at
/// that discount.
pub proof fn lemma_liquidation_improves_health(position: Seq<char>, liq: Account, assets: Map<Seq<char>, Asset>,
    prices: Map<Seq<char>, Price>, lp_info: Option<UnitShareTokens>, max_discount: nat, collateral_taken: nat,
    borrowed_repaid: nat, sums: LiquidationSums)
    requires
        liquidation_finished(position, liq, assets, prices, lp_info, max_discount, collateral_taken, borrowed_repaid,
            Ok::<LiquidationSums, LiquidateError>(sums)),
    ensures
        0 < sums.new_max_discount@ < sums.max_discount@,
        crate::big_decimal::mul_raw(sums.collateral_taken_sum@, (big() - sums.max_discount@) as nat)
            <= sums.borrowed_repaid_sum@,
{
}

} // verus!
