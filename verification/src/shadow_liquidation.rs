//! The liquidation of an account's shadow LP-token position by another
//! account: the liquidator pays debts of the position from its own supply,
//! and LP tokens leave the position's collateral, to be taken out of the
//! exchange pool for at least what they hold of its tokens; the pools of the
//! assets are settled when the exchange answers. The checks are those of a
//! liquidation, with the collateral valued by what the LP tokens hold.

use vstd::prelude::*;
use crate::account::Account;
use crate::account_lending::{with_shares, same_but_supplied, collateral_of, set_supplied_shares, supplied_shares};
use crate::account_map::AccountMap;
use crate::actions::AssetAmount;
use crate::asset::Asset;
use crate::execute::{ExecuteError, amount_fits, repay_fits_check, has_position, lacks_regular_collateral, has_debt};
use crate::lending::{amount_ok, repay_ok, spec_repay, repay_split, spec_release_collateral, release_collateral_shares};
use crate::position::{Position, collateral_taken, borrowed_taken};
use crate::account_health::{position_max_discount, position_valuable, position_discount, lemma_position_discount_at_most_one};
use crate::big_decimal::BigDecimal;
use crate::liquidation::{LiquidateError, LiquidationSums, tokens_valued, valuers_of, values_sum, liquidation_finished,
    token_valuers, sum_values};
use crate::position_health::check_liquidation;
use crate::prices::{Price, Prices};
use crate::shadow::{UnitShareTokens, underlying, underlying_ok, underlying_fits, lp_token_underlying, lp_token_info_is_fresh};
use crate::utils::{Balance, Timestamp};

verus! {

/// What a liquidator paying `asset_amount` of the debt of the position
/// `position` of the account `liq` from its own supply does: refused,
/// changing nothing, when the token has no asset, the liquidator does not
/// supply it, `liq` lacks the position or the debt, or the arithmetic would
/// overflow (checked in that order); else as `spec_repay` says, the
/// liquidator's supply shares paying for `liq`'s debt shares. The asset's
/// pools are left to the settlement.
pub open spec fn shadow_repaid(position: Seq<char>, account: Account, liq: Account, assets: Map<Seq<char>, Asset>,
    asset_amount: AssetAmount, r: Result<Balance, ExecuteError>, account2: Account, liq2: Account) -> bool
{
    let t = asset_amount.token_id@;
    let unchanged = account2 == account && liq2 == liq;
    if !assets.contains_key(t) {
        r == Err::<Balance, ExecuteError>(ExecuteError::AssetNotFound) && unchanged
    } else if !account.supplied@.contains_key(t) {
        r == Err::<Balance, ExecuteError>(ExecuteError::NotSupplied) && unchanged
    } else if !liq.positions@.contains_key(position) {
        r == Err::<Balance, ExecuteError>(ExecuteError::PositionNotFound) && unchanged
    } else if !liq.positions@[position].borrowed_view().contains_key(t) {
        r == Err::<Balance, ExecuteError>(ExecuteError::BorrowedNotFound) && unchanged
    } else if !repay_ok(assets[t], liq.positions@[position].borrowed_view()[t] as nat, account.supplied@[t] as nat,
        asset_amount) {
        r == Err::<Balance, ExecuteError>(ExecuteError::Overflow) && unchanged
    } else {
        match spec_repay(assets[t], liq.positions@[position].borrowed_view()[t] as nat, account.supplied@[t] as nat,
            asset_amount) {
            Ok((_, b, s, amount)) => r == Ok::<Balance, ExecuteError>(amount as u128)
                && same_but_supplied(account, account2)
                && account2.supplied@ == with_shares(account.supplied@, t, (account.supplied@[t] - s) as nat)
                && liq.same_but_positions(liq2)
                && liq2.positions@ == liq.positions@.insert(position, liq2.positions@[position])
                && borrowed_taken(liq.positions@[position], liq2.positions@[position], t, b as u128),
            Err(e) => r == Err::<Balance, ExecuteError>(ExecuteError::Lending(e)) && unchanged,
        }
    }
}

/// Pays `asset_amount` of the debt of `liquidation_account`'s position
/// `position` from `account`'s supply (see `shadow_repaid`); returns the
/// amount.
pub fn shadow_liquidate_repay(position: &String, account: &mut Account, liquidation_account: &mut Account,
    assets: &AccountMap<Asset>, asset_amount: &AssetAmount) -> (r: Result<Balance, ExecuteError>)
    requires
        old(account).wf(),
        old(liquidation_account).wf(),
        assets.wf(),
    ensures
        final(account).wf(),
        final(liquidation_account).wf(),
        shadow_repaid(position@, *old(account), *old(liquidation_account), assets@, *asset_amount, r, *final(account),
            *final(liquidation_account)),
{
    let token_id = &asset_amount.token_id;
    let asset = match assets.get_ref(token_id) {
        Some(a) => a,
        None => { return Err(ExecuteError::AssetNotFound); },
    };
    if account.supplied.get(token_id).is_none() {
        return Err(ExecuteError::NotSupplied);
    }
    if !has_position(liquidation_account, position) {
        return Err(ExecuteError::PositionNotFound);
    }
    if !has_debt(liquidation_account, position, token_id) {
        return Err(ExecuteError::BorrowedNotFound);
    }
    let borrowed = liquidation_account.internal_unwrap_borrowed(position, token_id);
    let held_shares = supplied_shares(account, token_id);
    if !repay_fits_check(asset, borrowed, held_shares, asset_amount) {
        return Err(ExecuteError::Overflow);
    }
    match repay_split(asset, borrowed, held_shares, asset_amount) {
        Ok((b, s, amount)) => {
            liquidation_account.decrease_borrowed(position, token_id, b);
            set_supplied_shares(account, token_id, held_shares - s);
            Ok(amount)
        },
        Err(e) => Err(ExecuteError::Lending(e)),
    }
}

/// What taking `asset_amount` of the LP tokens out of the collateral of the
/// position `position` of the account `liq` does: refused, changing
/// nothing, when the token has no asset, `liq` lacks the position or the
/// regular position's collateral, or the arithmetic would overflow; else as
/// `spec_release_collateral` says, the position closing when nothing is left
/// in it.
pub open spec fn shadow_collateral_taken(position: Seq<char>, liq: Account, assets: Map<Seq<char>, Asset>,
    asset_amount: AssetAmount, r: Result<Balance, ExecuteError>, liq2: Account) -> bool
{
    let t = asset_amount.token_id@;
    if !assets.contains_key(t) {
        r == Err::<Balance, ExecuteError>(ExecuteError::AssetNotFound) && liq2 == liq
    } else if !liq.positions@.contains_key(position) {
        r == Err::<Balance, ExecuteError>(ExecuteError::PositionNotFound) && liq2 == liq
    } else if liq.positions@[position] matches Position::RegularPosition(p) && !p.collateral@.contains_key(t) {
        r == Err::<Balance, ExecuteError>(ExecuteError::CollateralNotFound) && liq2 == liq
    } else if !amount_ok(assets[t].supplied, asset_amount, false) {
        r == Err::<Balance, ExecuteError>(ExecuteError::Overflow) && liq2 == liq
    } else {
        match spec_release_collateral(assets[t], collateral_of(liq.positions@[position], t), asset_amount) {
            Ok((s, a)) => {
                &&& r == Ok::<Balance, ExecuteError>(a as u128)
                &&& liq.same_but_positions(liq2)
                &&& exists|q: Position| #[trigger] collateral_taken(liq.positions@[position], q, t, s as u128)
                    && liq2.positions@ == (if q.holds_nothing() {
                        liq.positions@.remove(position)
                    } else {
                        liq.positions@.insert(position, q)
                    })
            },
            Err(e) => r == Err::<Balance, ExecuteError>(ExecuteError::Lending(e)) && liq2 == liq,
        }
    }
}

/// Takes `asset_amount` of the LP tokens out of the collateral of
/// `liquidation_account`'s position `position` (see
/// `shadow_collateral_taken`); returns the amount.
pub fn shadow_liquidate_take(position: &String, liquidation_account: &mut Account, assets: &AccountMap<Asset>,
    asset_amount: &AssetAmount) -> (r: Result<Balance, ExecuteError>)
    requires
        old(liquidation_account).wf(),
        assets.wf(),
    ensures
        final(liquidation_account).wf(),
        shadow_collateral_taken(position@, *old(liquidation_account), assets@, *asset_amount, r, *final(liquidation_account)),
{
    let token_id = &asset_amount.token_id;
    let asset = match assets.get_ref(token_id) {
        Some(a) => a,
        None => { return Err(ExecuteError::AssetNotFound); },
    };
    if !has_position(liquidation_account, position) {
        return Err(ExecuteError::PositionNotFound);
    }
    if lacks_regular_collateral(liquidation_account, position, token_id) {
        return Err(ExecuteError::CollateralNotFound);
    }
    if !amount_fits(&asset.supplied, asset_amount, false) {
        return Err(ExecuteError::Overflow);
    }
    let collateral = liquidation_account.internal_unwrap_collateral(position, token_id);
    match release_collateral_shares(asset, collateral, asset_amount) {
        Ok((shares, amount)) => {
            liquidation_account.decrease_collateral(position, token_id, shares);
            Ok(amount)
        },
        Err(e) => Err(ExecuteError::Lending(e)),
    }
}

/// `accounts` and `liqs` are the states that the payments `in_assets` go
/// through, one after the other, each succeeding with its amount in
/// `amounts`.
pub open spec fn is_shadow_repay_run(position: Seq<char>, in_assets: Seq<AssetAmount>, accounts: Seq<Account>,
    liqs: Seq<Account>, assets: Map<Seq<char>, Asset>, amounts: Seq<Balance>) -> bool
{
    &&& accounts.len() == in_assets.len() + 1
    &&& liqs.len() == in_assets.len() + 1
    &&& amounts.len() == in_assets.len()
    &&& forall|i: int| #![trigger in_assets[i]] 0 <= i < in_assets.len() ==> shadow_repaid(position, accounts[i], liqs[i],
        assets, in_assets[i], Ok(amounts[i]), accounts[i + 1], liqs[i + 1])
}

/// What a shadow liquidation comes to: the sums and discounts of a
/// liquidation, the LP tokens taken out of the position, and the least
/// amount of each pool token that taking them out of the pool must give.
pub struct ShadowLiquidation {
    pub sums: LiquidationSums,
    pub lp_amount: Balance,
    pub min_token_amounts: Vec<u128>,
}

/// The checks once the LP tokens were taken: the LP info must be fresh and
/// what the LP tokens hold computable; then the checks of a liquidation,
/// with the collateral valued by what the LP tokens hold.
pub open spec fn shadow_finished(position: Seq<char>, liq: Account, assets: Map<Seq<char>, Asset>,
    prices: Map<Seq<char>, Price>, max_discount: nat, lp_info: UnitShareTokens, fresh: bool, lp_amount: Balance,
    lp_extra_decimals: u8, borrowed_repaid: nat, r: Result<ShadowLiquidation, LiquidateError>) -> bool
{
    let (mins, collateral_taken) = underlying(lp_info.tokens@, assets, prices, lp_amount as nat, lp_extra_decimals,
        lp_info.decimals);
    if !fresh {
        r == Err::<ShadowLiquidation, LiquidateError>(LiquidateError::StaleLpInfo)
    } else if !underlying_ok(lp_info.tokens@, assets, prices, lp_amount as nat, lp_extra_decimals, lp_info.decimals) {
        r == Err::<ShadowLiquidation, LiquidateError>(LiquidateError::Overflow)
    } else {
        &&& liquidation_finished(position, liq, assets, prices, Some(lp_info), max_discount, collateral_taken, borrowed_repaid,
            match r {
                Ok(s) => Ok::<LiquidationSums, LiquidateError>(s.sums),
                Err(e) => Err::<LiquidationSums, LiquidateError>(e),
            })
        &&& r matches Ok(s) ==> s.lp_amount == lp_amount && s.min_token_amounts@.len() == mins.len()
            && forall|i: int| 0 <= i < mins.len() ==> s.min_token_amounts@[i] == mins[i]
    }
}

/// What a shadow liquidation of a position at risk did: the payments ran up
/// to one that was refused; or all ran, and taking the LP tokens was
/// refused; or it was not, and the final checks decide, on the states left.
pub open spec fn shadow_done(position: Seq<char>, in_assets: Seq<AssetAmount>, out_asset: AssetAmount, account: Account,
    liq: Account, assets: Map<Seq<char>, Asset>, prices: Map<Seq<char>, Price>, max_discount: nat,
    lp_info: UnitShareTokens, fresh: bool, r: Result<ShadowLiquidation, LiquidateError>, account2: Account,
    liq2: Account) -> bool
{
    ||| exists|k: int, accounts: Seq<Account>, liqs: Seq<Account>, amounts: Seq<Balance>, e: ExecuteError| {
        &&& 0 <= k < in_assets.len()
        &&& #[trigger] is_shadow_repay_run(position, in_assets.take(k), accounts, liqs, assets, amounts)
        &&& accounts[0] == account && liqs[0] == liq
        &&& #[trigger] shadow_repaid(position, accounts[k], liqs[k], assets, in_assets[k], Err::<Balance, ExecuteError>(e),
            accounts[k], liqs[k])
        &&& r == Err::<ShadowLiquidation, LiquidateError>(LiquidateError::RepayFailed { index: k as usize, error: e })
        &&& account2 == accounts[k] && liq2 == liqs[k]
    }
    ||| exists|accounts: Seq<Account>, liqs: Seq<Account>, amounts: Seq<Balance>, e: ExecuteError| {
        &&& #[trigger] is_shadow_repay_run(position, in_assets, accounts, liqs, assets, amounts)
        &&& accounts[0] == account && liqs[0] == liq
        &&& #[trigger] shadow_collateral_taken(position, liqs.last(), assets, out_asset, Err::<Balance, ExecuteError>(e),
            liqs.last())
        &&& r == Err::<ShadowLiquidation, LiquidateError>(LiquidateError::TakeFailed { index: 0, error: e })
        &&& account2 == accounts.last() && liq2 == liqs.last()
    }
    ||| exists|accounts: Seq<Account>, liqs: Seq<Account>, amounts: Seq<Balance>, lp_amount: Balance| {
        &&& #[trigger] is_shadow_repay_run(position, in_assets, accounts, liqs, assets, amounts)
        &&& accounts[0] == account && liqs[0] == liq
        &&& #[trigger] shadow_collateral_taken(position, liqs.last(), assets, out_asset, Ok::<Balance, ExecuteError>(lp_amount),
            liq2)
        &&& account2 == accounts.last()
        &&& shadow_finished(position, liq2, assets, prices, max_discount, lp_info, fresh, lp_amount,
            assets[out_asset.token_id@].config.extra_decimals, values_sum(amounts, valuers_of(in_assets, assets, prices)), r)
    }
}

/// Liquidates the shadow LP-token position `position` of
/// `liquidation_account` by `account`: refused, changing nothing, where the
/// position can not be valued, is not at risk, or a token paid can not be
/// valued; else the payments `in_assets` run in turn, the LP tokens of
/// `out_assets[0]` leave the position, and the final checks decide (see
/// `shadow_done`), with what one LP share holds given by `lp_info`, fresh
/// for `lp_valid_duration_sec` seconds at `now`.
#[verifier::rlimit(80)]
pub fn shadow_liquidate(
    position: &String,
    account: &mut Account,
    liquidation_account: &mut Account,
    assets: &AccountMap<Asset>,
    prices: &Prices,
    lp_info: &UnitShareTokens,
    now: Timestamp,
    lp_valid_duration_sec: u32,
    in_assets: &Vec<AssetAmount>,
    out_assets: &Vec<AssetAmount>,
) -> (r: Result<ShadowLiquidation, LiquidateError>)
    requires
        old(account).wf(),
        old(liquidation_account).wf(),
        assets.wf(),
        prices.prices.wf(),
        out_assets@.len() > 0,
        lp_info.timestamp <= now,
    ensures
        ({
            let a = assets@;
            let p = prices.prices@;
            let unchanged = *final(account) == *old(account) && *final(liquidation_account) == *old(liquidation_account);
            if !position_valuable(*old(liquidation_account), position@, a, p, Some(*lp_info)) {
                r == Err::<ShadowLiquidation, LiquidateError>(LiquidateError::NotValuable) && unchanged
            } else if position_discount(*old(liquidation_account), position@, a, p, Some(*lp_info)) == 0 {
                r == Err::<ShadowLiquidation, LiquidateError>(
                    LiquidateError::Refused(crate::position_health::LiquidationError::NotAtRisk)) && unchanged
            } else if !tokens_valued(in_assets@, a, p) {
                r == Err::<ShadowLiquidation, LiquidateError>(LiquidateError::NoPrice) && unchanged
            } else {
                shadow_done(position@, in_assets@, out_assets@[0], *old(account), *old(liquidation_account), a, p,
                    position_discount(*old(liquidation_account), position@, a, p, Some(*lp_info)), *lp_info,
                    now - lp_info.timestamp <= lp_valid_duration_sec * 1_000_000_000, r, *final(account),
                    *final(liquidation_account))
            }
        }),
{
    let max_discount = match position_max_discount(liquidation_account, position, assets, prices, Some(lp_info)) {
        Some(d) => d,
        None => { return Err(LiquidateError::NotValuable); },
    };
    if max_discount.is_zero() {
        return Err(LiquidateError::Refused(crate::position_health::LiquidationError::NotAtRisk));
    }
    let in_valuers = match token_valuers(in_assets, assets, prices) {
        Some(v) => v,
        None => { return Err(LiquidateError::NoPrice); },
    };
    let ghost mut accounts: Seq<Account> = seq![*account];
    let ghost mut liqs: Seq<Account> = seq![*liquidation_account];
    let mut repaid: Vec<Balance> = Vec::new();
    let mut i: usize = 0;
    assert(in_assets@.take(0) =~= Seq::<AssetAmount>::empty());
    while i < in_assets.len()
        invariant
            i <= in_assets@.len(),
            account.wf(),
            liquidation_account.wf(),
            assets.wf(),
            is_shadow_repay_run(position@, in_assets@.take(i as int), accounts, liqs, assets@, repaid@),
            accounts[0] == *old(account),
            liqs[0] == *old(liquidation_account),
            accounts.last() == *account,
            liqs.last() == *liquidation_account,
            position_valuable(*old(liquidation_account), position@, assets@, prices.prices@, Some(*lp_info)),
            max_discount@ == position_discount(*old(liquidation_account), position@, assets@, prices.prices@, Some(*lp_info)),
            max_discount@ != 0,
            max_discount.wf(),
            tokens_valued(in_assets@, assets@, prices.prices@),
            in_valuers@ == valuers_of(in_assets@, assets@, prices.prices@),
            prices.prices.wf(),
        decreases in_assets@.len() - i,
    {
        match shadow_liquidate_repay(position, account, liquidation_account, assets, &in_assets[i]) {
            Ok(amount) => {
                repaid.push(amount);
                proof {
                    accounts = accounts.push(*account);
                    liqs = liqs.push(*liquidation_account);
                    let t = in_assets@.take(i + 1);
                    assert(t.drop_last() =~= in_assets@.take(i as int));
                    assert forall|j: int| #![trigger t[j]] 0 <= j < t.len() implies shadow_repaid(position@,
                        accounts[j], liqs[j], assets@, t[j], Ok(repaid@[j]), accounts[j + 1], liqs[j + 1]) by {
                        if j < i {
                            assert(in_assets@.take(i as int)[j] == t[j]);
                        }
                    }
                }
            },
            Err(e) => {
                proof {
                    assert(shadow_repaid(position@, accounts[i as int], liqs[i as int], assets@, in_assets@[i as int],
                        Err::<Balance, ExecuteError>(e), accounts[i as int], liqs[i as int]));
                    assert(is_shadow_repay_run(position@, in_assets@.take(i as int), accounts, liqs, assets@, repaid@));
                }
                return Err(LiquidateError::RepayFailed { index: i, error: e });
            },
        }
        i = i + 1;
    }
    assert(in_assets@.take(in_assets@.len() as int) =~= in_assets@);
    assert(is_shadow_repay_run(position@, in_assets@, accounts, liqs, assets@, repaid@));
    let ghost liq_before_take = *liquidation_account;
    let lp_amount = match shadow_liquidate_take(position, liquidation_account, assets, &out_assets[0]) {
        Ok(a) => a,
        Err(e) => {
            proof {
                assert(shadow_collateral_taken(position@, liqs.last(), assets@, out_assets@[0],
                    Err::<Balance, ExecuteError>(e), liqs.last()));
            }
            return Err(LiquidateError::TakeFailed { index: 0, error: e });
        },
    };
    assert(shadow_collateral_taken(position@, liqs.last(), assets@, out_assets@[0], Ok::<Balance, ExecuteError>(lp_amount),
        *liquidation_account));
    if !lp_token_info_is_fresh(lp_info, lp_valid_duration_sec, now) {
        return Err(LiquidateError::StaleLpInfo);
    }
    let lp_extra_decimals = match assets.get_ref(&out_assets[0].token_id) {
        Some(a) => a.config.extra_decimals,
        None => { return Err(LiquidateError::NotValuable); },
    };
    if !underlying_fits(lp_info, lp_amount, lp_extra_decimals, assets, prices) {
        return Err(LiquidateError::Overflow);
    }
    let (min_token_amounts, collateral_taken_sum) = lp_token_underlying(lp_info, lp_amount, lp_extra_decimals, assets,
        prices);
    let borrowed_repaid_sum = match sum_values(&repaid, &in_valuers) {
        Some(x) => x,
        None => { return Err(LiquidateError::Overflow); },
    };
    let new_max_discount = match position_max_discount(liquidation_account, position, assets, prices, Some(lp_info)) {
        Some(d) => d,
        None => { return Err(LiquidateError::NotValuable); },
    };
    proof {
        lemma_position_discount_at_most_one(*old(liquidation_account), position@, assets@, prices.prices@, Some(*lp_info));
    }
    let keep = BigDecimal::one().sub(max_discount);
    if !collateral_taken_sum.mul_fits_check(&keep) {
        return Err(LiquidateError::Overflow);
    }
    match check_liquidation(&max_discount, &collateral_taken_sum, &borrowed_repaid_sum, &new_max_discount) {
        Err(e) => Err(LiquidateError::Refused(e)),
        Ok(()) => Ok(ShadowLiquidation {
            sums: LiquidationSums { collateral_taken_sum, borrowed_repaid_sum, max_discount, new_max_discount },
            lp_amount,
            min_token_amounts,
        }),
    }
}

} // verus!
