//! Debts of the protocol: what force closes left uncovered by the reserve,
//! per token, and their repayment by deposits to the reserve.

use vstd::prelude::*;
use crate::account_map::AccountMap;
use crate::asset::Asset;
use crate::utils::{Balance, TokenId};

verus! {

/// The debt owed in `token` (zero when none is).
pub open spec fn debt_of(debts: Map<Seq<char>, u128>, token: Seq<char>) -> nat {
    if debts.contains_key(token) { debts[token] as nat } else { 0 }
}

/// Adds `amount` to the protocol's debt in `token_id`.
pub fn add_protocol_debt(debts: &mut AccountMap<u128>, token_id: &TokenId, amount: u128)
    requires
        old(debts).wf(),
        debt_of(old(debts)@, token_id@) + amount <= u128::MAX,
    ensures
        final(debts).wf(),
        final(debts)@ == old(debts)@.insert(token_id@, (debt_of(old(debts)@, token_id@) + amount) as u128),
{
    let current = match debts.get(token_id) {
        Some(d) => d,
        None => 0,
    };
    debts.insert(token_id, current + amount);
}

/// What a deposit of `amount` to the reserve of `token` does to the debts:
/// it repays as much of the debt in that token as it can (a debt repaid in
/// full is dropped). Gives the debts, the amount repaid and the rest, which
/// goes to the reserve.
pub open spec fn debt_repaid(debts: Map<Seq<char>, u128>, token: Seq<char>, amount: nat) -> (Map<Seq<char>, u128>, nat, nat) {
    if debts.contains_key(token) {
        let debt = debts[token] as nat;
        let repay = if amount <= debt { amount } else { debt };
        let remain = (debt - repay) as nat;
        (if remain > 0 { debts.insert(token, remain as u128) } else { debts.remove(token) }, repay, (amount - repay) as nat)
    } else {
        (debts, 0, amount)
    }
}

/// Repays the protocol's debt in `token_id` out of a deposit of `amount` to
/// the reserve (see `debt_repaid`); returns the amount repaid and the rest.
pub fn repay_protocol_debt(debts: &mut AccountMap<u128>, token_id: &TokenId, amount: u128) -> (r: (u128, u128))
    requires
        old(debts).wf(),
    ensures
        final(debts).wf(),
        (final(debts)@, r.0 as nat, r.1 as nat) == debt_repaid(old(debts)@, token_id@, amount as nat),
{
    match debts.remove(token_id) {
        Some(debt) => {
            let repay_amount = if amount <= debt { amount } else { debt };
            let remain_debt = debt - repay_amount;
            if remain_debt > 0 {
                debts.insert(token_id, remain_debt);
                assert(debts@ =~= old(debts)@.insert(token_id@, remain_debt));
            }
            (repay_amount, amount - repay_amount)
        },
        None => {
            assert(debts@ =~= old(debts)@);
            (0, amount)
        },
    }
}

/// A deposit of `amount` to the reserve of an asset: it first repays the
/// protocol's debt in the token, and the rest joins the reserve. Returns the
/// amount repaid.
pub fn deposit_to_reserve(asset: &mut Asset, debts: &mut AccountMap<u128>, token_id: &TokenId, amount: Balance) -> (repaid: u128)
    requires
        old(debts).wf(),
        old(asset).reserved + debt_repaid(old(debts)@, token_id@, amount as nat).2 <= u128::MAX,
    ensures
        final(debts).wf(),
        final(debts)@ == debt_repaid(old(debts)@, token_id@, amount as nat).0,
        repaid == debt_repaid(old(debts)@, token_id@, amount as nat).1,
        *final(asset) == (Asset { reserved: (old(asset).reserved + debt_repaid(old(debts)@, token_id@, amount as nat).2) as u128, ..*old(asset) }),
{
    let (repaid, rest) = repay_protocol_debt(debts, token_id, amount);
    asset.reserved = asset.reserved + rest;
    repaid
}

/// A deposit to the reserve is split, with nothing lost or made: what
/// repays the debt and what goes to the reserve add up to the deposit, and
/// the debt falls by exactly what was repaid.
pub proof fn lemma_deposit_to_reserve_splits(debts: Map<Seq<char>, u128>, token: Seq<char>, amount: nat)
    ensures
        ({
            let (d, repay, rest) = debt_repaid(debts, token, amount);
            &&& repay + rest == amount
            &&& debt_of(d, token) + repay == debt_of(debts, token)
            &&& forall|k: Seq<char>| k != token ==> #[trigger] debt_of(d, k) == debt_of(debts, k)
        }),
{
}

} // verus!
