//! A lending account: the tokens it supplies, its positions of collateral
//! and debt, and its stake of the booster token.

use vstd::prelude::*;
use crate::account_map::AccountMap;
use crate::booster_staking::BoosterStaking;
use crate::position::{
    Position, is_fresh_position, collateral_fits, collateral_holds, collateral_added, collateral_taken,
    borrowed_added, borrowed_taken, held,
};
use crate::utils::{AccountId, Shares, TokenId, str_eq};

verus! {

/// A lending account.
pub struct Account {
    /// The account's own id.
    pub account_id: AccountId,
    /// The shares of each token supplied but not used as collateral.
    pub supplied: AccountMap<Shares>,
    /// The positions, by name.
    pub positions: AccountMap<Position>,
    /// The stake of the booster token.
    pub booster_staking: Option<BoosterStaking>,
    /// A locked account can take no action.
    pub is_locked: bool,
}

/// The collateral of `token_id` in the position named `name`: its collateral
/// of the token in a regular position; in an LP-token position, its LP
/// collateral where the token is the position's name, and none otherwise.
pub open spec fn collateral_in(name: Seq<char>, p: Position, token_id: Seq<char>) -> nat {
    match p {
        Position::RegularPosition(rp) => held(rp.collateral@, token_id),
        Position::LPTokenPosition(lp) => if token_id == name { lp.collateral as nat } else { 0 },
    }
}

/// The collateral of `token_id` summed over the positions.
pub open spec fn collateral_total(positions: Seq<(Seq<char>, Position)>, token_id: Seq<char>) -> nat
    decreases positions.len(),
{
    if positions.len() == 0 {
        0
    } else {
        collateral_total(positions.drop_last(), token_id)
            + collateral_in(positions.last().0, positions.last().1, token_id)
    }
}

/// What is borrowed of `token_id` summed over the positions.
pub open spec fn borrowed_total(positions: Seq<(Seq<char>, Position)>, token_id: Seq<char>) -> nat
    decreases positions.len(),
{
    if positions.len() == 0 {
        0
    } else {
        borrowed_total(positions.drop_last(), token_id) + held(positions.last().1.borrowed_view(), token_id)
    }
}

/// The number of assets of a position: its collateral and borrowed tokens,
/// an LP-token position counting its LP token once.
pub open spec fn assets_in(p: Position) -> nat {
    match p {
        Position::RegularPosition(rp) => rp.collateral@.dom().len() + rp.borrowed@.dom().len(),
        Position::LPTokenPosition(lp) => 1 + lp.borrowed@.dom().len(),
    }
}

/// The number of assets summed over the positions.
pub open spec fn assets_total(positions: Seq<(Seq<char>, Position)>) -> nat
    decreases positions.len(),
{
    if positions.len() == 0 {
        0
    } else {
        assets_total(positions.drop_last()) + assets_in(positions.last().1)
    }
}

impl Account {
    /// The maps hold no key twice, and each position is well formed.
    pub open spec fn wf(&self) -> bool {
        &&& self.supplied.wf()
        &&& self.positions.wf()
        &&& forall|k: Seq<char>| #[trigger] self.positions@.contains_key(k) ==> self.positions@[k].wf()
    }

    /// `other` differs from this account in its positions alone.
    pub open spec fn same_but_positions(&self, other: Account) -> bool {
        &&& other.account_id == self.account_id
        &&& other.supplied == self.supplied
        &&& other.booster_staking == self.booster_staking
        &&& other.is_locked == self.is_locked
    }

    /// `p` is the position `position` of the account, or a fresh one where it
    /// has none.
    pub open spec fn position_or_fresh(&self, position: Seq<char>, p: Position) -> bool {
        if self.positions@.contains_key(position) {
            p == self.positions@[position]
        } else {
            is_fresh_position(position, p)
        }
    }

    /// A new account with nothing supplied, no position and no stake.
    pub fn new(account_id: &AccountId) -> (r: Account)
        ensures
            r.wf(),
            r.account_id@ == account_id@,
            r.supplied@ == Map::<Seq<char>, Shares>::empty(),
            r.positions@ == Map::<Seq<char>, Position>::empty(),
            r.booster_staking is None,
            !r.is_locked,
    {
        Account {
            account_id: account_id.clone(),
            supplied: AccountMap::new(),
            positions: AccountMap::new(),
            booster_staking: None,
            is_locked: false,
        }
    }

    /// Adds `shares` of `token_id` to the collateral of `position`, which is
    /// opened where the account has none.
    pub fn increase_collateral(&mut self, position: &String, token_id: &TokenId, shares: Shares)
        requires
            old(self).wf(),
            old(self).positions@.contains_key(position@)
                ==> collateral_fits(old(self).positions@[position@], token_id@, shares),
        ensures
            final(self).wf(),
            old(self).same_but_positions(*final(self)),
            final(self).positions@ == old(self).positions@.insert(position@, final(self).positions@[position@]),
            exists|base: Position| #[trigger] old(self).position_or_fresh(position@, base)
                && collateral_added(base, final(self).positions@[position@], token_id@, shares),
    {
        let ghost before = self.positions@;
        let mut p = match self.positions.remove(position) {
            Some(p) => p,
            None => Position::new(position),
        };
        let ghost base = p;
        assert(old(self).position_or_fresh(position@, base));
        p.increase_collateral(token_id, shares);
        self.positions.insert(position, p);
        assert(self.positions@ =~= before.insert(position@, self.positions@[position@]));
    }

    /// Takes `shares` of `token_id` out of the collateral of `position`; the
    /// position is closed when nothing is left in it.
    pub fn decrease_collateral(&mut self, position: &String, token_id: &TokenId, shares: Shares)
        requires
            old(self).wf(),
            old(self).positions@.contains_key(position@),
            collateral_holds(old(self).positions@[position@], token_id@, shares),
        ensures
            final(self).wf(),
            old(self).same_but_positions(*final(self)),
            exists|q: Position| #[trigger] collateral_taken(old(self).positions@[position@], q, token_id@, shares)
                && final(self).positions@ == (if q.holds_nothing() {
                    old(self).positions@.remove(position@)
                } else {
                    old(self).positions@.insert(position@, q)
                }),
    {
        let ghost before = self.positions@;
        let removed = self.positions.remove(position);
        match removed {
            Some(p) => {
                let mut p = p;
                p.decrease_collateral(token_id, shares);
                let ghost q = p;
                assert(collateral_taken(before[position@], q, token_id@, shares));
                if !p.is_empty() {
                    self.positions.insert(position, p);
                    assert(self.positions@ =~= before.insert(position@, q));
                }
            },
            None => {},
        }
    }

    /// Adds `shares` of `token_id` to what `position` has borrowed.
    pub fn increase_borrowed(&mut self, position: &String, token_id: &TokenId, shares: Shares)
        requires
            old(self).wf(),
            old(self).positions@.contains_key(position@),
            held(old(self).positions@[position@].borrowed_view(), token_id@) + shares <= u128::MAX,
        ensures
            final(self).wf(),
            old(self).same_but_positions(*final(self)),
            final(self).positions@ == old(self).positions@.insert(position@, final(self).positions@[position@]),
            borrowed_added(old(self).positions@[position@], final(self).positions@[position@], token_id@, shares),
    {
        let ghost before = self.positions@;
        let removed = self.positions.remove(position);
        match removed {
            Some(p) => {
                let mut p = p;
                p.increase_borrowed(token_id, shares);
                self.positions.insert(position, p);
                assert(self.positions@ =~= before.insert(position@, self.positions@[position@]));
            },
            None => {},
        }
    }

    /// Takes `shares` of `token_id` out of what `position` has borrowed.
    pub fn decrease_borrowed(&mut self, position: &String, token_id: &TokenId, shares: Shares)
        requires
            old(self).wf(),
            old(self).positions@.contains_key(position@),
            old(self).positions@[position@].borrowed_view().contains_key(token_id@),
            shares <= old(self).positions@[position@].borrowed_view()[token_id@],
        ensures
            final(self).wf(),
            old(self).same_but_positions(*final(self)),
            final(self).positions@ == old(self).positions@.insert(position@, final(self).positions@[position@]),
            borrowed_taken(old(self).positions@[position@], final(self).positions@[position@], token_id@, shares),
    {
        let ghost before = self.positions@;
        let removed = self.positions.remove(position);
        match removed {
            Some(p) => {
                let mut p = p;
                p.decrease_borrowed(token_id, shares);
                self.positions.insert(position, p);
                assert(self.positions@ =~= before.insert(position@, self.positions@[position@]));
            },
            None => {},
        }
    }

    /// The collateral shares of `token_id` in `position` (of its LP token, in
    /// an LP-token position).
    pub fn internal_unwrap_collateral(&self, position: &String, token_id: &TokenId) -> (r: Shares)
        requires
            self.wf(),
            self.positions@.contains_key(position@),
            self.positions@[position@] matches Position::RegularPosition(p) ==> p.collateral@.contains_key(token_id@),
        ensures
            r == match self.positions@[position@] {
                Position::RegularPosition(p) => p.collateral@[token_id@],
                Position::LPTokenPosition(p) => p.collateral,
            },
    {
        match self.positions.get_ref(position) {
            Some(p) => p.internal_unwrap_collateral(token_id),
            None => 0,
        }
    }

    /// All the shares of `token_id` that the account supplies: those supplied
    /// and those used as collateral in any position.
    pub fn get_supplied_shares(&self, token_id: &TokenId) -> (r: Shares)
        requires
            self.wf(),
            held(self.supplied@, token_id@) + collateral_total(self.positions.pairs(), token_id@) <= u128::MAX,
        ensures
            r == held(self.supplied@, token_id@) + collateral_total(self.positions.pairs(), token_id@),
    {
        let n = self.positions.len();
        let mut acc: u128 = 0;
        let mut i: usize = 0;
        while i < n
            invariant
                self.wf(),
                n == self.positions.pairs().len(),
                i <= n,
                acc == collateral_total(self.positions.pairs().take(i as int), token_id@),
                collateral_total(self.positions.pairs(), token_id@) <= u128::MAX,
            decreases n - i,
        {
            let (name, p) = self.positions.entry_ref_at(i);
            proof {
                self.positions.lemma_view_at(i as int);
                let pairs = self.positions.pairs();
                assert(pairs.take(i + 1).drop_last() =~= pairs.take(i as int));
                lemma_collateral_total_prefix(pairs, i + 1, token_id@);
            }
            let c: u128 = match p {
                Position::RegularPosition(rp) => match rp.collateral.get(token_id) {
                    Some(s) => s,
                    None => 0,
                },
                Position::LPTokenPosition(lp) => if str_eq(token_id.as_str(), name.as_str()) { lp.collateral } else { 0 },
            };
            acc = acc + c;
            i = i + 1;
        }
        proof {
            assert(self.positions.pairs().take(n as int) =~= self.positions.pairs());
        }
        let supplied: u128 = match self.supplied.get(token_id) {
            Some(s) => s,
            None => 0,
        };
        supplied + acc
    }

    /// All the shares of `token_id` that the account has borrowed, over its
    /// positions.
    pub fn get_borrowed_shares(&self, token_id: &TokenId) -> (r: Shares)
        requires
            self.wf(),
            borrowed_total(self.positions.pairs(), token_id@) <= u128::MAX,
        ensures
            r == borrowed_total(self.positions.pairs(), token_id@),
    {
        let n = self.positions.len();
        let mut acc: u128 = 0;
        let mut i: usize = 0;
        while i < n
            invariant
                self.wf(),
                n == self.positions.pairs().len(),
                i <= n,
                acc == borrowed_total(self.positions.pairs().take(i as int), token_id@),
                borrowed_total(self.positions.pairs(), token_id@) <= u128::MAX,
            decreases n - i,
        {
            let (_, p) = self.positions.entry_ref_at(i);
            proof {
                self.positions.lemma_view_at(i as int);
                let pairs = self.positions.pairs();
                assert(pairs.take(i + 1).drop_last() =~= pairs.take(i as int));
                lemma_borrowed_total_prefix(pairs, i + 1, token_id@);
            }
            let b: u128 = match p {
                Position::RegularPosition(rp) => match rp.borrowed.get(token_id) {
                    Some(s) => s,
                    None => 0,
                },
                Position::LPTokenPosition(lp) => match lp.borrowed.get(token_id) {
                    Some(s) => s,
                    None => 0,
                },
            };
            acc = acc + b;
            i = i + 1;
        }
        proof {
            assert(self.positions.pairs().take(n as int) =~= self.positions.pairs());
        }
        acc
    }

    /// The number of assets over the positions, as a 32-bit number.
    pub fn get_assets_num(&self) -> (r: u32)
        requires
            self.wf(),
            assets_total(self.positions.pairs()) <= usize::MAX,
        ensures
            r == assets_total(self.positions.pairs()) as u32,
    {
        let n = self.positions.len();
        let mut acc: usize = 0;
        let mut i: usize = 0;
        while i < n
            invariant
                self.wf(),
                n == self.positions.pairs().len(),
                i <= n,
                acc == assets_total(self.positions.pairs().take(i as int)),
                assets_total(self.positions.pairs()) <= usize::MAX,
            decreases n - i,
        {
            let (_, p) = self.positions.entry_ref_at(i);
            proof {
                self.positions.lemma_view_at(i as int);
                let pairs = self.positions.pairs();
                assert(pairs.take(i + 1).drop_last() =~= pairs.take(i as int));
                lemma_assets_total_prefix(pairs, i + 1);
            }
            let k: usize = match p {
                Position::RegularPosition(rp) => rp.collateral.len() + rp.borrowed.len(),
                Position::LPTokenPosition(lp) => 1 + lp.borrowed.len(),
            };
            acc = acc + k;
            i = i + 1;
        }
        proof {
            assert(self.positions.pairs().take(n as int) =~= self.positions.pairs());
        }
        acc as u32
    }

    /// The shares of `token_id` that `position` has borrowed.
    pub fn internal_unwrap_borrowed(&self, position: &String, token_id: &TokenId) -> (r: Shares)
        requires
            self.wf(),
            self.positions@.contains_key(position@),
            self.positions@[position@].borrowed_view().contains_key(token_id@),
        ensures
            r == self.positions@[position@].borrowed_view()[token_id@],
    {
        match self.positions.get_ref(position) {
            Some(p) => p.internal_unwrap_borrowed(token_id),
            None => 0,
        }
    }
}

proof fn lemma_collateral_total_prefix(positions: Seq<(Seq<char>, Position)>, k: int, token_id: Seq<char>)
    requires
        0 <= k <= positions.len(),
    ensures
        collateral_total(positions.take(k), token_id) <= collateral_total(positions, token_id),
    decreases positions.len() - k,
{
    if k < positions.len() {
        assert(positions.take(k + 1).drop_last() =~= positions.take(k));
        lemma_collateral_total_prefix(positions, k + 1, token_id);
    } else {
        assert(positions.take(k) =~= positions);
    }
}

proof fn lemma_borrowed_total_prefix(positions: Seq<(Seq<char>, Position)>, k: int, token_id: Seq<char>)
    requires
        0 <= k <= positions.len(),
    ensures
        borrowed_total(positions.take(k), token_id) <= borrowed_total(positions, token_id),
    decreases positions.len() - k,
{
    if k < positions.len() {
        assert(positions.take(k + 1).drop_last() =~= positions.take(k));
        lemma_borrowed_total_prefix(positions, k + 1, token_id);
    } else {
        assert(positions.take(k) =~= positions);
    }
}

pub proof fn lemma_assets_total_prefix(positions: Seq<(Seq<char>, Position)>, k: int)
    requires
        0 <= k <= positions.len(),
    ensures
        assets_total(positions.take(k)) <= assets_total(positions),
    decreases positions.len() - k,
{
    if k < positions.len() {
        assert(positions.take(k + 1).drop_last() =~= positions.take(k));
        lemma_assets_total_prefix(positions, k + 1);
    } else {
        assert(positions.take(k) =~= positions);
    }
}

} // verus!
