//! The positions of a lending account: collateral and borrowed shares, per token.

use vstd::prelude::*;
use crate::account_map::AccountMap;
use crate::utils::{TokenId, Shares, SHADOW_V1_TOKEN_PREFIX, starts_with, spec_starts_with};

verus! {

/// A position over regular tokens.
pub struct RegularPosition {
    pub collateral: AccountMap<Shares>,
    pub borrowed: AccountMap<Shares>,
}

/// A position whose collateral is one LP token.
pub struct LPTokenPosition {
    pub lpt_id: String,
    pub collateral: Shares,
    pub borrowed: AccountMap<Shares>,
}

impl LPTokenPosition {
    /// A position on `lpt_id` with nothing in it.
    pub fn new(lpt_id: String) -> (r: LPTokenPosition)
        ensures
            r.lpt_id == lpt_id,
            r.collateral == 0,
            r.borrowed.wf(),
            r.borrowed.view() == Map::<Seq<char>, Shares>::empty(),
    {
        LPTokenPosition { lpt_id, collateral: 0, borrowed: AccountMap::new() }
    }
}

/// A position of a lending account.
pub enum Position {
    RegularPosition(RegularPosition),
    LPTokenPosition(LPTokenPosition),
}

impl Position {
    /// The maps of the position hold no key twice.
    pub open spec fn wf(&self) -> bool {
        match self {
            Position::RegularPosition(p) => p.collateral.wf() && p.borrowed.wf(),
            Position::LPTokenPosition(p) => p.borrowed.wf(),
        }
    }

    /// The collateral shares per token (the LP token's shares under its id).
    pub open spec fn collateral_view(&self) -> Map<Seq<char>, Shares> {
        match self {
            Position::RegularPosition(p) => p.collateral.view(),
            Position::LPTokenPosition(p) => map![p.lpt_id@ => p.collateral],
        }
    }

    /// The borrowed shares per token.
    pub open spec fn borrowed_view(&self) -> Map<Seq<char>, Shares> {
        match self {
            Position::RegularPosition(p) => p.borrowed.view(),
            Position::LPTokenPosition(p) => p.borrowed.view(),
        }
    }

    /// A new empty position named `position`: an LP-token position when the
    /// name has the shadow LP-token prefix, a regular position otherwise.
    pub fn new(position: &String) -> (r: Position)
        ensures
            is_fresh_position(position@, r),
    {
        if starts_with(position.as_str(), SHADOW_V1_TOKEN_PREFIX) {
            Position::LPTokenPosition(LPTokenPosition::new(position.clone()))
        } else {
            Position::RegularPosition(RegularPosition { collateral: AccountMap::new(), borrowed: AccountMap::new() })
        }
    }

    /// Nothing is held or borrowed.
    pub open spec fn holds_nothing(&self) -> bool {
        match self {
            Position::RegularPosition(p) => p.collateral.view() == Map::<Seq<char>, Shares>::empty()
                && p.borrowed.view() == Map::<Seq<char>, Shares>::empty(),
            Position::LPTokenPosition(p) => p.collateral == 0 && p.borrowed.view() == Map::<Seq<char>, Shares>::empty(),
        }
    }

    /// Whether nothing is held or borrowed.
    pub fn is_empty(&self) -> (r: bool)
        requires
            self.wf(),
        ensures
            r == self.holds_nothing(),
    {
        match self {
            Position::RegularPosition(p) => p.collateral.is_empty() && p.borrowed.is_empty(),
            Position::LPTokenPosition(p) => p.collateral == 0 && p.borrowed.is_empty(),
        }
    }

    /// Whether nothing is borrowed.
    pub fn is_no_borrowed(&self) -> (r: bool)
        requires
            self.wf(),
        ensures
            r == (self.borrowed_view() == Map::<Seq<char>, Shares>::empty()),
    {
        match self {
            Position::RegularPosition(p) => p.borrowed.is_empty(),
            Position::LPTokenPosition(p) => p.borrowed.is_empty(),
        }
    }

    /// Adds `shares` of `token_id` to the collateral (to the LP token's collateral
    /// in an LP-token position, whatever `token_id`).
    pub fn increase_collateral(&mut self, token_id: &TokenId, shares: Shares)
        requires
            old(self).wf(),
            collateral_fits(*old(self), token_id@, shares),
        ensures
            final(self).wf(),
            collateral_added(*old(self), *final(self), token_id@, shares),
    {
        match self {
            Position::RegularPosition(p) => {
                let current = match p.collateral.get(token_id) {
                    Some(s) => s,
                    None => 0,
                };
                p.collateral.insert(token_id, current + shares);
            },
            Position::LPTokenPosition(p) => {
                p.collateral = p.collateral + shares;
            },
        }
    }

    /// Takes `shares` of `token_id` out of the collateral; a token whose
    /// collateral reaches zero is dropped from a regular position.
    pub fn decrease_collateral(&mut self, token_id: &TokenId, shares: Shares)
        requires
            old(self).wf(),
            collateral_holds(*old(self), token_id@, shares),
        ensures
            final(self).wf(),
            collateral_taken(*old(self), *final(self), token_id@, shares),
    {
        match self {
            Position::RegularPosition(p) => {
                let current = match p.collateral.get(token_id) {
                    Some(s) => s,
                    None => 0,
                };
                let new_balance = current - shares;
                if new_balance > 0 {
                    p.collateral.insert(token_id, new_balance);
                } else {
                    p.collateral.remove(token_id);
                }
            },
            Position::LPTokenPosition(p) => {
                p.collateral = p.collateral - shares;
            },
        }
    }

    /// Adds `shares` of `token_id` to what is borrowed.
    pub fn increase_borrowed(&mut self, token_id: &TokenId, shares: Shares)
        requires
            old(self).wf(),
            held(old(self).borrowed_view(), token_id@) + shares <= u128::MAX,
        ensures
            final(self).wf(),
            borrowed_added(*old(self), *final(self), token_id@, shares),
    {
        match self {
            Position::RegularPosition(p) => {
                let current = match p.borrowed.get(token_id) {
                    Some(s) => s,
                    None => 0,
                };
                p.borrowed.insert(token_id, current + shares);
            },
            Position::LPTokenPosition(p) => {
                let current = match p.borrowed.get(token_id) {
                    Some(s) => s,
                    None => 0,
                };
                p.borrowed.insert(token_id, current + shares);
            },
        }
    }

    /// Takes `shares` of `token_id` out of what is borrowed; a token whose
    /// borrowed shares reach zero is dropped.
    pub fn decrease_borrowed(&mut self, token_id: &TokenId, shares: Shares)
        requires
            old(self).wf(),
            old(self).borrowed_view().contains_key(token_id@),
            shares <= old(self).borrowed_view()[token_id@],
        ensures
            final(self).wf(),
            borrowed_taken(*old(self), *final(self), token_id@, shares),
    {
        match self {
            Position::RegularPosition(p) => {
                let current = match p.borrowed.get(token_id) {
                    Some(s) => s,
                    None => 0,
                };
                let new_balance = current - shares;
                if new_balance > 0 {
                    p.borrowed.insert(token_id, new_balance);
                } else {
                    p.borrowed.remove(token_id);
                }
            },
            Position::LPTokenPosition(p) => {
                let current = match p.borrowed.get(token_id) {
                    Some(s) => s,
                    None => 0,
                };
                let new_balance = current - shares;
                if new_balance > 0 {
                    p.borrowed.insert(token_id, new_balance);
                } else {
                    p.borrowed.remove(token_id);
                }
            },
        }
    }

    /// The collateral shares of `token_id` (of the LP token, in an LP-token position).
    pub fn internal_unwrap_collateral(&self, token_id: &TokenId) -> (r: Shares)
        requires
            self.wf(),
            self matches Position::RegularPosition(p) ==> p.collateral.view().contains_key(token_id@),
        ensures
            r == match self {
                Position::RegularPosition(p) => p.collateral.view()[token_id@],
                Position::LPTokenPosition(p) => p.collateral,
            },
    {
        match self {
            Position::RegularPosition(p) => {
                match p.collateral.get(token_id) {
                    Some(s) => s,
                    None => 0,
                }
            },
            Position::LPTokenPosition(p) => p.collateral,
        }
    }

    /// The borrowed shares of `token_id`.
    pub fn internal_unwrap_borrowed(&self, token_id: &TokenId) -> (r: Shares)
        requires
            self.wf(),
            self.borrowed_view().contains_key(token_id@),
        ensures
            r == self.borrowed_view()[token_id@],
    {
        match self {
            Position::RegularPosition(p) => {
                match p.borrowed.get(token_id) {
                    Some(s) => s,
                    None => 0,
                }
            },
            Position::LPTokenPosition(p) => {
                match p.borrowed.get(token_id) {
                    Some(s) => s,
                    None => 0,
                }
            },
        }
    }

    /// Both positions are regular, or both are LP-token positions on the same LP token.
    pub open spec fn same_kind(&self, other: Position) -> bool {
        match (*self, other) {
            (Position::RegularPosition(p), Position::RegularPosition(q)) => true,
            (Position::LPTokenPosition(p), Position::LPTokenPosition(q)) => p.lpt_id == q.lpt_id,
            _ => false,
        }
    }
}

/// A new empty position named `name`: an LP-token position when the name has
/// the shadow LP-token prefix, a regular position otherwise.
pub open spec fn is_fresh_position(name: Seq<char>, r: Position) -> bool {
    &&& r.wf()
    &&& spec_starts_with(name, SHADOW_V1_TOKEN_PREFIX@) ==> (r matches Position::LPTokenPosition(p)
        && p.lpt_id@ == name && p.collateral == 0 && p.borrowed.view() == Map::<Seq<char>, Shares>::empty())
    &&& !spec_starts_with(name, SHADOW_V1_TOKEN_PREFIX@) ==> (r matches Position::RegularPosition(p)
        && p.collateral.view() == Map::<Seq<char>, Shares>::empty() && p.borrowed.view() == Map::<Seq<char>, Shares>::empty())
}

/// Whether `shares` more collateral of `token_id` fit in `p`.
pub open spec fn collateral_fits(p: Position, token_id: Seq<char>, shares: Shares) -> bool {
    match p {
        Position::RegularPosition(p) => held(p.collateral.view(), token_id) + shares <= u128::MAX,
        Position::LPTokenPosition(p) => p.collateral + shares <= u128::MAX,
    }
}

/// Whether `p` holds at least `shares` collateral of `token_id` (of its LP
/// token, in an LP-token position).
pub open spec fn collateral_holds(p: Position, token_id: Seq<char>, shares: Shares) -> bool {
    match p {
        Position::RegularPosition(p) => p.collateral.view().contains_key(token_id) && shares <= p.collateral.view()[token_id],
        Position::LPTokenPosition(p) => shares <= p.collateral,
    }
}

/// `q` is `p` with `shares` more collateral of `token_id` (of its LP token, in
/// an LP-token position).
pub open spec fn collateral_added(p: Position, q: Position, token_id: Seq<char>, shares: Shares) -> bool {
    match (p, q) {
        (Position::RegularPosition(p), Position::RegularPosition(q)) =>
            q.collateral.view() == p.collateral.view().insert(token_id, (held(p.collateral.view(), token_id) + shares) as u128)
            && q.borrowed == p.borrowed,
        (Position::LPTokenPosition(p), Position::LPTokenPosition(q)) =>
            q == (LPTokenPosition { collateral: (p.collateral + shares) as u128, ..p }),
        _ => false,
    }
}

/// `q` is `p` with `shares` less collateral of `token_id` (of its LP token, in
/// an LP-token position); a regular position drops a token left with none.
pub open spec fn collateral_taken(p: Position, q: Position, token_id: Seq<char>, shares: Shares) -> bool {
    match (p, q) {
        (Position::RegularPosition(p), Position::RegularPosition(q)) =>
            q.collateral.view() == reduced(p.collateral.view(), token_id, shares)
            && q.borrowed == p.borrowed,
        (Position::LPTokenPosition(p), Position::LPTokenPosition(q)) =>
            q == (LPTokenPosition { collateral: (p.collateral - shares) as u128, ..p }),
        _ => false,
    }
}

/// `q` is `p` with `shares` more borrowed of `token_id`.
pub open spec fn borrowed_added(p: Position, q: Position, token_id: Seq<char>, shares: Shares) -> bool {
    &&& q.borrowed_view() == p.borrowed_view().insert(token_id, (held(p.borrowed_view(), token_id) + shares) as u128)
    &&& q.collateral_view() == p.collateral_view()
    &&& q.same_kind(p)
}

/// `q` is `p` with `shares` less borrowed of `token_id`, dropping a token left
/// with none.
pub open spec fn borrowed_taken(p: Position, q: Position, token_id: Seq<char>, shares: Shares) -> bool {
    &&& q.borrowed_view() == reduced(p.borrowed_view(), token_id, shares)
    &&& q.collateral_view() == p.collateral_view()
    &&& q.same_kind(p)
}

/// The shares of `k` in `m` (zero when it has none).
pub open spec fn held(m: Map<Seq<char>, Shares>, k: Seq<char>) -> nat {
    if m.contains_key(k) { m[k] as nat } else { 0 }
}

/// `m` with `shares` fewer shares of `k`, and without `k` when none are left.
pub open spec fn reduced(m: Map<Seq<char>, Shares>, k: Seq<char>, shares: Shares) -> Map<Seq<char>, Shares> {
    if m[k] - shares > 0 { m.insert(k, (m[k] - shares) as u128) } else { m.remove(k) }
}

/// Taking out what was just added gives the shares back as they were, for
/// collateral and debt alike: `reduced` undoes adding `shares` of `k`. A map
/// that holds `k` with zero shares is left out: there the key is dropped.
pub proof fn lemma_decrease_undoes_increase(m: Map<Seq<char>, Shares>, k: Seq<char>, shares: Shares)
    requires
        !(m.contains_key(k) && m[k] == 0),
        held(m, k) + shares <= u128::MAX,
    ensures
        reduced(m.insert(k, (held(m, k) + shares) as u128), k, shares) == m,
{
    let m2 = m.insert(k, (held(m, k) + shares) as u128);
    if m.contains_key(k) {
        assert(m2.insert(k, (m2[k] - shares) as u128) =~= m);
    } else {
        assert(m2.remove(k) =~= m);
    }
}

} // verus!
