//! The tokens whose prices a batch of actions needs: those of the positions
//! whose health it checks, of the debts it adds, and of the positions it
//! liquidates.

use vstd::prelude::*;
use crate::account::Account;
use crate::account_map::AccountMap;
use crate::actions::Action;
use crate::margin_account::MarginAccount;
use crate::margin_actions::MarginAction;
use crate::position::Position;
use crate::shadow::{TokenAmount, UnitShareTokens};
use crate::utils::{TokenId, REGULAR_POSITION, push_new, string_views, push_if_new};

verus! {

/// The tokens of a pool of the exchange.
pub open spec fn pool_tokens(info: UnitShareTokens) -> Set<Seq<char>> {
    info.tokens@.map_values(|t: TokenAmount| t.token_id@).to_set()
}

/// The tokens of the position `position` of `account`: its collateral and
/// debts; for an LP-token position, the tokens of its pool and its debts.
/// None where the account has no such position.
pub open spec fn position_tokens(account: Account, lp_infos: AccountMap<UnitShareTokens>, position: Seq<char>) -> Set<Seq<char>> {
    if account.positions@.contains_key(position) {
        match account.positions@[position] {
            Position::RegularPosition(p) => p.collateral@.dom() + p.borrowed@.dom(),
            Position::LPTokenPosition(p) => pool_tokens(lp_infos@[p.lpt_id@]) + p.borrowed@.dom(),
        }
    } else {
        Set::empty()
    }
}

/// The LP info of every LP-token position of the account is known.
pub open spec fn lp_infos_known(account: Account, lp_infos: AccountMap<UnitShareTokens>) -> bool {
    forall|k: Seq<char>| #[trigger] account.positions@.contains_key(k) ==> (account.positions@[k] matches Position::LPTokenPosition(p)
        ==> lp_infos@.contains_key(p.lpt_id@))
}

/// Whether the batch borrows against the regular position.
pub open spec fn borrows(actions: Seq<Action>) -> bool {
    exists|i: int| 0 <= i < actions.len() && #[trigger] actions[i] matches Action::Borrow(_)
}

/// Whether the batch borrows against a named position.
pub open spec fn position_borrows(actions: Seq<Action>) -> bool {
    exists|i: int| 0 <= i < actions.len() && #[trigger] actions[i] matches Action::PositionBorrow { .. }
}

/// The name of the position an optional name stands for: the regular one when none.
pub open spec fn position_name(position: Option<String>) -> Seq<char> {
    match position { Some(p) => p@, None => REGULAR_POSITION@ }
}

/// The tokens that one action of the batch `actions` of `account` needs the
/// prices of by itself, and the positions whose tokens it needs.
pub open spec fn action_involves(action: Action, actions: Seq<Action>, account: Account, lp_infos: AccountMap<UnitShareTokens>,
    liquidation_accounts: AccountMap<Account>) -> (Set<Seq<char>>, Set<Seq<char>>)
{
    match action {
        Action::IncreaseCollateral(a) =>
            (if !account.positions@.contains_key(REGULAR_POSITION@) && borrows(actions) { set![a.token_id@] } else { Set::empty() },
                Set::empty()),
        Action::PositionIncreaseCollateral { position, asset_amount } =>
            (if !account.positions@.contains_key(position@) && position_borrows(actions) {
                pool_tokens(lp_infos@[position@])
            } else {
                Set::empty()
            }, Set::empty()),
        Action::DecreaseCollateral(_) => (Set::empty(), set![REGULAR_POSITION@]),
        Action::PositionDecreaseCollateral { position, asset_amount } => (Set::empty(), set![position@]),
        Action::Borrow(a) => (set![a.token_id@], set![REGULAR_POSITION@]),
        Action::PositionBorrow { position, asset_amount } => (set![asset_amount.token_id@], set![position@]),
        Action::Liquidate { account_id, in_assets, out_assets, position, min_token_amounts } =>
            (position_tokens(liquidation_accounts@[account_id@], lp_infos, position_name(position)), Set::empty()),
        Action::ForceClose { account_id, position, min_token_amounts } =>
            (position_tokens(liquidation_accounts@[account_id@], lp_infos, position_name(position)), Set::empty()),
        _ => (Set::empty(), Set::empty()),
    }
}

/// The tokens and the positions that the first `n` actions involve.
pub open spec fn involves_prefix(actions: Seq<Action>, n: int, account: Account, lp_infos: AccountMap<UnitShareTokens>,
    liquidation_accounts: AccountMap<Account>) -> (Set<Seq<char>>, Set<Seq<char>>)
    decreases n,
{
    if n <= 0 {
        (Set::empty(), Set::empty())
    } else {
        let (t, p) = involves_prefix(actions, n - 1, account, lp_infos, liquidation_accounts);
        let (t2, p2) = action_involves(actions[n - 1], actions, account, lp_infos, liquidation_accounts);
        (t + t2, p + p2)
    }
}

/// The tokens whose prices the batch needs: those the actions need by
/// themselves, and those of the account's positions they involve.
pub open spec fn involved_tokens_set(actions: Seq<Action>, account: Account, lp_infos: AccountMap<UnitShareTokens>,
    liquidation_accounts: AccountMap<Account>) -> Set<Seq<char>>
{
    let (t, p) = involves_prefix(actions, actions.len() as int, account, lp_infos, liquidation_accounts);
    t + tokens_of_positions(account, lp_infos, p)
}

/// The tokens of the named positions of `account`.
pub open spec fn tokens_of_positions(account: Account, lp_infos: AccountMap<UnitShareTokens>, p: Set<Seq<char>>) -> Set<Seq<char>> {
    Set::new(|x: Seq<char>| exists|q: Seq<char>| p.contains(q) && #[trigger] position_tokens(account, lp_infos, q).contains(x))
}

/// The tokens of the first `k` positions named in `pv`.
pub open spec fn tokens_of_first(account: Account, lp_infos: AccountMap<UnitShareTokens>, pv: Seq<Seq<char>>, k: int) -> Set<Seq<char>> {
    Set::new(|x: Seq<char>| exists|j: int| 0 <= j < k && #[trigger] position_tokens(account, lp_infos, pv[j]).contains(x))
}

/// What the batch needs of the accounts and LP infos: the info of each pool a
/// new LP-token position borrows against, each liquidated account, and the
/// info of every LP-token position of the accounts.
pub open spec fn involved_ok(actions: Seq<Action>, account: Account, lp_infos: AccountMap<UnitShareTokens>,
    liquidation_accounts: AccountMap<Account>) -> bool
{
    &&& account.wf()
    &&& lp_infos.wf()
    &&& liquidation_accounts.wf()
    &&& lp_infos_known(account, lp_infos)
    &&& forall|i: int| 0 <= i < actions.len() ==> match #[trigger] actions[i] {
        Action::PositionIncreaseCollateral { position, asset_amount } =>
            !account.positions@.contains_key(position@) && position_borrows(actions) ==> lp_infos@.contains_key(position@),
        Action::Liquidate { account_id, .. } => liquidation_accounts@.contains_key(account_id@)
            && liquidation_accounts@[account_id@].wf() && lp_infos_known(liquidation_accounts@[account_id@], lp_infos),
        Action::ForceClose { account_id, .. } => liquidation_accounts@.contains_key(account_id@)
            && liquidation_accounts@[account_id@].wf() && lp_infos_known(liquidation_accounts@[account_id@], lp_infos),
        _ => true,
    }
}

/// A list of distinct tokens standing for the set `s`.
pub open spec fn lists(v: Seq<String>, s: Set<Seq<char>>) -> bool {
    string_views(v).no_duplicates() && string_views(v).to_set() == s
}

proof fn lemma_push_new(s: Seq<Seq<char>>, f: Seq<char>)
    ensures
        push_new(s, f).to_set() == s.to_set().insert(f),
        s.no_duplicates() ==> push_new(s, f).no_duplicates(),
{
    if s.contains(f) {
        assert(s.to_set().insert(f) =~= s.to_set());
    } else {
        s.lemma_push_to_set_commute(f);
        if s.no_duplicates() {
            assert forall|i: int, j: int| 0 <= i < s.push(f).len() && 0 <= j < s.push(f).len() && i != j
                implies s.push(f)[i] != s.push(f)[j] by {
                if i == s.len() as int {
                    assert(s[j] == s.push(f)[j]);
                } else if j == s.len() as int {
                    assert(s[i] == s.push(f)[i]);
                }
            }
        }
    }
}

fn add_token(tokens: &mut Vec<String>, t: &String)
    requires
        string_views(old(tokens)@).no_duplicates(),
    ensures
        string_views(final(tokens)@).no_duplicates(),
        string_views(final(tokens)@).to_set() == string_views(old(tokens)@).to_set().insert(t@),
{
    proof { lemma_push_new(string_views(tokens@), t@); }
    push_if_new(tokens, t.clone());
}

fn add_keys<V>(tokens: &mut Vec<String>, m: &AccountMap<V>)
    requires
        m.wf(),
        string_views(old(tokens)@).no_duplicates(),
    ensures
        string_views(final(tokens)@).no_duplicates(),
        string_views(final(tokens)@).to_set() == string_views(old(tokens)@).to_set() + m@.dom(),
{
    let ghost start = string_views(tokens@).to_set();
    let n = m.len();
    let mut i: usize = 0;
    while i < n
        invariant
            m.wf(),
            n == m.pairs().len(),
            i <= n,
            string_views(tokens@).no_duplicates(),
            string_views(tokens@).to_set() == start + Set::new(|k: Seq<char>| exists|j: int| 0 <= j < i && m.pairs()[j].0 == k),
        decreases n - i,
    {
        let (k, _) = m.entry_ref_at(i);
        add_token(tokens, k);
        proof {
            assert(Set::new(|k: Seq<char>| exists|j: int| 0 <= j < i + 1 && m.pairs()[j].0 == k)
                =~= Set::new(|k: Seq<char>| exists|j: int| 0 <= j < i && m.pairs()[j].0 == k).insert(m.pairs()[i as int].0));
        }
        i = i + 1;
    }
    proof {
        assert(Set::new(|k: Seq<char>| exists|j: int| 0 <= j < n && m.pairs()[j].0 == k) =~= m@.dom());
    }
}

fn add_pool_tokens(tokens: &mut Vec<String>, info: &UnitShareTokens)
    requires
        string_views(old(tokens)@).no_duplicates(),
    ensures
        string_views(final(tokens)@).no_duplicates(),
        string_views(final(tokens)@).to_set() == string_views(old(tokens)@).to_set() + pool_tokens(*info),
{
    let ghost start = string_views(tokens@).to_set();
    let ghost ids = info.tokens@.map_values(|t: TokenAmount| t.token_id@);
    let n = info.tokens.len();
    let mut i: usize = 0;
    while i < n
        invariant
            n == info.tokens@.len(),
            ids == info.tokens@.map_values(|t: TokenAmount| t.token_id@),
            i <= n,
            string_views(tokens@).no_duplicates(),
            string_views(tokens@).to_set() == start + ids.take(i as int).to_set(),
        decreases n - i,
    {
        add_token(tokens, &info.tokens[i].token_id);
        proof {
            assert(ids.take(i + 1) =~= ids.take(i as int).push(ids[i as int]));
            ids.take(i as int).lemma_push_to_set_commute(ids[i as int]);
        }
        i = i + 1;
    }
    proof {
        assert(ids.take(n as int) =~= ids);
    }
}

/// Adds the tokens of the position `position` of `account` (see `position_tokens`).
fn add_position_tokens(tokens: &mut Vec<String>, account: &Account, lp_infos: &AccountMap<UnitShareTokens>, position: &String)
    requires
        account.wf(),
        lp_infos.wf(),
        lp_infos_known(*account, *lp_infos),
        string_views(old(tokens)@).no_duplicates(),
    ensures
        string_views(final(tokens)@).no_duplicates(),
        string_views(final(tokens)@).to_set() == string_views(old(tokens)@).to_set() + position_tokens(*account, *lp_infos, position@),
{
    match account.positions.get_ref(position) {
        Some(Position::RegularPosition(p)) => {
            add_keys(tokens, &p.collateral);
            add_keys(tokens, &p.borrowed);
        },
        Some(Position::LPTokenPosition(p)) => {
            match lp_infos.get_ref(&p.lpt_id) {
                Some(info) => add_pool_tokens(tokens, info),
                None => {},
            }
            add_keys(tokens, &p.borrowed);
        },
        None => {},
    }
}

fn any_borrow(actions: &Vec<Action>) -> (r: bool)
    ensures
        r == borrows(actions@),
{
    let mut i: usize = 0;
    while i < actions.len()
        invariant
            i <= actions.len(),
            forall|j: int| 0 <= j < i ==> !(#[trigger] actions@[j] matches Action::Borrow(_)),
        decreases actions.len() - i,
    {
        if let Action::Borrow(_) = &actions[i] {
            return true;
        }
        i = i + 1;
    }
    false
}

fn any_position_borrow(actions: &Vec<Action>) -> (r: bool)
    ensures
        r == position_borrows(actions@),
{
    let mut i: usize = 0;
    while i < actions.len()
        invariant
            i <= actions.len(),
            forall|j: int| 0 <= j < i ==> !(#[trigger] actions@[j] matches Action::PositionBorrow { .. }),
        decreases actions.len() - i,
    {
        if let Action::PositionBorrow { .. } = &actions[i] {
            return true;
        }
        i = i + 1;
    }
    false
}

/// The tokens whose prices the batch `actions` of `account` needs (see
/// `involved_tokens_set`), each once; `lp_infos` holds the exchange's LP
/// infos and `liquidation_accounts` the accounts the batch liquidates.
pub fn involved_tokens(account: &Account, actions: &Vec<Action>, lp_infos: &AccountMap<UnitShareTokens>,
    liquidation_accounts: &AccountMap<Account>) -> (r: Vec<TokenId>)
    requires
        involved_ok(actions@, *account, *lp_infos, *liquidation_accounts),
    ensures
        lists(r@, involved_tokens_set(actions@, *account, *lp_infos, *liquidation_accounts)),
{
    let borrow = any_borrow(actions);
    let position_borrow = any_position_borrow(actions);
    let mut tokens: Vec<String> = Vec::new();
    let mut positions: Vec<String> = Vec::new();
    proof {
        assert(string_views(tokens@) =~= Seq::<Seq<char>>::empty());
        assert(string_views(positions@) =~= Seq::<Seq<char>>::empty());
        assert(Seq::<Seq<char>>::empty().to_set() =~= Set::<Seq<char>>::empty());
    }
    let n = actions.len();
    let mut i: usize = 0;
    while i < n
        invariant
            n == actions@.len(),
            i <= n,
            borrow == borrows(actions@),
            position_borrow == position_borrows(actions@),
            involved_ok(actions@, *account, *lp_infos, *liquidation_accounts),
            string_views(tokens@).no_duplicates(),
            string_views(positions@).no_duplicates(),
            string_views(tokens@).to_set() == involves_prefix(actions@, i as int, *account, *lp_infos, *liquidation_accounts).0,
            string_views(positions@).to_set() == involves_prefix(actions@, i as int, *account, *lp_infos, *liquidation_accounts).1,
        decreases n - i,
    {
        let ghost before_t = string_views(tokens@).to_set();
        let ghost before_p = string_views(positions@).to_set();
        let ghost step = action_involves(actions@[i as int], actions@, *account, *lp_infos, *liquidation_accounts);
        match &actions[i] {
            Action::IncreaseCollateral(a) => {
                let regular = REGULAR_POSITION.to_string();
                if account.positions.get_ref(&regular).is_none() && borrow {
                    add_token(&mut tokens, &a.token_id);
                    proof { assert(set![a.token_id@] + before_t =~= before_t.insert(a.token_id@)); }
                }
            },
            Action::PositionIncreaseCollateral { position, asset_amount } => {
                if account.positions.get_ref(position).is_none() && position_borrow {
                    match lp_infos.get_ref(position) {
                        Some(info) => add_pool_tokens(&mut tokens, info),
                        None => {},
                    }
                }
            },
            Action::DecreaseCollateral(_) => {
                add_token(&mut positions, &REGULAR_POSITION.to_string());
            },
            Action::PositionDecreaseCollateral { position, asset_amount } => {
                add_token(&mut positions, position);
            },
            Action::Borrow(a) => {
                add_token(&mut tokens, &a.token_id);
                add_token(&mut positions, &REGULAR_POSITION.to_string());
            },
            Action::PositionBorrow { position, asset_amount } => {
                add_token(&mut tokens, &asset_amount.token_id);
                add_token(&mut positions, position);
            },
            Action::Liquidate { account_id, position, .. } => {
                let name = match position { Some(p) => p.clone(), None => REGULAR_POSITION.to_string() };
                match liquidation_accounts.get_ref(account_id) {
                    Some(la) => add_position_tokens(&mut tokens, la, lp_infos, &name),
                    None => {},
                }
            },
            Action::ForceClose { account_id, position, .. } => {
                let name = match position { Some(p) => p.clone(), None => REGULAR_POSITION.to_string() };
                match liquidation_accounts.get_ref(account_id) {
                    Some(la) => add_position_tokens(&mut tokens, la, lp_infos, &name),
                    None => {},
                }
            },
            _ => {},
        }
        proof {
            assert(string_views(tokens@).to_set() =~= before_t + step.0);
            assert(string_views(positions@).to_set() =~= before_p + step.1);
        }
        i = i + 1;
    }
    let ghost t = string_views(tokens@).to_set();
    let ghost p = string_views(positions@).to_set();
    let ghost pv = string_views(positions@);
    let m = positions.len();
    let mut k: usize = 0;
    proof {
        assert(tokens_of_first(*account, *lp_infos, pv, 0) =~= Set::<Seq<char>>::empty());
        assert(t + Set::<Seq<char>>::empty() =~= t);
    }
    while k < m
        invariant
            m == positions@.len(),
            pv == string_views(positions@),
            k <= m,
            account.wf(),
            lp_infos.wf(),
            lp_infos_known(*account, *lp_infos),
            string_views(tokens@).no_duplicates(),
            string_views(tokens@).to_set() == t + tokens_of_first(*account, *lp_infos, pv, k as int),
        decreases m - k,
    {
        add_position_tokens(&mut tokens, account, lp_infos, &positions[k]);
        proof {
            assert(pv[k as int] == positions@[k as int]@);
            assert forall|x: Seq<char>| #[trigger] tokens_of_first(*account, *lp_infos, pv, k + 1).contains(x)
                == (tokens_of_first(*account, *lp_infos, pv, k as int).contains(x)
                    || position_tokens(*account, *lp_infos, pv[k as int]).contains(x)) by {
                if tokens_of_first(*account, *lp_infos, pv, k + 1).contains(x) {
                    let j = choose|j: int| 0 <= j < k + 1 && #[trigger] position_tokens(*account, *lp_infos, pv[j]).contains(x);
                    if j < k {
                        assert(tokens_of_first(*account, *lp_infos, pv, k as int).contains(x));
                    }
                }
                if position_tokens(*account, *lp_infos, pv[k as int]).contains(x) {
                    assert(tokens_of_first(*account, *lp_infos, pv, k + 1).contains(x));
                }
                if tokens_of_first(*account, *lp_infos, pv, k as int).contains(x) {
                    let j = choose|j: int| 0 <= j < k && #[trigger] position_tokens(*account, *lp_infos, pv[j]).contains(x);
                    assert(tokens_of_first(*account, *lp_infos, pv, k + 1).contains(x));
                }
            }
            assert(string_views(tokens@).to_set() =~= t + tokens_of_first(*account, *lp_infos, pv, k + 1));
        }
        k = k + 1;
    }
    proof {
        assert forall|x: Seq<char>| #[trigger] tokens_of_positions(*account, *lp_infos, p).contains(x)
            == tokens_of_first(*account, *lp_infos, pv, m as int).contains(x) by {
            if tokens_of_positions(*account, *lp_infos, p).contains(x) {
                let q = choose|q: Seq<char>| p.contains(q) && #[trigger] position_tokens(*account, *lp_infos, q).contains(x);
                assert(pv.contains(q));
                let j = choose|j: int| 0 <= j < pv.len() && pv[j] == q;
                assert(position_tokens(*account, *lp_infos, pv[j]).contains(x));
            }
            if tokens_of_first(*account, *lp_infos, pv, m as int).contains(x) {
                let j = choose|j: int| 0 <= j < m && #[trigger] position_tokens(*account, *lp_infos, pv[j]).contains(x);
                assert(pv.contains(pv[j]));
                assert(p.contains(pv[j]));
            }
        }
        assert(tokens_of_positions(*account, *lp_infos, p) =~= tokens_of_first(*account, *lp_infos, pv, m as int));
    }
    tokens
}

/// The position and debt tokens of a margin position.
pub open spec fn pd_tokens(mt: crate::margin_position::MarginTradingPosition) -> Set<Seq<char>> {
    set![mt.token_p_id@, mt.token_d_id@]
}

/// The tokens whose prices one margin action of `account` needs: the
/// position and debt tokens of the position it changes, opens or
/// liquidates.
pub open spec fn margin_action_involves(action: MarginAction, account: MarginAccount, owners: AccountMap<MarginAccount>)
    -> Set<Seq<char>>
{
    match action {
        MarginAction::DecreaseCollateral { pos_id, .. } => pd_tokens(account.margin_positions@[pos_id@]),
        MarginAction::DecreaseMTPosition { pos_id, .. } => pd_tokens(account.margin_positions@[pos_id@]),
        MarginAction::CloseMTPosition { pos_id, .. } => pd_tokens(account.margin_positions@[pos_id@]),
        MarginAction::OpenPosition { token_d_id, token_p_id, .. } => set![token_p_id@, token_d_id@],
        MarginAction::LiquidateMTPosition { pos_owner_id, pos_id, .. } =>
            pd_tokens(owners@[pos_owner_id@].margin_positions@[pos_id@]),
        MarginAction::ForceCloseMTPosition { pos_owner_id, pos_id, .. } =>
            pd_tokens(owners@[pos_owner_id@].margin_positions@[pos_id@]),
        _ => Set::empty(),
    }
}

/// The tokens that the first `n` margin actions need the prices of.
pub open spec fn margin_involves_prefix(actions: Seq<MarginAction>, n: int, account: MarginAccount,
    owners: AccountMap<MarginAccount>) -> Set<Seq<char>>
    decreases n,
{
    if n <= 0 {
        Set::empty()
    } else {
        margin_involves_prefix(actions, n - 1, account, owners) + margin_action_involves(actions[n - 1], account, owners)
    }
}

/// Every position the margin actions name exists: the account's own, and
/// those of the owners it liquidates or closes by force.
pub open spec fn margin_involved_ok(actions: Seq<MarginAction>, account: MarginAccount, owners: AccountMap<MarginAccount>) -> bool {
    &&& account.wf()
    &&& owners.wf()
    &&& forall|i: int| 0 <= i < actions.len() ==> match #[trigger] actions[i] {
        MarginAction::DecreaseCollateral { pos_id, .. } => account.margin_positions@.contains_key(pos_id@),
        MarginAction::DecreaseMTPosition { pos_id, .. } => account.margin_positions@.contains_key(pos_id@),
        MarginAction::CloseMTPosition { pos_id, .. } => account.margin_positions@.contains_key(pos_id@),
        MarginAction::LiquidateMTPosition { pos_owner_id, pos_id, .. } => owners@.contains_key(pos_owner_id@)
            && owners@[pos_owner_id@].wf() && owners@[pos_owner_id@].margin_positions@.contains_key(pos_id@),
        MarginAction::ForceCloseMTPosition { pos_owner_id, pos_id, .. } => owners@.contains_key(pos_owner_id@)
            && owners@[pos_owner_id@].wf() && owners@[pos_owner_id@].margin_positions@.contains_key(pos_id@),
        _ => true,
    }
}

fn add_pd_tokens(tokens: &mut Vec<String>, account: &MarginAccount, pos_id: &String)
    requires
        account.wf(),
        account.margin_positions@.contains_key(pos_id@),
        string_views(old(tokens)@).no_duplicates(),
    ensures
        string_views(final(tokens)@).no_duplicates(),
        string_views(final(tokens)@).to_set() == string_views(old(tokens)@).to_set() + pd_tokens(account.margin_positions@[pos_id@]),
{
    match account.margin_positions.get_ref(pos_id) {
        Some(mt) => {
            let ghost start = string_views(tokens@).to_set();
            add_token(tokens, &mt.token_p_id);
            add_token(tokens, &mt.token_d_id);
            proof { assert(start.insert(mt.token_p_id@).insert(mt.token_d_id@) =~= start + pd_tokens(*mt)); }
        },
        None => {},
    }
}

/// The tokens whose prices the margin actions of `account` need (see
/// `margin_action_involves`), each once; `owners` holds the margin accounts
/// whose positions the actions liquidate or close by force.
pub fn margin_involved_tokens(account: &MarginAccount, actions: &Vec<MarginAction>, owners: &AccountMap<MarginAccount>)
    -> (r: Vec<TokenId>)
    requires
        margin_involved_ok(actions@, *account, *owners),
    ensures
        lists(r@, margin_involves_prefix(actions@, actions@.len() as int, *account, *owners)),
{
    let mut tokens: Vec<String> = Vec::new();
    proof {
        assert(string_views(tokens@) =~= Seq::<Seq<char>>::empty());
        assert(Seq::<Seq<char>>::empty().to_set() =~= Set::<Seq<char>>::empty());
    }
    let n = actions.len();
    let mut i: usize = 0;
    while i < n
        invariant
            n == actions@.len(),
            i <= n,
            margin_involved_ok(actions@, *account, *owners),
            string_views(tokens@).no_duplicates(),
            string_views(tokens@).to_set() == margin_involves_prefix(actions@, i as int, *account, *owners),
        decreases n - i,
    {
        let ghost before = string_views(tokens@).to_set();
        match &actions[i] {
            MarginAction::DecreaseCollateral { pos_id, .. } => add_pd_tokens(&mut tokens, account, pos_id),
            MarginAction::DecreaseMTPosition { pos_id, .. } => add_pd_tokens(&mut tokens, account, pos_id),
            MarginAction::CloseMTPosition { pos_id, .. } => add_pd_tokens(&mut tokens, account, pos_id),
            MarginAction::OpenPosition { token_d_id, token_p_id, .. } => {
                add_token(&mut tokens, token_p_id);
                add_token(&mut tokens, token_d_id);
                proof { assert(before.insert(token_p_id@).insert(token_d_id@) =~= before + set![token_p_id@, token_d_id@]); }
            },
            MarginAction::LiquidateMTPosition { pos_owner_id, pos_id, .. } => {
                match owners.get_ref(pos_owner_id) {
                    Some(owner) => add_pd_tokens(&mut tokens, owner, pos_id),
                    None => {},
                }
            },
            MarginAction::ForceCloseMTPosition { pos_owner_id, pos_id, .. } => {
                match owners.get_ref(pos_owner_id) {
                    Some(owner) => add_pd_tokens(&mut tokens, owner, pos_id),
                    None => {},
                }
            },
            _ => {},
        }
        proof {
            assert(string_views(tokens@).to_set() =~= before + margin_action_involves(actions@[i as int], *account, *owners));
        }
        i = i + 1;
    }
    tokens
}

} // verus!
