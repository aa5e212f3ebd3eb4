//! A batch of actions of one account: the checks that every action must
//! pass, each action in turn on the account and the assets, and the checks
//! of the account after them: its number of assets, and the health of the
//! positions that the batch put at risk.

use vstd::prelude::*;
use crate::account::{Account, assets_total};
use crate::account_health::{position_max_discount, position_valuable, position_discount};
use crate::account_map::AccountMap;
use crate::actions::{Action, ActionError, actions_plan, plan_actions, lemma_plan_checks_risky_positions};
use crate::asset::Asset;
use crate::execute::{ActionOutcome, ExecuteError, execute_action, lending_step, step_done, lemma_refused_action_changes_nothing};
use crate::position::Position;
use crate::prices::{Price, Prices};
use crate::shadow::UnitShareTokens;
use crate::utils::{AccountId, Shares, Timestamp, to_nano, REGULAR_POSITION};
use crate::whitelist::Whitelist;

verus! {

/// What a batch is run with besides the account, the assets and the prices.
pub struct ExecuteEnv {
    /// The accounts that may withdraw with a client echo.
    pub client_echo_whitelist: Whitelist,
    /// The batch comes from a reliable liquidator, which the supply and
    /// borrow limits do not hold back.
    pub reliable_liquidator: bool,
    /// The most assets an account may hold over its positions.
    pub max_num_assets: u32,
    /// How long what an LP token holds stays valid after it is reported, in
    /// seconds.
    pub lp_tokens_info_valid_duration_sec: u32,
    /// The time now, in nanoseconds.
    pub now: Timestamp,
}

/// Why a batch was refused.
#[derive(Clone, Copy, PartialEq, Eq, Debug)]
pub enum BatchError {
    /// An action failed the checks that run before the batch.
    Refused(ActionError),
    /// The action at `index` was refused.
    ActionFailed { index: usize, error: ExecuteError },
    /// The account would hold more assets than allowed.
    TooManyAssets,
    /// An LP-token position to check owes something, and what its LP token
    /// holds is not known.
    LpInfoMissing,
    /// What the LP token of an LP-token position to check holds was
    /// reported too long ago.
    LpInfoStale,
    /// A position to check can not be valued at the prices.
    NotValuable,
    /// A position to check could be liquidated.
    AtRisk,
}

/// One action took the account and the assets from the first pair of states
/// to the second, with result `r`: a lending action as `step_done` says, any
/// other changing nothing here.
pub open spec fn step_ok(action: Action, account: Account, assets: AccountMap<Asset>, reliable_liquidator: bool,
    r: Result<ActionOutcome, ExecuteError>, account2: Account, assets2: AccountMap<Asset>) -> bool
{
    match lending_step(action) {
        Some((k, p, a)) => step_done(k, p, account, assets, a, reliable_liquidator, r, account2, assets2),
        None => r == Ok::<ActionOutcome, ExecuteError>(ActionOutcome::OnOtherAccount) && account2 == account
            && assets2 == assets,
    }
}

/// `accounts` and `assets` are the states that `actions` go through, one
/// action after the other, each succeeding with its outcome in `outcomes`.
pub open spec fn is_run(actions: Seq<Action>, accounts: Seq<Account>, assets: Seq<AccountMap<Asset>>,
    outcomes: Seq<ActionOutcome>, reliable_liquidator: bool) -> bool
{
    &&& accounts.len() == actions.len() + 1
    &&& assets.len() == actions.len() + 1
    &&& outcomes.len() == actions.len()
    &&& forall|i: int| #![trigger actions[i]] 0 <= i < actions.len() ==> step_ok(actions[i], accounts[i], assets[i],
        reliable_liquidator, Ok(outcomes[i]), accounts[i + 1], assets[i + 1])
}

/// What is known of what the LP token named `position` holds.
pub open spec fn lp_info_for(lp_infos: Map<Seq<char>, UnitShareTokens>, position: Seq<char>) -> Option<UnitShareTokens> {
    if lp_infos.contains_key(position) { Some(lp_infos[position]) } else { None }
}

/// What an LP token holds, reported at `info.timestamp`, is still valid at
/// `now`.
pub open spec fn info_fresh(info: UnitShareTokens, valid_duration_sec: u32, now: Timestamp) -> bool {
    info.timestamp <= now && now - info.timestamp <= valid_duration_sec * 1_000_000_000
}

/// The check of one position after a batch: an LP-token position that owes
/// something needs a valid report of what its LP token holds; then the
/// position must be valued (see `position_valuable`), at no discount.
pub open spec fn health_check(account: Account, position: Seq<char>, assets: Map<Seq<char>, Asset>,
    prices: Map<Seq<char>, Price>, lp_infos: Map<Seq<char>, UnitShareTokens>, env: ExecuteEnv) -> Result<(), BatchError>
{
    let info = lp_info_for(lp_infos, position);
    if account.positions@.contains_key(position) && account.positions@[position] is LPTokenPosition
        && account.positions@[position].borrowed_view() != Map::<Seq<char>, Shares>::empty()
        && (info is None || !info_fresh(info.unwrap(), env.lp_tokens_info_valid_duration_sec, env.now)) {
        if info is None { Err(BatchError::LpInfoMissing) } else { Err(BatchError::LpInfoStale) }
    } else if !position_valuable(account, position, assets, prices, info) {
        Err(BatchError::NotValuable)
    } else if position_discount(account, position, assets, prices, info) > 0 {
        Err(BatchError::AtRisk)
    } else {
        Ok(())
    }
}

/// The checks of the positions, in order; the first that fails decides.
pub open spec fn health_checks(account: Account, positions: Seq<Seq<char>>, assets: Map<Seq<char>, Asset>,
    prices: Map<Seq<char>, Price>, lp_infos: Map<Seq<char>, UnitShareTokens>, env: ExecuteEnv) -> Result<(), BatchError>
    decreases positions.len(),
{
    if positions.len() == 0 {
        Ok(())
    } else {
        match health_checks(account, positions.drop_last(), assets, prices, lp_infos, env) {
            Err(e) => Err(e),
            Ok(()) => health_check(account, positions.last(), assets, prices, lp_infos, env),
        }
    }
}

/// The checks after a batch: the number of assets, where the batch asks for
/// it (the count must fit in a `usize`, and taken as a `u32` not pass the
/// limit), then the health of the positions `positions`.
pub open spec fn final_checks(account: Account, assets: Map<Seq<char>, Asset>, need_number_check: bool,
    positions: Seq<Seq<char>>, prices: Map<Seq<char>, Price>, lp_infos: Map<Seq<char>, UnitShareTokens>,
    env: ExecuteEnv) -> Result<(), BatchError>
{
    let n = assets_total(account.positions.pairs());
    if need_number_check && (n > usize::MAX || (n as u32) > env.max_num_assets) {
        Err(BatchError::TooManyAssets)
    } else {
        health_checks(account, positions, assets, prices, lp_infos, env)
    }
}

/// What a batch that passed its checks did: either every action succeeded,
/// the account ends locked or not as `locked` says, and the final checks
/// decide; or the actions ran up to one that was refused, which left the
/// account and the assets as they were before it.
pub open spec fn batch_done(actions: Seq<Action>, account: Account, assets: AccountMap<Asset>, need_number_check: bool,
    positions: Seq<Seq<char>>, locked: bool, prices: Map<Seq<char>, Price>,
    lp_infos: Map<Seq<char>, UnitShareTokens>, env: ExecuteEnv, r: Result<Vec<ActionOutcome>, BatchError>,
    account2: Account, assets2: AccountMap<Asset>) -> bool
{
    ||| exists|accounts: Seq<Account>, states: Seq<AccountMap<Asset>>, outcomes: Seq<ActionOutcome>| {
        &&& #[trigger] is_run(actions, accounts, states, outcomes, env.reliable_liquidator)
        &&& accounts[0] == account
        &&& states[0] == assets
        &&& account2 == (Account { is_locked: locked, ..accounts.last() })
        &&& assets2 == states.last()
        &&& match final_checks(account2, assets2@, need_number_check, positions, prices, lp_infos, env) {
            Ok(()) => r matches Ok(v) && v@ == outcomes,
            Err(e) => r == Err::<Vec<ActionOutcome>, BatchError>(e),
        }
    }
    ||| exists|k: int, accounts: Seq<Account>, states: Seq<AccountMap<Asset>>, outcomes: Seq<ActionOutcome>, e: ExecuteError| {
        &&& 0 <= k < actions.len()
        &&& #[trigger] is_run(actions.take(k), accounts, states, outcomes, env.reliable_liquidator)
        &&& accounts[0] == account
        &&& states[0] == assets
        &&& #[trigger] step_ok(actions[k], accounts[k], states[k], env.reliable_liquidator,
            Err::<ActionOutcome, ExecuteError>(e), accounts[k], states[k])
        &&& r == Err::<Vec<ActionOutcome>, BatchError>(BatchError::ActionFailed { index: k as usize, error: e })
        &&& account2 == accounts[k]
        &&& assets2@ == states[k]@
    }
}

fn assets_num_checked(account: &Account) -> (r: Option<u32>)
    requires
        account.wf(),
    ensures
        r is None <==> assets_total(account.positions.pairs()) > usize::MAX,
        r matches Some(k) ==> k == assets_total(account.positions.pairs()) as u32,
{
    let n = account.positions.len();
    let mut acc: usize = 0;
    let mut i: usize = 0;
    while i < n
        invariant
            account.wf(),
            n == account.positions.pairs().len(),
            i <= n,
            acc == assets_total(account.positions.pairs().take(i as int)),
        decreases n - i,
    {
        let (_, p) = account.positions.entry_ref_at(i);
        let ghost pairs = account.positions.pairs();
        assert(pairs.take(i + 1).drop_last() =~= pairs.take(i as int));
        proof {
            account.positions.lemma_view_at(i as int);
            crate::account::lemma_assets_total_prefix(pairs, i + 1);
        }
        let k: usize = match p {
            Position::RegularPosition(rp) => match rp.collateral.len().checked_add(rp.borrowed.len()) {
                Some(k) => k,
                None => { return None; },
            },
            Position::LPTokenPosition(lp) => match lp.borrowed.len().checked_add(1) {
                Some(k) => k,
                None => { return None; },
            },
        };
        acc = match acc.checked_add(k) {
            Some(a) => a,
            None => { return None; },
        };
        i = i + 1;
    }
    proof {
        assert(account.positions.pairs().take(n as int) =~= account.positions.pairs());
    }
    Some(acc as u32)
}

fn lp_info_fresh(info: &UnitShareTokens, valid_duration_sec: u32, now: Timestamp) -> (r: bool)
    ensures
        r == info_fresh(*info, valid_duration_sec, now),
{
    info.timestamp <= now && now - info.timestamp <= to_nano(valid_duration_sec)
}

fn health_check_exec(account: &Account, position: &String, assets: &AccountMap<Asset>, prices: &Prices,
    lp_infos: &AccountMap<UnitShareTokens>, env: &ExecuteEnv) -> (r: Result<(), BatchError>)
    requires
        account.wf(),
        assets.wf(),
        prices.prices.wf(),
        lp_infos.wf(),
    ensures
        r == health_check(*account, position@, assets@, prices.prices@, lp_infos@, *env),
{
    let info = lp_infos.get_ref(position);
    let ghost spec_info = lp_info_for(lp_infos@, position@);
    assert(match info { Some(u) => Some(*u), None => None::<UnitShareTokens> } == spec_info);
    match account.positions.get_ref(position) {
        Some(Position::LPTokenPosition(p)) => {
            assert(account.positions@[position@].wf());
            if !p.borrowed.is_empty() {
                match info {
                    None => { return Err(BatchError::LpInfoMissing); },
                    Some(u) => {
                        if !lp_info_fresh(u, env.lp_tokens_info_valid_duration_sec, env.now) {
                            return Err(BatchError::LpInfoStale);
                        }
                    },
                }
            }
        },
        _ => {},
    }
    match position_max_discount(account, position, assets, prices, info) {
        None => Err(BatchError::NotValuable),
        Some(d) => if d.is_zero() { Ok(()) } else { Err(BatchError::AtRisk) },
    }
}

/// Runs a batch of actions of `account_id` on its account and the assets.
/// It is refused when an action fails the checks of `actions_plan` (the
/// account changes nothing then); else the actions run in turn (see
/// `execute_action`), the account ends locked where a liquidation of an
/// LP-token position locks it, and the final checks decide (see
/// `batch_done`). On success, the outcome of each action, in order, for the
/// transfers and events that follow.
pub fn internal_execute(
    account_id: &AccountId,
    account: &mut Account,
    assets: &mut AccountMap<Asset>,
    actions: &Vec<Action>,
    prices: &Prices,
    lp_infos: &AccountMap<UnitShareTokens>,
    env: &ExecuteEnv,
) -> (r: Result<Vec<ActionOutcome>, BatchError>)
    requires
        old(account).wf(),
        old(assets).wf(),
        prices.prices.wf(),
        lp_infos.wf(),
    ensures
        match actions_plan(actions@, account_id@, env.client_echo_whitelist, old(account).is_locked) {
            Err(e) => r == Err::<Vec<ActionOutcome>, BatchError>(BatchError::Refused(e))
                && *final(account) == *old(account) && *final(assets) == *old(assets),
            Ok((n, ps, l)) => batch_done(actions@, *old(account), *old(assets), n, ps, l, prices.prices@, lp_infos@,
                *env, r, *final(account), *final(assets)),
        },
{
    let plan = match plan_actions(account_id, actions, &env.client_echo_whitelist, account.is_locked) {
        Ok(p) => p,
        Err(e) => { return Err(BatchError::Refused(e)); },
    };
    let rl = env.reliable_liquidator;
    let ghost mut accounts: Seq<Account> = seq![*account];
    let ghost mut states: Seq<AccountMap<Asset>> = seq![*assets];
    let mut outcomes: Vec<ActionOutcome> = Vec::new();
    let mut i: usize = 0;
    assert(actions@.take(0) =~= Seq::<Action>::empty());
    while i < actions.len()
        invariant
            i <= actions@.len(),
            account.wf(),
            assets.wf(),
            rl == env.reliable_liquidator,
            is_run(actions@.take(i as int), accounts, states, outcomes@, rl),
            accounts[0] == *old(account),
            states[0] == *old(assets),
            accounts.last() == *account,
            states.last() == *assets,
            actions_plan(actions@, account_id@, env.client_echo_whitelist, old(account).is_locked)
                == Ok::<(bool, Seq<Seq<char>>, bool), ActionError>((plan.need_number_check,
                    crate::utils::string_views(plan.risk_check_positions@), plan.account_locked)),
        decreases actions@.len() - i,
    {
        let ghost before_account = *account;
        let ghost before_assets = *assets;
        match execute_action(account, assets, &actions[i], rl) {
            Ok(o) => {
                outcomes.push(o);
                proof {
                    accounts = accounts.push(*account);
                    states = states.push(*assets);
                    let t = actions@.take(i + 1);
                    assert(t.drop_last() =~= actions@.take(i as int));
                    assert forall|j: int| #![trigger t[j]] 0 <= j < t.len() implies step_ok(t[j], accounts[j], states[j], rl,
                        Ok(outcomes@[j]), accounts[j + 1], states[j + 1]) by {
                        if j < i {
                            assert(actions@.take(i as int)[j] == t[j]);
                        }
                    }
                }
            },
            Err(e) => {
                proof {
                    match lending_step(actions@[i as int]) {
                        Some((k, p, a)) => {
                            lemma_refused_action_changes_nothing(k, p, before_account, before_assets, a, rl, e,
                                *account, *assets);
                        },
                        None => {},
                    }
                    assert(step_ok(actions@[i as int], accounts[i as int], states[i as int], rl,
                        Err::<ActionOutcome, ExecuteError>(e), accounts[i as int], states[i as int]));
                }
                return Err(BatchError::ActionFailed { index: i, error: e });
            },
        }
        i = i + 1;
    }
    assert(actions@.take(actions@.len() as int) =~= actions@);
    assert(is_run(actions@, accounts, states, outcomes@, rl));
    account.is_locked = plan.account_locked;
    if plan.need_number_check {
        match assets_num_checked(account) {
            None => { return Err(BatchError::TooManyAssets); },
            Some(k) => {
                if k > env.max_num_assets {
                    return Err(BatchError::TooManyAssets);
                }
            },
        }
    }
    let ps = &plan.risk_check_positions;
    let mut j: usize = 0;
    while j < ps.len()
        invariant
            j <= ps@.len(),
            account.wf(),
            assets.wf(),
            prices.prices.wf(),
            lp_infos.wf(),
            health_checks(*account, crate::utils::string_views(ps@).take(j as int), assets@, prices.prices@, lp_infos@, *env)
                == Ok::<(), BatchError>(()),
            ps == &plan.risk_check_positions,
            is_run(actions@, accounts, states, outcomes@, env.reliable_liquidator),
            accounts[0] == *old(account),
            states[0] == *old(assets),
            *account == (Account { is_locked: plan.account_locked, ..accounts.last() }),
            *assets == states.last(),
            actions_plan(actions@, account_id@, env.client_echo_whitelist, old(account).is_locked)
                == Ok::<(bool, Seq<Seq<char>>, bool), ActionError>((plan.need_number_check,
                    crate::utils::string_views(plan.risk_check_positions@), plan.account_locked)),
            !(plan.need_number_check && (assets_total(account.positions.pairs()) > usize::MAX
                || (assets_total(account.positions.pairs()) as u32) > env.max_num_assets)),
        decreases ps@.len() - j,
    {
        let ghost views = crate::utils::string_views(ps@);
        assert(views.take(j + 1).drop_last() =~= views.take(j as int));
        assert(views.take(j + 1).last() == ps@[j as int]@);
        match health_check_exec(account, &ps[j], assets, prices, lp_infos, env) {
            Err(e) => {
                proof {
                    assert(health_checks(*account, views.take(j + 1), assets@, prices.prices@, lp_infos@, *env)
                        == Err::<(), BatchError>(e));
                    lemma_health_checks_stop(*account, views, j as int, assets@, prices.prices@, lp_infos@, *env);
                }
                return Err(e);
            },
            Ok(()) => {},
        }
        j = j + 1;
    }
    assert(crate::utils::string_views(ps@).take(ps@.len() as int) =~= crate::utils::string_views(ps@));
    Ok(outcomes)
}

/// Once a check fails, the checks of more positions fail the same way.
proof fn lemma_health_checks_stop(account: Account, positions: Seq<Seq<char>>, k: int, assets: Map<Seq<char>, Asset>,
    prices: Map<Seq<char>, Price>, lp_infos: Map<Seq<char>, UnitShareTokens>, env: ExecuteEnv)
    requires
        0 <= k < positions.len(),
        health_checks(account, positions.take(k + 1), assets, prices, lp_infos, env) is Err,
    ensures
        health_checks(account, positions, assets, prices, lp_infos, env)
            == health_checks(account, positions.take(k + 1), assets, prices, lp_infos, env),
    decreases positions.len() - k,
{
    if k + 1 < positions.len() {
        assert(positions.take(k + 2).drop_last() =~= positions.take(k + 1));
        lemma_health_checks_stop(account, positions, k + 1, assets, prices, lp_infos, env);
    } else {
        assert(positions.take(k + 1) =~= positions);
    }
}

/// Every position of `positions` passes its check when all of them do.
proof fn lemma_health_checks_each(account: Account, positions: Seq<Seq<char>>, assets: Map<Seq<char>, Asset>,
    prices: Map<Seq<char>, Price>, lp_infos: Map<Seq<char>, UnitShareTokens>, env: ExecuteEnv, x: Seq<char>)
    requires
        health_checks(account, positions, assets, prices, lp_infos, env) is Ok,
        positions.contains(x),
    ensures
        health_check(account, x, assets, prices, lp_infos, env) is Ok,
    decreases positions.len(),
{
    if positions.last() != x {
        let j = choose|j: int| 0 <= j < positions.len() && positions[j] == x;
        assert(positions.drop_last()[j] == x);
        lemma_health_checks_each(account, positions.drop_last(), assets, prices, lp_infos, env, x);
    }
}

/// A batch that succeeds leaves healthy every position it took collateral
/// from or borrowed in: the regular position after `DecreaseCollateral` or
/// `Borrow`, the named position after `PositionDecreaseCollateral` or
/// `PositionBorrow`, is valued at the prices and has no discount (it is not
/// at risk of liquidation).
pub proof fn lemma_batch_leaves_touched_positions_healthy(actions: Seq<Action>, account_id: Seq<char>, account: Account,
    assets: AccountMap<Asset>, prices: Map<Seq<char>, Price>, lp_infos: Map<Seq<char>, UnitShareTokens>, env: ExecuteEnv,
    r: Result<Vec<ActionOutcome>, BatchError>, account2: Account, assets2: AccountMap<Asset>, i: int)
    requires
        0 <= i < actions.len(),
        actions_plan(actions, account_id, env.client_echo_whitelist, account.is_locked) matches Ok((n, ps, l))
            && batch_done(actions, account, assets, n, ps, l, prices, lp_infos, env, r, account2, assets2),
        r is Ok,
    ensures
        ({
            let regular = REGULAR_POSITION@;
            let touched = match actions[i] {
                Action::DecreaseCollateral(_) => Some(regular),
                Action::Borrow(_) => Some(regular),
                Action::PositionDecreaseCollateral { position, .. } => Some(position@),
                Action::PositionBorrow { position, .. } => Some(position@),
                _ => None,
            };
            touched matches Some(q) ==> {
                &&& position_valuable(account2, q, assets2@, prices, lp_info_for(lp_infos, q))
                &&& position_discount(account2, q, assets2@, prices, lp_info_for(lp_infos, q)) == 0
            }
        }),
{
    let (n, ps, l) = actions_plan(actions, account_id, env.client_echo_whitelist, account.is_locked)->Ok_0;
    lemma_plan_checks_risky_positions(actions, account_id, env.client_echo_whitelist, account.is_locked, i);
    assert(final_checks(account2, assets2@, n, ps, prices, lp_infos, env) is Ok);
    let regular = REGULAR_POSITION@;
    let touched = match actions[i] {
        Action::DecreaseCollateral(_) => Some(regular),
        Action::Borrow(_) => Some(regular),
        Action::PositionDecreaseCollateral { position, .. } => Some(position@),
        Action::PositionBorrow { position, .. } => Some(position@),
        _ => None,
    };
    if let Some(q) = touched {
        lemma_health_checks_each(account2, ps, assets2@, prices, lp_infos, env, q);
    }
}

} // verus!
