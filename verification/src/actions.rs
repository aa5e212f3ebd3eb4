//! The actions an account asks for, the checks a batch of them must pass
//! before it runs, and the amounts they come to, in tokens and in shares.

use vstd::prelude::*;
use crate::pool::{Pool, spec_amount_to_shares, spec_shares_to_amount};
use crate::utils::{
    AccountId, Balance, Shares, TokenId, REGULAR_POSITION, SHADOW_V1_TOKEN_PREFIX, starts_with, spec_starts_with,
    str_eq, push_new, string_views, push_if_new,
};
use crate::whitelist::{Whitelist, item_admits, in_client_echo_sender_whitelist};

verus! {

/// An amount of a token that an action asks for.
pub struct AssetAmount {
    pub token_id: TokenId,
    /// The amount; when `None`, as much as possible.
    pub amount: Option<u128>,
    /// The most that may be used; when `None`, all that is available.
    pub max_amount: Option<u128>,
}

/// An action of an account.
#[allow(inconsistent_fields)]
pub enum Action {
    /// Withdraws supplied tokens to the account.
    Withdraw(AssetAmount),
    /// Withdraws supplied tokens with a transfer call carrying `client_echo`.
    ClientEchoWithdraw { client_echo: String, asset_amount: AssetAmount },
    /// Moves supplied tokens into the collateral of the regular position.
    IncreaseCollateral(AssetAmount),
    /// Moves supplied tokens into the collateral of `position`.
    PositionIncreaseCollateral { position: String, asset_amount: AssetAmount },
    /// Moves collateral of the regular position back to the supplied tokens.
    DecreaseCollateral(AssetAmount),
    /// Moves collateral of `position` back to the supplied tokens.
    PositionDecreaseCollateral { position: String, asset_amount: AssetAmount },
    /// Borrows against the regular position.
    Borrow(AssetAmount),
    /// Borrows against `position`.
    PositionBorrow { position: String, asset_amount: AssetAmount },
    /// Repays a debt of the regular position from supplied tokens.
    Repay(AssetAmount),
    /// Repays a debt of `position` from supplied tokens.
    PositionRepay { position: String, asset_amount: AssetAmount },
    /// Repays `in_assets` of the debts of another account's position and takes
    /// `out_assets` of its collateral at a discount.
    Liquidate {
        account_id: AccountId,
        in_assets: Vec<AssetAmount>,
        out_assets: Vec<AssetAmount>,
        position: Option<String>,
        min_token_amounts: Option<Vec<u128>>,
    },
    /// Closes another account's position whose debts exceed its collateral,
    /// with the reserves covering the difference.
    ForceClose { account_id: AccountId, position: Option<String>, min_token_amounts: Option<Vec<u128>> },
    /// Liquidates a margin-trading position of another account from the
    /// liquidator's own tokens.
    LiquidateMTPositionDirect { pos_owner_id: AccountId, pos_id: String },
}

/// Why a batch of actions was refused before it ran.
#[derive(Clone, Copy, PartialEq, Eq, Debug)]
pub enum ActionError {
    /// The account is locked.
    AccountLocked,
    /// A shadow LP token where the regular position needs a regular token.
    ShadowToken,
    /// An LP-token position with a token other than its LP token.
    PositionTokenMismatch,
    /// The account may not withdraw with a client echo.
    UnauthorizedClientEcho,
    /// An account liquidating itself.
    LiquidateSelf,
    /// A regular liquidation without assets to repay or to take.
    EmptyAssets,
    /// Minimum token amounts for the regular position.
    UnexpectedMinTokenAmounts,
    /// An LP-token liquidation without assets to repay, or taking anything
    /// but the position's LP token.
    InvalidLiquidationAssets,
    /// An LP-token liquidation or force-close without minimum token amounts.
    MissingMinTokenAmounts,
    /// The same token twice among the assets repaid.
    DuplicateAssets,
}

/// Whether a token is a shadow LP token.
pub open spec fn is_shadow(token_id: Seq<char>) -> bool {
    spec_starts_with(token_id, SHADOW_V1_TOKEN_PREFIX@)
}

/// The check that a token may go into `position`: a regular token into the
/// regular position, only the LP token itself into an LP-token position.
pub open spec fn position_token_check(position: Seq<char>, token_id: Seq<char>) -> Result<(), ActionError> {
    if position == REGULAR_POSITION@ {
        if is_shadow(token_id) { Err(ActionError::ShadowToken) } else { Ok(()) }
    } else if token_id == position {
        Ok(())
    } else {
        Err(ActionError::PositionTokenMismatch)
    }
}

/// Whether two of the assets name the same token.
pub open spec fn has_duplicate_tokens(assets: Seq<AssetAmount>) -> bool {
    exists|i: int, j: int| 0 <= i < j < assets.len() && #[trigger] assets[i].token_id@ == #[trigger] assets[j].token_id@
}

/// The checks of one action of `account_id`, and what it asks of the batch:
/// whether the number of assets must be checked after the batch, the position
/// whose health must be checked after it, and whether it locks the account.
pub open spec fn action_step(action: Action, account_id: Seq<char>, whitelist: Whitelist)
    -> Result<(bool, Option<Seq<char>>, bool), ActionError>
{
    let regular = REGULAR_POSITION@;
    match action {
        Action::Withdraw(a) => if is_shadow(a.token_id@) { Err(ActionError::ShadowToken) } else { Ok((false, None, false)) },
        Action::ClientEchoWithdraw { client_echo, asset_amount } =>
            if !(exists|i: int| 0 <= i < whitelist.view().len() && item_admits(#[trigger] whitelist.view()[i], account_id)) {
                Err(ActionError::UnauthorizedClientEcho)
            } else if is_shadow(asset_amount.token_id@) {
                Err(ActionError::ShadowToken)
            } else {
                Ok((false, None, false))
            },
        Action::IncreaseCollateral(a) => if is_shadow(a.token_id@) { Err(ActionError::ShadowToken) } else { Ok((true, None, false)) },
        Action::PositionIncreaseCollateral { position, asset_amount } =>
            match position_token_check(position@, asset_amount.token_id@) {
                Ok(_) => Ok((true, None, false)),
                Err(e) => Err(e),
            },
        Action::DecreaseCollateral(a) =>
            if is_shadow(a.token_id@) { Err(ActionError::ShadowToken) } else { Ok((false, Some(regular), false)) },
        Action::PositionDecreaseCollateral { position, asset_amount } =>
            match position_token_check(position@, asset_amount.token_id@) {
                Ok(_) => Ok((false, Some(position@), false)),
                Err(e) => Err(e),
            },
        Action::Borrow(_) => Ok((true, Some(regular), false)),
        Action::PositionBorrow { position, asset_amount } => Ok((true, Some(position@), false)),
        Action::Repay(_) => Ok((false, None, false)),
        Action::PositionRepay { position, asset_amount } => Ok((false, None, false)),
        Action::Liquidate { account_id: liquidation_account_id, in_assets, out_assets, position, min_token_amounts } => {
            let position = match position { Some(p) => p@, None => regular };
            if liquidation_account_id@ == account_id {
                Err(ActionError::LiquidateSelf)
            } else if position == regular {
                if in_assets@.len() == 0 || out_assets@.len() == 0 {
                    Err(ActionError::EmptyAssets)
                } else if min_token_amounts is Some {
                    Err(ActionError::UnexpectedMinTokenAmounts)
                } else {
                    Ok((false, None, false))
                }
            } else if !(in_assets@.len() > 0 && out_assets@.len() == 1 && out_assets@[0].token_id@ == position) {
                Err(ActionError::InvalidLiquidationAssets)
            } else if min_token_amounts is None {
                Err(ActionError::MissingMinTokenAmounts)
            } else if has_duplicate_tokens(in_assets@) {
                Err(ActionError::DuplicateAssets)
            } else {
                Ok((false, None, true))
            }
        },
        Action::ForceClose { account_id: liquidation_account_id, position, min_token_amounts } => {
            let position = match position { Some(p) => p@, None => regular };
            if liquidation_account_id@ == account_id {
                Err(ActionError::LiquidateSelf)
            } else if position == regular {
                if min_token_amounts is Some { Err(ActionError::UnexpectedMinTokenAmounts) } else { Ok((false, None, false)) }
            } else if min_token_amounts is None {
                Err(ActionError::MissingMinTokenAmounts)
            } else {
                Ok((false, None, false))
            }
        },
        Action::LiquidateMTPositionDirect { pos_owner_id, pos_id } =>
            if pos_owner_id@ == account_id { Err(ActionError::LiquidateSelf) } else { Ok((false, None, false)) },
    }
}

/// The checks of a batch of actions of `account_id`, run in order, where the
/// account starts locked or not: each action needs the account unlocked, and
/// must pass its own checks. What the batch asks of the checks after it:
/// whether the number of assets must be checked, the positions whose health
/// must be checked (each once, in order of first mention), and whether the
/// account ends locked.
pub open spec fn actions_plan(actions: Seq<Action>, account_id: Seq<char>, whitelist: Whitelist, locked: bool)
    -> Result<(bool, Seq<Seq<char>>, bool), ActionError>
    decreases actions.len(),
{
    if actions.len() == 0 {
        Ok((false, Seq::empty(), locked))
    } else {
        match actions_plan(actions.drop_last(), account_id, whitelist, locked) {
            Err(e) => Err(e),
            Ok((number_check, positions, locked)) =>
                if locked {
                    Err(ActionError::AccountLocked)
                } else {
                    match action_step(actions.last(), account_id, whitelist) {
                        Err(e) => Err(e),
                        Ok((n, p, l)) => Ok((
                            number_check || n,
                            match p { Some(p) => push_new(positions, p), None => positions },
                            l,
                        )),
                    }
                },
        }
    }
}

/// What a batch of actions asks of the checks that follow it.
pub struct ExecutionPlan {
    /// Whether the number of assets of the account must be checked.
    pub need_number_check: bool,
    /// The positions whose health must be checked, each once.
    pub risk_check_positions: Vec<String>,
    /// Whether the account ends locked.
    pub account_locked: bool,
}

fn is_shadow_token(token_id: &TokenId) -> (r: bool)
    ensures
        r == is_shadow(token_id@),
{
    starts_with(token_id.as_str(), SHADOW_V1_TOKEN_PREFIX)
}

fn check_position_token(position: &String, token_id: &TokenId) -> (r: Result<(), ActionError>)
    ensures
        r == position_token_check(position@, token_id@),
{
    if str_eq(position.as_str(), REGULAR_POSITION) {
        if is_shadow_token(token_id) { Err(ActionError::ShadowToken) } else { Ok(()) }
    } else if str_eq(token_id.as_str(), position.as_str()) {
        Ok(())
    } else {
        Err(ActionError::PositionTokenMismatch)
    }
}

/// Whether two of the assets name the same token.
pub fn duplicate_tokens(assets: &Vec<AssetAmount>) -> (r: bool)
    ensures
        r == has_duplicate_tokens(assets@),
{
    let mut j: usize = 0;
    while j < assets.len()
        invariant
            j <= assets.len(),
            forall|a: int, b: int| 0 <= a < b < j ==> assets@[a].token_id@ != assets@[b].token_id@,
        decreases assets.len() - j,
    {
        let mut i: usize = 0;
        while i < j
            invariant
                i <= j < assets.len(),
                forall|a: int, b: int| 0 <= a < b < j ==> assets@[a].token_id@ != assets@[b].token_id@,
                forall|a: int| 0 <= a < i ==> assets@[a].token_id@ != assets@[j as int].token_id@,
            decreases j - i,
        {
            if str_eq(assets[i].token_id.as_str(), assets[j].token_id.as_str()) {
                assert(assets@[i as int].token_id@ == assets@[j as int].token_id@);
                return true;
            }
            i = i + 1;
        }
        j = j + 1;
    }
    false
}

/// The view of an optional string.
pub open spec fn opt_view(s: Option<String>) -> Option<Seq<char>> {
    match s { Some(s) => Some(s@), None => None }
}

fn check_action(action: &Action, account_id: &AccountId, whitelist: &Whitelist)
    -> (r: Result<(bool, Option<String>, bool), ActionError>)
    ensures
        match action_step(*action, account_id@, *whitelist) {
            Ok((n, p, l)) => r matches Ok((n2, p2, l2)) && n2 == n && opt_view(p2) == p && l2 == l,
            Err(e) => r == Err::<(bool, Option<String>, bool), ActionError>(e),
        },
{
    match action {
        Action::Withdraw(a) => if is_shadow_token(&a.token_id) { Err(ActionError::ShadowToken) } else { Ok((false, None, false)) },
        Action::ClientEchoWithdraw { client_echo, asset_amount } => {
            if !in_client_echo_sender_whitelist(whitelist, account_id.as_str()) {
                Err(ActionError::UnauthorizedClientEcho)
            } else if is_shadow_token(&asset_amount.token_id) {
                Err(ActionError::ShadowToken)
            } else {
                Ok((false, None, false))
            }
        },
        Action::IncreaseCollateral(a) => if is_shadow_token(&a.token_id) { Err(ActionError::ShadowToken) } else { Ok((true, None, false)) },
        Action::PositionIncreaseCollateral { position, asset_amount } => {
            match check_position_token(position, &asset_amount.token_id) {
                Ok(_) => Ok((true, None, false)),
                Err(e) => Err(e),
            }
        },
        Action::DecreaseCollateral(a) => {
            if is_shadow_token(&a.token_id) {
                Err(ActionError::ShadowToken)
            } else {
                Ok((false, Some(REGULAR_POSITION.to_string()), false))
            }
        },
        Action::PositionDecreaseCollateral { position, asset_amount } => {
            match check_position_token(position, &asset_amount.token_id) {
                Ok(_) => Ok((false, Some(position.clone()), false)),
                Err(e) => Err(e),
            }
        },
        Action::Borrow(_) => Ok((true, Some(REGULAR_POSITION.to_string()), false)),
        Action::PositionBorrow { position, asset_amount } => Ok((true, Some(position.clone()), false)),
        Action::Repay(_) => Ok((false, None, false)),
        Action::PositionRepay { position, asset_amount } => Ok((false, None, false)),
        Action::Liquidate { account_id: liquidation_account_id, in_assets, out_assets, position, min_token_amounts } => {
            let position: &str = match position { Some(p) => p.as_str(), None => REGULAR_POSITION };
            if str_eq(liquidation_account_id.as_str(), account_id.as_str()) {
                Err(ActionError::LiquidateSelf)
            } else if str_eq(position, REGULAR_POSITION) {
                if in_assets.len() == 0 || out_assets.len() == 0 {
                    Err(ActionError::EmptyAssets)
                } else if min_token_amounts.is_some() {
                    Err(ActionError::UnexpectedMinTokenAmounts)
                } else {
                    Ok((false, None, false))
                }
            } else if !(in_assets.len() > 0 && out_assets.len() == 1 && str_eq(out_assets[0].token_id.as_str(), position)) {
                Err(ActionError::InvalidLiquidationAssets)
            } else if min_token_amounts.is_none() {
                Err(ActionError::MissingMinTokenAmounts)
            } else if duplicate_tokens(in_assets) {
                Err(ActionError::DuplicateAssets)
            } else {
                Ok((false, None, true))
            }
        },
        Action::ForceClose { account_id: liquidation_account_id, position, min_token_amounts } => {
            let position: &str = match position { Some(p) => p.as_str(), None => REGULAR_POSITION };
            if str_eq(liquidation_account_id.as_str(), account_id.as_str()) {
                Err(ActionError::LiquidateSelf)
            } else if str_eq(position, REGULAR_POSITION) {
                if min_token_amounts.is_some() { Err(ActionError::UnexpectedMinTokenAmounts) } else { Ok((false, None, false)) }
            } else if min_token_amounts.is_none() {
                Err(ActionError::MissingMinTokenAmounts)
            } else {
                Ok((false, None, false))
            }
        },
        Action::LiquidateMTPositionDirect { pos_owner_id, pos_id } => {
            if str_eq(pos_owner_id.as_str(), account_id.as_str()) { Err(ActionError::LiquidateSelf) } else { Ok((false, None, false)) }
        },
    }
}

proof fn lemma_plan_error_stays(actions: Seq<Action>, k: int, account_id: Seq<char>, whitelist: Whitelist, locked: bool)
    requires
        0 <= k <= actions.len(),
        actions_plan(actions.take(k), account_id, whitelist, locked) is Err,
    ensures
        actions_plan(actions, account_id, whitelist, locked) == actions_plan(actions.take(k), account_id, whitelist, locked),
    decreases actions.len() - k,
{
    if k < actions.len() {
        assert(actions.take(k + 1).drop_last() =~= actions.take(k));
        lemma_plan_error_stays(actions, k + 1, account_id, whitelist, locked);
    } else {
        assert(actions.take(k) =~= actions);
    }
}

/// A locked account can do nothing: every non-empty batch of its actions is
/// refused as locked.
pub proof fn lemma_locked_account_refused(actions: Seq<Action>, account_id: Seq<char>, whitelist: Whitelist)
    requires
        actions.len() > 0,
    ensures
        actions_plan(actions, account_id, whitelist, true) == Err::<(bool, Seq<Seq<char>>, bool), ActionError>(ActionError::AccountLocked),
    decreases actions.len(),
{
    if actions.len() > 1 {
        lemma_locked_account_refused(actions.drop_last(), account_id, whitelist);
    } else {
        assert(actions.drop_last().len() == 0);
        assert(actions_plan(actions.drop_last(), account_id, whitelist, true)
            == Ok::<(bool, Seq<Seq<char>>, bool), ActionError>((false, Seq::empty(), true)));
    }
}

/// A batch that passes its checks puts on the list of positions whose health
/// is checked after it every position it takes collateral from or borrows
/// in: the regular position for `DecreaseCollateral` and `Borrow`, the named
/// position for `PositionDecreaseCollateral` and `PositionBorrow`.
pub proof fn lemma_plan_checks_risky_positions(actions: Seq<Action>, account_id: Seq<char>, whitelist: Whitelist,
    locked: bool, i: int)
    requires
        0 <= i < actions.len(),
        actions_plan(actions, account_id, whitelist, locked) is Ok,
    ensures
        ({
            let checked = actions_plan(actions, account_id, whitelist, locked)->Ok_0.1;
            &&& actions[i] is DecreaseCollateral ==> checked.contains(REGULAR_POSITION@)
            &&& actions[i] is Borrow ==> checked.contains(REGULAR_POSITION@)
            &&& actions[i] matches Action::PositionDecreaseCollateral { position, .. } ==> checked.contains(position@)
            &&& actions[i] matches Action::PositionBorrow { position, .. } ==> checked.contains(position@)
        }),
    decreases actions.len(),
{
    let k = actions.len() - 1;
    let prev = actions.drop_last();
    let ps = actions_plan(prev, account_id, whitelist, locked)->Ok_0.1;
    let checked = actions_plan(actions, account_id, whitelist, locked)->Ok_0.1;
    let step = action_step(actions.last(), account_id, whitelist)->Ok_0.1;
    assert(checked == match step { Some(q) => push_new(ps, q), None => ps });
    assert forall|x: Seq<char>| ps.contains(x) implies checked.contains(x) by {
        if let Some(q) = step {
            if !ps.contains(q) {
                let j = choose|j: int| 0 <= j < ps.len() && ps[j] == x;
                assert(ps.push(q)[j] == x);
            }
        }
    }
    if let Some(q) = step {
        if !ps.contains(q) {
            assert(ps.push(q)[ps.len() as int] == q);
        }
    }
    if i < k {
        lemma_plan_checks_risky_positions(prev, account_id, whitelist, locked, i);
        assert(prev[i] == actions[i]);
    }
}

/// Runs the checks of a batch of actions of `account_id`, in order, on an
/// account that starts locked or not: the first check to fail refuses the
/// batch. Otherwise returns what the batch asks of the checks after it.
pub fn plan_actions(account_id: &AccountId, actions: &Vec<Action>, client_echo_whitelist: &Whitelist, account_locked: bool)
    -> (r: Result<ExecutionPlan, ActionError>)
    ensures
        match actions_plan(actions@, account_id@, *client_echo_whitelist, account_locked) {
            Ok((n, ps, l)) => r matches Ok(plan) && plan.need_number_check == n
                && string_views(plan.risk_check_positions@) == ps && plan.account_locked == l,
            Err(e) => r matches Err(e2) && e2 == e,
        },
{
    let mut need_number_check = false;
    let mut risk_check_positions: Vec<String> = Vec::new();
    let mut locked = account_locked;
    let mut i: usize = 0;
    proof {
        assert(actions@.take(0) =~= Seq::<Action>::empty());
        assert(string_views(risk_check_positions@) =~= Seq::<Seq<char>>::empty());
    }
    while i < actions.len()
        invariant
            i <= actions.len(),
            actions_plan(actions@.take(i as int), account_id@, *client_echo_whitelist, account_locked)
                == Ok::<(bool, Seq<Seq<char>>, bool), ActionError>((need_number_check, string_views(risk_check_positions@), locked)),
        decreases actions.len() - i,
    {
        proof {
            assert(actions@.take(i + 1).drop_last() =~= actions@.take(i as int));
            assert(actions@.take(i + 1).last() == actions@[i as int]);
        }
        if locked {
            proof { lemma_plan_error_stays(actions@, i + 1, account_id@, *client_echo_whitelist, account_locked); }
            return Err(ActionError::AccountLocked);
        }
        match check_action(&actions[i], account_id, client_echo_whitelist) {
            Err(e) => {
                proof { lemma_plan_error_stays(actions@, i + 1, account_id@, *client_echo_whitelist, account_locked); }
                return Err(e);
            },
            Ok((n, p, l)) => {
                need_number_check = need_number_check || n;
                match p {
                    Some(p) => push_if_new(&mut risk_check_positions, p),
                    None => {},
                }
                locked = l;
            },
        }
        i = i + 1;
    }
    proof {
        assert(actions@.take(actions.len() as int) =~= actions@);
    }
    Ok(ExecutionPlan { need_number_check, risk_check_positions, account_locked: locked })
}

/// Why an asset amount was refused.
#[derive(Clone, Copy, PartialEq, Eq, Debug, Structural)]
pub enum AmountError {
    /// It comes to zero shares.
    ZeroShares,
    /// It comes to zero tokens.
    ZeroAmount,
}

/// The shares and tokens that `asset_amount` comes to in `pool`, out of
/// `available_shares`, before the checks that neither is zero. Shares are
/// rounded up (tokens down), or the other way round when
/// `inverse_round_direction`.
pub open spec fn spec_asset_amount_to_shares(pool: Pool, available_shares: nat, asset_amount: AssetAmount, inverse_round_direction: bool) -> (nat, nat) {
    match asset_amount.amount {
        Some(amount) => (spec_amount_to_shares(pool.shares as nat, pool.balance as nat, amount as nat, !inverse_round_direction), amount as nat),
        None => match asset_amount.max_amount {
            Some(max_amount) => {
                let s = spec_amount_to_shares(pool.shares as nat, pool.balance as nat, max_amount as nat, !inverse_round_direction);
                let shares = if available_shares <= s { available_shares } else { s };
                let a = spec_shares_to_amount(pool.shares as nat, pool.balance as nat, shares, inverse_round_direction);
                (shares, if a <= max_amount { a } else { max_amount as nat })
            },
            None => (available_shares, spec_shares_to_amount(pool.shares as nat, pool.balance as nat, available_shares, inverse_round_direction)),
        },
    }
}

/// The shares and tokens that `asset_amount` comes to; refused when either is zero.
pub fn asset_amount_to_shares(
    pool: &Pool,
    available_shares: Shares,
    asset_amount: &AssetAmount,
    inverse_round_direction: bool,
) -> (r: Result<(Shares, Balance), AmountError>)
    requires
        asset_amount.amount matches Some(a) ==> spec_amount_to_shares(pool.shares as nat, pool.balance as nat, a as nat, !inverse_round_direction) <= u128::MAX,
        asset_amount.amount is None && asset_amount.max_amount is Some ==>
            spec_amount_to_shares(pool.shares as nat, pool.balance as nat, asset_amount.max_amount.unwrap() as nat, !inverse_round_direction) <= u128::MAX,
    ensures
        ({
            let (s, a) = spec_asset_amount_to_shares(*pool, available_shares as nat, *asset_amount, inverse_round_direction);
            r == if s == 0 {
                Err(AmountError::ZeroShares)
            } else if a == 0 {
                Err(AmountError::ZeroAmount)
            } else {
                Ok((s as u128, a as u128))
            }
        }),
{
    let (shares, amount) = match asset_amount.amount {
        Some(amount) => (pool.amount_to_shares(amount, !inverse_round_direction), amount),
        None => match asset_amount.max_amount {
            Some(max_amount) => {
                let s = pool.amount_to_shares(max_amount, !inverse_round_direction);
                let shares = if available_shares <= s { available_shares } else { s };
                let a = pool.shares_to_amount(shares, inverse_round_direction);
                (shares, if a <= max_amount { a } else { max_amount })
            },
            None => (available_shares, pool.shares_to_amount(available_shares, inverse_round_direction)),
        },
    };
    if shares == 0 {
        return Err(AmountError::ZeroShares);
    }
    if amount == 0 {
        return Err(AmountError::ZeroAmount);
    }
    Ok((shares, amount))
}

} // verus!
