//! The actions of a margin account, the checks each must pass before it
//! runs, and what a transfer of tokens to the contract asks it to do.

use vstd::prelude::*;
use crate::actions::{Action, is_shadow};
use crate::margin_trading::{DecreaseOperation, SwapIndication, SwapReference};
use crate::utils::{AccountId, Timestamp, SHADOW_V1_TOKEN_PREFIX, starts_with, str_eq, sec_to_nano};

verus! {

/// An action of a margin account.
#[allow(inconsistent_fields)]
pub enum MarginAction {
    /// Withdraws supplied tokens; all of them when no amount is given.
    Withdraw { token_id: AccountId, amount: Option<u128> },
    /// Adds supplied tokens to the collateral of a position.
    IncreaseCollateral { pos_id: String, amount: u128 },
    /// Takes collateral of a position back to the supply.
    DecreaseCollateral { pos_id: String, amount: u128 },
    /// Opens a position: borrows `token_d_amount` of the debt token against
    /// `token_c_amount` of collateral and swaps it for the position token.
    OpenPosition {
        token_c_id: AccountId,
        token_c_amount: u128,
        token_d_id: AccountId,
        token_d_amount: u128,
        token_p_id: AccountId,
        min_token_p_amount: u128,
        swap_indication: SwapIndication,
    },
    /// Swaps part of a position back into the debt token to repay it.
    DecreaseMTPosition { pos_id: String, token_p_amount: u128, min_token_d_amount: u128, swap_indication: SwapIndication },
    /// Swaps a whole position back into the debt token and closes it.
    CloseMTPosition { pos_id: String, token_p_amount: u128, min_token_d_amount: u128, swap_indication: SwapIndication },
    /// Liquidates another account's unhealthy position.
    LiquidateMTPosition {
        pos_owner_id: AccountId,
        pos_id: String,
        token_p_amount: u128,
        min_token_d_amount: u128,
        swap_indication: SwapIndication,
    },
    /// Closes another account's underwater position by force.
    ForceCloseMTPosition {
        pos_owner_id: AccountId,
        pos_id: String,
        token_p_amount: u128,
        min_token_d_amount: u128,
        swap_indication: SwapIndication,
    },
}

/// Why a margin action was refused before it ran.
#[derive(Clone, Copy, PartialEq, Eq, Debug)]
pub enum MarginActionError {
    /// An account liquidating or force-closing its own position.
    LiquidateSelf,
    /// Force closing is not enabled.
    ForceClosingDisabled,
    /// A shadow LP token can not be withdrawn from a margin account.
    ShadowToken,
}

/// The checks of a margin action of `account_id`, and the decrease it runs,
/// if it decreases a position.
pub open spec fn margin_action_check(action: MarginAction, account_id: Seq<char>, force_closing_enabled: bool)
    -> Result<Option<DecreaseOperation>, MarginActionError>
{
    match action {
        MarginAction::DecreaseMTPosition { .. } => Ok(Some(DecreaseOperation::Decrease)),
        MarginAction::CloseMTPosition { .. } => Ok(Some(DecreaseOperation::Close)),
        MarginAction::LiquidateMTPosition { pos_owner_id, .. } =>
            if pos_owner_id@ == account_id { Err(MarginActionError::LiquidateSelf) } else { Ok(Some(DecreaseOperation::Liquidate)) },
        MarginAction::ForceCloseMTPosition { pos_owner_id, .. } =>
            if pos_owner_id@ == account_id {
                Err(MarginActionError::LiquidateSelf)
            } else if !force_closing_enabled {
                Err(MarginActionError::ForceClosingDisabled)
            } else {
                Ok(Some(DecreaseOperation::ForceClose))
            },
        MarginAction::Withdraw { token_id, .. } => if is_shadow(token_id@) { Err(MarginActionError::ShadowToken) } else { Ok(None) },
        _ => Ok(None),
    }
}

/// Runs the checks of a margin action of `account_id` (see
/// `margin_action_check`); returns the decrease it runs, if any.
pub fn check_margin_action(action: &MarginAction, account_id: &AccountId, force_closing_enabled: bool)
    -> (r: Result<Option<DecreaseOperation>, MarginActionError>)
    ensures
        r == margin_action_check(*action, account_id@, force_closing_enabled),
{
    match action {
        MarginAction::DecreaseMTPosition { .. } => Ok(Some(DecreaseOperation::Decrease)),
        MarginAction::CloseMTPosition { .. } => Ok(Some(DecreaseOperation::Close)),
        MarginAction::LiquidateMTPosition { pos_owner_id, .. } => {
            if str_eq(pos_owner_id.as_str(), account_id.as_str()) {
                Err(MarginActionError::LiquidateSelf)
            } else {
                Ok(Some(DecreaseOperation::Liquidate))
            }
        },
        MarginAction::ForceCloseMTPosition { pos_owner_id, .. } => {
            if str_eq(pos_owner_id.as_str(), account_id.as_str()) {
                Err(MarginActionError::LiquidateSelf)
            } else if !force_closing_enabled {
                Err(MarginActionError::ForceClosingDisabled)
            } else {
                Ok(Some(DecreaseOperation::ForceClose))
            }
        },
        MarginAction::Withdraw { token_id, .. } => {
            if starts_with(token_id.as_str(), SHADOW_V1_TOKEN_PREFIX) { Err(MarginActionError::ShadowToken) } else { Ok(None) }
        },
        _ => Ok(None),
    }
}

/// What a transfer of tokens to the contract asks it to do.
#[allow(inconsistent_fields)]
pub enum TokenReceiverMsg {
    /// Deposit, then run the actions.
    Execute { actions: Vec<Action> },
    /// Deposit, then run the actions with prices from Pyth.
    ExecuteWithPyth { actions: Vec<Action> },
    /// Add the tokens to the reserve, first repaying the protocol's debt in the token.
    DepositToReserve,
    /// Deposit into the margin account.
    DepositToMargin,
    /// Deposit into the margin account, then run the margin actions.
    MarginExecute { actions: Vec<MarginAction> },
    /// Deposit into the margin account, then run the margin actions with prices from Pyth.
    MarginExecuteWithPyth { actions: Vec<MarginAction> },
    /// The tokens a dex returns from the swap of a margin position.
    SwapReference { swap_ref: SwapReference },
}

/// What a dex's return of a swap settles.
#[derive(Clone, Copy, PartialEq, Eq, Debug)]
pub enum SwapSettlement {
    /// The opening of a position.
    Open,
    /// A decrease of a position.
    Decrease(DecreaseOperation),
    /// Nothing: the operation is none of those.
    Nothing,
}

/// Why the return of a swap was refused.
#[derive(Clone, Copy, PartialEq, Eq, Debug)]
pub enum SwapReturnError {
    /// The owner settles a swap before the wait for it is over.
    TooEarly,
    /// The sender is neither the owner nor a dex the contract trades on.
    NotAllowed,
}

/// The checks on who returns a swap and what it settles: the owner may
/// settle a swap once `max_wait_sec` seconds have passed since the action
/// that started it; otherwise only the exchange or the concentrated-liquidity
/// dex may. An "open" swap settles an opening; "decrease", "close",
/// "liquidate" and "forceclose" settle that decrease.
pub open spec fn swap_return_check(
    sender_id: Seq<char>,
    owner_id: Seq<char>,
    ref_exchange_id: Seq<char>,
    dcl_id: Option<Seq<char>>,
    now: Timestamp,
    action_ts: Timestamp,
    max_wait_sec: u32,
    op: Seq<char>,
) -> Result<SwapSettlement, SwapReturnError> {
    if sender_id == owner_id && !(now - action_ts >= max_wait_sec * 1_000_000_000) {
        Err(SwapReturnError::TooEarly)
    } else if sender_id != owner_id && sender_id != ref_exchange_id && dcl_id != Some(sender_id) {
        Err(SwapReturnError::NotAllowed)
    } else if op == "open"@ {
        Ok(SwapSettlement::Open)
    } else if op == "decrease"@ {
        Ok(SwapSettlement::Decrease(DecreaseOperation::Decrease))
    } else if op == "close"@ {
        Ok(SwapSettlement::Decrease(DecreaseOperation::Close))
    } else if op == "liquidate"@ {
        Ok(SwapSettlement::Decrease(DecreaseOperation::Liquidate))
    } else if op == "forceclose"@ {
        Ok(SwapSettlement::Decrease(DecreaseOperation::ForceClose))
    } else {
        Ok(SwapSettlement::Nothing)
    }
}

/// Runs the checks on the return of a swap (see `swap_return_check`). The
/// owner's settlement needs the action to lie in the past, and a sender
/// other than the owner and the exchange needs the dex to be set.
pub fn check_swap_return(
    sender_id: &AccountId,
    owner_id: &AccountId,
    ref_exchange_id: &AccountId,
    dcl_id: &Option<AccountId>,
    now: Timestamp,
    action_ts: Timestamp,
    max_wait_sec: u32,
    op: &str,
) -> (r: Result<SwapSettlement, SwapReturnError>)
    requires
        sender_id@ == owner_id@ ==> action_ts <= now,
        sender_id@ != owner_id@ && sender_id@ != ref_exchange_id@ ==> dcl_id is Some,
    ensures
        r == swap_return_check(sender_id@, owner_id@, ref_exchange_id@,
            match dcl_id { Some(d) => Some(d@), None => None }, now, action_ts, max_wait_sec, op@),
{
    if str_eq(sender_id.as_str(), owner_id.as_str()) {
        if !(now - action_ts >= sec_to_nano(max_wait_sec)) {
            return Err(SwapReturnError::TooEarly);
        }
    } else {
        let allowed = str_eq(sender_id.as_str(), ref_exchange_id.as_str()) || match dcl_id {
            Some(d) => str_eq(sender_id.as_str(), d.as_str()),
            None => false,
        };
        if !allowed {
            return Err(SwapReturnError::NotAllowed);
        }
    }
    if str_eq(op, "open") {
        Ok(SwapSettlement::Open)
    } else {
        match DecreaseOperation::from_str(op) {
            Some(DecreaseOperation::Stop) => Ok(SwapSettlement::Nothing),
            Some(d) => Ok(SwapSettlement::Decrease(d)),
            None => Ok(SwapSettlement::Nothing),
        }
    }
}

} // verus!
