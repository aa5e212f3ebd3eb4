//! Tokens received from a fungible-token contract: whether the asset takes
//! deposits, the amount in the asset's own decimals, and which flow the
//! message asks for; a deposit to the reserve is made here.

use vstd::prelude::*;
use crate::account_map::AccountMap;
use crate::actions::Action;
use crate::asset::Asset;
use crate::big_decimal::pow10;
use crate::lending::pow10_u128;
use crate::margin_actions::{MarginAction, TokenReceiverMsg};
use crate::margin_trading::SwapReference;
use crate::protocol_debts::{debt_repaid, deposit_to_reserve};
use crate::utils::{Balance, TokenId};

verus! {

/// What to do with tokens received, once the asset took them. Amounts are
/// in the asset's own decimals.
#[allow(inconsistent_fields)]
pub enum ReceiveStep {
    /// Deposit `amount` into the sender's account, then run the actions
    /// (with prices from Pyth when `with_pyth`, else with none).
    Execute { amount: Balance, actions: Vec<Action>, with_pyth: bool },
    /// The tokens went to the reserve, after repaying `repaid` of the
    /// protocol's debt; `reserved` joined the reserve.
    Reserved { repaid: u128, reserved: u128 },
    /// Deposit `amount` into the sender's margin account.
    MarginDeposit { amount: Balance },
    /// Deposit `amount` into the sender's margin account, then run the
    /// margin actions (with prices from Pyth when `with_pyth`).
    MarginExecute { amount: Balance, actions: Vec<MarginAction>, with_pyth: bool },
    /// A dex returns `amount` from the swap of a margin position.
    SwapReturn { amount: Balance, swap_ref: SwapReference },
}

/// Why received tokens were refused.
#[derive(Clone, Copy, PartialEq, Eq, Debug)]
pub enum ReceiveError {
    /// The asset does not take deposits.
    DepositsDisabled,
}

/// The flow a message other than a deposit to the reserve asks for, with
/// `amount` received (in the asset's decimals).
pub open spec fn step_for(msg: TokenReceiverMsg, amount: u128) -> Option<ReceiveStep> {
    match msg {
        TokenReceiverMsg::Execute { actions } => Some(ReceiveStep::Execute { amount, actions, with_pyth: false }),
        TokenReceiverMsg::ExecuteWithPyth { actions } => Some(ReceiveStep::Execute { amount, actions, with_pyth: true }),
        TokenReceiverMsg::DepositToReserve => None,
        TokenReceiverMsg::DepositToMargin => Some(ReceiveStep::MarginDeposit { amount }),
        TokenReceiverMsg::MarginExecute { actions } => Some(ReceiveStep::MarginExecute { amount, actions, with_pyth: false }),
        TokenReceiverMsg::MarginExecuteWithPyth { actions } => Some(ReceiveStep::MarginExecute { amount, actions, with_pyth: true }),
        TokenReceiverMsg::SwapReference { swap_ref } => Some(ReceiveStep::SwapReturn { amount, swap_ref }),
    }
}

/// Takes `amount` of `token_id` (in the token's decimals), sent with `msg`
/// (`None` for an empty message), into the asset: refused when the asset
/// takes no deposits; otherwise the amount, in the asset's decimals, goes to
/// the flow the message names. A deposit to the reserve is made at once
/// (see `deposit_to_reserve`); every other flow leaves the asset and the
/// debts as they were.
pub fn token_received(
    asset: &mut Asset,
    debts: &mut AccountMap<u128>,
    token_id: &TokenId,
    amount: Balance,
    msg: Option<TokenReceiverMsg>,
) -> (r: Result<ReceiveStep, ReceiveError>)
    requires
        old(debts).wf(),
        old(asset).config.extra_decimals <= 38,
        amount * pow10(old(asset).config.extra_decimals as nat) <= u128::MAX,
        msg matches Some(TokenReceiverMsg::DepositToReserve) ==> old(asset).reserved + debt_repaid(old(debts)@, token_id@,
            (amount * pow10(old(asset).config.extra_decimals as nat)) as nat).2 <= u128::MAX,
    ensures
        ({
            let scaled = (amount * pow10(old(asset).config.extra_decimals as nat)) as u128;
            let (debts_after, repaid, rest) = debt_repaid(old(debts)@, token_id@, scaled as nat);
            &&& final(debts).wf()
            &&& !old(asset).config.can_deposit ==> r == Err::<ReceiveStep, ReceiveError>(ReceiveError::DepositsDisabled)
                && *final(asset) == *old(asset) && final(debts)@ == old(debts)@
            &&& old(asset).config.can_deposit ==> match msg {
                Some(TokenReceiverMsg::DepositToReserve) => {
                    &&& r == Ok::<ReceiveStep, ReceiveError>(ReceiveStep::Reserved { repaid: repaid as u128, reserved: rest as u128 })
                    &&& final(debts)@ == debts_after
                    &&& *final(asset) == (Asset { reserved: (old(asset).reserved + rest) as u128, ..*old(asset) })
                },
                _ => {
                    &&& *final(asset) == *old(asset)
                    &&& final(debts)@ == old(debts)@
                    &&& match msg {
                        None => r matches Ok(ReceiveStep::Execute { amount: a, actions, with_pyth })
                            && a == scaled && actions@.len() == 0 && !with_pyth,
                        Some(m) => r == Ok::<ReceiveStep, ReceiveError>(step_for(m, scaled).unwrap()),
                    }
                },
            }
        }),
{
    if !asset.config.can_deposit {
        return Err(ReceiveError::DepositsDisabled);
    }
    let scaled = amount * pow10_u128(asset.config.extra_decimals);
    match msg {
        None => Ok(ReceiveStep::Execute { amount: scaled, actions: Vec::new(), with_pyth: false }),
        Some(TokenReceiverMsg::Execute { actions }) => Ok(ReceiveStep::Execute { amount: scaled, actions, with_pyth: false }),
        Some(TokenReceiverMsg::ExecuteWithPyth { actions }) => Ok(ReceiveStep::Execute { amount: scaled, actions, with_pyth: true }),
        Some(TokenReceiverMsg::DepositToReserve) => {
            let ghost rest = debt_repaid(debts@, token_id@, scaled as nat).2;
            let repaid = deposit_to_reserve(asset, debts, token_id, scaled);
            Ok(ReceiveStep::Reserved { repaid, reserved: scaled - repaid })
        },
        Some(TokenReceiverMsg::DepositToMargin) => Ok(ReceiveStep::MarginDeposit { amount: scaled }),
        Some(TokenReceiverMsg::MarginExecute { actions }) => Ok(ReceiveStep::MarginExecute { amount: scaled, actions, with_pyth: false }),
        Some(TokenReceiverMsg::MarginExecuteWithPyth { actions }) =>
            Ok(ReceiveStep::MarginExecute { amount: scaled, actions, with_pyth: true }),
        Some(TokenReceiverMsg::SwapReference { swap_ref }) => Ok(ReceiveStep::SwapReturn { amount: scaled, swap_ref }),
    }
}

} // verus!
