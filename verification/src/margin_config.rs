//! The configuration of margin trading.

use vstd::prelude::*;
use crate::account_map::AccountMap;
use crate::utils::AccountId;

verus! {

/// The configuration of margin trading.
pub struct MarginConfig {
    /// Default leverage limit: the collateral times this must exceed the debt.
    pub max_leverage_rate: u8,
    /// Pending debt must stay below this part (in basis points) of the available amount.
    pub pending_debt_scale: u32,
    /// Default largest slippage (in basis points) of a swap indication.
    pub max_slippage_rate: u32,
    /// Default safety buffer (in basis points) under which a position is liquidated.
    pub min_safety_buffer: u32,
    /// The ratio (in basis points) of the regular interest that margin debt pays.
    pub margin_debt_discount_rate: u32,
    /// The fee (in basis points) on the margin asset when a position opens.
    pub open_position_fee_rate: u32,
    /// Dex accounts and their versions (1: RefV1, 2: RefV2).
    pub registered_dexes: AccountMap<u8>,
    /// Tokens and their parties; tokens of one party can not be debt and position of one position.
    pub registered_tokens: AccountMap<u8>,
    /// The largest number of margin positions a user may hold.
    pub max_active_user_margin_position: u8,
    /// Default part (in basis points) of liquidation benefits that goes to the protocol.
    pub liq_benefit_protocol_rate: u32,
    /// Default part (in basis points) of liquidation benefits that goes to the liquidator.
    pub liq_benefit_liquidator_rate: u32,
}

/// Why a debt/position/margin token triple was refused.
#[derive(Clone, Copy, PartialEq, Eq, Debug)]
pub enum PairError {
    IllegalPositionToken,
    IllegalDebtToken,
    IllegalDebtPositionPair,
    MarginTokenMismatch,
}

impl MarginConfig {
    /// Checks that debt and position are registered tokens of different
    /// parties and that the margin token is the debt or the position token.
    pub fn check_pair(
        &self,
        debt_token_id: &AccountId,
        position_token_id: &AccountId,
        margin_token_id: &AccountId,
    ) -> (r: Result<(), PairError>)
        requires
            self.registered_tokens.wf(),
        ensures
            !self.registered_tokens.view().contains_key(position_token_id@) ==> r == Err::<(), PairError>(PairError::IllegalPositionToken),
            self.registered_tokens.view().contains_key(position_token_id@)
                && !self.registered_tokens.view().contains_key(debt_token_id@) ==> r == Err::<(), PairError>(PairError::IllegalDebtToken),
            self.registered_tokens.view().contains_key(position_token_id@)
                && self.registered_tokens.view().contains_key(debt_token_id@) ==> {
                let pp = self.registered_tokens.view()[position_token_id@];
                let dp = self.registered_tokens.view()[debt_token_id@];
                &&& pp == dp ==> r == Err::<(), PairError>(PairError::IllegalDebtPositionPair)
                &&& pp != dp && !(margin_token_id@ == debt_token_id@ || margin_token_id@ == position_token_id@)
                    ==> r == Err::<(), PairError>(PairError::MarginTokenMismatch)
                &&& pp != dp && (margin_token_id@ == debt_token_id@ || margin_token_id@ == position_token_id@)
                    ==> r is Ok
            },
    {
        let position_party = match self.registered_tokens.get(position_token_id) {
            Some(p) => p,
            None => { return Err(PairError::IllegalPositionToken); },
        };
        let debt_party = match self.registered_tokens.get(debt_token_id) {
            Some(p) => p,
            None => { return Err(PairError::IllegalDebtToken); },
        };
        if position_party == debt_party {
            return Err(PairError::IllegalDebtPositionPair);
        }
        if !(*margin_token_id == *debt_token_id || *margin_token_id == *position_token_id) {
            return Err(PairError::MarginTokenMismatch);
        }
        Ok(())
    }
}

} // verus!
