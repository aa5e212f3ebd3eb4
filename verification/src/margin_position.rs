//! Margin trading positions and their direction.

use vstd::prelude::*;
use crate::utils::{Balance, Shares, Timestamp, TokenId};

verus! {

/// Whether a position is long or short, with its base token: the position
/// token when long (collateral is the debt token), the debt token when short.
pub enum PositionDirection {
    Long(TokenId),
    Short(TokenId),
}

impl PositionDirection {
    /// The direction of a position with collateral `token_c_id`, debt
    /// `token_d_id` and position `token_p_id`.
    pub fn new(token_c_id: &TokenId, token_d_id: &TokenId, token_p_id: &TokenId) -> (r: PositionDirection)
        ensures
            token_c_id@ == token_d_id@ ==> (r matches PositionDirection::Long(t) && t@ == token_p_id@),
            token_c_id@ != token_d_id@ ==> (r matches PositionDirection::Short(t) && t@ == token_d_id@),
    {
        if *token_c_id == *token_d_id {
            PositionDirection::Long(token_p_id.clone())
        } else {
            PositionDirection::Short(token_d_id.clone())
        }
    }

    /// The base token.
    pub fn get_base_token_id(&self) -> (r: &TokenId)
        ensures
            r == match self {
                PositionDirection::Long(t) => t,
                PositionDirection::Short(t) => t,
            },
    {
        match self {
            PositionDirection::Long(t) => t,
            PositionDirection::Short(t) => t,
        }
    }
}

/// A margin trading position: collateral `c`, debt `d` and position `p` tokens.
#[derive(Clone)]
pub struct MarginTradingPosition {
    /// When the position was opened.
    pub open_ts: Timestamp,
    /// The unit accumulated holding-position interest when opened.
    pub uahpi_at_open: Balance,
    /// The capital of the debt, used to compute the holding-position fee.
    pub debt_cap: Balance,
    pub token_c_id: TokenId,
    pub token_c_shares: Shares,
    pub token_d_id: TokenId,
    pub token_d_shares: Shares,
    pub token_p_id: TokenId,
    pub token_p_amount: Balance,
    /// Whether a trade of the position is in flight.
    pub is_locking: bool,
}

impl MarginTradingPosition {
    /// A position being opened: collateral only, locked until the trade returns.
    pub fn new(
        open_ts: Timestamp,
        token_c_id: TokenId,
        token_c_shares: Shares,
        token_d_id: TokenId,
        token_p_id: TokenId,
    ) -> (r: MarginTradingPosition)
        ensures
            r == (MarginTradingPosition {
                open_ts,
                uahpi_at_open: 0,
                debt_cap: 0,
                token_c_id,
                token_c_shares,
                token_d_id,
                token_d_shares: 0,
                token_p_id,
                token_p_amount: 0,
                is_locking: true,
            }),
    {
        MarginTradingPosition {
            open_ts,
            uahpi_at_open: 0,
            debt_cap: 0,
            token_c_id,
            token_c_shares,
            token_d_id,
            token_d_shares: 0,
            token_p_id,
            token_p_amount: 0,
            is_locking: true,
        }
    }

    /// An equal copy of the position.
    pub fn copy(&self) -> (r: MarginTradingPosition)
        ensures
            r == *self,
    {
        MarginTradingPosition {
            open_ts: self.open_ts,
            uahpi_at_open: self.uahpi_at_open,
            debt_cap: self.debt_cap,
            token_c_id: self.token_c_id.clone(),
            token_c_shares: self.token_c_shares,
            token_d_id: self.token_d_id.clone(),
            token_d_shares: self.token_d_shares,
            token_p_id: self.token_p_id.clone(),
            token_p_amount: self.token_p_amount,
            is_locking: self.is_locking,
        }
    }
}

} // verus!
