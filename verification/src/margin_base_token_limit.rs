//! Limits on margin positions per base token, and the ranges within which
//! guardians may set them.

use vstd::prelude::*;
use crate::margin_config::MarginConfig;
use crate::margin_position::PositionDirection;

verus! {

/// The ranges `(min, max)` within which guardians may set each limit.
pub struct MarginBaseTokenLimitGur {
    /// The allowed range of `min_safety_buffer`.
    pub min_safety_buffer_gur: (u32, u32),
    /// The allowed range of `max_leverage_rate`.
    pub max_leverage_rate_gur: (u8, u8),
    /// The allowed range of `max_common_slippage_rate`.
    pub max_common_slippage_rate_gur: (u32, u32),
    /// The allowed range of `max_forceclose_slippage_rate`.
    pub max_forceclose_slippage_rate_gur: (u32, u32),
    /// The allowed range of `liq_benefit_protocol_rate`.
    pub liq_benefit_protocol_rate_gur: (u32, u32),
    /// The allowed range of `liq_benefit_liquidator_rate`.
    pub liq_benefit_liquidator_rate_gur: (u32, u32),
    /// The allowed range of `min_base_token_short_position`.
    pub min_base_token_short_position_gur: (u128, u128),
    /// The allowed range of `min_base_token_long_position`.
    pub min_base_token_long_position_gur: (u128, u128),
    /// The allowed range of `max_base_token_short_position`.
    pub max_base_token_short_position_gur: (u128, u128),
    /// The allowed range of `max_base_token_long_position`.
    pub max_base_token_long_position_gur: (u128, u128),
    /// The allowed range of `total_base_token_available_short`.
    pub total_base_token_available_short_gur: (u128, u128),
    /// The allowed range of `total_base_token_available_long`.
    pub total_base_token_available_long_gur: (u128, u128),
}

/// The versions of `MarginBaseTokenLimitGur` kept in storage.
pub enum VMarginBaseTokenLimitGur {
    Current(MarginBaseTokenLimitGur),
}

impl VMarginBaseTokenLimitGur {
    /// The current version.
    pub fn into_current(self) -> (r: MarginBaseTokenLimitGur)
        ensures
            self matches VMarginBaseTokenLimitGur::Current(c) && r == c,
    {
        match self {
            VMarginBaseTokenLimitGur::Current(c) => c,
        }
    }
}

/// Limits on margin positions whose base token is a given token.
pub struct MarginBaseTokenLimit {
    /// The safety buffer (in basis points) under which a position is liquidated.
    pub min_safety_buffer: u32,
    /// The collateral times this must exceed the debt when opening or decreasing collateral.
    pub max_leverage_rate: u8,
    /// The largest slippage (in basis points) of a common swap indication.
    pub max_common_slippage_rate: u32,
    /// The largest slippage (in basis points) of a force-close swap indication.
    pub max_forceclose_slippage_rate: u32,
    /// The part (in basis points) of liquidation benefits that goes to the protocol.
    pub liq_benefit_protocol_rate: u32,
    /// The part (in basis points) of liquidation benefits that goes to the liquidator.
    pub liq_benefit_liquidator_rate: u32,
    /// The least amount of base token of one short position.
    pub min_base_token_short_position: u128,
    /// The least amount of base token of one long position.
    pub min_base_token_long_position: u128,
    /// The largest amount of base token of one short position.
    pub max_base_token_short_position: u128,
    /// The largest amount of base token of one long position.
    pub max_base_token_long_position: u128,
    /// The total amount of base token available to short positions.
    pub total_base_token_available_short: u128,
    /// The total amount of base token available to long positions.
    pub total_base_token_available_long: u128,
}

/// The versions of `MarginBaseTokenLimit` kept in storage.
pub enum VMarginBaseTokenLimit {
    Current(MarginBaseTokenLimit),
}

impl VMarginBaseTokenLimit {
    /// The current version.
    pub fn into_current(self) -> (r: MarginBaseTokenLimit)
        ensures
            self matches VMarginBaseTokenLimit::Current(c) && r == c,
    {
        match self {
            VMarginBaseTokenLimit::Current(c) => c,
        }
    }
}

/// A limit that lies outside the range guardians may set it in.
#[derive(Clone, Copy, PartialEq, Eq, Debug)]
pub enum MarginBaseTokenLimitField {
    MinSafetyBuffer,
    MaxLeverageRate,
    MaxCommonSlippageRate,
    MaxForcecloseSlippageRate,
    LiqBenefitProtocolRate,
    LiqBenefitLiquidatorRate,
    MinBaseTokenShortPosition,
    MinBaseTokenLongPosition,
    MaxBaseTokenShortPosition,
    MaxBaseTokenLongPosition,
    TotalBaseTokenAvailableShort,
    TotalBaseTokenAvailableLong,
}

/// Why a base token amount was refused.
#[derive(Clone, Copy, PartialEq, Eq, Debug)]
pub enum BaseTokenAmountError {
    /// The amount of one long position is out of `[min, max]`.
    LongPositionOutOfRange,
    /// The total of long positions exceeds what is available.
    LongTotalExceeded,
    /// The amount of one short position is out of `[min, max]`.
    ShortPositionOutOfRange,
    /// The total of short positions exceeds what is available.
    ShortTotalExceeded,
}

impl MarginBaseTokenLimit {
    /// The limits that the margin config gives by default: its leverage,
    /// safety buffer, slippage and benefit rates, and no bound on amounts.
    pub fn default_limit(margin_config: &MarginConfig) -> (r: MarginBaseTokenLimit)
        ensures
            r == (MarginBaseTokenLimit {
                min_safety_buffer: margin_config.min_safety_buffer,
                max_leverage_rate: margin_config.max_leverage_rate,
                max_common_slippage_rate: margin_config.max_slippage_rate,
                max_forceclose_slippage_rate: margin_config.max_slippage_rate,
                liq_benefit_protocol_rate: margin_config.liq_benefit_protocol_rate,
                liq_benefit_liquidator_rate: margin_config.liq_benefit_liquidator_rate,
                min_base_token_short_position: 0,
                min_base_token_long_position: 0,
                max_base_token_short_position: u128::MAX,
                max_base_token_long_position: u128::MAX,
                total_base_token_available_short: u128::MAX,
                total_base_token_available_long: u128::MAX,
            }),
    {
        MarginBaseTokenLimit {
            min_safety_buffer: margin_config.min_safety_buffer,
            max_leverage_rate: margin_config.max_leverage_rate,
            max_common_slippage_rate: margin_config.max_slippage_rate,
            max_forceclose_slippage_rate: margin_config.max_slippage_rate,
            liq_benefit_protocol_rate: margin_config.liq_benefit_protocol_rate,
            liq_benefit_liquidator_rate: margin_config.liq_benefit_liquidator_rate,
            min_base_token_short_position: 0,
            min_base_token_long_position: 0,
            max_base_token_short_position: u128::MAX,
            max_base_token_long_position: u128::MAX,
            total_base_token_available_short: u128::MAX,
            total_base_token_available_long: u128::MAX,
        }
    }

    /// The first limit (in the order of the fields) outside its range.
    pub open spec fn spec_first_out_of_range(&self, g: MarginBaseTokenLimitGur) -> Option<MarginBaseTokenLimitField> {
        if !(g.min_safety_buffer_gur.0 <= self.min_safety_buffer <= g.min_safety_buffer_gur.1) {
            Some(MarginBaseTokenLimitField::MinSafetyBuffer)
        } else if !(g.max_leverage_rate_gur.0 <= self.max_leverage_rate <= g.max_leverage_rate_gur.1) {
            Some(MarginBaseTokenLimitField::MaxLeverageRate)
        } else if !(g.max_common_slippage_rate_gur.0 <= self.max_common_slippage_rate <= g.max_common_slippage_rate_gur.1) {
            Some(MarginBaseTokenLimitField::MaxCommonSlippageRate)
        } else if !(g.max_forceclose_slippage_rate_gur.0 <= self.max_forceclose_slippage_rate <= g.max_forceclose_slippage_rate_gur.1) {
            Some(MarginBaseTokenLimitField::MaxForcecloseSlippageRate)
        } else if !(g.liq_benefit_protocol_rate_gur.0 <= self.liq_benefit_protocol_rate <= g.liq_benefit_protocol_rate_gur.1) {
            Some(MarginBaseTokenLimitField::LiqBenefitProtocolRate)
        } else if !(g.liq_benefit_liquidator_rate_gur.0 <= self.liq_benefit_liquidator_rate <= g.liq_benefit_liquidator_rate_gur.1) {
            Some(MarginBaseTokenLimitField::LiqBenefitLiquidatorRate)
        } else if !(g.min_base_token_short_position_gur.0 <= self.min_base_token_short_position <= g.min_base_token_short_position_gur.1) {
            Some(MarginBaseTokenLimitField::MinBaseTokenShortPosition)
        } else if !(g.min_base_token_long_position_gur.0 <= self.min_base_token_long_position <= g.min_base_token_long_position_gur.1) {
            Some(MarginBaseTokenLimitField::MinBaseTokenLongPosition)
        } else if !(g.max_base_token_short_position_gur.0 <= self.max_base_token_short_position <= g.max_base_token_short_position_gur.1) {
            Some(MarginBaseTokenLimitField::MaxBaseTokenShortPosition)
        } else if !(g.max_base_token_long_position_gur.0 <= self.max_base_token_long_position <= g.max_base_token_long_position_gur.1) {
            Some(MarginBaseTokenLimitField::MaxBaseTokenLongPosition)
        } else if !(g.total_base_token_available_short_gur.0 <= self.total_base_token_available_short <= g.total_base_token_available_short_gur.1) {
            Some(MarginBaseTokenLimitField::TotalBaseTokenAvailableShort)
        } else if !(g.total_base_token_available_long_gur.0 <= self.total_base_token_available_long <= g.total_base_token_available_long_gur.1) {
            Some(MarginBaseTokenLimitField::TotalBaseTokenAvailableLong)
        } else {
            None
        }
    }

    /// Checks every limit against the range guardians may set it in; refuses
    /// with the first limit outside its range.
    pub fn assert_validate(&self, mbtlg: MarginBaseTokenLimitGur) -> (r: Result<(), MarginBaseTokenLimitField>)
        ensures
            r is Ok <==> self.spec_first_out_of_range(mbtlg) is None,
            r matches Err(f) ==> self.spec_first_out_of_range(mbtlg) == Some(f),
    {
        if !(mbtlg.min_safety_buffer_gur.0 <= self.min_safety_buffer && self.min_safety_buffer <= mbtlg.min_safety_buffer_gur.1) {
            return Err(MarginBaseTokenLimitField::MinSafetyBuffer);
        }
        if !(mbtlg.max_leverage_rate_gur.0 <= self.max_leverage_rate && self.max_leverage_rate <= mbtlg.max_leverage_rate_gur.1) {
            return Err(MarginBaseTokenLimitField::MaxLeverageRate);
        }
        if !(mbtlg.max_common_slippage_rate_gur.0 <= self.max_common_slippage_rate && self.max_common_slippage_rate <= mbtlg.max_common_slippage_rate_gur.1) {
            return Err(MarginBaseTokenLimitField::MaxCommonSlippageRate);
        }
        if !(mbtlg.max_forceclose_slippage_rate_gur.0 <= self.max_forceclose_slippage_rate && self.max_forceclose_slippage_rate <= mbtlg.max_forceclose_slippage_rate_gur.1) {
            return Err(MarginBaseTokenLimitField::MaxForcecloseSlippageRate);
        }
        if !(mbtlg.liq_benefit_protocol_rate_gur.0 <= self.liq_benefit_protocol_rate && self.liq_benefit_protocol_rate <= mbtlg.liq_benefit_protocol_rate_gur.1) {
            return Err(MarginBaseTokenLimitField::LiqBenefitProtocolRate);
        }
        if !(mbtlg.liq_benefit_liquidator_rate_gur.0 <= self.liq_benefit_liquidator_rate && self.liq_benefit_liquidator_rate <= mbtlg.liq_benefit_liquidator_rate_gur.1) {
            return Err(MarginBaseTokenLimitField::LiqBenefitLiquidatorRate);
        }
        if !(mbtlg.min_base_token_short_position_gur.0 <= self.min_base_token_short_position && self.min_base_token_short_position <= mbtlg.min_base_token_short_position_gur.1) {
            return Err(MarginBaseTokenLimitField::MinBaseTokenShortPosition);
        }
        if !(mbtlg.min_base_token_long_position_gur.0 <= self.min_base_token_long_position && self.min_base_token_long_position <= mbtlg.min_base_token_long_position_gur.1) {
            return Err(MarginBaseTokenLimitField::MinBaseTokenLongPosition);
        }
        if !(mbtlg.max_base_token_short_position_gur.0 <= self.max_base_token_short_position && self.max_base_token_short_position <= mbtlg.max_base_token_short_position_gur.1) {
            return Err(MarginBaseTokenLimitField::MaxBaseTokenShortPosition);
        }
        if !(mbtlg.max_base_token_long_position_gur.0 <= self.max_base_token_long_position && self.max_base_token_long_position <= mbtlg.max_base_token_long_position_gur.1) {
            return Err(MarginBaseTokenLimitField::MaxBaseTokenLongPosition);
        }
        if !(mbtlg.total_base_token_available_short_gur.0 <= self.total_base_token_available_short && self.total_base_token_available_short <= mbtlg.total_base_token_available_short_gur.1) {
            return Err(MarginBaseTokenLimitField::TotalBaseTokenAvailableShort);
        }
        if !(mbtlg.total_base_token_available_long_gur.0 <= self.total_base_token_available_long && self.total_base_token_available_long <= mbtlg.total_base_token_available_long_gur.1) {
            return Err(MarginBaseTokenLimitField::TotalBaseTokenAvailableLong);
        }
        Ok(())
    }

    /// Checks the amount of base token of one position, and the total of all
    /// positions in its direction, against the limits of that direction.
    pub fn assert_base_token_amount_valid(
        &self,
        base_token_amount: u128,
        total_base_token_amount: u128,
        pd: &PositionDirection,
    ) -> (r: Result<(), BaseTokenAmountError>)
        ensures
            pd matches PositionDirection::Long(_) ==> r == (
                if !(self.min_base_token_long_position <= base_token_amount <= self.max_base_token_long_position) {
                    Err(BaseTokenAmountError::LongPositionOutOfRange)
                } else if !(total_base_token_amount <= self.total_base_token_available_long) {
                    Err(BaseTokenAmountError::LongTotalExceeded)
                } else {
                    Ok(())
                }),
            pd matches PositionDirection::Short(_) ==> r == (
                if !(self.min_base_token_short_position <= base_token_amount <= self.max_base_token_short_position) {
                    Err(BaseTokenAmountError::ShortPositionOutOfRange)
                } else if !(total_base_token_amount <= self.total_base_token_available_short) {
                    Err(BaseTokenAmountError::ShortTotalExceeded)
                } else {
                    Ok(())
                }),
    {
        match pd {
            PositionDirection::Long(_) => {
                if !(base_token_amount >= self.min_base_token_long_position
                    && base_token_amount <= self.max_base_token_long_position) {
                    return Err(BaseTokenAmountError::LongPositionOutOfRange);
                }
                if !(total_base_token_amount <= self.total_base_token_available_long) {
                    return Err(BaseTokenAmountError::LongTotalExceeded);
                }
                Ok(())
            },
            PositionDirection::Short(_) => {
                if !(base_token_amount >= self.min_base_token_short_position
                    && base_token_amount <= self.max_base_token_short_position) {
                    return Err(BaseTokenAmountError::ShortPositionOutOfRange);
                }
                if !(total_base_token_amount <= self.total_base_token_available_short) {
                    return Err(BaseTokenAmountError::ShortTotalExceeded);
                }
                Ok(())
            },
        }
    }
}

} // verus!
