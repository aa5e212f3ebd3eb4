//! The contract config and the booster token parameters.

use vstd::prelude::*;
use crate::utils::{AccountId, DurationSec, TokenId, Duration, u128_ratio, to_nano};

verus! {

/// 100% in basis points: the least xBooster multiplier.
pub const MIN_BOOSTER_MULTIPLIER: u32 = 10000;

/// The contract config.
pub struct Config {
    /// The oracle contract.
    pub oracle_account_id: AccountId,
    /// The exchange contract.
    pub ref_exchange_id: AccountId,
    /// The owner, who may change config and assets and use the reserves.
    pub owner_id: AccountId,
    /// The booster token contract.
    pub booster_token_id: TokenId,
    /// The decimals of the booster token.
    pub booster_decimals: u8,
    /// The largest number of assets.
    pub max_num_assets: u32,
    /// The longest time expected from the oracle price call.
    pub maximum_recency_duration_sec: DurationSec,
    /// The largest staleness of the price data.
    pub maximum_staleness_duration_sec: DurationSec,
    /// How long LP token info stays valid.
    pub lp_tokens_info_valid_duration_sec: DurationSec,
    /// The shortest booster staking duration.
    pub minimum_staking_duration_sec: DurationSec,
    /// The longest booster staking duration.
    pub maximum_staking_duration_sec: DurationSec,
    /// The xBooster multiplier (basis points) for the longest staking duration.
    pub x_booster_multiplier_at_maximum_staking_duration: u32,
    /// Whether accounts with bad debt can be closed by force using reserves.
    pub force_closing_enabled: bool,
}

/// Why a config (or booster token info) was refused.
#[derive(Clone, Copy, PartialEq, Eq, Debug)]
pub enum ConfigError {
    /// The maximum staking duration is below (for the config: not above) the minimum.
    StakingDurations,
    /// The xBooster multiplier is below 100%.
    XBoosterMultiplier,
    /// The boost suppress factor is zero.
    BoostSuppressFactor,
}

impl Config {
    /// Checks the config: the longest staking duration exceeds the shortest,
    /// and the xBooster multiplier is at least 100%.
    pub fn assert_valid(&self) -> (r: Result<(), ConfigError>)
        ensures
            r == (if !(self.minimum_staking_duration_sec < self.maximum_staking_duration_sec) {
                Err(ConfigError::StakingDurations)
            } else if !(self.x_booster_multiplier_at_maximum_staking_duration >= MIN_BOOSTER_MULTIPLIER) {
                Err(ConfigError::XBoosterMultiplier)
            } else {
                Ok(())
            }),
    {
        if !(self.minimum_staking_duration_sec < self.maximum_staking_duration_sec) {
            return Err(ConfigError::StakingDurations);
        }
        if !(self.x_booster_multiplier_at_maximum_staking_duration >= MIN_BOOSTER_MULTIPLIER) {
            return Err(ConfigError::XBoosterMultiplier);
        }
        Ok(())
    }
}

/// A booster token and its staking parameters.
#[derive(Clone)]
pub struct BoosterTokenInfo {
    /// The booster token contract.
    pub booster_token_id: TokenId,
    /// The decimals of the booster token.
    pub booster_decimals: u8,
    /// The shortest staking duration.
    pub minimum_staking_duration_sec: DurationSec,
    /// The longest staking duration.
    pub maximum_staking_duration_sec: DurationSec,
    /// The xBooster multiplier (basis points) for the longest staking duration.
    pub x_booster_multiplier_at_maximum_staking_duration: u32,
    /// The boost amount is divided by this factor.
    pub boost_suppress_factor: u128,
    /// Whether the booster token takes effect.
    pub enable: bool,
    /// The total amount staked.
    pub total_stake_amount: u128,
}

impl BoosterTokenInfo {
    /// An enabled booster token with nothing staked.
    pub fn new(
        booster_token_id: TokenId,
        booster_decimals: u8,
        minimum_staking_duration_sec: DurationSec,
        maximum_staking_duration_sec: DurationSec,
        x_booster_multiplier_at_maximum_staking_duration: u32,
        boost_suppress_factor: u128,
    ) -> (r: BoosterTokenInfo)
        ensures
            r == (BoosterTokenInfo {
                booster_token_id,
                booster_decimals,
                minimum_staking_duration_sec,
                maximum_staking_duration_sec,
                x_booster_multiplier_at_maximum_staking_duration,
                boost_suppress_factor,
                enable: true,
                total_stake_amount: 0,
            }),
    {
        BoosterTokenInfo {
            booster_token_id,
            booster_decimals,
            minimum_staking_duration_sec,
            maximum_staking_duration_sec,
            x_booster_multiplier_at_maximum_staking_duration,
            boost_suppress_factor,
            enable: true,
            total_stake_amount: 0,
        }
    }

    /// Checks the info: the longest staking duration is not below the
    /// shortest, the multiplier is at least 100%, and the suppress factor is
    /// not zero.
    pub fn assert_valid(&self) -> (r: Result<(), ConfigError>)
        ensures
            r == (if !(self.minimum_staking_duration_sec <= self.maximum_staking_duration_sec) {
                Err(ConfigError::StakingDurations)
            } else if !(self.x_booster_multiplier_at_maximum_staking_duration >= MIN_BOOSTER_MULTIPLIER) {
                Err(ConfigError::XBoosterMultiplier)
            } else if !(self.boost_suppress_factor > 0) {
                Err(ConfigError::BoostSuppressFactor)
            } else {
                Ok(())
            }),
    {
        if !(self.minimum_staking_duration_sec <= self.maximum_staking_duration_sec) {
            return Err(ConfigError::StakingDurations);
        }
        if !(self.x_booster_multiplier_at_maximum_staking_duration >= MIN_BOOSTER_MULTIPLIER) {
            return Err(ConfigError::XBoosterMultiplier);
        }
        if !(self.boost_suppress_factor > 0) {
            return Err(ConfigError::BoostSuppressFactor);
        }
        Ok(())
    }
}

/// The xBooster amount for staking `amount` for `duration_ns`: the amount,
/// plus a bonus growing linearly from nothing at the shortest duration to
/// `(multiplier - 100%)` of the amount at the longest.
pub open spec fn spec_x_booster_amount(info: BoosterTokenInfo, amount: nat, duration_ns: nat) -> nat {
    amount + amount
        * (((info.x_booster_multiplier_at_maximum_staking_duration - MIN_BOOSTER_MULTIPLIER) as nat)
            * ((duration_ns - info.minimum_staking_duration_sec * 1_000_000_000) as nat))
        / (((info.maximum_staking_duration_sec - info.minimum_staking_duration_sec) as nat * 1_000_000_000) * 10000)
}

/// The xBooster amount for staking `amount` for `duration_ns` nanoseconds.
pub fn compute_x_booster_amount(booster_token_info: &BoosterTokenInfo, amount: u128, duration_ns: Duration) -> (r: u128)
    requires
        booster_token_info.x_booster_multiplier_at_maximum_staking_duration >= MIN_BOOSTER_MULTIPLIER,
        duration_ns >= booster_token_info.minimum_staking_duration_sec * 1_000_000_000,
        booster_token_info.maximum_staking_duration_sec > booster_token_info.minimum_staking_duration_sec,
        spec_x_booster_amount(*booster_token_info, amount as nat, duration_ns as nat) <= u128::MAX,
    ensures
        r == spec_x_booster_amount(*booster_token_info, amount as nat, duration_ns as nat),
{
    let m = (booster_token_info.x_booster_multiplier_at_maximum_staking_duration - MIN_BOOSTER_MULTIPLIER) as u128;
    let d = (duration_ns - to_nano(booster_token_info.minimum_staking_duration_sec)) as u128;
    assert((m as nat) * (d as nat) <= u128::MAX) by (nonlinear_arith)
        requires m <= u32::MAX, d <= u64::MAX;
    let span = to_nano(booster_token_info.maximum_staking_duration_sec - booster_token_info.minimum_staking_duration_sec) as u128;
    assert((span as nat) * 10000 <= u128::MAX) by (nonlinear_arith) requires span <= u64::MAX;
    assert(span > 0);
    let bonus = u128_ratio(amount, m * d, span * (MIN_BOOSTER_MULTIPLIER as u128));
    amount + bonus
}

} // verus!
