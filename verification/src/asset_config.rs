//! The configuration of a lending asset and its interest-rate curve.

use vstd::prelude::*;
use crate::account_map::AccountMap;
use crate::big_decimal::{BigDecimal, LowU128, BIG_DIVISOR, big, half, mul_raw, div_raw};
use crate::utils::{Balance, MAX_RATIO};
use crate::wide::{p128, p384};

verus! {

/// Utilization is written in basis points: 10000 is 100%.
pub const MAX_POS: u32 = 10000;

/// Raw `BigDecimal` value of the ratio `r / 10000`.
pub open spec fn ratio_raw(r: nat) -> nat { r * 100_000_000_000_000_000_000_000nat }

/// The utilization `borrowed / supplied` as a raw `BigDecimal` value, rounded down.
pub open spec fn utilization_raw(borrowed: nat, supplied: nat) -> nat {
    (borrowed * big()) / supplied
}

/// The per-millisecond compounding rate (raw `BigDecimal` value) at a given
/// utilization: linear from one at zero utilization to `target_rate` at the
/// target utilization, then linear up to `max_rate` at full utilization.
/// When nothing is supplied the rate is one.
pub open spec fn spec_rate(
    borrowed: nat,
    supplied: nat,
    target_utilization: nat,
    target_rate: nat,
    max_rate: nat,
) -> nat {
    if supplied == 0 {
        big()
    } else {
        let pos = utilization_raw(borrowed, supplied);
        let tu = ratio_raw(target_utilization);
        if pos < tu {
            big() + div_raw(mul_raw(pos, (target_rate - big()) as nat), tu)
        } else {
            target_rate + div_raw(
                mul_raw((pos - tu) as nat, (max_rate - target_rate) as nat),
                ratio_raw((MAX_POS - target_utilization) as nat),
            )
        }
    }
}

/// The inputs on which the rate curve is computed without a failed subtraction
/// or a division by zero.
pub open spec fn rate_defined(
    borrowed: nat,
    supplied: nat,
    target_utilization: nat,
    target_rate: nat,
    max_rate: nat,
) -> bool {
    supplied == 0 || {
        let pos = utilization_raw(borrowed, supplied);
        let tu = ratio_raw(target_utilization);
        if pos < tu {
            target_rate >= big()
        } else {
            target_utilization < MAX_POS && max_rate >= target_rate
        }
    }
}

/// The configuration of an asset.
#[derive(Clone)]
pub struct AssetConfig {
    /// The ratio of interest that is reserved by the protocol (in basis points).
    pub reserve_ratio: u32,
    /// The ratio of reserved interest that belongs to the protocol (in basis points).
    pub prot_ratio: u32,
    /// The part of the reserved interest that goes to each beneficiary (in basis points).
    pub beneficiaries: AccountMap<u32>,
    /// Target utilization ratio (in basis points).
    pub target_utilization: u32,
    /// The compounding rate at target utilization ratio (raw `BigDecimal` value).
    pub target_utilization_rate: LowU128,
    /// The compounding rate at 100% utilization (raw `BigDecimal` value).
    pub max_utilization_rate: LowU128,
    /// The compounding rate when holding a margin position (raw `BigDecimal` value).
    pub holding_position_fee_rate: LowU128,
    /// Volatility ratio (in basis points).
    pub volatility_ratio: u32,
    /// Extra decimals of the inner balance over the fungible token's decimals.
    pub extra_decimals: u8,
    /// Whether the deposits of this asset are enabled.
    pub can_deposit: bool,
    /// Whether the withdrawals of this asset are enabled.
    pub can_withdraw: bool,
    /// Whether this asset can be used as collateral.
    pub can_use_as_collateral: bool,
    /// Whether this asset can be borrowed.
    pub can_borrow: bool,
    /// NetTvl asset multiplier (in basis points).
    pub net_tvl_multiplier: u32,
    /// The largest change between two consecutive prices (in basis points).
    pub max_change_rate: Option<u32>,
    /// Allowed supplied upper limit of the asset.
    pub supplied_limit: Option<u128>,
    /// Allowed borrowed upper limit of the asset.
    pub borrowed_limit: Option<u128>,
    /// Allowed minimum borrowed amount.
    pub min_borrowed_amount: Option<u128>,
}

/// Why an asset configuration was refused.
#[derive(Clone, Copy, PartialEq, Eq, Debug)]
pub enum AssetConfigError {
    ReserveRatio,
    ProtRatio,
    TargetUtilization,
    TargetUtilizationRate,
    MaxUtilizationRate,
    HoldingPositionFeeRate,
    RatesOrder,
    VolatilityRatio,
    NetTvlMultiplier,
    MaxChangeRate,
    MissingSuppliedLimit,
    MissingBorrowedLimit,
    BorrowedLimitAboveSuppliedLimit,
    MissingMinBorrowedAmount,
}

impl AssetConfig {
    /// The first rule that the configuration breaks, in the order they are checked.
    pub open spec fn spec_check(&self) -> Option<AssetConfigError> {
        if !(self.reserve_ratio <= MAX_RATIO) {
            Some(AssetConfigError::ReserveRatio)
        } else if !(self.prot_ratio <= MAX_RATIO) {
            Some(AssetConfigError::ProtRatio)
        } else if !(self.target_utilization < MAX_POS) {
            Some(AssetConfigError::TargetUtilization)
        } else if !(self.target_utilization_rate >= BIG_DIVISOR) {
            Some(AssetConfigError::TargetUtilizationRate)
        } else if !(self.max_utilization_rate >= BIG_DIVISOR) {
            Some(AssetConfigError::MaxUtilizationRate)
        } else if !(self.holding_position_fee_rate >= BIG_DIVISOR) {
            Some(AssetConfigError::HoldingPositionFeeRate)
        } else if !(self.target_utilization_rate <= self.max_utilization_rate) {
            Some(AssetConfigError::RatesOrder)
        } else if !(self.volatility_ratio < MAX_RATIO) {
            Some(AssetConfigError::VolatilityRatio)
        } else if !(self.net_tvl_multiplier <= MAX_RATIO) {
            Some(AssetConfigError::NetTvlMultiplier)
        } else if !(self.max_change_rate is None || self.max_change_rate.unwrap() <= MAX_RATIO) {
            Some(AssetConfigError::MaxChangeRate)
        } else if self.supplied_limit is None {
            Some(AssetConfigError::MissingSuppliedLimit)
        } else if self.borrowed_limit is None {
            Some(AssetConfigError::MissingBorrowedLimit)
        } else if !(self.borrowed_limit.unwrap() <= self.supplied_limit.unwrap()) {
            Some(AssetConfigError::BorrowedLimitAboveSuppliedLimit)
        } else if self.min_borrowed_amount is None {
            Some(AssetConfigError::MissingMinBorrowedAmount)
        } else {
            None
        }
    }

    /// A configuration that passes every check.
    pub open spec fn valid(&self) -> bool {
        self.spec_check() is None
    }

    /// Checks the configuration: `Ok` when every rule holds, else the first rule broken.
    pub fn assert_valid(&self) -> (r: Result<(), AssetConfigError>)
        ensures
            r is Ok <==> self.valid(),
            r matches Err(e) ==> self.spec_check() == Some(e),
    {
        if !(self.reserve_ratio <= MAX_RATIO) {
            return Err(AssetConfigError::ReserveRatio);
        }
        if !(self.prot_ratio <= MAX_RATIO) {
            return Err(AssetConfigError::ProtRatio);
        }
        if !(self.target_utilization < MAX_POS) {
            return Err(AssetConfigError::TargetUtilization);
        }
        if !(self.target_utilization_rate >= BIG_DIVISOR) {
            return Err(AssetConfigError::TargetUtilizationRate);
        }
        if !(self.max_utilization_rate >= BIG_DIVISOR) {
            return Err(AssetConfigError::MaxUtilizationRate);
        }
        if !(self.holding_position_fee_rate >= BIG_DIVISOR) {
            return Err(AssetConfigError::HoldingPositionFeeRate);
        }
        if !(self.target_utilization_rate <= self.max_utilization_rate) {
            return Err(AssetConfigError::RatesOrder);
        }
        if !(self.volatility_ratio < MAX_RATIO) {
            return Err(AssetConfigError::VolatilityRatio);
        }
        if !(self.net_tvl_multiplier <= MAX_RATIO) {
            return Err(AssetConfigError::NetTvlMultiplier);
        }
        match self.max_change_rate {
            Some(r) => {
                if !(r <= MAX_RATIO) {
                    return Err(AssetConfigError::MaxChangeRate);
                }
            },
            None => {},
        }
        let supplied_limit = match self.supplied_limit {
            Some(l) => l,
            None => { return Err(AssetConfigError::MissingSuppliedLimit); },
        };
        let borrowed_limit = match self.borrowed_limit {
            Some(l) => l,
            None => { return Err(AssetConfigError::MissingBorrowedLimit); },
        };
        if !(borrowed_limit <= supplied_limit) {
            return Err(AssetConfigError::BorrowedLimitAboveSuppliedLimit);
        }
        if self.min_borrowed_amount.is_none() {
            return Err(AssetConfigError::MissingMinBorrowedAmount);
        }
        Ok(())
    }

    /// Whether `get_rate` is defined on these balances.
    pub open spec fn rate_defined_for(&self, borrowed_balance: nat, total_supplied_balance: nat) -> bool {
        rate_defined(borrowed_balance, total_supplied_balance, self.target_utilization as nat,
            self.target_utilization_rate as nat, self.max_utilization_rate as nat)
    }

    /// The compounding rate at these balances.
    pub open spec fn spec_get_rate(&self, borrowed_balance: nat, total_supplied_balance: nat) -> nat {
        spec_rate(borrowed_balance, total_supplied_balance, self.target_utilization as nat,
            self.target_utilization_rate as nat, self.max_utilization_rate as nat)
    }

    /// The per-millisecond compounding rate at the utilization
    /// `borrowed_balance / total_supplied_balance`.
    pub fn get_rate(&self, borrowed_balance: Balance, total_supplied_balance: Balance) -> (r: BigDecimal)
        requires
            self.rate_defined_for(borrowed_balance as nat, total_supplied_balance as nat),
        ensures
            r@ == self.spec_get_rate(borrowed_balance as nat, total_supplied_balance as nat),
            r.wf(),
    {
        if total_supplied_balance == 0 {
            BigDecimal::one()
        } else {
            let b = BigDecimal::from_u128(borrowed_balance);
            let pos = b.div_u128(total_supplied_balance);
            let target_utilization = BigDecimal::from_ratio(self.target_utilization);
            let tur = BigDecimal::from_low_u128(self.target_utilization_rate);
            proof {
                lemma_pos_bound(borrowed_balance as nat, total_supplied_balance as nat);
            }
            if pos.lt(&target_utilization) {
                let d = tur.sub(BigDecimal::one());
                proof { lemma_curve_bounds(pos@, d@, target_utilization@); }
                let m = pos.mul(d);
                let q = m.div(target_utilization);
                BigDecimal::one().add(q)
            } else {
                let mur = BigDecimal::from_low_u128(self.max_utilization_rate);
                let over = pos.sub(target_utilization);
                let d = mur.sub(tur);
                let rest = BigDecimal::from_ratio(MAX_POS - self.target_utilization);
                proof { lemma_curve_bounds(over@, d@, rest@); }
                let m = over.mul(d);
                let q = m.div(rest);
                tur.add(q)
            }
        }
    }
}

proof fn lemma_pos_bound(borrowed: nat, supplied: nat)
    requires
        borrowed < p128(),
        supplied >= 1,
    ensures
        utilization_raw(borrowed, supplied) < p128() * big(),
{
    assert((borrowed * big()) / supplied <= borrowed * big()) by (nonlinear_arith) requires supplied >= 1;
    assert(borrowed * big() < p128() * big()) by (nonlinear_arith) requires borrowed < p128(), big() > 0;
}

/// The steps of the rate curve fit in 384 bits: `x` is a utilization
/// (less than 2^128 * 10^27), `d` a difference of rates (less than 2^128) and
/// `den` a ratio that is not zero.
proof fn lemma_curve_bounds(x: nat, d: nat, den: nat)
    requires
        x < p128() * big(),
        d < p128(),
        den >= 1,
    ensures
        x * d + half() < p384(),
        mul_raw(x, d) * big() + half() < p384(),
        div_raw(mul_raw(x, d), den) + p128() < p384(),
{
    let b = big();
    let h = half();
    let p = p128();
    assert(b + 2 < p);
    assert(h < b);
    assert(x * d < p * b * p) by (nonlinear_arith) requires x < p * b, d < p, p > 0, b > 0;
    assert(p * b * p + h < p * p * p) by (nonlinear_arith) requires b + 2 < p, h < b, b > 0, p > 1;
    assert(p384() == p * p * p);
    let m = mul_raw(x, d);
    assert(m <= p * p) by (nonlinear_arith)
        requires m == (x * d + h) / b, x * d < p * b * p, h < b, b > 0;
    assert(m * b + h < (p * p + 1) * b) by (nonlinear_arith) requires m <= p * p, h < b, b > 0;
    assert((p * p + 1) * b + p <= p * p * p) by (nonlinear_arith) requires b + 2 < p, b > 0;
    let q = div_raw(m, den);
    assert(q <= m * b + h) by (nonlinear_arith) requires den >= 1, q == (m * b + h) / den;
}

/// Borrowing never shrinks a debt: under a valid configuration the rate is
/// defined at every utilization and is never below one.
pub proof fn lemma_rate_at_least_one(config: AssetConfig, borrowed_balance: nat, total_supplied_balance: nat)
    requires
        config.valid(),
    ensures
        config.rate_defined_for(borrowed_balance, total_supplied_balance),
        config.spec_get_rate(borrowed_balance, total_supplied_balance) >= big(),
{
}

/// Scaling by `y` and dividing by `w`, each rounded, keeps the order.
proof fn lemma_scaled_monotone(a1: nat, a2: nat, y: nat, w: nat)
    requires
        a1 <= a2,
        w > 0,
    ensures
        div_raw(mul_raw(a1, y), w) <= div_raw(mul_raw(a2, y), w),
{
    assert(a1 * y <= a2 * y) by (nonlinear_arith) requires a1 <= a2;
    let m1 = mul_raw(a1, y);
    let m2 = mul_raw(a2, y);
    assert(m1 <= m2) by (nonlinear_arith)
        requires a1 * y <= a2 * y, m1 == (a1 * y + half()) / big(), m2 == (a2 * y + half()) / big(), big() > 0;
    assert(m1 * big() <= m2 * big()) by (nonlinear_arith) requires m1 <= m2;
    assert((m1 * big() + half()) / w <= (m2 * big() + half()) / w) by (nonlinear_arith)
        requires m1 * big() <= m2 * big(), w > 0;
}

/// The rate curve grows with the utilization on each of its two pieces
/// (below the target utilization, and from it up), and at the target
/// utilization it gives the target rate plus what the rounding of the
/// division adds: half a raw unit over the width of the upper piece, which
/// is nothing when the target utilization is below one half.
pub proof fn lemma_rate_curve_pieces(config: AssetConfig, b1: nat, b2: nat, s: nat)
    requires
        config.valid(),
        s > 0,
        b1 <= b2,
    ensures
        ({
            let tu = ratio_raw(config.target_utilization as nat);
            let u1 = utilization_raw(b1, s);
            let u2 = utilization_raw(b2, s);
            &&& (u2 < tu || u1 >= tu) ==> config.spec_get_rate(b1, s) <= config.spec_get_rate(b2, s)
            &&& u1 == tu ==> config.spec_get_rate(b1, s) == config.target_utilization_rate
                + half() / ratio_raw((MAX_POS - config.target_utilization) as nat)
        }),
{
    let t = config.target_utilization as nat;
    let tu = ratio_raw(t);
    let u1 = utilization_raw(b1, s);
    let u2 = utilization_raw(b2, s);
    let tr = config.target_utilization_rate as nat;
    let mr = config.max_utilization_rate as nat;
    let w = ratio_raw((MAX_POS - config.target_utilization) as nat);
    assert(b1 * big() <= b2 * big()) by (nonlinear_arith) requires b1 <= b2;
    assert(u1 <= u2) by (nonlinear_arith)
        requires b1 * big() <= b2 * big(), u1 == (b1 * big()) / s, u2 == (b2 * big()) / s, s > 0;
    assert(w > 0);
    if u2 < tu {
        lemma_scaled_monotone(u1, u2, (tr - big()) as nat, tu);
    } else if u1 >= tu {
        lemma_scaled_monotone((u1 - tu) as nat, (u2 - tu) as nat, (mr - tr) as nat, w);
    }
    if u1 == tu {
        assert(((u1 - tu) as nat) * ((mr - tr) as nat) == 0) by (nonlinear_arith) requires u1 == tu;
        assert(mul_raw((u1 - tu) as nat, (mr - tr) as nat) == 0);
        assert(div_raw(0, w) == half() / w);
    }
}

} // verus!
