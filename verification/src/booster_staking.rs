//! Staking of booster tokens: the amount staked, the xBooster amount it earns,
//! and when it unlocks.

use vstd::prelude::*;
use crate::config::{BoosterTokenInfo, MIN_BOOSTER_MULTIPLIER, compute_x_booster_amount, spec_x_booster_amount};
use crate::utils::{Balance, DurationSec, sec_to_nano, to_nano};

verus! {

/// What one account has staked of one booster token.
pub struct BoosterStaking {
    /// The amount of booster token staked.
    pub staked_booster_amount: Balance,
    /// The amount of xBooster token.
    pub x_booster_amount: Balance,
    /// When the staked booster token can be unstaked, in nanoseconds.
    pub unlock_timestamp: u64,
}

impl Default for BoosterStaking {
    fn default() -> (r: BoosterStaking)
        ensures
            r.staked_booster_amount == 0,
            r.x_booster_amount == 0,
            r.unlock_timestamp == 0,
    {
        BoosterStaking { staked_booster_amount: 0, x_booster_amount: 0, unlock_timestamp: 0 }
    }
}

/// Why a stake was refused.
#[derive(Clone, Copy, PartialEq, Eq, Debug)]
pub enum StakeError {
    /// The duration is outside the token's staking durations.
    DurationOutOfRange,
    /// The new stake would unlock before the current one.
    ShorterThanCurrent,
}

/// The larger of two amounts.
pub open spec fn max_nat(a: nat, b: nat) -> nat {
    if a >= b { a } else { b }
}

/// The smaller of two amounts.
pub open spec fn min_nat(a: nat, b: nat) -> nat {
    if a <= b { a } else { b }
}

/// What bringing a stake up to the token's policy at time `now` makes of it.
/// A stake still locked has its xBooster amount recounted for the time left,
/// taken between the shortest and the longest staking duration; its amount
/// becomes the larger of the old one and the recount, but no more than what
/// the longest duration gives; and it unlocks no later than the longest
/// duration from now. An unlocked stake keeps no xBooster amount.
pub open spec fn synced(s: BoosterStaking, info: BoosterTokenInfo, now: u64) -> BoosterStaking {
    if s.unlock_timestamp > now {
        let remain = (s.unlock_timestamp - now) as nat;
        let max_d = (info.maximum_staking_duration_sec * 1_000_000_000) as nat;
        let min_d = (info.minimum_staking_duration_sec * 1_000_000_000) as nat;
        let max_x = spec_x_booster_amount(info, s.staked_booster_amount as nat, max_d);
        let recount_x = spec_x_booster_amount(info, s.staked_booster_amount as nat, max_nat(min_d, min_nat(remain, max_d)));
        BoosterStaking {
            staked_booster_amount: s.staked_booster_amount,
            x_booster_amount: min_nat(max_x, max_nat(s.x_booster_amount as nat, recount_x)) as u128,
            unlock_timestamp: if remain > max_d { (now + max_d) as u64 } else { s.unlock_timestamp },
        }
    } else {
        BoosterStaking { x_booster_amount: 0, ..s }
    }
}

/// A longer staking duration earns no less.
pub proof fn lemma_x_booster_grows_with_duration(info: BoosterTokenInfo, amount: nat, d1: nat, d2: nat)
    requires
        info.x_booster_multiplier_at_maximum_staking_duration >= MIN_BOOSTER_MULTIPLIER,
        info.minimum_staking_duration_sec < info.maximum_staking_duration_sec,
        info.minimum_staking_duration_sec * 1_000_000_000 <= d1 <= d2,
    ensures
        spec_x_booster_amount(info, amount, d1) <= spec_x_booster_amount(info, amount, d2),
{
    let m = (info.x_booster_multiplier_at_maximum_staking_duration - MIN_BOOSTER_MULTIPLIER) as nat;
    let e1 = (d1 - info.minimum_staking_duration_sec * 1_000_000_000) as nat;
    let e2 = (d2 - info.minimum_staking_duration_sec * 1_000_000_000) as nat;
    let den = ((info.maximum_staking_duration_sec - info.minimum_staking_duration_sec) as nat * 1_000_000_000) * 10000;
    assert(den > 0) by (nonlinear_arith)
        requires den == ((info.maximum_staking_duration_sec - info.minimum_staking_duration_sec) as nat * 1_000_000_000) * 10000,
            info.minimum_staking_duration_sec < info.maximum_staking_duration_sec;
    assert(amount * (m * e1) <= amount * (m * e2)) by (nonlinear_arith) requires e1 <= e2;
    assert(amount * (m * e1) / den <= amount * (m * e2) / den) by (nonlinear_arith)
        requires amount * (m * e1) <= amount * (m * e2), den > 0;
}

/// The xBooster amount runs from the staked amount itself at the shortest
/// staking duration to the amount times the multiplier at the longest one
/// (rounded down); it is never below the staked amount, and it grows with
/// both the amount and the duration.
pub proof fn lemma_x_booster_curve(info: BoosterTokenInfo, a1: nat, a2: nat, d1: nat, d2: nat)
    requires
        info.x_booster_multiplier_at_maximum_staking_duration >= MIN_BOOSTER_MULTIPLIER,
        info.minimum_staking_duration_sec < info.maximum_staking_duration_sec,
        info.minimum_staking_duration_sec * 1_000_000_000 <= d1 <= d2,
        a1 <= a2,
    ensures
        spec_x_booster_amount(info, a1, (info.minimum_staking_duration_sec * 1_000_000_000) as nat) == a1,
        spec_x_booster_amount(info, a1, (info.maximum_staking_duration_sec * 1_000_000_000) as nat)
            == a1 + a1 * ((info.x_booster_multiplier_at_maximum_staking_duration - MIN_BOOSTER_MULTIPLIER) as nat) / 10000,
        spec_x_booster_amount(info, a1, d1) >= a1,
        spec_x_booster_amount(info, a1, d1) <= spec_x_booster_amount(info, a2, d2),
{
    let m = (info.x_booster_multiplier_at_maximum_staking_duration - MIN_BOOSTER_MULTIPLIER) as nat;
    let span = (info.maximum_staking_duration_sec - info.minimum_staking_duration_sec) as nat * 1_000_000_000;
    let den = span * 10000;
    assert(span > 0) by (nonlinear_arith)
        requires span == (info.maximum_staking_duration_sec - info.minimum_staking_duration_sec) as nat * 1_000_000_000,
            info.minimum_staking_duration_sec < info.maximum_staking_duration_sec;
    assert(a1 * (m * 0) / den == 0) by (nonlinear_arith) requires den > 0;
    assert((info.maximum_staking_duration_sec * 1_000_000_000) as nat - info.minimum_staking_duration_sec * 1_000_000_000
        == span) by (nonlinear_arith)
        requires span == (info.maximum_staking_duration_sec - info.minimum_staking_duration_sec) as nat * 1_000_000_000,
            info.minimum_staking_duration_sec < info.maximum_staking_duration_sec;
    assert(a1 * (m * span) / den == a1 * m / 10000) by (nonlinear_arith)
        requires den == span * 10000, span > 0;
    lemma_x_booster_grows_with_duration(info, a1, d1, d2);
    let e2 = (d2 - info.minimum_staking_duration_sec * 1_000_000_000) as nat;
    assert(a1 * (m * e2) / den <= a2 * (m * e2) / den) by (nonlinear_arith)
        requires a1 <= a2, den > 0;
}

impl BoosterStaking {
    /// Brings the stake up to the token's staking policy at time `now`
    /// (nanoseconds); see `synced`.
    pub fn sync_booster_policy(&mut self, info: &BoosterTokenInfo, now: u64)
        requires
            info.x_booster_multiplier_at_maximum_staking_duration >= MIN_BOOSTER_MULTIPLIER,
            info.minimum_staking_duration_sec < info.maximum_staking_duration_sec,
            old(self).unlock_timestamp > now ==> spec_x_booster_amount(*info, old(self).staked_booster_amount as nat,
                (info.maximum_staking_duration_sec * 1_000_000_000) as nat) <= u128::MAX,
            old(self).unlock_timestamp > now + info.maximum_staking_duration_sec * 1_000_000_000
                ==> now + info.maximum_staking_duration_sec * 1_000_000_000 <= u64::MAX,
        ensures
            *final(self) == synced(*old(self), *info, now),
    {
        if self.unlock_timestamp > now {
            let remain = self.unlock_timestamp - now;
            let max_d = to_nano(info.maximum_staking_duration_sec);
            let min_d = to_nano(info.minimum_staking_duration_sec);
            assert(min_d <= max_d) by (nonlinear_arith)
                requires min_d == info.minimum_staking_duration_sec * 1_000_000_000,
                    max_d == info.maximum_staking_duration_sec * 1_000_000_000,
                    info.minimum_staking_duration_sec < info.maximum_staking_duration_sec;
            let max_x = compute_x_booster_amount(info, self.staked_booster_amount, max_d);
            let shorter = if remain <= max_d { remain } else { max_d };
            let recount_d = if min_d >= shorter { min_d } else { shorter };
            proof { lemma_x_booster_grows_with_duration(*info, self.staked_booster_amount as nat, recount_d as nat, max_d as nat); }
            let recount_x = compute_x_booster_amount(info, self.staked_booster_amount, recount_d);
            let larger = if self.x_booster_amount >= recount_x { self.x_booster_amount } else { recount_x };
            self.x_booster_amount = if max_x <= larger { max_x } else { larger };
            if remain > max_d {
                self.unlock_timestamp = now + max_d;
            }
        } else {
            self.x_booster_amount = 0;
        }
    }
}

/// What a stake of `amount` for `duration` seconds at time `now` makes of
/// the stake `prev`: the stake unlocks at `now + duration`; an existing stake
/// is restaked for the new duration, keeping its xBooster amount where that
/// was larger; then the new amount and the xBooster amount it earns are
/// added.  Also returns that earned xBooster amount.
pub open spec fn staked(
    prev: Option<BoosterStaking>,
    info: BoosterTokenInfo,
    amount: nat,
    duration: DurationSec,
    now: u64,
) -> (BoosterStaking, nat) {
    let d_ns = duration * 1_000_000_000;
    let extra = spec_x_booster_amount(info, amount, d_ns as nat);
    let (base_staked, base_x) = match prev {
        Some(p) => (
            p.staked_booster_amount as nat,
            max_nat(p.x_booster_amount as nat, spec_x_booster_amount(info, p.staked_booster_amount as nat, d_ns as nat)),
        ),
        None => (0nat, 0nat),
    };
    (
        BoosterStaking {
            staked_booster_amount: (base_staked + amount) as u128,
            x_booster_amount: (base_x + extra) as u128,
            unlock_timestamp: (now + d_ns) as u64,
        },
        extra,
    )
}

/// Whether the amounts of a stake fit in their types.
pub open spec fn stake_fits(prev: Option<BoosterStaking>, info: BoosterTokenInfo, amount: nat, duration: DurationSec) -> bool {
    let d_ns = (duration * 1_000_000_000) as nat;
    let extra = spec_x_booster_amount(info, amount, d_ns);
    &&& extra <= u128::MAX
    &&& match prev {
        Some(p) => {
            &&& p.staked_booster_amount + amount <= u128::MAX
            &&& spec_x_booster_amount(info, p.staked_booster_amount as nat, d_ns) <= u128::MAX
            &&& max_nat(p.x_booster_amount as nat, spec_x_booster_amount(info, p.staked_booster_amount as nat, d_ns))
                + extra <= u128::MAX
        },
        None => amount <= u128::MAX,
    }
}

/// Stakes `amount` of a booster token for `duration` seconds at time `now`
/// (nanoseconds) onto the stake `prev`.  Refused when the duration is
/// outside the token's staking durations, or when the new stake would
/// unlock before `prev`.  Returns the new stake and the xBooster amount the
/// staked amount earned.
pub fn stake_booster(
    prev: Option<BoosterStaking>,
    info: &BoosterTokenInfo,
    amount: Balance,
    duration: DurationSec,
    now: u64,
) -> (r: Result<(BoosterStaking, Balance), StakeError>)
    requires
        info.x_booster_multiplier_at_maximum_staking_duration >= MIN_BOOSTER_MULTIPLIER,
        info.minimum_staking_duration_sec < info.maximum_staking_duration_sec,
        now + info.maximum_staking_duration_sec * 1_000_000_000 <= u64::MAX,
        info.minimum_staking_duration_sec <= duration <= info.maximum_staking_duration_sec
            ==> stake_fits(prev, *info, amount as nat, duration),
    ensures
        !(info.minimum_staking_duration_sec <= duration <= info.maximum_staking_duration_sec)
            <==> r == Err::<(BoosterStaking, Balance), StakeError>(StakeError::DurationOutOfRange),
        r == Err::<(BoosterStaking, Balance), StakeError>(StakeError::ShorterThanCurrent) <==> (
            info.minimum_staking_duration_sec <= duration <= info.maximum_staking_duration_sec
            && prev is Some && prev->0.unlock_timestamp > now + duration * 1_000_000_000),
        r matches Ok((s, extra)) ==> (s, extra as nat) == staked(prev, *info, amount as nat, duration, now),
{
    if !(info.minimum_staking_duration_sec <= duration && duration <= info.maximum_staking_duration_sec) {
        return Err(StakeError::DurationOutOfRange);
    }
    let d_ns = sec_to_nano(duration);
    assert(d_ns <= info.maximum_staking_duration_sec * 1_000_000_000) by (nonlinear_arith)
        requires d_ns == duration * 1_000_000_000, duration <= info.maximum_staking_duration_sec;
    assert(d_ns >= info.minimum_staking_duration_sec * 1_000_000_000) by (nonlinear_arith)
        requires d_ns == duration * 1_000_000_000, duration >= info.minimum_staking_duration_sec;
    let unlock = now + d_ns;
    let mut staking = match prev {
        Some(p) => {
            if p.unlock_timestamp > unlock {
                return Err(StakeError::ShorterThanCurrent);
            }
            let restaked = compute_x_booster_amount(info, p.staked_booster_amount, d_ns);
            let x = if p.x_booster_amount >= restaked { p.x_booster_amount } else { restaked };
            BoosterStaking { staked_booster_amount: p.staked_booster_amount, x_booster_amount: x, unlock_timestamp: p.unlock_timestamp }
        },
        None => BoosterStaking::default(),
    };
    staking.unlock_timestamp = unlock;
    staking.staked_booster_amount = staking.staked_booster_amount + amount;
    let extra = compute_x_booster_amount(info, amount, d_ns);
    staking.x_booster_amount = staking.x_booster_amount + extra;
    Ok((staking, extra))
}

} // verus!
