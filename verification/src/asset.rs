//! A lending asset: its pools, reserves, fees and the accrual of interest.

use vstd::prelude::*;
use crate::account_map::AccountMap;
use crate::asset_config::{AssetConfig, ratio_raw};
use crate::big_decimal::{BigDecimal, big, half, mul_raw, mul_fits, pow_raw, pow_fits,
    lemma_pow_acc_at_least_one};
use crate::events::FeeDetail;
use crate::pool::Pool;
use crate::utils::{Balance, TokenId, Timestamp, MAX_RATIO, MS_PER_YEAR, UNIT, u128_ratio, ratio, nano_to_ms, ms_to_nano};
use crate::wide::p384;

verus! {

/// A lending asset.
pub struct Asset {
    /// Total supplied including collateral, but excluding reserved.
    pub supplied: Pool,
    /// Total borrowed.
    pub borrowed: Pool,
    /// Total margin debt.
    pub margin_debt: Pool,
    /// Borrowed by margin positions that are still being traded.
    pub margin_pending_debt: Balance,
    /// Total held in margin positions.
    pub margin_position: Balance,
    /// The amount reserved for stability; it can be borrowed.
    pub reserved: Balance,
    /// Obsolete: the amount that belongs to the protocol; it can be borrowed.
    pub prot_fee: Balance,
    /// The fees owed to each beneficiary; they can not be borrowed.
    pub beneficiary_fees: AccountMap<u128>,
    /// The accumulated holding-position interest of one `UNIT` since the asset was created.
    pub unit_acc_hp_interest: Balance,
    /// When the asset was last updated (nanoseconds).
    pub last_update_timestamp: Timestamp,
    /// The asset config.
    pub config: AssetConfig,
    /// Total lost-and-found shares.
    pub lostfound_shares: Balance,
    /// Fee events waiting to be announced.
    pub pending_fee_events: Option<Vec<FeeDetail>>,
}

/// The fee of each beneficiary out of `reward`, summed over the pairs
/// (beneficiary, ratio in basis points).
pub open spec fn fee_total(pairs: Seq<(Seq<char>, u32)>, reward: nat) -> nat
    decreases pairs.len(),
{
    if pairs.len() == 0 {
        0
    } else {
        fee_total(pairs.drop_last(), reward) + reward * (pairs.last().1 as nat) / 10000
    }
}

/// The fee already owed to `k` (zero when none is).
pub open spec fn owed(fees: Map<Seq<char>, u128>, k: Seq<char>) -> nat {
    if fees.contains_key(k) { fees[k] as nat } else { 0 }
}

/// `fees` with the fee of each beneficiary out of `reward` added.
pub open spec fn fees_added(fees: Map<Seq<char>, u128>, pairs: Seq<(Seq<char>, u32)>, reward: nat) -> Map<Seq<char>, u128>
    decreases pairs.len(),
{
    if pairs.len() == 0 {
        fees
    } else {
        let m = fees_added(fees, pairs.drop_last(), reward);
        let k = pairs.last().0;
        m.insert(k, (owed(m, k) + reward * (pairs.last().1 as nat) / 10000) as u128)
    }
}

/// Every beneficiary's fee can be added without overflow, and so can their total.
pub open spec fn fees_fit(fees: Map<Seq<char>, u128>, pairs: Seq<(Seq<char>, u32)>, reward: nat) -> bool {
    &&& fee_total(pairs, reward) <= u128::MAX
    &&& forall|i: int| 0 <= i < pairs.len() ==>
        owed(fees, #[trigger] pairs[i].0) + reward * (pairs[i].1 as nat) / 10000 <= u128::MAX
    &&& forall|i: int| 0 <= i < pairs.len() ==> (#[trigger] pairs[i]).1 <= MAX_RATIO
}

proof fn lemma_fees_added_other(fees: Map<Seq<char>, u128>, pairs: Seq<(Seq<char>, u32)>, reward: nat, k: Seq<char>)
    requires
        forall|i: int| 0 <= i < pairs.len() ==> (#[trigger] pairs[i]).0 != k,
    ensures
        owed(fees_added(fees, pairs, reward), k) == owed(fees, k),
        fees_added(fees, pairs, reward).contains_key(k) == fees.contains_key(k),
    decreases pairs.len(),
{
    if pairs.len() > 0 {
        let p = pairs.drop_last();
        assert forall|i: int| 0 <= i < p.len() implies (#[trigger] p[i]).0 != k by {
            assert(p[i] == pairs[i]);
        }
        lemma_fees_added_other(fees, p, reward, k);
        assert(pairs.last() == pairs[pairs.len() - 1]);
    }
}

proof fn lemma_fee_total_le(pairs: Seq<(Seq<char>, u32)>, reward: nat, n: int)
    requires
        0 <= n <= pairs.len(),
    ensures
        fee_total(pairs.take(n), reward) <= fee_total(pairs, reward),
    decreases pairs.len(),
{
    if n < pairs.len() {
        assert(pairs.drop_last().take(n) =~= pairs.take(n));
        lemma_fee_total_le(pairs.drop_last(), reward, n);
    } else {
        assert(pairs.take(n) =~= pairs);
    }
}

/// `x * v` rounded to the nearest, for a raw `BigDecimal` value `x`.
pub open spec fn round_mul_raw(x: nat, v: nat) -> nat {
    (x * v + half()) / big()
}

/// Multiplying by a number of at least one does not decrease.
pub proof fn lemma_round_mul_ge(p: nat, v: nat)
    requires
        p >= big(),
    ensures
        round_mul_raw(p, v) >= v,
{
    assert(p * v >= big() * v) by (nonlinear_arith) requires p >= big();
    assert((p * v + half()) / big() >= v) by (nonlinear_arith) requires p * v >= big() * v, big() > 0;
}

/// The event records how `interest` was divided.
pub open spec fn fee_event_is(e: FeeDetail, fee_type: Seq<char>, token_id: Seq<char>, interest: nat, reserved: nat, prot_fee: nat) -> bool {
    &&& e.fee_type@ == fee_type
    &&& e.token_id@ == token_id
    &&& e.interest == interest
    &&& e.reserved == reserved
    &&& e.prot_fee == prot_fee
}

/// The fee events queued on an asset.
pub open spec fn queued(a: Asset) -> Seq<FeeDetail> {
    match a.pending_fee_events {
        Some(v) => v@,
        None => Seq::<FeeDetail>::empty(),
    }
}

/// The part of `interest` that is reserved: the reserve ratio of it while
/// anything is supplied, all of it otherwise.
pub open spec fn to_reserve(a: Asset, interest: nat) -> nat {
    if a.supplied.shares > 0 { interest * (a.config.reserve_ratio as nat) / 10000 } else { interest }
}

/// `interest` can be divided on `a` (and added to the debt, margin debt when
/// `margin`) without failure or overflow.
pub open spec fn accrue_ok(a: Asset, interest: nat, margin: bool) -> bool {
    let dist = to_reserve(a, interest);
    let prot = fee_total(a.config.beneficiaries.pairs(), dist);
    &&& interest <= u128::MAX
    &&& a.config.reserve_ratio <= MAX_RATIO
    &&& a.beneficiary_fees.wf()
    &&& a.config.beneficiaries.wf()
    &&& fees_fit(a.beneficiary_fees.view(), a.config.beneficiaries.pairs(), dist)
    &&& prot <= dist
    &&& a.supplied.balance + (interest - dist) <= u128::MAX
    &&& a.reserved + (dist - prot) <= u128::MAX
    &&& if margin { a.margin_debt.balance + interest <= u128::MAX } else { a.borrowed.balance + interest <= u128::MAX }
}

/// `post` is `pre` after `interest` on its debt (margin debt when `margin`)
/// was divided between suppliers, reserve and beneficiaries, added to the debt,
/// and queued as a fee event of `fee_type`.
pub open spec fn accrued(pre: Asset, post: Asset, interest: nat, margin: bool, fee_type: Seq<char>, token_id: Seq<char>) -> bool {
    let dist = to_reserve(pre, interest);
    let prot = fee_total(pre.config.beneficiaries.pairs(), dist);
    &&& post.supplied == (Pool { balance: (pre.supplied.balance + (interest - dist)) as u128, ..pre.supplied })
    &&& post.reserved == pre.reserved + (dist - prot)
    &&& post.beneficiary_fees.wf()
    &&& post.beneficiary_fees.view() == fees_added(pre.beneficiary_fees.view(), pre.config.beneficiaries.pairs(), dist)
    &&& post.pending_fee_events is Some
    &&& queued(post).len() == queued(pre).len() + 1
    &&& queued(post).drop_last() == queued(pre)
    &&& fee_event_is(queued(post).last(), fee_type, token_id, interest, (dist - prot) as nat, prot)
    &&& if margin {
        &&& post.margin_debt == (Pool { balance: (pre.margin_debt.balance + interest) as u128, ..pre.margin_debt })
        &&& post == (Asset { supplied: post.supplied, margin_debt: post.margin_debt, reserved: post.reserved,
                beneficiary_fees: post.beneficiary_fees, pending_fee_events: post.pending_fee_events, ..pre })
    } else {
        &&& post.borrowed == (Pool { balance: (pre.borrowed.balance + interest) as u128, ..pre.borrowed })
        &&& post == (Asset { supplied: post.supplied, borrowed: post.borrowed, reserved: post.reserved,
                beneficiary_fees: post.beneficiary_fees, pending_fee_events: post.pending_fee_events, ..pre })
    }
}

/// The interest on regular borrowing over `t` milliseconds.
pub open spec fn normal_interest(a: Asset, t: nat) -> nat {
    (round_mul_raw(pow_raw(a.spec_rate(), t), a.borrowed.balance as nat) - a.borrowed.balance) as nat
}

/// The interest on margin debt over `t` milliseconds.
pub open spec fn margin_interest(a: Asset, t: nat, margin_debt_discount_rate: u32) -> nat {
    (round_mul_raw(pow_raw(a.spec_margin_debt_rate(margin_debt_discount_rate), t), a.margin_debt.balance as nat)
        - a.margin_debt.balance) as nat
}

/// Regular interest over `t` milliseconds can be accrued on `a` without failure or overflow.
pub open spec fn normal_ok(a: Asset, t: nat) -> bool {
    let p = pow_raw(a.spec_rate(), t);
    &&& a.rate_ok()
    &&& pow_fits(big(), a.spec_rate(), t)
    &&& p >= big()
    &&& p * a.borrowed.balance + half() < p384()
    &&& round_mul_raw(p, a.borrowed.balance as nat) <= u128::MAX
    &&& accrue_ok(a, normal_interest(a, t), false)
}

/// Margin interest over `t` milliseconds can be accrued on `a` without failure or overflow.
pub open spec fn margin_ok(a: Asset, t: nat, margin_debt_discount_rate: u32) -> bool {
    let p = pow_raw(a.spec_margin_debt_rate(margin_debt_discount_rate), t);
    &&& a.margin_debt_rate_ok(margin_debt_discount_rate)
    &&& pow_fits(big(), a.spec_margin_debt_rate(margin_debt_discount_rate), t)
    &&& p * a.margin_debt.balance + half() < p384()
    &&& round_mul_raw(p, a.margin_debt.balance as nat) <= u128::MAX
    &&& accrue_ok(a, margin_interest(a, t, margin_debt_discount_rate), true)
}

/// `post` is `pre` after compounding `t` milliseconds of interest: first on
/// regular borrowing, then on margin debt at the rate of the updated asset.
pub open spec fn compounded(pre: Asset, post: Asset, t: nat, margin_debt_discount_rate: u32, token_id: Seq<char>) -> bool {
    exists|mid: Asset| {
        &&& #[trigger] accrued(pre, mid, normal_interest(pre, t), false, "normal"@, token_id)
        &&& accrued(mid, post, margin_interest(mid, t, margin_debt_discount_rate), true, "margin"@, token_id)
    }
}

/// Compounding `t` milliseconds of interest on `a` succeeds.
pub open spec fn compound_ok(a: Asset, t: nat, margin_debt_discount_rate: u32, token_id: Seq<char>) -> bool {
    &&& normal_ok(a, t)
    &&& forall|mid: Asset| #[trigger] accrued(a, mid, normal_interest(a, t), false, "normal"@, token_id)
        ==> margin_ok(mid, t, margin_debt_discount_rate)
}

/// The yearly rates (minus one) of regular borrowing and of margin debt.
pub open spec fn borrow_apr_raw(a: Asset) -> nat {
    (pow_raw(a.spec_rate(), MS_PER_YEAR as nat) - big()) as nat
}

/// The yearly rate (minus one) of margin debt.
pub open spec fn margin_debt_apr_raw(a: Asset, margin_debt_discount_rate: u32) -> nat {
    (pow_raw(a.spec_margin_debt_rate(margin_debt_discount_rate), MS_PER_YEAR as nat) - big()) as nat
}

/// The yearly rate that suppliers earn (raw value): the yearly interest of
/// borrowing and of margin debt, less the reserved ratio, over what is supplied.
pub open spec fn supply_apr_raw(a: Asset, margin_debt_discount_rate: u32) -> nat {
    if a.supplied.balance == 0 || (a.borrowed.balance == 0 && a.margin_debt.balance == 0) {
        0
    } else {
        let ba = borrow_apr_raw(a);
        let ma = margin_debt_apr_raw(a, margin_debt_discount_rate);
        if ba == 0 && ma == 0 {
            0
        } else {
            let keep = (10000 - a.config.reserve_ratio) as nat;
            let sb = round_mul_raw(ba, a.borrowed.balance as nat) * keep / 10000;
            let sm = round_mul_raw(ma, a.margin_debt.balance as nat) * keep / 10000;
            (sb + sm) * big() / (a.supplied.balance as nat)
        }
    }
}

/// `get_supply_apr` succeeds on `a`.
pub open spec fn supply_apr_ok(a: Asset, margin_debt_discount_rate: u32) -> bool {
    a.supplied.balance == 0 || (a.borrowed.balance == 0 && a.margin_debt.balance == 0) || {
        let ba = borrow_apr_raw(a);
        let ma = margin_debt_apr_raw(a, margin_debt_discount_rate);
        let keep = (10000 - a.config.reserve_ratio) as nat;
        &&& a.rate_ok()
        &&& pow_fits(big(), a.spec_rate(), MS_PER_YEAR as nat)
        &&& a.spec_rate() >= big()
        &&& a.margin_debt_rate_ok(margin_debt_discount_rate)
        &&& pow_fits(big(), a.spec_margin_debt_rate(margin_debt_discount_rate), MS_PER_YEAR as nat)
        &&& (ba == 0 && ma == 0 || {
            &&& ba * a.borrowed.balance + half() < p384()
            &&& round_mul_raw(ba, a.borrowed.balance as nat) <= u128::MAX
            &&& ma * a.margin_debt.balance + half() < p384()
            &&& round_mul_raw(ma, a.margin_debt.balance as nat) <= u128::MAX
            &&& a.config.reserve_ratio <= MAX_RATIO
            &&& round_mul_raw(ba, a.borrowed.balance as nat) * keep / 10000
                + round_mul_raw(ma, a.margin_debt.balance as nat) * keep / 10000 <= u128::MAX
        })
    }
}

/// The holding-position interest of one `UNIT` over `t` milliseconds.
pub open spec fn hp_interest(a: Asset, t: nat) -> nat {
    (round_mul_raw(pow_raw(a.config.holding_position_fee_rate as nat, t), UNIT as nat) - UNIT) as nat
}

/// The whole milliseconds between the last update and `now`.
pub open spec fn elapsed_ms(a: Asset, now: Timestamp) -> nat {
    ((now - a.last_update_timestamp) / 1_000_000) as nat
}

/// `a` with its update time moved forward by the whole milliseconds elapsed until `now`.
pub open spec fn advanced(a: Asset, now: Timestamp) -> Asset {
    Asset { last_update_timestamp: (a.last_update_timestamp + elapsed_ms(a, now) * 1_000_000) as u64, ..a }
}

/// `post` is `pre` brought up to `now` (see `update`): unchanged when less
/// than a millisecond elapsed; else the interest of the whole milliseconds
/// elapsed is compounded and the holding-position interest of one `UNIT`
/// over them is added to the index.
pub open spec fn updated(pre: Asset, post: Asset, now: Timestamp, margin_debt_discount_rate: u32, token_id: Seq<char>) -> bool {
    let t = elapsed_ms(pre, now);
    &&& t == 0 ==> post == pre
    &&& t > 0 ==> exists|c: Asset| {
        &&& #[trigger] compounded(advanced(pre, now), c, t, margin_debt_discount_rate, token_id)
        &&& post == (Asset { unit_acc_hp_interest: (pre.unit_acc_hp_interest + hp_interest(pre, t)) as u128, ..c })
    }
}

/// Updating `a` at `now` succeeds.
pub open spec fn update_ok(a: Asset, now: Timestamp, margin_debt_discount_rate: u32, token_id: Seq<char>) -> bool {
    let t = elapsed_ms(a, now);
    let p = pow_raw(a.config.holding_position_fee_rate as nat, t);
    &&& now >= a.last_update_timestamp
    &&& t > 0 ==> {
        &&& compound_ok(advanced(a, now), t, margin_debt_discount_rate, token_id)
        &&& pow_fits(big(), a.config.holding_position_fee_rate as nat, t)
        &&& p * UNIT + half() < p384()
        &&& round_mul_raw(p, UNIT as nat) <= u128::MAX
        &&& round_mul_raw(p, UNIT as nat) >= UNIT
        &&& a.unit_acc_hp_interest + hp_interest(a, t) <= u128::MAX
    }
}

impl Asset {
    /// What the borrowing rate counts as borrowed.
    pub open spec fn spec_total_borrowed(&self) -> nat {
        (self.borrowed.balance + self.margin_debt.balance + self.margin_pending_debt) as nat
    }

    /// What the borrowing rate counts as supplied.
    pub open spec fn spec_total_supplied(&self) -> nat {
        (self.supplied.balance + self.reserved + self.prot_fee) as nat
    }

    /// `get_rate` is defined: the sums fit in a `u128` and the rate curve is defined there.
    pub open spec fn rate_ok(&self) -> bool {
        &&& self.spec_total_borrowed() <= u128::MAX
        &&& self.spec_total_supplied() <= u128::MAX
        &&& self.config.rate_defined_for(self.spec_total_borrowed(), self.spec_total_supplied())
    }

    /// The current per-millisecond compounding rate of borrowing (raw value).
    pub open spec fn spec_rate(&self) -> nat {
        self.config.spec_get_rate(self.spec_total_borrowed(), self.spec_total_supplied())
    }

    /// The per-millisecond rate of margin debt (raw value): the part of the
    /// borrowing rate above one is scaled by the discount ratio.
    pub open spec fn spec_margin_debt_rate(&self, margin_debt_discount_rate: u32) -> nat {
        mul_raw((self.spec_rate() - big()) as nat, ratio_raw(margin_debt_discount_rate as nat)) + big()
    }

    /// `get_margin_debt_rate` is defined.
    pub open spec fn margin_debt_rate_ok(&self, margin_debt_discount_rate: u32) -> bool {
        &&& self.rate_ok()
        &&& self.spec_rate() >= big()
        &&& mul_fits((self.spec_rate() - big()) as nat, ratio_raw(margin_debt_discount_rate as nat))
        &&& mul_raw((self.spec_rate() - big()) as nat, ratio_raw(margin_debt_discount_rate as nat)) + big() < p384()
    }

    /// A new asset with empty pools, updated at `timestamp`.
    pub fn new(timestamp: Timestamp, config: AssetConfig) -> (r: Asset)
        ensures
            r.supplied == Pool::new_spec(),
            r.borrowed == Pool::new_spec(),
            r.margin_debt == Pool::new_spec(),
            r.margin_pending_debt == 0,
            r.margin_position == 0,
            r.reserved == 0,
            r.prot_fee == 0,
            r.beneficiary_fees.wf(),
            r.beneficiary_fees.view() == Map::<Seq<char>, u128>::empty(),
            r.unit_acc_hp_interest == 0,
            r.last_update_timestamp == timestamp,
            r.config == config,
            r.lostfound_shares == 0,
            r.pending_fee_events is None,
    {
        Asset {
            supplied: Pool::new(),
            borrowed: Pool::new(),
            margin_debt: Pool::new(),
            margin_pending_debt: 0,
            margin_position: 0,
            reserved: 0,
            prot_fee: 0,
            beneficiary_fees: AccountMap::new(),
            unit_acc_hp_interest: 0,
            last_update_timestamp: timestamp,
            config,
            lostfound_shares: 0,
            pending_fee_events: None,
        }
    }

    /// The current per-millisecond compounding rate of borrowing.
    pub fn get_rate(&self) -> (r: BigDecimal)
        requires
            self.rate_ok(),
        ensures
            r@ == self.spec_rate(),
            r.wf(),
    {
        self.config.get_rate(
            self.borrowed.balance + self.margin_debt.balance + self.margin_pending_debt,
            self.supplied.balance + self.reserved + self.prot_fee,
        )
    }

    /// The per-millisecond compounding rate of margin debt.
    pub fn get_margin_debt_rate(&self, margin_debt_discount_rate: u32) -> (r: BigDecimal)
        requires
            self.margin_debt_rate_ok(margin_debt_discount_rate),
        ensures
            r@ == self.spec_margin_debt_rate(margin_debt_discount_rate),
            r@ >= big(),
            r.wf(),
    {
        let rate = self.get_rate();
        let d = rate.sub(BigDecimal::one());
        let m = d.mul(BigDecimal::from_ratio(margin_debt_discount_rate));
        m.add(BigDecimal::one())
    }

    /// The yearly rate of margin debt (compounded every millisecond), minus one.
    pub fn get_margin_debt_apr(&self, margin_debt_discount_rate: u32) -> (r: BigDecimal)
        requires
            self.margin_debt_rate_ok(margin_debt_discount_rate),
            pow_fits(big(), self.spec_margin_debt_rate(margin_debt_discount_rate), MS_PER_YEAR as nat),
        ensures
            r@ == pow_raw(self.spec_margin_debt_rate(margin_debt_discount_rate), MS_PER_YEAR as nat) - big(),
            r.wf(),
    {
        let rate = self.get_margin_debt_rate(margin_debt_discount_rate);
        let p = rate.pow(MS_PER_YEAR);
        proof { lemma_pow_acc_at_least_one(big(), rate@, MS_PER_YEAR as nat); }
        p.sub(BigDecimal::one())
    }

    /// The yearly borrowing rate (compounded every millisecond), minus one.
    pub fn get_borrow_apr(&self) -> (r: BigDecimal)
        requires
            self.rate_ok(),
            pow_fits(big(), self.spec_rate(), MS_PER_YEAR as nat),
            self.spec_rate() >= big(),
        ensures
            r@ == pow_raw(self.spec_rate(), MS_PER_YEAR as nat) - big(),
            pow_raw(self.spec_rate(), MS_PER_YEAR as nat) >= big(),
            r.wf(),
    {
        let rate = self.get_rate();
        let p = rate.pow(MS_PER_YEAR);
        proof { lemma_pow_acc_at_least_one(big(), rate@, MS_PER_YEAR as nat); }
        p.sub(BigDecimal::one())
    }

    /// What is left to lend: supplied, reserved and protocol fees, minus what is
    /// borrowed, owed as margin debt or pending as margin debt.
    pub fn available_amount(&self) -> (r: Balance)
        requires
            self.supplied.balance + self.reserved + self.prot_fee <= u128::MAX,
            self.borrowed.balance + self.margin_debt.balance + self.margin_pending_debt
                <= self.supplied.balance + self.reserved + self.prot_fee,
        ensures
            r == self.spec_total_supplied() - self.spec_total_borrowed(),
    {
        self.supplied.balance + self.reserved + self.prot_fee
            - self.borrowed.balance
            - self.margin_debt.balance
            - self.margin_pending_debt
    }

    /// Adds to the pending margin debt, refusing (with `false`, leaving the
    /// asset as it was) when the pending debt would not stay below
    /// `pending_debt_scale / 10000` of the available amount.
    pub fn increase_margin_pending_debt(&mut self, amount: Balance, pending_debt_scale: u32) -> (r: bool)
        requires
            old(self).margin_pending_debt + amount <= u128::MAX,
            old(self).supplied.balance + old(self).reserved + old(self).prot_fee <= u128::MAX,
            old(self).borrowed.balance + old(self).margin_debt.balance + old(self).margin_pending_debt + amount
                <= old(self).supplied.balance + old(self).reserved + old(self).prot_fee,
            (old(self).spec_total_supplied() - old(self).spec_total_borrowed() - amount)
                * (pending_debt_scale as nat) / 10000 <= u128::MAX,
        ensures
            r == ((old(self).spec_total_supplied() - old(self).spec_total_borrowed() - amount)
                * (pending_debt_scale as nat) / 10000 > old(self).margin_pending_debt + amount),
            r ==> *final(self) == (Asset { margin_pending_debt: (old(self).margin_pending_debt + amount) as u128, ..*old(self) }),
            !r ==> *final(self) == *old(self),
    {
        let available = self.supplied.balance + self.reserved + self.prot_fee
            - self.borrowed.balance - self.margin_debt.balance - self.margin_pending_debt - amount;
        let new_pending = self.margin_pending_debt + amount;
        if u128_ratio(available, pending_debt_scale as u128, MAX_RATIO as u128) > new_pending {
            self.margin_pending_debt = new_pending;
            true
        } else {
            false
        }
    }

    /// Adds to each beneficiary's fees its ratio of `reward`; returns the total
    /// added.
    pub fn distribute_beneficiaries(&mut self, reward: u128) -> (r: u128)
        requires
            old(self).beneficiary_fees.wf(),
            old(self).config.beneficiaries.wf(),
            fees_fit(old(self).beneficiary_fees.view(), old(self).config.beneficiaries.pairs(), reward as nat),
        ensures
            r as nat == fee_total(old(self).config.beneficiaries.pairs(), reward as nat),
            final(self).beneficiary_fees.wf(),
            final(self).beneficiary_fees.view()
                == fees_added(old(self).beneficiary_fees.view(), old(self).config.beneficiaries.pairs(), reward as nat),
            *final(self) == (Asset { beneficiary_fees: final(self).beneficiary_fees, ..*old(self) }),
    {
        let ghost pairs = self.config.beneficiaries.pairs();
        let ghost fees0 = self.beneficiary_fees.view();
        let mut total_fee: u128 = 0;
        let mut i: usize = 0;
        let n = self.config.beneficiaries.len();
        while i < n
            invariant
                n == pairs.len(),
                i <= n,
                pairs == self.config.beneficiaries.pairs(),
                self.config.beneficiaries.wf(),
                self.beneficiary_fees.wf(),
                fees_fit(fees0, pairs, reward as nat),
                total_fee as nat == fee_total(pairs.take(i as int), reward as nat),
                self.beneficiary_fees.view() == fees_added(fees0, pairs.take(i as int), reward as nat),
                *self == (Asset { beneficiary_fees: self.beneficiary_fees, ..*old(self) }),
            decreases n - i,
        {
            let (beneficiary, rate) = self.config.beneficiaries.entry_at(i);
            let ghost k = pairs[i as int].0;
            assert(pairs[i as int].1 <= MAX_RATIO);
            let fee = ratio(reward, rate);
            let ghost prefix = pairs.take(i as int);
            assert(pairs.take(i as int + 1).drop_last() =~= prefix);
            assert(pairs.take(i as int + 1).last() == pairs[i as int]);
            proof {
                assert forall|j: int| 0 <= j < prefix.len() implies (#[trigger] prefix[j]).0 != k by {
                    assert(prefix[j] == pairs[j]);
                }
                lemma_fees_added_other(fees0, prefix, reward as nat, k);
                lemma_fee_total_le(pairs, reward as nat, i as int + 1);
            }
            let key = beneficiary.clone();
            let current = match self.beneficiary_fees.get(&key) {
                Some(f) => f,
                None => 0,
            };
            assert(owed(fees0, pairs[i as int].0) + (reward as nat) * (pairs[i as int].1 as nat) / 10000 <= u128::MAX);
            total_fee = total_fee + fee;
            self.beneficiary_fees.insert(&key, current + fee);
            i = i + 1;
        }
        assert(pairs.take(n as int) =~= pairs);
        total_fee
    }

    /// Divides `interest` on the debt (margin debt when `margin`) between
    /// suppliers, reserve and beneficiaries, adds it to the debt and queues
    /// its fee event.
    fn accrue(&mut self, interest: u128, margin: bool, fee_type: String, token_id: &TokenId)
        requires
            accrue_ok(*old(self), interest as nat, margin),
        ensures
            accrued(*old(self), *final(self), interest as nat, margin, fee_type@, token_id@),
    {
        let mut detail = FeeDetail::new(fee_type, token_id.clone(), interest);
        if self.supplied.shares > 0 {
            let reserved = ratio(interest, self.config.reserve_ratio);
            self.supplied.balance = self.supplied.balance + (interest - reserved);
            let prot_fee = self.distribute_beneficiaries(reserved);
            self.reserved = self.reserved + (reserved - prot_fee);
            detail.reserved = reserved - prot_fee;
            detail.prot_fee = prot_fee;
        } else {
            let prot_fee = self.distribute_beneficiaries(interest);
            self.reserved = self.reserved + (interest - prot_fee);
            detail.reserved = interest - prot_fee;
            detail.prot_fee = prot_fee;
        }
        if margin {
            self.margin_debt.balance = self.margin_debt.balance + interest;
        } else {
            self.borrowed.balance = self.borrowed.balance + interest;
        }
        let ghost before = *self;
        self.add_pending_fee_events(detail);
        proof {
            assert(queued(*self).drop_last() =~= queued(before));
        }
    }

    /// Compounds `time_diff_ms` milliseconds of interest: on regular borrowing
    /// at the current rate, then on margin debt at the (discounted) rate of the
    /// updated asset. Each part is divided between suppliers (unless nothing is
    /// supplied), the reserve and the beneficiaries, and queued as a fee event.
    pub fn compound(&mut self, token_id: &TokenId, time_diff_ms: u64, margin_debt_discount_rate: u32)
        requires
            compound_ok(*old(self), time_diff_ms as nat, margin_debt_discount_rate, token_id@),
        ensures
            compounded(*old(self), *final(self), time_diff_ms as nat, margin_debt_discount_rate, token_id@),
    {
        // handle common borrowed
        let rate = self.get_rate();
        let p = rate.pow(time_diff_ms);
        proof { lemma_round_mul_ge(p@, self.borrowed.balance as nat); }
        let interest = p.round_mul_u128(self.borrowed.balance) - self.borrowed.balance;
        let ghost pre = *self;
        self.accrue(interest, false, String::from_str("normal"), token_id);
        proof {
            reveal_strlit("normal");
            assert(accrued(pre, *self, normal_interest(pre, time_diff_ms as nat), false, "normal"@, token_id@));
        }
        let ghost mid = *self;
        // handle margin debt
        let margin_debt_rate = self.get_margin_debt_rate(margin_debt_discount_rate);
        let p = margin_debt_rate.pow(time_diff_ms);
        proof {
            lemma_pow_acc_at_least_one(big(), margin_debt_rate@, time_diff_ms as nat);
            lemma_round_mul_ge(p@, self.margin_debt.balance as nat);
        }
        let interest = p.round_mul_u128(self.margin_debt.balance) - self.margin_debt.balance;
        self.accrue(interest, true, String::from_str("margin"), token_id);
        proof {
            reveal_strlit("margin");
        }
    }

    /// The yearly rate that suppliers earn.
    pub fn get_supply_apr(&self, margin_debt_discount_rate: u32) -> (r: BigDecimal)
        requires
            supply_apr_ok(*self, margin_debt_discount_rate),
        ensures
            r@ == supply_apr_raw(*self, margin_debt_discount_rate),
    {
        if self.supplied.balance == 0 || (self.borrowed.balance == 0 && self.margin_debt.balance == 0) {
            return BigDecimal::zero();
        }
        let borrow_apr = self.get_borrow_apr();
        let margin_debt_apr = self.get_margin_debt_apr(margin_debt_discount_rate);
        if borrow_apr.is_zero() && margin_debt_apr.is_zero() {
            return BigDecimal::zero();
        }
        let borrow_interest = borrow_apr.round_mul_u128(self.borrowed.balance);
        let supply_interest_borrow_part = ratio(borrow_interest, MAX_RATIO - self.config.reserve_ratio);
        let margin_debt_interest = margin_debt_apr.round_mul_u128(self.margin_debt.balance);
        let supply_interest_margin_debt_part = ratio(margin_debt_interest, MAX_RATIO - self.config.reserve_ratio);
        BigDecimal::from_u128(supply_interest_borrow_part + supply_interest_margin_debt_part)
            .div_u128(self.supplied.balance)
    }

    /// Brings the asset up to `now`: compounds the interest of the whole
    /// milliseconds elapsed since the last update and adds the holding-position
    /// interest of one `UNIT` over them. Nothing changes when less than a
    /// millisecond has elapsed.
    pub fn update(&mut self, token_id: &TokenId, margin_debt_discount_rate: u32, now: Timestamp)
        requires
            update_ok(*old(self), now, margin_debt_discount_rate, token_id@),
        ensures
            updated(*old(self), *final(self), now, margin_debt_discount_rate, token_id@),
    {
        let time_diff_ms = nano_to_ms(now - self.last_update_timestamp);
        if time_diff_ms > 0 {
            assert(time_diff_ms * 1_000_000 <= now - self.last_update_timestamp);
            self.last_update_timestamp = self.last_update_timestamp + ms_to_nano(time_diff_ms);
            assert(*self == advanced(*old(self), now));
            self.compound(token_id, time_diff_ms, margin_debt_discount_rate);
            let ghost c = *self;
            proof {
                let mid = choose|mid: Asset| {
                    &&& #[trigger] accrued(advanced(*old(self), now), mid, normal_interest(advanced(*old(self), now), time_diff_ms as nat), false, "normal"@, token_id@)
                    &&& accrued(mid, c, margin_interest(mid, time_diff_ms as nat, margin_debt_discount_rate), true, "margin"@, token_id@)
                };
                assert(c.config == old(self).config);
                assert(c.unit_acc_hp_interest == old(self).unit_acc_hp_interest);
            }
            let hp_rate = BigDecimal::from_low_u128(self.config.holding_position_fee_rate);
            let p = hp_rate.pow(time_diff_ms);
            let hp = p.round_mul_u128(UNIT) - UNIT;
            self.unit_acc_hp_interest = self.unit_acc_hp_interest + hp;
        }
    }

    /// Queues a fee event to be announced when the asset is saved.
    pub fn add_pending_fee_events(&mut self, fee_detail: FeeDetail)
        ensures
            final(self).pending_fee_events is Some,
            final(self).pending_fee_events.unwrap()@ == (match old(self).pending_fee_events {
                Some(v) => v@,
                None => Seq::<FeeDetail>::empty(),
            }).push(fee_detail),
            *final(self) == (Asset { pending_fee_events: final(self).pending_fee_events, ..*old(self) }),
    {
        match self.pending_fee_events.take() {
            Some(mut v) => {
                v.push(fee_detail);
                self.pending_fee_events = Some(v);
            },
            None => {
                let mut v = Vec::new();
                v.push(fee_detail);
                self.pending_fee_events = Some(v);
            },
        }
    }

    /// Takes the queued fee events out, to be announced.
    pub fn send_pending_fee_events(&mut self) -> (r: Vec<FeeDetail>)
        ensures
            r@ == (match old(self).pending_fee_events {
                Some(v) => v@,
                None => Seq::<FeeDetail>::empty(),
            }),
            final(self).pending_fee_events is None,
            *final(self) == (Asset { pending_fee_events: None, ..*old(self) }),
    {
        match self.pending_fee_events.take() {
            Some(v) => v,
            None => Vec::new(),
        }
    }
}

/// Accruing interest conserves value: what suppliers gain, what the reserve
/// gains and what the beneficiaries are owed add up to the interest, which is
/// exactly what the debt grows by; the number of supplied shares is unchanged
/// (each share is worth more), and the fee event records the split.
pub proof fn lemma_accrual_conserves(pre: Asset, post: Asset, interest: nat, margin: bool, fee_type: Seq<char>, token_id: Seq<char>)
    requires
        accrue_ok(pre, interest, margin),
        accrued(pre, post, interest, margin, fee_type, token_id),
    ensures
        (post.supplied.balance - pre.supplied.balance) + (post.reserved - pre.reserved)
            + fee_total(pre.config.beneficiaries.pairs(), to_reserve(pre, interest)) == interest,
        margin ==> post.margin_debt.balance - pre.margin_debt.balance == interest,
        !margin ==> post.borrowed.balance - pre.borrowed.balance == interest,
        post.supplied.shares == pre.supplied.shares,
        queued(post).last().reserved + queued(post).last().prot_fee + (post.supplied.balance - pre.supplied.balance) == interest,
{
    assert(to_reserve(pre, interest) <= interest) by {
        if pre.supplied.shares > 0 {
            assert(interest * (pre.config.reserve_ratio as nat) / 10000 <= interest) by (nonlinear_arith)
                requires pre.config.reserve_ratio <= 10000;
        }
    }
}

/// The margin-debt rate scales the part of the borrowing rate above one by
/// the discount ratio: with a ratio of zero it is one (no interest), at the
/// full ratio (10000) it is the borrowing rate itself, and it grows with the
/// ratio.
pub proof fn lemma_margin_debt_rate_scales(a: Asset, d1: u32, d2: u32)
    requires
        a.spec_rate() >= big(),
        d1 <= d2,
    ensures
        a.spec_margin_debt_rate(0) == big(),
        a.spec_margin_debt_rate(10000) == a.spec_rate(),
        a.spec_margin_debt_rate(d1) <= a.spec_margin_debt_rate(d2),
{
    let x = (a.spec_rate() - big()) as nat;
    assert(ratio_raw(0) == 0);
    assert(x * 0 == 0) by (nonlinear_arith);
    assert(mul_raw(x, ratio_raw(0)) == 0);
    assert(ratio_raw(10000) == big());
    assert(mul_raw(x, big()) == x) by (nonlinear_arith)
        requires mul_raw(x, big()) == (x * big() + half()) / big(), half() < big(), big() > 0;
    let r1 = ratio_raw(d1 as nat);
    let r2 = ratio_raw(d2 as nat);
    assert(x * r1 <= x * r2) by (nonlinear_arith) requires r1 <= r2;
    assert((x * r1 + half()) / big() <= (x * r2 + half()) / big()) by (nonlinear_arith)
        requires x * r1 <= x * r2, big() > 0;
}

/// One to any power, rounded as `pow` rounds, stays one.
pub proof fn lemma_pow_of_one(e: nat)
    ensures
        pow_raw(big(), e) == big(),
    decreases e,
{
    assert(mul_raw(big(), big()) == big());
    if e != 0 {
        lemma_pow_acc_of_one(e);
    }
}

/// `pow_acc` from one, of one, is one.
proof fn lemma_pow_acc_of_one(e: nat)
    ensures
        crate::big_decimal::pow_acc(big(), big(), e) == big(),
    decreases e,
{
    assert(mul_raw(big(), big()) == big());
    if e != 0 && e / 2 != 0 {
        lemma_pow_acc_of_one(e / 2);
    }
}

/// No interest is charged on an asset nobody supplies, nor, when the target
/// utilization is above one half, on one nobody borrows: the borrowing rate
/// is one and the yearly borrowing rate zero. (With a target utilization of
/// at most one half, the rounding of the division up to the target gives a
/// rate one raw unit or more above one even at zero utilization.)
pub proof fn lemma_borrow_apr_zero(a: Asset)
    requires
        a.spec_total_supplied() == 0 || (a.spec_total_borrowed() == 0 && a.config.target_utilization > 5000),
    ensures
        a.spec_rate() == big(),
        pow_raw(a.spec_rate(), MS_PER_YEAR as nat) - big() == 0,
{
    if a.spec_total_supplied() != 0 {
        let tu = ratio_raw(a.config.target_utilization as nat);
        assert(crate::asset_config::utilization_raw(0, a.spec_total_supplied()) == 0) by (nonlinear_arith)
            requires a.spec_total_supplied() > 0;
        assert(tu > half());
        let y = (a.config.target_utilization_rate - big()) as nat;
        assert(0 * y == 0) by (nonlinear_arith);
        assert(mul_raw(0, y) == 0);
        assert(crate::big_decimal::div_raw(0, tu) == 0) by (nonlinear_arith)
            requires tu > half(), crate::big_decimal::div_raw(0, tu) == (0 * big() + half()) / tu;
    }
    lemma_pow_acc_of_one(MS_PER_YEAR as nat);
}

/// Bringing an asset up to date grows its holding-position fee index by
/// exactly what one `UNIT` earns at the holding-position fee rate over the
/// whole milliseconds elapsed: `round(UNIT * rate^t) - UNIT`. So the index
/// strictly grows whenever that rounded amount exceeds `UNIT`, and open
/// margin positions come to owe a holding fee; with no whole millisecond
/// elapsed, nothing changes.
pub proof fn lemma_update_grows_hp_index(pre: Asset, post: Asset, now: Timestamp, margin_debt_discount_rate: u32,
    token_id: Seq<char>)
    requires
        update_ok(pre, now, margin_debt_discount_rate, token_id),
        updated(pre, post, now, margin_debt_discount_rate, token_id),
    ensures
        ({
            let t = ((now - pre.last_update_timestamp) / 1_000_000) as nat;
            let grown = round_mul_raw(pow_raw(pre.config.holding_position_fee_rate as nat, t), UNIT as nat);
            &&& t == 0 ==> post == pre
            &&& t > 0 ==> post.unit_acc_hp_interest == pre.unit_acc_hp_interest + grown - UNIT
            &&& t > 0 && grown > UNIT ==> post.unit_acc_hp_interest > pre.unit_acc_hp_interest
        }),
{
    let t = elapsed_ms(pre, now);
    if t > 0 {
        let c = choose|c: Asset| {
            &&& #[trigger] compounded(advanced(pre, now), c, t, margin_debt_discount_rate, token_id)
            &&& post == (Asset { unit_acc_hp_interest: (pre.unit_acc_hp_interest + hp_interest(pre, t)) as u128, ..c })
        };
    }
}

/// What suppliers earn in a year: the yearly interest of regular borrowing
/// (`borrowed * (rate^year - 1)`, rounded) and of margin debt
/// (`margin_debt * (margin_rate^year - 1)`, rounded), each less the reserve
/// ratio, over what is supplied. The margin debt's part counts as much as
/// the regular borrowing's.
pub proof fn lemma_supply_apr_counts_all_interest(a: Asset, margin_debt_discount_rate: u32)
    requires
        a.supplied.balance > 0,
    ensures
        ({
            let year = MS_PER_YEAR as nat;
            let keep = (10000 - a.config.reserve_ratio) as nat;
            let borrow_interest = round_mul_raw((pow_raw(a.spec_rate(), year) - big()) as nat, a.borrowed.balance as nat);
            let margin_rate = mul_raw((a.spec_rate() - big()) as nat, ratio_raw(margin_debt_discount_rate as nat)) + big();
            let margin_interest = round_mul_raw((pow_raw(margin_rate, year) - big()) as nat, a.margin_debt.balance as nat);
            supply_apr_raw(a, margin_debt_discount_rate)
                == (borrow_interest * keep / 10000 + margin_interest * keep / 10000) * big() / (a.supplied.balance as nat)
        }),
{
    let ba = borrow_apr_raw(a);
    let ma = margin_debt_apr_raw(a, margin_debt_discount_rate);
    let b = a.borrowed.balance as nat;
    let m = a.margin_debt.balance as nat;
    assert(ba * 0 == 0 && ma * 0 == 0 && 0 * b == 0 && 0 * m == 0) by (nonlinear_arith);
    assert(round_mul_raw(ba, 0) == 0 && round_mul_raw(ma, 0) == 0);
    assert(round_mul_raw(0, b) == 0 && round_mul_raw(0, m) == 0);
    let keep = (10000 - a.config.reserve_ratio) as nat;
    let sup = a.supplied.balance as nat;
    assert(0nat * keep / 10000 == 0) by (nonlinear_arith);
    assert((0nat + 0nat) * big() / sup == 0) by (nonlinear_arith) requires sup > 0;
}

/// With something supplied, no regular borrowing and a margin debt whose
/// yearly interest, less the reserve ratio, is worth at least one raw unit
/// over the supply, suppliers earn a positive yearly rate.
pub proof fn lemma_supply_apr_positive_from_margin_debt(a: Asset, margin_debt_discount_rate: u32)
    requires
        a.supplied.balance > 0,
        a.borrowed.balance == 0,
        ({
            let keep = (10000 - a.config.reserve_ratio) as nat;
            let margin_rate = mul_raw((a.spec_rate() - big()) as nat, ratio_raw(margin_debt_discount_rate as nat)) + big();
            let margin_interest = round_mul_raw((pow_raw(margin_rate, MS_PER_YEAR as nat) - big()) as nat,
                a.margin_debt.balance as nat);
            margin_interest * keep / 10000 * big() >= a.supplied.balance
        }),
    ensures
        supply_apr_raw(a, margin_debt_discount_rate) > 0,
{
    lemma_supply_apr_counts_all_interest(a, margin_debt_discount_rate);
    let keep = (10000 - a.config.reserve_ratio) as nat;
    let ba = borrow_apr_raw(a);
    assert(ba * 0 == 0) by (nonlinear_arith);
    assert(round_mul_raw(ba, 0) == 0);
    let x = supply_apr_raw(a, margin_debt_discount_rate);
    let margin_rate = mul_raw((a.spec_rate() - big()) as nat, ratio_raw(margin_debt_discount_rate as nat)) + big();
    let mi = round_mul_raw((pow_raw(margin_rate, MS_PER_YEAR as nat) - big()) as nat, a.margin_debt.balance as nat);
    let sm = mi * keep / 10000;
    let s = a.supplied.balance as nat;
    assert(0nat * keep / 10000 == 0) by (nonlinear_arith);
    assert(sm * big() / s >= 1) by (nonlinear_arith) requires sm * big() >= s, s > 0;
}

/// Bringing an asset up to date over `t > 0` whole milliseconds compounds
/// regular borrowing at the borrowing rate of the asset as it was:
/// the borrowed balance becomes `round(borrowed * rate^t)`; margin debt only
/// grows; no pool gains or loses shares; the configuration stays and the
/// update time moves forward by exactly `t` milliseconds.
pub proof fn lemma_update_compounds_borrowing(pre: Asset, post: Asset, now: Timestamp, margin_debt_discount_rate: u32,
    token_id: Seq<char>)
    requires
        update_ok(pre, now, margin_debt_discount_rate, token_id),
        updated(pre, post, now, margin_debt_discount_rate, token_id),
        now - pre.last_update_timestamp >= 1_000_000,
    ensures
        ({
            let t = ((now - pre.last_update_timestamp) / 1_000_000) as nat;
            let rate = pre.config.spec_get_rate(
                (pre.borrowed.balance + pre.margin_debt.balance + pre.margin_pending_debt) as nat,
                (pre.supplied.balance + pre.reserved + pre.prot_fee) as nat);
            &&& post.borrowed.balance == round_mul_raw(pow_raw(rate, t), pre.borrowed.balance as nat)
            &&& post.borrowed.shares == pre.borrowed.shares
            &&& post.supplied.shares == pre.supplied.shares
            &&& post.margin_debt.shares == pre.margin_debt.shares
            &&& post.margin_debt.balance >= pre.margin_debt.balance
            &&& post.config == pre.config
            &&& post.last_update_timestamp == pre.last_update_timestamp + t * 1_000_000
        }),
{
    let t = elapsed_ms(pre, now);
    assert(t > 0);
    let a = advanced(pre, now);
    let c = choose|c: Asset| {
        &&& #[trigger] compounded(a, c, t, margin_debt_discount_rate, token_id)
        &&& post == (Asset { unit_acc_hp_interest: (pre.unit_acc_hp_interest + hp_interest(pre, t)) as u128, ..c })
    };
    let mid = choose|mid: Asset| {
        &&& #[trigger] accrued(a, mid, normal_interest(a, t), false, "normal"@, token_id)
        &&& accrued(mid, c, margin_interest(mid, t, margin_debt_discount_rate), true, "margin"@, token_id)
    };
    assert(a.spec_rate() == pre.spec_rate());
    lemma_round_mul_ge(pow_raw(a.spec_rate(), t), a.borrowed.balance as nat);
}

} // verus!
