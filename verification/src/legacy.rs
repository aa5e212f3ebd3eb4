//! The layouts in which earlier versions of the contract stored asset
//! configs and assets, and how each is read into the current one.

use vstd::prelude::*;
use crate::account_map::AccountMap;
use crate::asset::Asset;
use crate::asset_config::AssetConfig;
use crate::big_decimal::LowU128;
use crate::pool::Pool;
use crate::position::RegularPosition;
use crate::utils::{Balance, Shares, Timestamp, TokenId, eth_token_moved, update_account_assets_eth_token_id};

verus! {

/// The NetTvl multiplier of an asset stored before it had one: 100%.
pub const DEFAULT_NET_TVL_MULTIPLIER: u32 = 10000;

/// The holding-position fee rate of an asset stored before it had one: a
/// rate of one, so no fee (raw `BigDecimal` value).
pub const DEFAULT_HOLDING_POSITION_FEE_RATE: LowU128 = 1_000_000_000_000_000_000_000_000_000u128;

/// Collateral of an account in the layouts that listed it.
pub struct CollateralAsset {
    pub token_id: TokenId,
    pub shares: Shares,
}

/// A debt of an account in the layouts that listed it.
pub struct BorrowedAsset {
    pub token_id: TokenId,
    pub shares: Shares,
}

/// The map that a list of tokens and shares collects into: a later entry for
/// a token replaces an earlier one.
pub open spec fn collected(pairs: Seq<(Seq<char>, Shares)>) -> Map<Seq<char>, Shares>
    decreases pairs.len(),
{
    if pairs.len() == 0 {
        Map::empty()
    } else {
        collected(pairs.drop_last()).insert(pairs.last().0, pairs.last().1)
    }
}

/// The tokens and shares of a list of collateral.
pub open spec fn collateral_pairs(list: Seq<CollateralAsset>) -> Seq<(Seq<char>, Shares)> {
    list.map_values(|c: CollateralAsset| (c.token_id@, c.shares))
}

/// The tokens and shares of a list of debts.
pub open spec fn borrowed_pairs(list: Seq<BorrowedAsset>) -> Seq<(Seq<char>, Shares)> {
    list.map_values(|b: BorrowedAsset| (b.token_id@, b.shares))
}

fn collect_collateral(list: &Vec<CollateralAsset>) -> (r: AccountMap<Shares>)
    ensures
        r.wf(),
        r@ == collected(collateral_pairs(list@)),
{
    let mut m: AccountMap<Shares> = AccountMap::new();
    let mut i: usize = 0;
    while i < list.len()
        invariant
            i <= list.len(),
            m.wf(),
            m@ == collected(collateral_pairs(list@.take(i as int))),
        decreases list.len() - i,
    {
        proof {
            assert(collateral_pairs(list@.take(i + 1)).drop_last() =~= collateral_pairs(list@.take(i as int)));
        }
        m.insert(&list[i].token_id, list[i].shares);
        i = i + 1;
    }
    proof {
        assert(list@.take(list.len() as int) =~= list@);
    }
    m
}

fn collect_borrowed(list: &Vec<BorrowedAsset>) -> (r: AccountMap<Shares>)
    ensures
        r.wf(),
        r@ == collected(borrowed_pairs(list@)),
{
    let mut m: AccountMap<Shares> = AccountMap::new();
    let mut i: usize = 0;
    while i < list.len()
        invariant
            i <= list.len(),
            m.wf(),
            m@ == collected(borrowed_pairs(list@.take(i as int))),
        decreases list.len() - i,
    {
        proof {
            assert(borrowed_pairs(list@.take(i + 1)).drop_last() =~= borrowed_pairs(list@.take(i as int)));
        }
        m.insert(&list[i].token_id, list[i].shares);
        i = i + 1;
    }
    proof {
        assert(list@.take(list.len() as int) =~= list@);
    }
    m
}

/// The regular position that an account stored with lists of collateral and
/// debts is read into: each list collected into a map, with the shares of the
/// old ETH token id moved to its current one (the contract runs on
/// `current_account_id`).
pub fn regular_position_from_lists(collateral: &Vec<CollateralAsset>, borrowed: &Vec<BorrowedAsset>, current_account_id: &str)
    -> (r: RegularPosition)
    ensures
        r.collateral.wf(),
        r.borrowed.wf(),
        r.collateral@ == eth_token_moved(collected(collateral_pairs(collateral@)), current_account_id@),
        r.borrowed@ == eth_token_moved(collected(borrowed_pairs(borrowed@)), current_account_id@),
{
    let mut c = collect_collateral(collateral);
    update_account_assets_eth_token_id(&mut c, current_account_id);
    let mut b = collect_borrowed(borrowed);
    update_account_assets_eth_token_id(&mut b, current_account_id);
    RegularPosition { collateral: c, borrowed: b }
}

/// An asset config in the first layout.
pub struct AssetConfigV0 {
    /// The ratio of interest that is reserved by the protocol (in basis points).
    pub reserve_ratio: u32,
    /// Target utilization ratio (in basis points).
    pub target_utilization: u32,
    /// The compounding rate at target utilization ratio (raw `BigDecimal` value).
    pub target_utilization_rate: LowU128,
    /// The compounding rate at 100% utilization (raw `BigDecimal` value).
    pub max_utilization_rate: LowU128,
    /// Volatility ratio (in basis points).
    pub volatility_ratio: u32,
    /// Extra decimals of the inner balance over the fungible token's decimals.
    pub extra_decimals: u8,
    /// Whether the deposits of this asset are enabled.
    pub can_deposit: bool,
    /// Whether the withdrawals of this asset are enabled.
    pub can_withdraw: bool,
    /// Whether this asset can be used as collateral.
    pub can_use_as_collateral: bool,
    /// Whether this asset can be borrowed.
    pub can_borrow: bool,
}

/// Whether `r` is the current config that `a` is read into: its fields kept,
/// each field it lacks at its default, and no beneficiaries.
pub open spec fn config_from_v0(a: AssetConfigV0, r: AssetConfig) -> bool {
    &&& r.beneficiaries.wf()
    &&& r.beneficiaries.view() == Map::<Seq<char>, u32>::empty()
    &&& r.reserve_ratio == a.reserve_ratio
    &&& r.prot_ratio == 0
    &&& r.target_utilization == a.target_utilization
    &&& r.target_utilization_rate == a.target_utilization_rate
    &&& r.max_utilization_rate == a.max_utilization_rate
    &&& r.holding_position_fee_rate == DEFAULT_HOLDING_POSITION_FEE_RATE
    &&& r.volatility_ratio == a.volatility_ratio
    &&& r.extra_decimals == a.extra_decimals
    &&& r.can_deposit == a.can_deposit
    &&& r.can_withdraw == a.can_withdraw
    &&& r.can_use_as_collateral == a.can_use_as_collateral
    &&& r.can_borrow == a.can_borrow
    &&& r.net_tvl_multiplier == DEFAULT_NET_TVL_MULTIPLIER
    &&& r.max_change_rate is None
    &&& r.supplied_limit is None
    &&& r.borrowed_limit is None
    &&& r.min_borrowed_amount is None
}

impl AssetConfigV0 {
    /// The current config that this one is read into.
    pub fn into_asset_config(self) -> (r: AssetConfig)
        ensures
            config_from_v0(self, r),
    {
        AssetConfig {
            reserve_ratio: self.reserve_ratio,
            prot_ratio: 0,
            beneficiaries: AccountMap::new(),
            target_utilization: self.target_utilization,
            target_utilization_rate: self.target_utilization_rate,
            max_utilization_rate: self.max_utilization_rate,
            holding_position_fee_rate: DEFAULT_HOLDING_POSITION_FEE_RATE,
            volatility_ratio: self.volatility_ratio,
            extra_decimals: self.extra_decimals,
            can_deposit: self.can_deposit,
            can_withdraw: self.can_withdraw,
            can_use_as_collateral: self.can_use_as_collateral,
            can_borrow: self.can_borrow,
            net_tvl_multiplier: DEFAULT_NET_TVL_MULTIPLIER,
            max_change_rate: None,
            supplied_limit: None,
            borrowed_limit: None,
            min_borrowed_amount: None,
        }
    }
}

/// An asset in the first layout of its config.
pub struct AssetV0 {
    /// Total supplied including collateral, but excluding reserved.
    pub supplied: Pool,
    /// Total borrowed.
    pub borrowed: Pool,
    /// The amount reserved for stability; it can be borrowed.
    pub reserved: Balance,
    /// When the asset was last updated (nanoseconds).
    pub last_update_timestamp: Timestamp,
    /// The asset config.
    pub config: AssetConfigV0,
}

impl AssetV0 {
    /// The current asset that this one is read into: its fields kept, its config
    /// read into the current one, and each field it lacks empty.
    pub fn into_asset(self) -> (r: Asset)
        ensures
            r.supplied == self.supplied,
            r.borrowed == self.borrowed,
            r.margin_debt == Pool::new_spec(),
            r.margin_pending_debt == 0,
            r.margin_position == 0,
            r.reserved == self.reserved,
            r.prot_fee == 0,
            r.unit_acc_hp_interest == 0,
            r.last_update_timestamp == self.last_update_timestamp,
            config_from_v0(self.config, r.config),
            r.beneficiary_fees.wf(),
            r.beneficiary_fees.view() == Map::<Seq<char>, u128>::empty(),
            r.lostfound_shares == 0,
            r.pending_fee_events is None,
    {
        Asset {
            supplied: self.supplied,
            borrowed: self.borrowed,
            margin_debt: Pool::new(),
            margin_pending_debt: 0,
            margin_position: 0,
            reserved: self.reserved,
            prot_fee: 0,
            beneficiary_fees: AccountMap::new(),
            unit_acc_hp_interest: 0,
            last_update_timestamp: self.last_update_timestamp,
            config: self.config.into_asset_config(),
            lostfound_shares: 0,
            pending_fee_events: None,
        }
    }
}

/// An asset config in the layout with a NetTvl multiplier.
pub struct AssetConfigV1 {
    /// The ratio of interest that is reserved by the protocol (in basis points).
    pub reserve_ratio: u32,
    /// Target utilization ratio (in basis points).
    pub target_utilization: u32,
    /// The compounding rate at target utilization ratio (raw `BigDecimal` value).
    pub target_utilization_rate: LowU128,
    /// The compounding rate at 100% utilization (raw `BigDecimal` value).
    pub max_utilization_rate: LowU128,
    /// Volatility ratio (in basis points).
    pub volatility_ratio: u32,
    /// Extra decimals of the inner balance over the fungible token's decimals.
    pub extra_decimals: u8,
    /// Whether the deposits of this asset are enabled.
    pub can_deposit: bool,
    /// Whether the withdrawals of this asset are enabled.
    pub can_withdraw: bool,
    /// Whether this asset can be used as collateral.
    pub can_use_as_collateral: bool,
    /// Whether this asset can be borrowed.
    pub can_borrow: bool,
    /// NetTvl asset multiplier (in basis points).
    pub net_tvl_multiplier: u32,
}

/// Whether `r` is the current config that `a` is read into: its fields kept,
/// each field it lacks at its default, and no beneficiaries.
pub open spec fn config_from_v1(a: AssetConfigV1, r: AssetConfig) -> bool {
    &&& r.beneficiaries.wf()
    &&& r.beneficiaries.view() == Map::<Seq<char>, u32>::empty()
    &&& r.reserve_ratio == a.reserve_ratio
    &&& r.prot_ratio == 0
    &&& r.target_utilization == a.target_utilization
    &&& r.target_utilization_rate == a.target_utilization_rate
    &&& r.max_utilization_rate == a.max_utilization_rate
    &&& r.holding_position_fee_rate == DEFAULT_HOLDING_POSITION_FEE_RATE
    &&& r.volatility_ratio == a.volatility_ratio
    &&& r.extra_decimals == a.extra_decimals
    &&& r.can_deposit == a.can_deposit
    &&& r.can_withdraw == a.can_withdraw
    &&& r.can_use_as_collateral == a.can_use_as_collateral
    &&& r.can_borrow == a.can_borrow
    &&& r.net_tvl_multiplier == a.net_tvl_multiplier
    &&& r.max_change_rate is None
    &&& r.supplied_limit is None
    &&& r.borrowed_limit is None
    &&& r.min_borrowed_amount is None
}

impl AssetConfigV1 {
    /// The current config that this one is read into.
    pub fn into_asset_config(self) -> (r: AssetConfig)
        ensures
            config_from_v1(self, r),
    {
        AssetConfig {
            reserve_ratio: self.reserve_ratio,
            prot_ratio: 0,
            beneficiaries: AccountMap::new(),
            target_utilization: self.target_utilization,
            target_utilization_rate: self.target_utilization_rate,
            max_utilization_rate: self.max_utilization_rate,
            holding_position_fee_rate: DEFAULT_HOLDING_POSITION_FEE_RATE,
            volatility_ratio: self.volatility_ratio,
            extra_decimals: self.extra_decimals,
            can_deposit: self.can_deposit,
            can_withdraw: self.can_withdraw,
            can_use_as_collateral: self.can_use_as_collateral,
            can_borrow: self.can_borrow,
            net_tvl_multiplier: self.net_tvl_multiplier,
            max_change_rate: None,
            supplied_limit: None,
            borrowed_limit: None,
            min_borrowed_amount: None,
        }
    }
}

/// An asset in the layout with a NetTvl multiplier of its config.
pub struct AssetV1 {
    /// Total supplied including collateral, but excluding reserved.
    pub supplied: Pool,
    /// Total borrowed.
    pub borrowed: Pool,
    /// The amount reserved for stability; it can be borrowed.
    pub reserved: Balance,
    /// When the asset was last updated (nanoseconds).
    pub last_update_timestamp: Timestamp,
    /// The asset config.
    pub config: AssetConfigV1,
}

impl AssetV1 {
    /// The current asset that this one is read into: its fields kept, its config
    /// read into the current one, and each field it lacks empty.
    pub fn into_asset(self) -> (r: Asset)
        ensures
            r.supplied == self.supplied,
            r.borrowed == self.borrowed,
            r.margin_debt == Pool::new_spec(),
            r.margin_pending_debt == 0,
            r.margin_position == 0,
            r.reserved == self.reserved,
            r.prot_fee == 0,
            r.unit_acc_hp_interest == 0,
            r.last_update_timestamp == self.last_update_timestamp,
            config_from_v1(self.config, r.config),
            r.beneficiary_fees.wf(),
            r.beneficiary_fees.view() == Map::<Seq<char>, u128>::empty(),
            r.lostfound_shares == 0,
            r.pending_fee_events is None,
    {
        Asset {
            supplied: self.supplied,
            borrowed: self.borrowed,
            margin_debt: Pool::new(),
            margin_pending_debt: 0,
            margin_position: 0,
            reserved: self.reserved,
            prot_fee: 0,
            beneficiary_fees: AccountMap::new(),
            unit_acc_hp_interest: 0,
            last_update_timestamp: self.last_update_timestamp,
            config: self.config.into_asset_config(),
            lostfound_shares: 0,
            pending_fee_events: None,
        }
    }
}

/// An asset config in the layout with a protocol ratio.
pub struct AssetConfigV2 {
    /// The ratio of interest that is reserved by the protocol (in basis points).
    pub reserve_ratio: u32,
    /// The ratio of reserved interest that belongs to the protocol (in basis points).
    pub prot_ratio: u32,
    /// Target utilization ratio (in basis points).
    pub target_utilization: u32,
    /// The compounding rate at target utilization ratio (raw `BigDecimal` value).
    pub target_utilization_rate: LowU128,
    /// The compounding rate at 100% utilization (raw `BigDecimal` value).
    pub max_utilization_rate: LowU128,
    /// Volatility ratio (in basis points).
    pub volatility_ratio: u32,
    /// Extra decimals of the inner balance over the fungible token's decimals.
    pub extra_decimals: u8,
    /// Whether the deposits of this asset are enabled.
    pub can_deposit: bool,
    /// Whether the withdrawals of this asset are enabled.
    pub can_withdraw: bool,
    /// Whether this asset can be used as collateral.
    pub can_use_as_collateral: bool,
    /// Whether this asset can be borrowed.
    pub can_borrow: bool,
    /// NetTvl asset multiplier (in basis points).
    pub net_tvl_multiplier: u32,
}

/// Whether `r` is the current config that `a` is read into: its fields kept,
/// each field it lacks at its default, and no beneficiaries.
pub open spec fn config_from_v2(a: AssetConfigV2, r: AssetConfig) -> bool {
    &&& r.beneficiaries.wf()
    &&& r.beneficiaries.view() == Map::<Seq<char>, u32>::empty()
    &&& r.reserve_ratio == a.reserve_ratio
    &&& r.prot_ratio == a.prot_ratio
    &&& r.target_utilization == a.target_utilization
    &&& r.target_utilization_rate == a.target_utilization_rate
    &&& r.max_utilization_rate == a.max_utilization_rate
    &&& r.holding_position_fee_rate == DEFAULT_HOLDING_POSITION_FEE_RATE
    &&& r.volatility_ratio == a.volatility_ratio
    &&& r.extra_decimals == a.extra_decimals
    &&& r.can_deposit == a.can_deposit
    &&& r.can_withdraw == a.can_withdraw
    &&& r.can_use_as_collateral == a.can_use_as_collateral
    &&& r.can_borrow == a.can_borrow
    &&& r.net_tvl_multiplier == a.net_tvl_multiplier
    &&& r.max_change_rate is None
    &&& r.supplied_limit is None
    &&& r.borrowed_limit is None
    &&& r.min_borrowed_amount is None
}

impl AssetConfigV2 {
    /// The current config that this one is read into.
    pub fn into_asset_config(self) -> (r: AssetConfig)
        ensures
            config_from_v2(self, r),
    {
        AssetConfig {
            reserve_ratio: self.reserve_ratio,
            prot_ratio: self.prot_ratio,
            beneficiaries: AccountMap::new(),
            target_utilization: self.target_utilization,
            target_utilization_rate: self.target_utilization_rate,
            max_utilization_rate: self.max_utilization_rate,
            holding_position_fee_rate: DEFAULT_HOLDING_POSITION_FEE_RATE,
            volatility_ratio: self.volatility_ratio,
            extra_decimals: self.extra_decimals,
            can_deposit: self.can_deposit,
            can_withdraw: self.can_withdraw,
            can_use_as_collateral: self.can_use_as_collateral,
            can_borrow: self.can_borrow,
            net_tvl_multiplier: self.net_tvl_multiplier,
            max_change_rate: None,
            supplied_limit: None,
            borrowed_limit: None,
            min_borrowed_amount: None,
        }
    }
}

/// An asset in the layout with a protocol ratio of its config.
pub struct AssetV2 {
    /// Total supplied including collateral, but excluding reserved.
    pub supplied: Pool,
    /// Total borrowed.
    pub borrowed: Pool,
    /// The amount reserved for stability; it can be borrowed.
    pub reserved: Balance,
    /// The amount that belongs to the protocol; it can be borrowed.
    pub prot_fee: Balance,
    /// When the asset was last updated (nanoseconds).
    pub last_update_timestamp: Timestamp,
    /// The asset config.
    pub config: AssetConfigV2,
}

impl AssetV2 {
    /// The current asset that this one is read into: its fields kept, its config
    /// read into the current one, and each field it lacks empty.
    pub fn into_asset(self) -> (r: Asset)
        ensures
            r.supplied == self.supplied,
            r.borrowed == self.borrowed,
            r.margin_debt == Pool::new_spec(),
            r.margin_pending_debt == 0,
            r.margin_position == 0,
            r.reserved == self.reserved,
            r.prot_fee == self.prot_fee,
            r.unit_acc_hp_interest == 0,
            r.last_update_timestamp == self.last_update_timestamp,
            config_from_v2(self.config, r.config),
            r.beneficiary_fees.wf(),
            r.beneficiary_fees.view() == Map::<Seq<char>, u128>::empty(),
            r.lostfound_shares == 0,
            r.pending_fee_events is None,
    {
        Asset {
            supplied: self.supplied,
            borrowed: self.borrowed,
            margin_debt: Pool::new(),
            margin_pending_debt: 0,
            margin_position: 0,
            reserved: self.reserved,
            prot_fee: self.prot_fee,
            beneficiary_fees: AccountMap::new(),
            unit_acc_hp_interest: 0,
            last_update_timestamp: self.last_update_timestamp,
            config: self.config.into_asset_config(),
            lostfound_shares: 0,
            pending_fee_events: None,
        }
    }
}

/// An asset config in the layout with price-change and supply/borrow limits.
pub struct AssetConfigV3 {
    /// The ratio of interest that is reserved by the protocol (in basis points).
    pub reserve_ratio: u32,
    /// The ratio of reserved interest that belongs to the protocol (in basis points).
    pub prot_ratio: u32,
    /// Target utilization ratio (in basis points).
    pub target_utilization: u32,
    /// The compounding rate at target utilization ratio (raw `BigDecimal` value).
    pub target_utilization_rate: LowU128,
    /// The compounding rate at 100% utilization (raw `BigDecimal` value).
    pub max_utilization_rate: LowU128,
    /// Volatility ratio (in basis points).
    pub volatility_ratio: u32,
    /// Extra decimals of the inner balance over the fungible token's decimals.
    pub extra_decimals: u8,
    /// Whether the deposits of this asset are enabled.
    pub can_deposit: bool,
    /// Whether the withdrawals of this asset are enabled.
    pub can_withdraw: bool,
    /// Whether this asset can be used as collateral.
    pub can_use_as_collateral: bool,
    /// Whether this asset can be borrowed.
    pub can_borrow: bool,
    /// NetTvl asset multiplier (in basis points).
    pub net_tvl_multiplier: u32,
    /// The largest change between two consecutive prices (in basis points).
    pub max_change_rate: Option<u32>,
    /// Allowed supplied upper limit of the asset.
    pub supplied_limit: Option<u128>,
    /// Allowed borrowed upper limit of the asset.
    pub borrowed_limit: Option<u128>,
}

/// Whether `r` is the current config that `a` is read into: its fields kept,
/// each field it lacks at its default, and no beneficiaries.
pub open spec fn config_from_v3(a: AssetConfigV3, r: AssetConfig) -> bool {
    &&& r.beneficiaries.wf()
    &&& r.beneficiaries.view() == Map::<Seq<char>, u32>::empty()
    &&& r.reserve_ratio == a.reserve_ratio
    &&& r.prot_ratio == a.prot_ratio
    &&& r.target_utilization == a.target_utilization
    &&& r.target_utilization_rate == a.target_utilization_rate
    &&& r.max_utilization_rate == a.max_utilization_rate
    &&& r.holding_position_fee_rate == DEFAULT_HOLDING_POSITION_FEE_RATE
    &&& r.volatility_ratio == a.volatility_ratio
    &&& r.extra_decimals == a.extra_decimals
    &&& r.can_deposit == a.can_deposit
    &&& r.can_withdraw == a.can_withdraw
    &&& r.can_use_as_collateral == a.can_use_as_collateral
    &&& r.can_borrow == a.can_borrow
    &&& r.net_tvl_multiplier == a.net_tvl_multiplier
    &&& r.max_change_rate == a.max_change_rate
    &&& r.supplied_limit == a.supplied_limit
    &&& r.borrowed_limit == a.borrowed_limit
    &&& r.min_borrowed_amount is None
}

impl AssetConfigV3 {
    /// The current config that this one is read into.
    pub fn into_asset_config(self) -> (r: AssetConfig)
        ensures
            config_from_v3(self, r),
    {
        AssetConfig {
            reserve_ratio: self.reserve_ratio,
            prot_ratio: self.prot_ratio,
            beneficiaries: AccountMap::new(),
            target_utilization: self.target_utilization,
            target_utilization_rate: self.target_utilization_rate,
            max_utilization_rate: self.max_utilization_rate,
            holding_position_fee_rate: DEFAULT_HOLDING_POSITION_FEE_RATE,
            volatility_ratio: self.volatility_ratio,
            extra_decimals: self.extra_decimals,
            can_deposit: self.can_deposit,
            can_withdraw: self.can_withdraw,
            can_use_as_collateral: self.can_use_as_collateral,
            can_borrow: self.can_borrow,
            net_tvl_multiplier: self.net_tvl_multiplier,
            max_change_rate: self.max_change_rate,
            supplied_limit: self.supplied_limit,
            borrowed_limit: self.borrowed_limit,
            min_borrowed_amount: None,
        }
    }
}

/// An asset in the layout with price-change and supply/borrow limits of its config.
pub struct AssetV3 {
    /// Total supplied including collateral, but excluding reserved.
    pub supplied: Pool,
    /// Total borrowed.
    pub borrowed: Pool,
    /// The amount reserved for stability; it can be borrowed.
    pub reserved: Balance,
    /// The amount that belongs to the protocol; it can be borrowed.
    pub prot_fee: Balance,
    /// When the asset was last updated (nanoseconds).
    pub last_update_timestamp: Timestamp,
    /// The asset config.
    pub config: AssetConfigV3,
}

impl AssetV3 {
    /// The current asset that this one is read into: its fields kept, its config
    /// read into the current one, and each field it lacks empty.
    pub fn into_asset(self) -> (r: Asset)
        ensures
            r.supplied == self.supplied,
            r.borrowed == self.borrowed,
            r.margin_debt == Pool::new_spec(),
            r.margin_pending_debt == 0,
            r.margin_position == 0,
            r.reserved == self.reserved,
            r.prot_fee == self.prot_fee,
            r.unit_acc_hp_interest == 0,
            r.last_update_timestamp == self.last_update_timestamp,
            config_from_v3(self.config, r.config),
            r.beneficiary_fees.wf(),
            r.beneficiary_fees.view() == Map::<Seq<char>, u128>::empty(),
            r.lostfound_shares == 0,
            r.pending_fee_events is None,
    {
        Asset {
            supplied: self.supplied,
            borrowed: self.borrowed,
            margin_debt: Pool::new(),
            margin_pending_debt: 0,
            margin_position: 0,
            reserved: self.reserved,
            prot_fee: self.prot_fee,
            beneficiary_fees: AccountMap::new(),
            unit_acc_hp_interest: 0,
            last_update_timestamp: self.last_update_timestamp,
            config: self.config.into_asset_config(),
            lostfound_shares: 0,
            pending_fee_events: None,
        }
    }
}

/// An asset config in the layout with a holding-position fee rate.
pub struct AssetConfigV4 {
    /// The ratio of interest that is reserved by the protocol (in basis points).
    pub reserve_ratio: u32,
    /// The ratio of reserved interest that belongs to the protocol (in basis points).
    pub prot_ratio: u32,
    /// Target utilization ratio (in basis points).
    pub target_utilization: u32,
    /// The compounding rate at target utilization ratio (raw `BigDecimal` value).
    pub target_utilization_rate: LowU128,
    /// The compounding rate at 100% utilization (raw `BigDecimal` value).
    pub max_utilization_rate: LowU128,
    /// The compounding rate when holding a margin position (raw `BigDecimal` value).
    pub holding_position_fee_rate: LowU128,
    /// Volatility ratio (in basis points).
    pub volatility_ratio: u32,
    /// Extra decimals of the inner balance over the fungible token's decimals.
    pub extra_decimals: u8,
    /// Whether the deposits of this asset are enabled.
    pub can_deposit: bool,
    /// Whether the withdrawals of this asset are enabled.
    pub can_withdraw: bool,
    /// Whether this asset can be used as collateral.
    pub can_use_as_collateral: bool,
    /// Whether this asset can be borrowed.
    pub can_borrow: bool,
    /// NetTvl asset multiplier (in basis points).
    pub net_tvl_multiplier: u32,
    /// The largest change between two consecutive prices (in basis points).
    pub max_change_rate: Option<u32>,
    /// Allowed supplied upper limit of the asset.
    pub supplied_limit: Option<u128>,
    /// Allowed borrowed upper limit of the asset.
    pub borrowed_limit: Option<u128>,
}

/// Whether `r` is the current config that `a` is read into: its fields kept,
/// each field it lacks at its default, and no beneficiaries.
pub open spec fn config_from_v4(a: AssetConfigV4, r: AssetConfig) -> bool {
    &&& r.beneficiaries.wf()
    &&& r.beneficiaries.view() == Map::<Seq<char>, u32>::empty()
    &&& r.reserve_ratio == a.reserve_ratio
    &&& r.prot_ratio == a.prot_ratio
    &&& r.target_utilization == a.target_utilization
    &&& r.target_utilization_rate == a.target_utilization_rate
    &&& r.max_utilization_rate == a.max_utilization_rate
    &&& r.holding_position_fee_rate == a.holding_position_fee_rate
    &&& r.volatility_ratio == a.volatility_ratio
    &&& r.extra_decimals == a.extra_decimals
    &&& r.can_deposit == a.can_deposit
    &&& r.can_withdraw == a.can_withdraw
    &&& r.can_use_as_collateral == a.can_use_as_collateral
    &&& r.can_borrow == a.can_borrow
    &&& r.net_tvl_multiplier == a.net_tvl_multiplier
    &&& r.max_change_rate == a.max_change_rate
    &&& r.supplied_limit == a.supplied_limit
    &&& r.borrowed_limit == a.borrowed_limit
    &&& r.min_borrowed_amount is None
}

impl AssetConfigV4 {
    /// The current config that this one is read into.
    pub fn into_asset_config(self) -> (r: AssetConfig)
        ensures
            config_from_v4(self, r),
    {
        AssetConfig {
            reserve_ratio: self.reserve_ratio,
            prot_ratio: self.prot_ratio,
            beneficiaries: AccountMap::new(),
            target_utilization: self.target_utilization,
            target_utilization_rate: self.target_utilization_rate,
            max_utilization_rate: self.max_utilization_rate,
            holding_position_fee_rate: self.holding_position_fee_rate,
            volatility_ratio: self.volatility_ratio,
            extra_decimals: self.extra_decimals,
            can_deposit: self.can_deposit,
            can_withdraw: self.can_withdraw,
            can_use_as_collateral: self.can_use_as_collateral,
            can_borrow: self.can_borrow,
            net_tvl_multiplier: self.net_tvl_multiplier,
            max_change_rate: self.max_change_rate,
            supplied_limit: self.supplied_limit,
            borrowed_limit: self.borrowed_limit,
            min_borrowed_amount: None,
        }
    }
}

/// An asset in the layout with a holding-position fee rate of its config.
pub struct AssetV4 {
    /// Total supplied including collateral, but excluding reserved.
    pub supplied: Pool,
    /// Total borrowed.
    pub borrowed: Pool,
    /// Total margin debt.
    pub margin_debt: Pool,
    /// Borrowed by margin positions that are still being traded.
    pub margin_pending_debt: Balance,
    /// Total held in margin positions.
    pub margin_position: Balance,
    /// The amount reserved for stability; it can be borrowed.
    pub reserved: Balance,
    /// The amount that belongs to the protocol; it can be borrowed.
    pub prot_fee: Balance,
    /// The accumulated holding-position interest of one `UNIT`.
    pub unit_acc_hp_interest: Balance,
    /// When the asset was last updated (nanoseconds).
    pub last_update_timestamp: Timestamp,
    /// The asset config.
    pub config: AssetConfigV4,
}

impl AssetV4 {
    /// The current asset that this one is read into: its fields kept, its config
    /// read into the current one, and each field it lacks empty.
    pub fn into_asset(self) -> (r: Asset)
        ensures
            r.supplied == self.supplied,
            r.borrowed == self.borrowed,
            r.margin_debt == self.margin_debt,
            r.margin_pending_debt == self.margin_pending_debt,
            r.margin_position == self.margin_position,
            r.reserved == self.reserved,
            r.prot_fee == self.prot_fee,
            r.unit_acc_hp_interest == self.unit_acc_hp_interest,
            r.last_update_timestamp == self.last_update_timestamp,
            config_from_v4(self.config, r.config),
            r.beneficiary_fees.wf(),
            r.beneficiary_fees.view() == Map::<Seq<char>, u128>::empty(),
            r.lostfound_shares == 0,
            r.pending_fee_events is None,
    {
        Asset {
            supplied: self.supplied,
            borrowed: self.borrowed,
            margin_debt: self.margin_debt,
            margin_pending_debt: self.margin_pending_debt,
            margin_position: self.margin_position,
            reserved: self.reserved,
            prot_fee: self.prot_fee,
            beneficiary_fees: AccountMap::new(),
            unit_acc_hp_interest: self.unit_acc_hp_interest,
            last_update_timestamp: self.last_update_timestamp,
            config: self.config.into_asset_config(),
            lostfound_shares: 0,
            pending_fee_events: None,
        }
    }
}

} // verus!
