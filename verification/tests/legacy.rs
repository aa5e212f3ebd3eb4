use burrowland::legacy::{
    regular_position_from_lists, AssetConfigV0, AssetConfigV4, AssetV0, AssetV4, BorrowedAsset, CollateralAsset,
    DEFAULT_HOLDING_POSITION_FEE_RATE, DEFAULT_NET_TVL_MULTIPLIER,
};
use burrowland::pool::Pool;

fn config_v0() -> AssetConfigV0 {
    AssetConfigV0 {
        reserve_ratio: 2500,
        target_utilization: 8000,
        target_utilization_rate: 1000000000003593629036885046u128,
        max_utilization_rate: 1000000000039724853136740579u128,
        volatility_ratio: 6000,
        extra_decimals: 12,
        can_deposit: true,
        can_withdraw: true,
        can_use_as_collateral: false,
        can_borrow: true,
    }
}

#[test]
fn first_layout_config_gets_defaults() {
    let c = config_v0().into_asset_config();
    assert_eq!((c.reserve_ratio, c.prot_ratio, c.target_utilization), (2500, 0, 8000));
    assert_eq!(c.holding_position_fee_rate, DEFAULT_HOLDING_POSITION_FEE_RATE);
    assert_eq!(c.holding_position_fee_rate, 1_000_000_000_000_000_000_000_000_000);
    assert_eq!(c.net_tvl_multiplier, DEFAULT_NET_TVL_MULTIPLIER);
    assert_eq!(c.net_tvl_multiplier, 10000);
    assert!(!c.can_use_as_collateral && c.can_borrow);
    assert_eq!((c.max_change_rate, c.supplied_limit, c.borrowed_limit, c.min_borrowed_amount), (None, None, None, None));
    assert!(c.beneficiaries.is_empty());
}

#[test]
fn first_layout_asset_keeps_its_pools() {
    let a = AssetV0 {
        supplied: Pool { shares: 10, balance: 11 },
        borrowed: Pool { shares: 3, balance: 4 },
        reserved: 5,
        last_update_timestamp: 77,
        config: config_v0(),
    }
    .into_asset();
    assert_eq!((a.supplied.shares, a.supplied.balance, a.borrowed.shares, a.borrowed.balance), (10, 11, 3, 4));
    assert_eq!((a.reserved, a.last_update_timestamp, a.prot_fee, a.margin_position), (5, 77, 0, 0));
    assert_eq!((a.margin_debt.shares, a.margin_debt.balance, a.lostfound_shares), (0, 0, 0));
    assert!(a.pending_fee_events.is_none());
    assert_eq!(a.config.extra_decimals, 12);
}

#[test]
fn latest_layout_keeps_limits_and_rates() {
    let a = AssetV4 {
        supplied: Pool { shares: 1, balance: 1 },
        borrowed: Pool { shares: 0, balance: 0 },
        margin_debt: Pool { shares: 2, balance: 3 },
        margin_pending_debt: 4,
        margin_position: 5,
        reserved: 6,
        prot_fee: 7,
        unit_acc_hp_interest: 8,
        last_update_timestamp: 9,
        config: AssetConfigV4 {
            reserve_ratio: 1,
            prot_ratio: 2,
            target_utilization: 3,
            target_utilization_rate: 4,
            max_utilization_rate: 5,
            holding_position_fee_rate: 6,
            volatility_ratio: 7,
            extra_decimals: 8,
            can_deposit: false,
            can_withdraw: true,
            can_use_as_collateral: true,
            can_borrow: false,
            net_tvl_multiplier: 9,
            max_change_rate: Some(10),
            supplied_limit: Some(11),
            borrowed_limit: Some(12),
        },
    }
    .into_asset();
    assert_eq!((a.margin_debt.balance, a.margin_pending_debt, a.margin_position, a.prot_fee, a.unit_acc_hp_interest), (3, 4, 5, 7, 8));
    let c = a.config;
    assert_eq!((c.prot_ratio, c.holding_position_fee_rate, c.net_tvl_multiplier), (2, 6, 9));
    assert_eq!((c.max_change_rate, c.supplied_limit, c.borrowed_limit, c.min_borrowed_amount), (Some(10), Some(11), Some(12), None));
}

#[test]
fn listed_collateral_and_debts_become_the_regular_position() {
    let collateral = vec![
        CollateralAsset { token_id: "usdt".to_string(), shares: 5 },
        CollateralAsset { token_id: "aurora".to_string(), shares: 9 },
        CollateralAsset { token_id: "usdt".to_string(), shares: 6 },
    ];
    let borrowed = vec![BorrowedAsset { token_id: "wnear".to_string(), shares: 2 }];
    let p = regular_position_from_lists(&collateral, &borrowed, "contract.near");
    assert_eq!(p.collateral.get(&"usdt".to_string()), Some(6));
    assert_eq!(p.collateral.get(&"aurora".to_string()), None);
    assert_eq!(p.collateral.get(&"eth.bridge.near".to_string()), Some(9));
    assert_eq!(p.borrowed.get(&"wnear".to_string()), Some(2));
    let p = regular_position_from_lists(&collateral, &borrowed, "contract.testnet");
    assert_eq!(p.collateral.get(&"eth.sepolia.testnet".to_string()), Some(9));
}
