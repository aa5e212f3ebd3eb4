use burrowland::account_map::AccountMap;
use burrowland::asset::Asset;
use burrowland::asset_config::AssetConfig;
use burrowland::prices::{Price, Prices};
use burrowland::shadow::{lp_token_info_is_fresh, lp_token_underlying, parse_pool_id, parse_u64, TokenAmount, UnitShareTokens};

fn config(extra_decimals: u8) -> AssetConfig {
    AssetConfig {
        reserve_ratio: 2500,
        prot_ratio: 0,
        beneficiaries: AccountMap::new(),
        target_utilization: 8000,
        target_utilization_rate: 1000000000003593629036885046u128,
        max_utilization_rate: 1000000000039724853136740579u128,
        holding_position_fee_rate: 1000000000000000000000000000u128,
        volatility_ratio: 6000,
        extra_decimals,
        can_deposit: true,
        can_withdraw: true,
        can_use_as_collateral: true,
        can_borrow: true,
        net_tvl_multiplier: 10000,
        max_change_rate: None,
        supplied_limit: None,
        borrowed_limit: None,
        min_borrowed_amount: None,
    }
}

#[test]
fn pool_ids() {
    assert_eq!(parse_pool_id("shadow_ref_v1-0"), Some(0));
    assert_eq!(parse_pool_id("shadow_ref_v1-4179"), Some(4179));
    assert_eq!(parse_pool_id("shadow_ref_v1-12-extra"), Some(12));
    assert_eq!(parse_pool_id("shadow_ref_v1-x"), None);
    assert_eq!(parse_pool_id("shadow_ref_v1-"), None);
    assert_eq!(parse_pool_id("no_dash"), None);
}

#[test]
fn u64_texts() {
    assert_eq!(parse_u64("18446744073709551615"), Some(u64::MAX));
    assert_eq!(parse_u64("18446744073709551616"), None);
    assert_eq!(parse_u64("+7"), Some(7));
    assert_eq!(parse_u64("+"), None);
    assert_eq!(parse_u64("-7"), None);
    assert_eq!(parse_u64("007"), Some(7));
    assert_eq!(parse_u64(""), None);
}

#[test]
fn lp_info_freshness() {
    let info = UnitShareTokens { timestamp: 1_000, decimals: 24, tokens: vec![] };
    assert!(lp_token_info_is_fresh(&info, 60, 1_000 + 60 * 1_000_000_000));
    assert!(!lp_token_info_is_fresh(&info, 60, 1_001 + 60 * 1_000_000_000));
}

#[test]
fn what_lp_tokens_hold() {
    // One unit of 10^24 LP shares holds 2 NEAR (24 decimals) and 7 USDC (6 decimals, 12 extra).
    let e24 = 1_000_000_000_000_000_000_000_000u128;
    let unit = UnitShareTokens {
        timestamp: 0,
        decimals: 24,
        tokens: vec![
            TokenAmount { token_id: "wnear".to_string(), amount: 2 * e24 },
            TokenAmount { token_id: "usdc".to_string(), amount: 7_000_000 },
        ],
    };
    let mut assets = AccountMap::new();
    assets.insert(&"wnear".to_string(), Asset::new(0, config(0)));
    assets.insert(&"usdc".to_string(), Asset::new(0, config(12)));
    let mut prices = Prices::new();
    prices.prices.insert(&"wnear".to_string(), Price { multiplier: 35000, decimals: 28 });
    prices.prices.insert(&"usdc".to_string(), Price { multiplier: 10000, decimals: 10 });
    // Half a unit of LP tokens, held with no extra decimals.
    let (mins, value) = lp_token_underlying(&unit, e24 / 2, 0, &assets, &prices);
    assert_eq!(mins, vec![e24, 3_500_000]);
    // 1 NEAR at 3.5 plus 3.5 USDC at 1: 7.
    assert_eq!(value.raw_u128(), 7 * 1_000_000_000_000_000_000_000_000_000);
}
