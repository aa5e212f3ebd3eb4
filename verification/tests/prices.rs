use burrowland::account_map::AccountMap;
use burrowland::asset::Asset;
use burrowland::asset_config::AssetConfig;
use burrowland::prices::{internal_set_prices, Price, Prices};

fn config() -> AssetConfig {
    AssetConfig {
        reserve_ratio: 2500,
        prot_ratio: 0,
        beneficiaries: AccountMap::new(),
        target_utilization: 8000,
        target_utilization_rate: 1000000000003593629036885046u128,
        max_utilization_rate: 1000000000039724853136740579u128,
        holding_position_fee_rate: 1000000000000000000000000000u128,
        volatility_ratio: 6000,
        extra_decimals: 0,
        can_deposit: true,
        can_withdraw: true,
        can_use_as_collateral: true,
        can_borrow: true,
        net_tvl_multiplier: 10000,
        max_change_rate: None,
        supplied_limit: None,
        borrowed_limit: None,
        min_borrowed_amount: None,
    }
}

#[test]
fn last_prices_only_for_known_tokens() {
    let mut assets = AccountMap::new();
    assets.insert(&"near".to_string(), Asset::new(0, config()));
    let mut last = AccountMap::new();
    last.insert(&"usdc".to_string(), Price { multiplier: 9999, decimals: 10 });
    let mut prices = Prices::new();
    prices.prices.insert(&"near".to_string(), Price { multiplier: 35000, decimals: 28 });
    prices.prices.insert(&"usdc".to_string(), Price { multiplier: 10000, decimals: 10 });
    prices.prices.insert(&"dai".to_string(), Price { multiplier: 10001, decimals: 22 });
    internal_set_prices(&mut last, &assets, &prices);
    assert_eq!(last.get(&"near".to_string()), Some(Price { multiplier: 35000, decimals: 28 }));
    assert_eq!(last.get(&"usdc".to_string()), Some(Price { multiplier: 10000, decimals: 10 }));
    assert_eq!(last.get(&"dai".to_string()), None);
    assert_eq!(last.len(), 2);
}
