use burrowland::account_map::AccountMap;
use burrowland::utils::{
    ends_with, get_eth_new_account_id, get_eth_old_account_id, ms_to_nano, nano_to_ms, ratio, sec_to_nano,
    starts_with, u128_ratio, update_account_assets_eth_token_id,
};

#[test]
fn ratios() {
    assert_eq!(ratio(12345, 10000), 12345);
    assert_eq!(ratio(12345, 0), 0);
    assert_eq!(ratio(12345, 2500), 3086);
    assert_eq!(u128_ratio(u128::MAX, u128::MAX, u128::MAX), u128::MAX);
    assert_eq!(u128_ratio(10, 3, 4), 7);
}

#[test]
fn time_conversions() {
    assert_eq!(nano_to_ms(1_999_999), 1);
    assert_eq!(ms_to_nano(3), 3_000_000);
    assert_eq!(sec_to_nano(u32::MAX), u32::MAX as u64 * 1_000_000_000);
}

#[test]
fn prefixes_and_suffixes() {
    assert!(starts_with("shadow_ref_v1-7", "shadow_ref_v1-"));
    assert!(!starts_with("shadow", "shadow_ref_v1-"));
    assert!(ends_with("burrow.near", ".near"));
    assert!(!ends_with("burrow.testnet", ".near"));
    assert!(!ends_with("near", ".near"));
}

#[test]
fn eth_token_ids() {
    assert_eq!(get_eth_old_account_id(), "aurora");
    assert_eq!(get_eth_new_account_id("contract.main.burrow.near"), "eth.bridge.near");
    assert_eq!(get_eth_new_account_id("burrow.testnet"), "eth.sepolia.testnet");
}

#[test]
fn eth_shares_move_to_the_new_id() {
    let mut assets: AccountMap<u128> = AccountMap::new();
    assets.insert(&"aurora".to_string(), 42);
    assets.insert(&"wrap.near".to_string(), 7);
    update_account_assets_eth_token_id(&mut assets, "burrow.near");
    assert_eq!(assets.get(&"aurora".to_string()), None);
    assert_eq!(assets.get(&"eth.bridge.near".to_string()), Some(42));
    assert_eq!(assets.get(&"wrap.near".to_string()), Some(7));
    assert_eq!(assets.len(), 2);

    let mut none: AccountMap<u128> = AccountMap::new();
    none.insert(&"wrap.near".to_string(), 7);
    update_account_assets_eth_token_id(&mut none, "burrow.testnet");
    assert_eq!(none.len(), 1);
    assert_eq!(none.get(&"eth.sepolia.testnet".to_string()), None);
}
