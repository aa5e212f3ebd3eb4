use burrowland::account_map::AccountMap;
use burrowland::prices::Price;
use burrowland::pyth::{
    prepare_promise_tokens, pyth_price_is_fresh, pyth_price_to_price_oracle_price, staking_token_price_in_range, token_involved_promise_flags,
    token_price_from_pyth, PriceIdentifier, PriceIdentifierError, PythPrice, TokenPythInfo,
};

fn info(decimals: u8, fraction_digits: u8, id: u8, extra_call: Option<&str>) -> TokenPythInfo {
    TokenPythInfo {
        decimals,
        fraction_digits,
        price_identifier: PriceIdentifier([id; 32]),
        extra_call: extra_call.map(|s| s.to_string()),
        default_price: None,
    }
}

fn pyth(price: i64, expo: i32) -> PythPrice {
    PythPrice { price, conf: 0, expo, publish_time: 1_700_000_000 }
}

#[test]
fn negative_exponent_keeps_fraction_digits() {
    // 1.23456789 with 4 digits kept: 12345 / 10^(18 + 4) per unit.
    let p = pyth_price_to_price_oracle_price(&info(18, 4, 1, None), &pyth(123456789, -8));
    assert_eq!(p, Price { multiplier: 12345, decimals: 22 });
}

#[test]
fn positive_and_zero_exponents_are_exact() {
    let p = pyth_price_to_price_oracle_price(&info(6, 2, 1, None), &pyth(7, 3));
    assert_eq!(p, Price { multiplier: 700000, decimals: 8 });
    let p = pyth_price_to_price_oracle_price(&info(6, 0, 1, None), &pyth(42, 0));
    assert_eq!(p, Price { multiplier: 42, decimals: 6 });
}

#[test]
fn tiny_price_rounds_down() {
    // 5 * 10^-30 keeps nothing at 4 digits.
    let p = pyth_price_to_price_oracle_price(&info(24, 4, 1, None), &pyth(5, -30));
    assert_eq!(p, Price { multiplier: 0, decimals: 28 });
}

#[test]
fn staked_token_price_is_scaled_by_its_rate() {
    let one_near = 1_000_000_000_000_000_000_000_000u128;
    let i = info(24, 4, 1, Some("ft_price"));
    let p = token_price_from_pyth(&i, &pyth(250000000, -8), Some(one_near + one_near / 5));
    // 2.5 * 10^4 = 25000, scaled by 1.2.
    assert_eq!(p, Price { multiplier: 30000, decimals: 28 });
    let p = token_price_from_pyth(&i, &pyth(250000000, -8), None);
    assert_eq!(p, Price { multiplier: 25000, decimals: 28 });
}

#[test]
fn freshness() {
    let now_ns = 1_700_000_060u64 * 1_000_000_000;
    assert!(pyth_price_is_fresh(1_700_000_000, 60, now_ns));
    assert!(!pyth_price_is_fresh(1_700_000_000, 59, now_ns));
    assert!(!pyth_price_is_fresh(0, 60, 0));
    assert!(!pyth_price_is_fresh(-5, 60, 0));
}

#[test]
fn staking_price_range() {
    assert!(staking_token_price_in_range(None, Some(100), 1));
    assert!(staking_token_price_in_range(Some(100), None, 1));
    // 1% allowed over 1000: up to 1010.
    assert!(staking_token_price_in_range(Some(100), Some(1000), 1000));
    assert!(staking_token_price_in_range(Some(100), Some(1000), 1010));
    assert!(!staking_token_price_in_range(Some(100), Some(1000), 1011));
    assert!(!staking_token_price_in_range(Some(100), Some(1000), 999));
}

#[test]
fn identifier_hex_round_trip() {
    let mut bytes = [0u8; 32];
    for (i, b) in bytes.iter_mut().enumerate() {
        *b = (i as u8) * 7 + 3;
    }
    let id = PriceIdentifier(bytes);
    let text = id.to_string();
    assert_eq!(text.len(), 64);
    assert!(text.starts_with("030a11181f"));
    let back = PriceIdentifier::from_hex(&text).unwrap();
    assert!(back == id);
    let upper = PriceIdentifier::from_hex(&text.to_uppercase()).unwrap();
    assert!(upper == id);
}

#[test]
fn identifier_hex_errors() {
    assert_eq!(PriceIdentifier::from_hex("abc").err(), Some(PriceIdentifierError::WrongLength(3)));
    let bad = format!("{}zz", "0".repeat(62));
    assert_eq!(PriceIdentifier::from_hex(&bad).err(), Some(PriceIdentifierError::InvalidHex));
}

#[test]
fn promise_flags_are_distinct_and_ordered() {
    let infos = vec![
        info(24, 4, 1, Some("ft_price")),
        info(18, 4, 2, None),
        info(24, 4, 1, Some("ft_price")),
        info(24, 4, 2, Some("get_rate")),
    ];
    let flags = token_involved_promise_flags(&infos);
    assert_eq!(flags, vec!["01".repeat(32), "ft_price".to_string(), "02".repeat(32), "get_rate".to_string()]);
}

#[test]
fn fixed_prices_need_no_oracle_call() {
    let mut infos = AccountMap::new();
    let mut stable = info(6, 4, 3, None);
    stable.default_price = Some(Price { multiplier: 10000, decimals: 10 });
    infos.insert(&"usdc".to_string(), stable);
    infos.insert(&"wnear".to_string(), info(24, 4, 1, None));
    infos.insert(&"stnear".to_string(), info(24, 4, 1, Some("ft_price")));
    let involved = vec!["wnear".to_string(), "usdc".to_string(), "stnear".to_string()];
    let (asked, fixed) = prepare_promise_tokens(&involved, &infos);
    assert_eq!(asked, vec!["wnear".to_string(), "stnear".to_string()]);
    assert_eq!(fixed.get(&"usdc".to_string()), Some(Price { multiplier: 10000, decimals: 10 }));
    assert_eq!(fixed.get(&"wnear".to_string()), None);
}
