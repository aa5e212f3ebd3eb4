use burrowland::account_map::AccountMap;
use burrowland::asset::Asset;
use burrowland::asset_config::AssetConfig;
use burrowland::pool::Pool;

const ONE_NEAR: u128 = 1_000_000_000_000_000_000_000_000;
const DAY_NS: u64 = 86_400_000_000_000;

fn config(beneficiaries: AccountMap<u32>) -> AssetConfig {
    AssetConfig {
        reserve_ratio: 2500,
        prot_ratio: 0,
        beneficiaries,
        target_utilization: 8000,
        target_utilization_rate: 1000000000003593629036885046u128,
        max_utilization_rate: 1000000000039724853136740579u128,
        holding_position_fee_rate: 1000000000000000000000000000u128,
        volatility_ratio: 6000,
        extra_decimals: 0,
        can_deposit: true,
        can_withdraw: true,
        can_use_as_collateral: true,
        can_borrow: true,
        net_tvl_multiplier: 10000,
        max_change_rate: None,
        supplied_limit: Some(u128::MAX),
        borrowed_limit: Some(u128::MAX),
        min_borrowed_amount: Some(1),
    }
}

fn asset(beneficiaries: AccountMap<u32>) -> Asset {
    let mut a = Asset::new(1_000, config(beneficiaries));
    a.supplied = Pool { shares: 100 * ONE_NEAR, balance: 100 * ONE_NEAR };
    a.borrowed = Pool { shares: 81 * ONE_NEAR, balance: 81 * ONE_NEAR };
    a
}

#[test]
fn update_within_a_millisecond_changes_nothing() {
    let mut a = asset(AccountMap::new());
    a.update(&"wrap.near".to_string(), 0, 1_000 + 999_999);
    assert_eq!(a.last_update_timestamp, 1_000);
    assert_eq!(a.borrowed.balance, 81 * ONE_NEAR);
    assert!(a.pending_fee_events.is_none());
}

#[test]
fn a_day_of_interest() {
    let mut a = asset(AccountMap::new());
    a.update(&"wrap.near".to_string(), 0, 1_000 + DAY_NS + 5);
    let interest = 37801509349664430246502u128;
    let reserved = 9450377337416107561625u128;
    assert_eq!(a.last_update_timestamp, 1_000 + DAY_NS);
    assert_eq!(a.borrowed.balance, 81 * ONE_NEAR + interest);
    assert_eq!(a.supplied.balance, 100 * ONE_NEAR + interest - reserved);
    assert_eq!(a.supplied.shares, 100 * ONE_NEAR);
    assert_eq!(a.reserved, reserved);
    assert_eq!(a.unit_acc_hp_interest, 0);

    let events = a.send_pending_fee_events();
    assert_eq!(events.len(), 2);
    assert_eq!(events[0].fee_type, "normal");
    assert_eq!((events[0].interest, events[0].reserved, events[0].prot_fee), (interest, reserved, 0));
    assert_eq!(events[1].fee_type, "margin");
    assert_eq!(events[1].interest, 0);
    assert!(a.pending_fee_events.is_none());
}

#[test]
fn beneficiaries_take_their_part_of_the_reserve() {
    let mut b = AccountMap::new();
    b.insert(&"dao.near".to_string(), 4000u32);
    let mut a = asset(b);
    a.update(&"wrap.near".to_string(), 0, 1_000 + DAY_NS);
    let interest = 37801509349664430246502u128;
    let dist = 9450377337416107561625u128;
    let prot = 3780150934966443024650u128;
    assert_eq!(a.reserved, dist - prot);
    assert_eq!(a.beneficiary_fees.get(&"dao.near".to_string()), Some(prot));
    // suppliers + reserve + beneficiaries == interest
    assert_eq!((a.supplied.balance - 100 * ONE_NEAR) + a.reserved + prot, interest);
}

#[test]
fn available_amount_and_pending_debt() {
    let mut a = asset(AccountMap::new());
    assert_eq!(a.available_amount(), 19 * ONE_NEAR);
    // 50% of what stays available (19 - 1 = 18) is 9 > 1: accepted.
    assert!(a.increase_margin_pending_debt(ONE_NEAR, 5000));
    assert_eq!(a.margin_pending_debt, ONE_NEAR);
    assert_eq!(a.available_amount(), 18 * ONE_NEAR);
    // 10% of 18 - 10 = 0.8 is not above 11: refused, nothing changes.
    assert!(!a.increase_margin_pending_debt(10 * ONE_NEAR, 1000));
    assert_eq!(a.margin_pending_debt, ONE_NEAR);
}

#[test]
fn aprs() {
    let a = asset(AccountMap::new());
    assert_eq!(a.get_borrow_apr().raw_u128(), 185660969752623519691511892u128);
    // No margin debt, so its apr does not count towards the supply apr.
    let supply = a.get_supply_apr(0);
    // 0.185.. * 81 * 0.75 / 100
    assert_eq!(supply.raw_u128(), 112789039124718788212593470u128);
}

#[test]
fn margin_debt_rate_scales_with_the_discount_ratio() {
    let a = asset(AccountMap::new());
    let one = 1_000_000_000_000_000_000_000_000_000u128;
    assert_eq!(a.get_margin_debt_rate(0).raw_u128(), one);
    assert_eq!(a.get_margin_debt_rate(10000).raw_u128(), a.get_rate().raw_u128());
    let half = a.get_margin_debt_rate(5000).raw_u128();
    assert!(one < half && half < a.get_rate().raw_u128());
    assert_eq!(half - one, (a.get_rate().raw_u128() - one + 1) / 2);
}

#[test]
fn nothing_borrowed_no_apr() {
    let mut a = asset(AccountMap::new());
    a.borrowed = Pool { shares: 0, balance: 0 };
    assert_eq!(a.get_rate().raw_u128(), 1_000_000_000_000_000_000_000_000_000u128);
    assert_eq!(a.get_borrow_apr().raw_u128(), 0);
}
