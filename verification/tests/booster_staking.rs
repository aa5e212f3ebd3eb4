use burrowland::booster_staking::{stake_booster, BoosterStaking, StakeError};
use burrowland::config::{compute_x_booster_amount, BoosterTokenInfo, ConfigError};

const DAY: u32 = 86400;
const NANO: u64 = 1_000_000_000;

fn info() -> BoosterTokenInfo {
    // 1 to 100 days; x4 at the longest duration.
    BoosterTokenInfo::new("brrr".to_string(), 18, DAY, 100 * DAY, 40000, 1000)
}

#[test]
fn x_booster_amount_grows_linearly_with_duration() {
    let i = info();
    assert_eq!(compute_x_booster_amount(&i, 1000, DAY as u64 * NANO), 1000);
    assert_eq!(compute_x_booster_amount(&i, 1000, 100 * DAY as u64 * NANO), 4000);
    // Half way (50.5 days): 1 + 3 * 0.5 = 2.5
    assert_eq!(compute_x_booster_amount(&i, 1000, (101 * DAY as u64 * NANO) / 2), 2500);
}

#[test]
fn first_stake() {
    let r = stake_booster(None, &info(), 1000, 100 * DAY, 7);
    let (s, extra) = r.unwrap();
    assert_eq!(extra, 4000);
    assert_eq!((s.staked_booster_amount, s.x_booster_amount, s.unlock_timestamp), (1000, 4000, 7 + 100 * DAY as u64 * NANO));
}

#[test]
fn restake_keeps_the_larger_x_booster_amount() {
    let prev = BoosterStaking { staked_booster_amount: 1000, x_booster_amount: 4000, unlock_timestamp: 10 };
    let (s, extra) = stake_booster(Some(prev), &info(), 500, DAY, 10).unwrap();
    assert_eq!(extra, 500);
    // Restaked for one day the old stake would earn 1000 only; 4000 is kept.
    assert_eq!((s.staked_booster_amount, s.x_booster_amount), (1500, 4500));

    let prev = BoosterStaking { staked_booster_amount: 1000, x_booster_amount: 1000, unlock_timestamp: 10 };
    let (s, extra) = stake_booster(Some(prev), &info(), 0, 100 * DAY, 10).unwrap();
    assert_eq!(extra, 0);
    assert_eq!(s.x_booster_amount, 4000);
}

#[test]
fn stake_errors() {
    assert_eq!(stake_booster(None, &info(), 1, DAY - 1, 0).err(), Some(StakeError::DurationOutOfRange));
    assert_eq!(stake_booster(None, &info(), 1, 100 * DAY + 1, 0).err(), Some(StakeError::DurationOutOfRange));
    let prev = BoosterStaking { staked_booster_amount: 1, x_booster_amount: 1, unlock_timestamp: 5 * DAY as u64 * NANO };
    assert_eq!(stake_booster(Some(prev), &info(), 1, DAY, 0).err(), Some(StakeError::ShorterThanCurrent));
}

#[test]
fn booster_token_info_checks() {
    assert_eq!(info().assert_valid(), Ok(()));
    let mut i = info();
    i.x_booster_multiplier_at_maximum_staking_duration = 9999;
    assert_eq!(i.assert_valid(), Err(ConfigError::XBoosterMultiplier));
    let mut i = info();
    i.boost_suppress_factor = 0;
    assert_eq!(i.assert_valid(), Err(ConfigError::BoostSuppressFactor));
    let mut i = info();
    i.maximum_staking_duration_sec = DAY - 1;
    assert_eq!(i.assert_valid(), Err(ConfigError::StakingDurations));
}

fn staking(staked: u128, x: u128, unlock: u64) -> BoosterStaking {
    BoosterStaking { staked_booster_amount: staked, x_booster_amount: x, unlock_timestamp: unlock }
}

#[test]
fn sync_unlocked_stake_earns_nothing() {
    let mut s = staking(1000, 4000, 10);
    s.sync_booster_policy(&info(), 10);
    assert_eq!((s.staked_booster_amount, s.x_booster_amount, s.unlock_timestamp), (1000, 0, 10));
}

#[test]
fn sync_recounts_for_the_time_left() {
    let day = DAY as u64 * NANO;
    // 50.5 days left: recount 2500, above the old 1000, below the cap 4000.
    let now = 5;
    let mut s = staking(1000, 1000, now + (101 * day) / 2);
    s.sync_booster_policy(&info(), now);
    assert_eq!(s.x_booster_amount, 2500);
    assert_eq!(s.unlock_timestamp, now + (101 * day) / 2);
    // An old amount above the recount is kept.
    let mut s = staking(1000, 3000, now + (101 * day) / 2);
    s.sync_booster_policy(&info(), now);
    assert_eq!(s.x_booster_amount, 3000);
    // Less than the shortest duration left counts as the shortest.
    let mut s = staking(1000, 0, now + day / 2);
    s.sync_booster_policy(&info(), now);
    assert_eq!(s.x_booster_amount, 1000);
}

#[test]
fn sync_caps_a_stake_longer_than_the_longest_duration() {
    let day = DAY as u64 * NANO;
    let mut s = staking(1000, 9000, 200 * day);
    s.sync_booster_policy(&info(), 0);
    assert_eq!((s.x_booster_amount, s.unlock_timestamp), (4000, 100 * day));
}
