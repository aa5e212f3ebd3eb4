use burrowland::account::Account;
use burrowland::account_lending::internal_deposit;
use burrowland::account_map::AccountMap;
use burrowland::actions::{Action, ActionError, AssetAmount};
use burrowland::asset::Asset;
use burrowland::asset_config::AssetConfig;
use burrowland::batch::{internal_execute, BatchError, ExecuteEnv};
use burrowland::execute::{ActionOutcome, ExecuteError};
use burrowland::lending::LendingError;
use burrowland::pool::Pool;
use burrowland::prices::{Price, Prices};
use burrowland::shadow::UnitShareTokens;
use burrowland::whitelist::Whitelist;

const E18: u128 = 1_000_000_000_000_000_000;
const USD: Price = Price { multiplier: 10000, decimals: 22 };

fn config(volatility_ratio: u32) -> AssetConfig {
    AssetConfig {
        reserve_ratio: 2500,
        prot_ratio: 0,
        beneficiaries: AccountMap::new(),
        target_utilization: 8000,
        target_utilization_rate: 1000000000003593629036885046u128,
        max_utilization_rate: 1000000000039724853136740579u128,
        holding_position_fee_rate: 1000000000000000000000000000u128,
        volatility_ratio,
        extra_decimals: 0,
        can_deposit: true,
        can_withdraw: true,
        can_use_as_collateral: true,
        can_borrow: true,
        net_tvl_multiplier: 10000,
        max_change_rate: None,
        supplied_limit: None,
        borrowed_limit: None,
        min_borrowed_amount: None,
    }
}

fn asset(volatility_ratio: u32) -> Asset {
    let mut a = Asset::new(0, config(volatility_ratio));
    a.supplied = Pool { shares: 1000 * E18, balance: 1000 * E18 };
    a.borrowed = Pool { shares: 100 * E18, balance: 100 * E18 };
    a
}

fn amount(token: &str, a: u128) -> AssetAmount {
    AssetAmount { token_id: token.to_string(), amount: Some(a), max_amount: None }
}

fn env(max_num_assets: u32) -> ExecuteEnv {
    ExecuteEnv {
        client_echo_whitelist: Whitelist::new(),
        reliable_liquidator: false,
        max_num_assets,
        lp_tokens_info_valid_duration_sec: 600,
        now: 0,
    }
}

/// Alice supplies 100 USDT; USDT counts at 60%, DAI debt at 80%.
fn setup() -> (Account, AccountMap<Asset>, Prices) {
    let mut assets = AccountMap::new();
    assets.insert(&"usdt".to_string(), asset(6000));
    assets.insert(&"dai".to_string(), asset(8000));
    let mut account = Account::new(&"alice.near".to_string());
    let mut usdt = assets.remove(&"usdt".to_string()).unwrap();
    internal_deposit(&mut account, &mut usdt, &"usdt".to_string(), 100 * E18);
    assets.insert(&"usdt".to_string(), usdt);
    let mut prices = AccountMap::new();
    prices.insert(&"usdt".to_string(), USD);
    prices.insert(&"dai".to_string(), USD);
    (account, assets, Prices::from_prices(prices))
}

fn no_lp_infos() -> AccountMap<UnitShareTokens> {
    AccountMap::new()
}

#[test]
fn a_healthy_batch_runs_every_action() {
    let (mut account, mut assets, prices) = setup();
    let actions = vec![Action::IncreaseCollateral(amount("usdt", 100 * E18)), Action::Borrow(amount("dai", 40 * E18))];
    let r = internal_execute(&"alice.near".to_string(), &mut account, &mut assets, &actions, &prices, &no_lp_infos(), &env(10));
    assert_eq!(r, Ok(vec![ActionOutcome::CollateralIncreased(100 * E18), ActionOutcome::Borrowed(40 * E18)]));
    assert_eq!(account.supplied.get(&"dai".to_string()), Some(40 * E18));
    assert_eq!(account.internal_unwrap_borrowed(&"REGULAR".to_string(), &"dai".to_string()), 40 * E18);
}

#[test]
fn a_borrow_beyond_the_collateral_is_refused() {
    // $100 of collateral counts for $60; $60 of DAI debt counts for $75.
    let (mut account, mut assets, prices) = setup();
    let actions = vec![Action::IncreaseCollateral(amount("usdt", 100 * E18)), Action::Borrow(amount("dai", 60 * E18))];
    let r = internal_execute(&"alice.near".to_string(), &mut account, &mut assets, &actions, &prices, &no_lp_infos(), &env(10));
    assert_eq!(r, Err(BatchError::AtRisk));
}

#[test]
fn a_missing_price_leaves_the_position_unvalued() {
    let (mut account, mut assets, _) = setup();
    let mut only_usdt = AccountMap::new();
    only_usdt.insert(&"usdt".to_string(), USD);
    let prices = Prices::from_prices(only_usdt);
    let actions = vec![Action::IncreaseCollateral(amount("usdt", 100 * E18)), Action::Borrow(amount("dai", 1 * E18))];
    let r = internal_execute(&"alice.near".to_string(), &mut account, &mut assets, &actions, &prices, &no_lp_infos(), &env(10));
    assert_eq!(r, Err(BatchError::NotValuable));
}

#[test]
fn too_many_assets() {
    let (mut account, mut assets, prices) = setup();
    let actions = vec![Action::IncreaseCollateral(amount("usdt", 100 * E18)), Action::Borrow(amount("dai", 1 * E18))];
    let r = internal_execute(&"alice.near".to_string(), &mut account, &mut assets, &actions, &prices, &no_lp_infos(), &env(1));
    assert_eq!(r, Err(BatchError::TooManyAssets));
}

#[test]
fn the_first_refused_action_stops_the_batch() {
    let (mut account, mut assets, prices) = setup();
    let actions = vec![Action::Withdraw(amount("usdt", 10 * E18)), Action::Withdraw(amount("usdt", 1000 * E18))];
    let r = internal_execute(&"alice.near".to_string(), &mut account, &mut assets, &actions, &prices, &no_lp_infos(), &env(10));
    assert_eq!(
        r,
        Err(BatchError::ActionFailed { index: 1, error: ExecuteError::Lending(LendingError::ExceedsAvailable) })
    );
}

#[test]
fn checks_before_the_batch() {
    let (mut account, mut assets, prices) = setup();
    let actions = vec![Action::Withdraw(amount("shadow_ref_v1-0", 1))];
    let r = internal_execute(&"alice.near".to_string(), &mut account, &mut assets, &actions, &prices, &no_lp_infos(), &env(10));
    assert_eq!(r, Err(BatchError::Refused(ActionError::ShadowToken)));
    account.is_locked = true;
    let actions = vec![Action::Withdraw(amount("usdt", 1))];
    let r = internal_execute(&"alice.near".to_string(), &mut account, &mut assets, &actions, &prices, &no_lp_infos(), &env(10));
    assert_eq!(r, Err(BatchError::Refused(ActionError::AccountLocked)));
}
