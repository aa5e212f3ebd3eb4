use burrowland::account::Account;
use burrowland::account_lending::internal_deposit;
use burrowland::account_map::AccountMap;
use burrowland::actions::{Action, AssetAmount};
use burrowland::asset::Asset;
use burrowland::asset_config::AssetConfig;
use burrowland::execute::{execute_action, ActionOutcome, ExecuteError};
use burrowland::lending::LendingError;
use burrowland::pool::Pool;

fn config() -> AssetConfig {
    AssetConfig {
        reserve_ratio: 2500,
        prot_ratio: 0,
        beneficiaries: AccountMap::new(),
        target_utilization: 8000,
        target_utilization_rate: 1000000000003593629036885046u128,
        max_utilization_rate: 1000000000039724853136740579u128,
        holding_position_fee_rate: 1000000000000000000000000000u128,
        volatility_ratio: 6000,
        extra_decimals: 0,
        can_deposit: true,
        can_withdraw: true,
        can_use_as_collateral: true,
        can_borrow: true,
        net_tvl_multiplier: 10000,
        max_change_rate: None,
        supplied_limit: None,
        borrowed_limit: None,
        min_borrowed_amount: None,
    }
}

fn assets() -> AccountMap<Asset> {
    let mut a = Asset::new(0, config());
    a.supplied = Pool { shares: 1000, balance: 1000 };
    a.borrowed = Pool { shares: 500, balance: 500 };
    let mut m = AccountMap::new();
    m.insert(&"usdt".to_string(), a);
    m
}

fn amount(token: &str, a: u128) -> AssetAmount {
    AssetAmount { token_id: token.to_string(), amount: Some(a), max_amount: None }
}

fn funded() -> (Account, AccountMap<Asset>) {
    let mut account = Account::new(&"alice.near".to_string());
    let mut assets = assets();
    let mut usdt = assets.remove(&"usdt".to_string()).unwrap();
    internal_deposit(&mut account, &mut usdt, &"usdt".to_string(), 100);
    assets.insert(&"usdt".to_string(), usdt);
    (account, assets)
}

fn usdt_pools(assets: &AccountMap<Asset>) -> (u128, u128, u128, u128) {
    let a = assets.get_ref(&"usdt".to_string()).unwrap();
    (a.supplied.shares, a.supplied.balance, a.borrowed.shares, a.borrowed.balance)
}

#[test]
fn a_batch_of_lending_actions() {
    let (mut account, mut assets) = funded();
    let usdt = "usdt".to_string();
    let r = execute_action(&mut account, &mut assets, &Action::IncreaseCollateral(amount("usdt", 80)), false);
    assert_eq!(r, Ok(ActionOutcome::CollateralIncreased(80)));
    assert_eq!(account.supplied.get(&usdt), Some(20));

    let r = execute_action(&mut account, &mut assets, &Action::Borrow(amount("usdt", 50)), false);
    assert_eq!(r, Ok(ActionOutcome::Borrowed(50)));
    assert_eq!(usdt_pools(&assets), (1150, 1150, 550, 550));
    assert_eq!(account.supplied.get(&usdt), Some(70));

    let r = execute_action(&mut account, &mut assets, &Action::Repay(amount("usdt", 30)), false);
    assert_eq!(r, Ok(ActionOutcome::Repaid(30)));
    assert_eq!(account.internal_unwrap_borrowed(&"REGULAR".to_string(), &usdt), 20);

    let r = execute_action(&mut account, &mut assets, &Action::DecreaseCollateral(amount("usdt", 80)), false);
    assert_eq!(r, Ok(ActionOutcome::CollateralDecreased(80)));
    assert_eq!(account.supplied.get(&usdt), Some(120));

    let r = execute_action(&mut account, &mut assets, &Action::Withdraw(amount("usdt", 20)), false);
    assert_eq!(r, Ok(ActionOutcome::Withdrawn { amount: 20, ft_amount: 20 }));
    assert_eq!(account.supplied.get(&usdt), Some(100));
    assert_eq!(usdt_pools(&assets), (1100, 1100, 520, 520));
}

#[test]
fn named_positions_and_client_echo() {
    let (mut account, mut assets) = funded();
    let position = "REGULAR".to_string();
    let r = execute_action(
        &mut account,
        &mut assets,
        &Action::PositionIncreaseCollateral { position: position.clone(), asset_amount: amount("usdt", 60) },
        false,
    );
    assert_eq!(r, Ok(ActionOutcome::CollateralIncreased(60)));
    let r = execute_action(
        &mut account,
        &mut assets,
        &Action::PositionBorrow { position: position.clone(), asset_amount: amount("usdt", 10) },
        false,
    );
    assert_eq!(r, Ok(ActionOutcome::Borrowed(10)));
    let r = execute_action(
        &mut account,
        &mut assets,
        &Action::ClientEchoWithdraw { client_echo: "echo".to_string(), asset_amount: amount("usdt", 5) },
        false,
    );
    assert_eq!(r, Ok(ActionOutcome::Withdrawn { amount: 5, ft_amount: 5 }));
    assert_eq!(account.supplied.get(&"usdt".to_string()), Some(45));
}

#[test]
fn refusals_change_nothing() {
    let (mut account, mut assets) = funded();
    let before = usdt_pools(&assets);
    let cases = vec![
        (Action::Withdraw(amount("dai", 1)), Ok(ActionOutcome::NothingSupplied)),
        (Action::IncreaseCollateral(amount("dai", 1)), Err(ExecuteError::AssetNotFound)),
        (Action::DecreaseCollateral(amount("usdt", 1)), Err(ExecuteError::PositionNotFound)),
        (Action::Borrow(amount("usdt", 1)), Err(ExecuteError::PositionNotFound)),
        (Action::Repay(amount("usdt", 1)), Err(ExecuteError::PositionNotFound)),
        (Action::Withdraw(amount("usdt", 101)), Err(ExecuteError::Lending(LendingError::NotEnoughShares))),
        (
            Action::ForceClose { account_id: "bob.near".to_string(), position: None, min_token_amounts: None },
            Ok(ActionOutcome::OnOtherAccount),
        ),
    ];
    for (action, expected) in cases {
        assert_eq!(execute_action(&mut account, &mut assets, &action, false), expected);
        assert_eq!(usdt_pools(&assets), before);
        assert_eq!(account.supplied.get(&"usdt".to_string()), Some(100));
        assert!(account.positions.is_empty());
    }
}

#[test]
fn missing_collateral_debt_and_supply() {
    let (mut account, mut assets) = funded();
    let mut wnear = Asset::new(0, config());
    wnear.supplied = Pool { shares: 10, balance: 10 };
    assets.insert(&"wnear".to_string(), wnear);
    execute_action(&mut account, &mut assets, &Action::IncreaseCollateral(amount("usdt", 10)), false).unwrap();
    assert_eq!(
        execute_action(&mut account, &mut assets, &Action::DecreaseCollateral(amount("wnear", 1)), false),
        Err(ExecuteError::CollateralNotFound)
    );
    assert_eq!(
        execute_action(&mut account, &mut assets, &Action::Repay(amount("wnear", 1)), false),
        Err(ExecuteError::NotSupplied)
    );
    assert_eq!(
        execute_action(&mut account, &mut assets, &Action::Repay(amount("usdt", 1)), false),
        Err(ExecuteError::BorrowedNotFound)
    );
    assert_eq!(
        execute_action(&mut account, &mut assets, &Action::IncreaseCollateral(amount("wnear", 1)), false),
        Err(ExecuteError::NotSupplied)
    );
}

#[test]
fn overflowing_arithmetic_is_refused() {
    let (mut account, mut assets) = funded();
    let mut usdt = assets.remove(&"usdt".to_string()).unwrap();
    usdt.reserved = u128::MAX;
    assets.insert(&"usdt".to_string(), usdt);
    assert_eq!(
        execute_action(&mut account, &mut assets, &Action::Withdraw(amount("usdt", 10)), false),
        Err(ExecuteError::Overflow)
    );
    assert_eq!(account.supplied.get(&"usdt".to_string()), Some(100));
    // Shares that a huge amount comes to do not fit.
    let mut usdt = assets.remove(&"usdt".to_string()).unwrap();
    usdt.reserved = 0;
    usdt.supplied = Pool { shares: u128::MAX, balance: 1 };
    assets.insert(&"usdt".to_string(), usdt);
    assert_eq!(
        execute_action(&mut account, &mut assets, &Action::IncreaseCollateral(amount("usdt", 2)), false),
        Err(ExecuteError::Overflow)
    );
}
