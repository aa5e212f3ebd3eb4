use burrowland::pool::Pool;

#[test]
fn empty_pool_prices_one_to_one() {
    let p = Pool::new();
    assert_eq!(p.amount_to_shares(1234, false), 1234);
    assert_eq!(p.amount_to_shares(1234, true), 1234);
    assert_eq!(p.shares_to_amount(0, false), 0);
}

#[test]
fn shares_round_down_and_up() {
    let p = Pool { shares: 10, balance: 3 };
    // 10 * 1 / 3 = 3.33..
    assert_eq!(p.amount_to_shares(1, false), 3);
    assert_eq!(p.amount_to_shares(1, true), 4);
    // 3 * 4 / 10 = 1.2
    assert_eq!(p.shares_to_amount(4, false), 1);
    assert_eq!(p.shares_to_amount(4, true), 2);
}

#[test]
fn all_shares_take_the_whole_balance() {
    let p = Pool { shares: 7, balance: 100 };
    assert_eq!(p.shares_to_amount(7, false), 100);
    assert_eq!(p.shares_to_amount(9, true), 100);
}

#[test]
fn deposit_then_withdraw_gives_no_more_back() {
    let mut p = Pool { shares: 1000, balance: 1500 };
    let amount = 77;
    let s = p.amount_to_shares(amount, false);
    assert_eq!(s, 51);
    p.deposit(s, amount);
    assert_eq!((p.shares, p.balance), (1051, 1577));
    let back = p.shares_to_amount(s, false);
    assert!(back <= amount);
    assert_eq!(back, 76);
    p.withdraw(s, back);
    assert_eq!((p.shares, p.balance), (1000, 1501));
}

#[test]
fn large_values_do_not_overflow() {
    let p = Pool { shares: u128::MAX, balance: u128::MAX / 2 };
    assert_eq!(p.shares_to_amount(u128::MAX / 2, false), u128::MAX / 4);
    assert_eq!(p.amount_to_shares(u128::MAX / 4, false), u128::MAX / 2 - 1);
}
