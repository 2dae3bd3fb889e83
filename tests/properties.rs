use erc20::{AccountId, Approval, Erc20, Error, Event, Transfer};

fn acct(b: u8) -> AccountId {
    AccountId([b; 32])
}

fn token(supply: u128) -> Erc20 {
    Erc20::new(acct(1), String::from("Ink Test Token"), String::from("ITT"), supply)
}

fn sum_of(l: &Erc20, accounts: &[u8]) -> u128 {
    accounts.iter().map(|b| l.balance_of(acct(*b))).sum()
}

#[test]
fn descriptors_are_kept() {
    let l = token(5);
    assert_eq!(l.name(), "Ink Test Token");
    assert_eq!(l.symbol(), "ITT");
}

#[test]
fn account_equality_compares_every_byte() {
    let mut x = [7u8; 32];
    let y = [7u8; 32];
    assert!(AccountId(x) == AccountId(y));
    x[31] = 8;
    assert!(AccountId(x) != AccountId(y));
}

#[test]
fn supply_equals_sum_after_each_step() {
    let mut l = token(1000);
    let all = [1u8, 2, 3, 4];
    assert_eq!(sum_of(&l, &all), l.total_supply());
    l.transfer(acct(1), acct(2), 300).unwrap();
    assert_eq!(sum_of(&l, &all), l.total_supply());
    l.approve(acct(2), acct(3), 50).unwrap();
    l.transfer_from(acct(3), acct(2), acct(4), 50).unwrap();
    assert_eq!(sum_of(&l, &all), l.total_supply());
    l._mint(acct(3), 25).unwrap();
    assert_eq!(l.total_supply(), 1025);
    assert_eq!(sum_of(&l, &all), 1025);
    l._burn(acct(1), 700).unwrap();
    assert_eq!(l.total_supply(), 325);
    assert_eq!(sum_of(&l, &all), 325);
    assert_eq!(l.balance_of(acct(1)), 0);
    assert_eq!(l.balance_of(acct(2)), 250);
    assert_eq!(l.balance_of(acct(3)), 25);
    assert_eq!(l.balance_of(acct(4)), 50);
}

#[test]
fn transfer_to_self_changes_nothing_but_the_log() {
    let mut l = token(1000);
    assert_eq!(l.transfer(acct(1), acct(1), 400), Ok(()));
    assert_eq!(l.balance_of(acct(1)), 1000);
    assert_eq!(l.total_supply(), 1000);
    assert_eq!(l.events().len(), 2);
    assert_eq!(
        l.events()[1],
        Event::Transfer(Transfer { from: Some(acct(1)), to: Some(acct(1)), value: 400 })
    );
}

#[test]
fn transfer_of_whole_balance_and_of_zero() {
    let mut l = token(1000);
    assert_eq!(l.transfer(acct(1), acct(2), 1000), Ok(()));
    assert_eq!(l.balance_of(acct(1)), 0);
    assert_eq!(l.balance_of(acct(2)), 1000);
    assert_eq!(l.transfer(acct(3), acct(2), 0), Ok(()));
    assert_eq!(l.balance_of(acct(2)), 1000);
    assert_eq!(l.balance_of(acct(3)), 0);
}

#[test]
fn failed_transfer_from_for_lack_of_balance_keeps_allowance() {
    let mut l = token(100);
    l.approve(acct(1), acct(2), 500).unwrap();
    let events_before = l.events().len();
    assert_eq!(l.transfer_from(acct(2), acct(1), acct(3), 200), Err(Error::InsufficientBalance));
    assert_eq!(l.allowance(acct(1), acct(2)), 500);
    assert_eq!(l.balance_of(acct(1)), 100);
    assert_eq!(l.balance_of(acct(3)), 0);
    assert_eq!(l.events().len(), events_before);
}

#[test]
fn allowance_is_checked_before_balance() {
    let mut l = token(100);
    l.approve(acct(1), acct(2), 10).unwrap();
    assert_eq!(l.transfer_from(acct(2), acct(1), acct(3), 200), Err(Error::InsufficientAllowance));
}

#[test]
fn partial_spend_leaves_rest_of_allowance() {
    let mut l = token(1000);
    l.approve(acct(1), acct(2), 100).unwrap();
    assert_eq!(l.transfer_from(acct(2), acct(1), acct(3), 30), Ok(()));
    assert_eq!(l.allowance(acct(1), acct(2)), 70);
    assert_eq!(l.allowance(acct(2), acct(1)), 0);
    assert_eq!(
        l.events().last().copied(),
        Some(Event::Transfer(Transfer { from: Some(acct(1)), to: Some(acct(3)), value: 30 }))
    );
}

#[test]
fn approve_overwrites_previous_value() {
    let mut l = token(1000);
    assert_eq!(l.approve(acct(1), acct(2), 100), Ok(()));
    assert_eq!(l.approve(acct(1), acct(2), 40), Ok(()));
    assert_eq!(l.allowance(acct(1), acct(2)), 40);
    assert_eq!(l.approve(acct(1), acct(2), 0), Ok(()));
    assert_eq!(l.allowance(acct(1), acct(2)), 0);
    assert_eq!(
        l.events()[1],
        Event::Approval(Approval { owner: acct(1), spender: acct(2), value: 100 })
    );
    assert_eq!(l.events().len(), 4);
}

#[test]
fn increase_and_decrease_allowance() {
    let mut l = token(1000);
    assert_eq!(l.increase_allowance(acct(1), acct(2), 30), Ok(()));
    assert_eq!(l.increase_allowance(acct(1), acct(2), 12), Ok(()));
    assert_eq!(l.allowance(acct(1), acct(2)), 42);
    assert_eq!(l.decrease_allowance(acct(1), acct(2), 40), Ok(()));
    assert_eq!(l.allowance(acct(1), acct(2)), 2);
    assert_eq!(l.decrease_allowance(acct(1), acct(2), 3), Err(Error::InsufficientAllowance));
    assert_eq!(l.allowance(acct(1), acct(2)), 2);
    assert_eq!(l.events().len(), 1);
}

#[test]
fn increase_allowance_overflow_is_refused() {
    let mut l = token(1000);
    l.approve(acct(1), acct(2), u128::MAX - 1).unwrap();
    assert_eq!(l.increase_allowance(acct(1), acct(2), 1), Ok(()));
    assert_eq!(l.allowance(acct(1), acct(2)), u128::MAX);
    assert_eq!(l.increase_allowance(acct(1), acct(2), 1), Err(Error::Overflow));
    assert_eq!(l.allowance(acct(1), acct(2)), u128::MAX);
}

#[test]
fn mint_overflow_is_refused() {
    let mut l = token(u128::MAX - 10);
    assert_eq!(l._mint(acct(2), 11), Err(Error::Overflow));
    assert_eq!(l.total_supply(), u128::MAX - 10);
    assert_eq!(l.balance_of(acct(2)), 0);
    assert_eq!(l._mint(acct(2), 10), Ok(()));
    assert_eq!(l.total_supply(), u128::MAX);
    assert_eq!(l.balance_of(acct(2)), 10);
    assert_eq!(
        l.events()[1],
        Event::Transfer(Transfer { from: None, to: Some(acct(2)), value: 10 })
    );
}

#[test]
fn burn_beyond_balance_is_refused() {
    let mut l = token(1000);
    assert_eq!(l._burn(acct(2), 1), Err(Error::InsufficientBalance));
    assert_eq!(l._burn(acct(1), 1001), Err(Error::InsufficientBalance));
    assert_eq!(l.total_supply(), 1000);
    assert_eq!(l._burn(acct(1), 1000), Ok(()));
    assert_eq!(l.total_supply(), 0);
    assert_eq!(l.balance_of(acct(1)), 0);
    assert_eq!(
        l.events()[1],
        Event::Transfer(Transfer { from: Some(acct(1)), to: None, value: 1000 })
    );
}

#[test]
fn largest_supply_moves_without_overflow() {
    let mut l = token(u128::MAX);
    assert_eq!(l.transfer(acct(1), acct(2), u128::MAX), Ok(()));
    assert_eq!(l.balance_of(acct(2)), u128::MAX);
    assert_eq!(l.transfer(acct(2), acct(1), 1), Ok(()));
    assert_eq!(l.balance_of(acct(1)), 1);
    assert_eq!(l.balance_of(acct(2)), u128::MAX - 1);
}
