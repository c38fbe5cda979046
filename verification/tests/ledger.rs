use token_exchange::erc20::{Error, Event, Pallet};

const ALICE: u64 = 1;
const BOB: u64 = 2;
const CAROL: u64 = 3;

fn ledger_with(balances: &[(u64, u128)]) -> Pallet {
    let mut ledger = Pallet::new();
    for (who, amount) in balances {
        assert!(ledger.set_balance(*who, *amount));
    }
    ledger
}

#[test]
fn transfer_moves_the_amount() {
    let mut ledger = ledger_with(&[(ALICE, 100)]);
    assert_eq!(ledger.transfer(ALICE, BOB, 40), Ok(()));
    assert_eq!(ledger.balance_of(ALICE), 60);
    assert_eq!(ledger.balance_of(BOB), 40);
    assert_eq!(ledger.take_events(), vec![Event::Transfer(ALICE, BOB, 40)]);
}

#[test]
fn transfer_beyond_the_balance_is_refused() {
    let mut ledger = ledger_with(&[(ALICE, 50)]);
    assert_eq!(ledger.transfer(ALICE, BOB, 51), Err(Error::InsufficientBalance));
    assert_eq!(ledger.balance_of(ALICE), 50);
    assert_eq!(ledger.balance_of(BOB), 0);
    assert!(ledger.take_events().is_empty());
}

#[test]
fn transfer_of_the_whole_balance_empties_it() {
    let mut ledger = ledger_with(&[(ALICE, 50)]);
    assert_eq!(ledger.transfer(ALICE, BOB, 50), Ok(()));
    assert_eq!(ledger.balance_of(ALICE), 0);
    assert_eq!(ledger.balance_of(BOB), 50);
}

#[test]
fn transfer_of_nothing_from_an_unknown_account_succeeds() {
    let mut ledger = Pallet::new();
    assert_eq!(ledger.transfer(ALICE, BOB, 0), Ok(()));
    assert_eq!(ledger.balance_of(ALICE), 0);
    assert_eq!(ledger.balance_of(BOB), 0);
    assert_eq!(ledger.take_events(), vec![Event::Transfer(ALICE, BOB, 0)]);
}

#[test]
fn transfer_to_oneself_keeps_the_balance_and_is_reported() {
    let mut ledger = ledger_with(&[(ALICE, 30)]);
    assert_eq!(ledger.transfer(ALICE, ALICE, 30), Ok(()));
    assert_eq!(ledger.balance_of(ALICE), 30);
    assert_eq!(ledger.take_events(), vec![Event::Transfer(ALICE, ALICE, 30)]);
    assert_eq!(ledger.transfer(ALICE, ALICE, 31), Err(Error::InsufficientBalance));
    assert_eq!(ledger.balance_of(ALICE), 30);
}

#[test]
fn transfer_help_is_the_same_movement() {
    let mut ledger = ledger_with(&[(ALICE, 10), (BOB, 5)]);
    assert_eq!(ledger.transfer_help(ALICE, BOB, 4), Ok(()));
    assert_eq!(ledger.balance_of(ALICE), 6);
    assert_eq!(ledger.balance_of(BOB), 9);
    assert_eq!(ledger.transfer_help(BOB, ALICE, 10), Err(Error::InsufficientBalance));
    assert_eq!(ledger.take_events(), vec![Event::Transfer(ALICE, BOB, 4)]);
}

#[test]
fn balance_of_an_unknown_account_is_zero() {
    let ledger = ledger_with(&[(ALICE, 7)]);
    assert_eq!(ledger.balance_of(BOB), 0);
    assert_eq!(ledger.balance_of(ALICE), 7);
}

#[test]
fn transfers_conserve_the_sum_of_balances() {
    let mut ledger = ledger_with(&[(ALICE, 100), (BOB, 20), (CAROL, 3)]);
    assert_eq!(ledger.total_balance(), 123);
    assert_eq!(ledger.transfer(ALICE, BOB, 40), Ok(()));
    assert_eq!(ledger.transfer_from(CAROL, BOB, CAROL, 60), Ok(()));
    assert_eq!(ledger.transfer(CAROL, ALICE, 64), Err(Error::InsufficientBalance));
    assert_eq!(ledger.transfer(CAROL, ALICE, 63), Ok(()));
    assert_eq!(ledger.allowance(ALICE, BOB, 5), Ok(()));
    assert_eq!(ledger.total_balance(), 123);
    assert_eq!(
        ledger.balance_of(ALICE) + ledger.balance_of(BOB) + ledger.balance_of(CAROL),
        123
    );
    assert_eq!(ledger.balance_of(ALICE), 123);
}

#[test]
fn large_balances_move_without_overflow() {
    let mut ledger = ledger_with(&[(ALICE, u128::MAX - 1), (BOB, 1)]);
    assert_eq!(ledger.transfer(ALICE, BOB, u128::MAX - 1), Ok(()));
    assert_eq!(ledger.balance_of(BOB), u128::MAX);
    assert_eq!(ledger.balance_of(ALICE), 0);
    assert_eq!(ledger.total_balance(), u128::MAX);
}

#[test]
fn set_balance_refuses_a_sum_beyond_the_type() {
    let mut ledger = ledger_with(&[(ALICE, u128::MAX - 1)]);
    assert!(!ledger.set_balance(BOB, 2));
    assert_eq!(ledger.balance_of(BOB), 0);
    assert!(ledger.set_balance(BOB, 1));
    assert_eq!(ledger.total_balance(), u128::MAX);
    assert!(ledger.set_balance(ALICE, 5));
    assert_eq!(ledger.balance_of(ALICE), 5);
    assert_eq!(ledger.total_balance(), 6);
}

#[test]
fn allowance_is_bounded_by_the_balance() {
    let mut ledger = ledger_with(&[(ALICE, 10)]);
    assert_eq!(ledger.allowance(ALICE, BOB, 11), Err(Error::InsufficientBalance));
    assert_eq!(ledger.allowance_of(ALICE, BOB), None);
    assert!(ledger.take_events().is_empty());
    assert_eq!(ledger.allowance(ALICE, BOB, 10), Ok(()));
    assert_eq!(ledger.allowance_of(ALICE, BOB), Some(10));
    assert_eq!(ledger.take_events(), vec![Event::Approve(ALICE, BOB, 10)]);
}

#[test]
fn allowance_replaces_what_was_approved() {
    let mut ledger = ledger_with(&[(ALICE, 10)]);
    assert_eq!(ledger.allowance(ALICE, BOB, 7), Ok(()));
    assert_eq!(ledger.allowance(ALICE, BOB, 2), Ok(()));
    assert_eq!(ledger.allowance_of(ALICE, BOB), Some(2));
    assert_eq!(ledger.allowance_of(BOB, ALICE), None);
    assert_eq!(ledger.balance_of(ALICE), 10);
}

#[test]
fn transfer_from_is_gated_by_the_balance_of_the_payer() {
    let mut ledger = ledger_with(&[(ALICE, 50)]);
    assert_eq!(ledger.allowance(ALICE, BOB, 5), Ok(()));
    assert!(!ledger.take_events().is_empty());
    // More than was approved, by a caller that nobody approved.
    assert_eq!(ledger.transfer_from(CAROL, ALICE, BOB, 20), Ok(()));
    assert_eq!(ledger.balance_of(ALICE), 30);
    assert_eq!(ledger.balance_of(BOB), 20);
    assert_eq!(ledger.allowance_of(ALICE, BOB), Some(30));
    assert_eq!(ledger.take_events(), vec![Event::Transfer(ALICE, BOB, 20)]);
}

#[test]
fn transfer_from_beyond_the_balance_is_refused() {
    let mut ledger = ledger_with(&[(ALICE, 50)]);
    assert_eq!(ledger.allowance(ALICE, BOB, 50), Ok(()));
    assert_eq!(
        ledger.transfer_from(BOB, ALICE, BOB, 51),
        Err(Error::InsufficientAllowance)
    );
    assert_eq!(ledger.balance_of(ALICE), 50);
    assert_eq!(ledger.balance_of(BOB), 0);
    assert_eq!(ledger.allowance_of(ALICE, BOB), Some(50));
}

#[test]
fn total_supply_is_kept_apart_from_the_balances() {
    let mut ledger = ledger_with(&[(ALICE, 50)]);
    assert_eq!(ledger.total_supply_of(), None);
    ledger.set_total_supply(1000);
    assert_eq!(ledger.total_supply_of(), Some(1000));
    assert_eq!(ledger.transfer(ALICE, BOB, 20), Ok(()));
    assert_eq!(ledger.total_supply_of(), Some(1000));
    assert_eq!(ledger.total_balance(), 50);
}

#[test]
fn take_events_hands_each_event_out_once() {
    let mut ledger = ledger_with(&[(ALICE, 50)]);
    assert_eq!(ledger.transfer(ALICE, BOB, 1), Ok(()));
    assert_eq!(ledger.allowance(BOB, ALICE, 1), Ok(()));
    assert_eq!(
        ledger.take_events(),
        vec![Event::Transfer(ALICE, BOB, 1), Event::Approve(BOB, ALICE, 1)]
    );
    assert!(ledger.take_events().is_empty());
}
