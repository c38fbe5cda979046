use token_exchange::currency::{AssetBook, BalanceStatus, Error, ReservationStore};

const GOLD: u32 = 1;
const SILVER: u32 = 2;
const ALICE: u64 = 1;
const BOB: u64 = 2;

#[test]
fn deposit_creates_free_funds() {
    let mut store = ReservationStore::new();
    assert_eq!(store.deposit(GOLD, ALICE, 100), Ok(()));
    assert_eq!(store.free_balance(GOLD, ALICE), 100);
    assert_eq!(store.reserved_balance(GOLD, ALICE), 0);
    assert_eq!(store.total_issuance(GOLD), 100);
    assert_eq!(store.free_balance(SILVER, ALICE), 0);
    assert_eq!(store.total_issuance(SILVER), 0);
}

#[test]
fn deposit_beyond_the_type_is_refused() {
    let mut store = ReservationStore::new();
    assert_eq!(store.deposit(GOLD, ALICE, u128::MAX), Ok(()));
    assert_eq!(store.deposit(GOLD, BOB, 1), Err(Error::Overflow));
    assert_eq!(store.free_balance(GOLD, BOB), 0);
    assert_eq!(store.total_issuance(GOLD), u128::MAX);
    // Another asset has an issuance of its own.
    assert_eq!(store.deposit(SILVER, BOB, 1), Ok(()));
}

#[test]
fn store_transfer_moves_free_funds() {
    let mut store = ReservationStore::new();
    assert_eq!(store.deposit(GOLD, ALICE, 100), Ok(()));
    assert_eq!(store.transfer(GOLD, ALICE, BOB, 40), Ok(()));
    assert_eq!(store.free_balance(GOLD, ALICE), 60);
    assert_eq!(store.free_balance(GOLD, BOB), 40);
    assert_eq!(store.transfer(GOLD, ALICE, BOB, 61), Err(Error::InsufficientBalance));
    assert_eq!(store.free_balance(GOLD, ALICE), 60);
    assert_eq!(store.transfer(SILVER, ALICE, BOB, 1), Err(Error::InsufficientBalance));
    assert_eq!(store.total_issuance(GOLD), 100);
}

#[test]
fn reserved_funds_cannot_be_transferred() {
    let mut store = ReservationStore::new();
    assert_eq!(store.deposit(GOLD, ALICE, 100), Ok(()));
    assert_eq!(store.reserve(GOLD, ALICE, 70), Ok(()));
    assert_eq!(store.transfer(GOLD, ALICE, BOB, 31), Err(Error::InsufficientBalance));
    assert_eq!(store.transfer(GOLD, ALICE, BOB, 30), Ok(()));
    assert_eq!(store.free_balance(GOLD, ALICE), 0);
    assert_eq!(store.reserved_balance(GOLD, ALICE), 70);
}

#[test]
fn reserve_moves_free_funds_to_the_reservation() {
    let mut store = ReservationStore::new();
    assert_eq!(store.deposit(GOLD, ALICE, 100), Ok(()));
    assert_eq!(store.reserve(GOLD, ALICE, 30), Ok(()));
    assert_eq!(store.free_balance(GOLD, ALICE), 70);
    assert_eq!(store.reserved_balance(GOLD, ALICE), 30);
    assert_eq!(store.reserve(GOLD, ALICE, 71), Err(Error::InsufficientBalance));
    assert_eq!(store.free_balance(GOLD, ALICE), 70);
    assert_eq!(store.reserved_balance(GOLD, ALICE), 30);
    assert_eq!(store.total_issuance(GOLD), 100);
}

#[test]
fn reserve_then_release_restores_the_split() {
    let mut store = ReservationStore::new();
    assert_eq!(store.deposit(GOLD, ALICE, 100), Ok(()));
    assert_eq!(store.reserve(GOLD, ALICE, 10), Ok(()));
    let free = store.free_balance(GOLD, ALICE);
    let reserved = store.reserved_balance(GOLD, ALICE);
    assert_eq!(store.reserve(GOLD, ALICE, 25), Ok(()));
    assert_eq!(store.release(GOLD, ALICE, 25), Ok(()));
    assert_eq!(store.free_balance(GOLD, ALICE), free);
    assert_eq!(store.reserved_balance(GOLD, ALICE), reserved);
    assert_eq!((free, reserved), (90, 10));
}

#[test]
fn release_beyond_the_reservation_is_refused() {
    let mut store = ReservationStore::new();
    assert_eq!(store.deposit(GOLD, ALICE, 100), Ok(()));
    assert_eq!(store.reserve(GOLD, ALICE, 10), Ok(()));
    assert_eq!(store.release(GOLD, ALICE, 11), Err(Error::InsufficientBalance));
    assert_eq!(store.free_balance(GOLD, ALICE), 90);
    assert_eq!(store.reserved_balance(GOLD, ALICE), 10);
    assert_eq!(store.release(GOLD, BOB, 1), Err(Error::InsufficientBalance));
}

#[test]
fn repatriate_moves_the_whole_amount_where_it_is_reserved() {
    let mut store = ReservationStore::new();
    assert_eq!(store.deposit(GOLD, ALICE, 100), Ok(()));
    assert_eq!(store.reserve(GOLD, ALICE, 50), Ok(()));
    assert_eq!(store.shortfall(GOLD, ALICE, 30), 0);
    assert_eq!(store.repatriate(GOLD, ALICE, BOB, 30, BalanceStatus::Free), 0);
    assert_eq!(store.reserved_balance(GOLD, ALICE), 20);
    assert_eq!(store.free_balance(GOLD, ALICE), 50);
    assert_eq!(store.free_balance(GOLD, BOB), 30);
    assert_eq!(store.reserved_balance(GOLD, BOB), 0);
    assert_eq!(store.total_issuance(GOLD), 100);
}

#[test]
fn repatriate_moves_what_there_is_and_returns_the_rest() {
    let mut store = ReservationStore::new();
    assert_eq!(store.deposit(GOLD, ALICE, 100), Ok(()));
    assert_eq!(store.reserve(GOLD, ALICE, 20), Ok(()));
    assert_eq!(store.shortfall(GOLD, ALICE, 30), 10);
    assert_eq!(store.repatriate(GOLD, ALICE, BOB, 30, BalanceStatus::Free), 10);
    assert_eq!(store.reserved_balance(GOLD, ALICE), 0);
    assert_eq!(store.free_balance(GOLD, ALICE), 80);
    assert_eq!(store.free_balance(GOLD, BOB), 20);
    assert_eq!(store.repatriate(GOLD, ALICE, BOB, 5, BalanceStatus::Free), 5);
    assert_eq!(store.free_balance(GOLD, BOB), 20);
    assert_eq!(store.shortfall(SILVER, ALICE, 7), 7);
}

#[test]
fn repatriate_into_the_reservation_of_the_receiver() {
    let mut store = ReservationStore::new();
    assert_eq!(store.deposit(GOLD, ALICE, 100), Ok(()));
    assert_eq!(store.reserve(GOLD, ALICE, 50), Ok(()));
    assert_eq!(store.repatriate(GOLD, ALICE, BOB, 30, BalanceStatus::Reserved), 0);
    assert_eq!(store.reserved_balance(GOLD, ALICE), 20);
    assert_eq!(store.reserved_balance(GOLD, BOB), 30);
    assert_eq!(store.free_balance(GOLD, BOB), 0);
}

#[test]
fn repatriate_to_oneself() {
    let mut store = ReservationStore::new();
    assert_eq!(store.deposit(GOLD, ALICE, 100), Ok(()));
    assert_eq!(store.reserve(GOLD, ALICE, 50), Ok(()));
    assert_eq!(store.repatriate(GOLD, ALICE, ALICE, 60, BalanceStatus::Reserved), 10);
    assert_eq!(store.reserved_balance(GOLD, ALICE), 50);
    assert_eq!(store.free_balance(GOLD, ALICE), 50);
    assert_eq!(store.repatriate(GOLD, ALICE, ALICE, 20, BalanceStatus::Free), 0);
    assert_eq!(store.reserved_balance(GOLD, ALICE), 30);
    assert_eq!(store.free_balance(GOLD, ALICE), 70);
}

#[test]
fn asset_book_keeps_one_asset() {
    let mut book = AssetBook::new();
    assert_eq!(book.deposit(ALICE, 10), Ok(()));
    assert_eq!(book.deposit(BOB, u128::MAX - 9), Err(Error::Overflow));
    assert_eq!(book.deposit(BOB, u128::MAX - 10), Ok(()));
    assert_eq!(book.total_issuance(), u128::MAX);
    assert_eq!(book.transfer(BOB, ALICE, u128::MAX - 10), Ok(()));
    assert_eq!(book.free_balance(ALICE), u128::MAX);
    assert_eq!(book.reserve(ALICE, u128::MAX), Ok(()));
    assert_eq!(book.reserved_balance(ALICE), u128::MAX);
    assert_eq!(book.free_balance(ALICE), 0);
    assert_eq!(book.shortfall(ALICE, 5), 0);
    assert_eq!(book.repatriate(ALICE, BOB, u128::MAX, BalanceStatus::Free), 0);
    assert_eq!(book.free_balance(BOB), u128::MAX);
    assert_eq!(book.release(ALICE, 1), Err(Error::InsufficientBalance));
    assert_eq!(book.release(ALICE, 0), Ok(()));
    assert_eq!(book.total_issuance(), u128::MAX);
}
