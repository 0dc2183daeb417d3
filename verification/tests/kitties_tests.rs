//! The ledger exercised through its public operations: creation, transfer,
//! breeding, listing and buying, with their failure cases.

use kitties::errors::Error;
use kitties::events::Event;
use kitties::genome::random_value;
use kitties::pallet::{Config, Pallet};

pub const KITTY_RESERVE: u128 = 1_000;
pub const ALICE: u64 = 1;
pub const BOB: u64 = 2;
pub const NOBODY: u64 = 99;

fn new_test_ext() -> Pallet {
    let mut p = Pallet::new(Config { asset_deposit: KITTY_RESERVE });
    p.endow(ALICE, 10_000);
    p.endow(BOB, 20_000);
    p
}

fn dna_for(sender: u64, sequence: u32) -> [u8; 16] {
    let seed = [7u8; 32];
    random_value(&seed, sender, Some(sequence))
}

#[test]
fn can_create_work() {
    let mut p = new_test_ext();
    let ev = p.create(ALICE, dna_for(ALICE, 0)).unwrap();
    assert_eq!(ev, Event::KittyCreate(ALICE, 0));
    assert_eq!(p.kitties_count(), 1);
    assert_eq!(p.owner(0), Some(ALICE));
    assert_eq!(p.reserved_balance(ALICE), KITTY_RESERVE);
}

#[test]
fn can_create_faile_not_enough_money() {
    let mut p = new_test_ext();
    assert_eq!(p.create(NOBODY, dna_for(NOBODY, 0)), Err(Error::MoneyNotEnough));
    assert_eq!(p.kitties_count(), 0);
}

#[test]
fn can_transfer_work() {
    let mut p = new_test_ext();
    assert!(p.create(ALICE, dna_for(ALICE, 0)).is_ok());
    assert_eq!(p.kitties_count(), 1);
    assert_eq!(p.reserved_balance(ALICE), KITTY_RESERVE);

    let ev = p.transfer(ALICE, BOB, 0).unwrap();
    assert_eq!(ev, Event::KittyTransfer(ALICE, BOB, 0));
    assert_eq!(p.reserved_balance(ALICE), 0);
    assert_eq!(p.reserved_balance(BOB), KITTY_RESERVE);
}

#[test]
fn can_transfer_faile_not_enough_money() {
    let mut p = new_test_ext();
    assert_eq!(p.create(NOBODY, dna_for(NOBODY, 0)), Err(Error::MoneyNotEnough));
}

#[test]
fn can_transfer_failed_not_owner() {
    // The asset does not exist at all, so the failure is the absence of the
    // asset, reported before any ownership check.
    let mut p = new_test_ext();
    assert_eq!(p.transfer(ALICE, BOB, 99), Err(Error::InvalidKittyIndex));
}

#[test]
fn can_transfer_failed_already_owned() {
    // The asset does not exist at all, so the failure is the absence of the
    // asset, reported before the ownership and self-transfer checks.
    let mut p = new_test_ext();
    assert_eq!(p.transfer(ALICE, ALICE, 0), Err(Error::InvalidKittyIndex));
}

#[test]
fn transfer_to_self_is_refused() {
    let mut p = new_test_ext();
    assert!(p.create(ALICE, dna_for(ALICE, 0)).is_ok());
    assert_eq!(p.transfer(ALICE, ALICE, 0), Err(Error::AlreadyOwned));
    assert_eq!(p.owner(0), Some(ALICE));
}

#[test]
fn can_bread_work() {
    let mut p = new_test_ext();
    assert!(p.create(ALICE, dna_for(ALICE, 0)).is_ok());
    assert!(p.create(ALICE, dna_for(ALICE, 1)).is_ok());
    assert_eq!(p.kitties_count(), 2);
    assert_eq!(p.owner(0), Some(ALICE));
    assert_eq!(p.owner(1), Some(ALICE));
    assert_eq!(p.reserved_balance(ALICE), 2 * KITTY_RESERVE);

    let ev = p.breed(ALICE, 0, 1, dna_for(ALICE, 2)).unwrap();
    assert_eq!(ev, Event::KittyCreate(ALICE, 2));
    assert_eq!(p.kitties_count(), 3);
    assert_eq!(p.owner(2), Some(ALICE));
    assert_eq!(p.reserved_balance(ALICE), 3 * KITTY_RESERVE);
}

#[test]
fn can_bread_failed_invalid_same_parent_index() {
    let mut p = new_test_ext();
    assert_eq!(p.breed(ALICE, 1, 1, dna_for(ALICE, 0)), Err(Error::SameParentIndex));
}

#[test]
fn can_bread_failed_invalid_kittyindex() {
    let mut p = new_test_ext();
    assert_eq!(p.breed(ALICE, 0, 1, dna_for(ALICE, 0)), Err(Error::InvalidKittyIndex));
}

#[test]
fn can_sale_work() {
    let mut p = new_test_ext();
    assert!(p.create(ALICE, dna_for(ALICE, 0)).is_ok());

    let ev = p.sale(ALICE, 0, 5_000).unwrap();
    assert_eq!(ev, Event::KittyForSale(ALICE, 0, 5_000));
}

#[test]
fn can_sale_failed_not_owner() {
    // The asset does not exist at all, so the failure is the absence of the
    // asset, reported before any ownership check.
    let mut p = new_test_ext();
    assert_eq!(p.sale(ALICE, 0, 5_000), Err(Error::InvalidKittyIndex));
}

#[test]
fn can_buy_failed_not_owner() {
    // The asset does not exist at all, so the failure is the absence of the
    // asset, reported before any ownership check.
    let mut p = new_test_ext();
    assert_eq!(p.buy(ALICE, 99, 0), Err(Error::InvalidKittyIndex));
}

#[test]
fn can_buy_failed_not_for_sale() {
    let mut p = new_test_ext();
    assert!(p.create(ALICE, dna_for(ALICE, 0)).is_ok());

    assert_eq!(p.buy(BOB, 0, 0), Err(Error::NotForSale));
    assert_eq!(p.owner(0), Some(ALICE));
}

#[test]
fn can_buy_failed_already_owned() {
    let mut p = new_test_ext();
    assert!(p.create(ALICE, dna_for(ALICE, 0)).is_ok());
    assert!(p.sale(ALICE, 0, 5_000).is_ok());

    assert_eq!(p.buy(ALICE, 0, 5_000), Err(Error::AlreadyOwned));
    assert_eq!(p.owner(0), Some(ALICE));
}

#[test]
fn can_buy_work() {
    let mut p = new_test_ext();
    assert!(p.create(ALICE, dna_for(ALICE, 0)).is_ok());
    assert!(p.sale(ALICE, 0, 8_000).is_ok());
    assert_eq!(p.owner(0), Some(ALICE));
    assert_eq!(p.kitty_price(0), Some(8_000));

    let ev = p.buy(BOB, 0, 8_000).unwrap();
    assert_eq!(ev, Event::KittySaleOut(BOB, 0, 8_000));

    assert_eq!(p.free_balance(ALICE), 10_000 + 8_000);
    assert_eq!(p.free_balance(BOB), 20_000 - 8_000 - KITTY_RESERVE);

    assert_eq!(p.reserved_balance(ALICE), 0);
    assert_eq!(p.reserved_balance(BOB), KITTY_RESERVE);

    assert_eq!(p.owner(0), Some(BOB));
    assert_eq!(p.kitty_price(0), None);
}
