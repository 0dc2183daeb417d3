//! Further exercises: the genome recombination formula, the deterministic
//! randomness pipeline, the ask index, the deposit escrow and the remaining
//! failure cases.

use kitties::errors::Error;
use kitties::events::Event;
use kitties::genome::{mix, random_value};
use kitties::pallet::{Config, Pallet};

const DEPOSIT: u128 = 1_000;
const A: u64 = 1;
const B: u64 = 2;
const C: u64 = 3;

fn fresh() -> Pallet {
    let mut p = Pallet::new(Config { asset_deposit: DEPOSIT });
    p.endow(A, 10_000);
    p.endow(B, 20_000);
    p
}

#[test]
fn mix_follows_the_bitwise_formula() {
    let dna_a = [
        0xff, 0x00, 0xf0, 0x0f, 0xaa, 0x55, 0x12, 0x34, 0x56, 0x78, 0x9a, 0xbc, 0xde, 0x01, 0x23,
        0x45,
    ];
    let dna_b = [
        0x00, 0xff, 0x0f, 0xf0, 0x55, 0xaa, 0x87, 0x65, 0x43, 0x21, 0x0f, 0xed, 0xcb, 0xa9, 0x87,
        0x65,
    ];
    let sel = [
        0b1111_0000u8,
        0b0000_1111,
        0xff,
        0x00,
        0x0f,
        0xf0,
        0x00,
        0xff,
        0x80,
        0x01,
        0xaa,
        0x55,
        0x33,
        0xcc,
        0x00,
        0xff,
    ];
    let child = mix(&dna_a, &dna_b, &sel);
    for i in 0..16 {
        assert_eq!(child[i], (sel[i] & dna_a[i]) | (!sel[i] & dna_b[i]));
    }
    // One exact spot check: selector 0b1111_0000 takes the high nibble of
    // parent a (0xff -> 0xf0) and the low nibble of parent b (0x00 -> 0x00).
    assert_eq!(child[0], 0xf0);
}

#[test]
fn mix_all_ones_selector_gives_first_parent() {
    let dna_a = [0x12u8; 16];
    let dna_b = [0x99u8; 16];
    assert_eq!(mix(&dna_a, &dna_b, &[0xffu8; 16]), dna_a);
    assert_eq!(mix(&dna_a, &dna_b, &[0x00u8; 16]), dna_b);
}

#[test]
fn random_value_is_deterministic() {
    let seed = [42u8; 32];
    let one = random_value(&seed, A, Some(5));
    let two = random_value(&seed, A, Some(5));
    assert_eq!(one, two);
}

#[test]
fn random_value_depends_on_all_inputs() {
    let seed = [42u8; 32];
    let other_seed = [43u8; 32];
    let base = random_value(&seed, A, Some(5));
    assert_ne!(base, random_value(&other_seed, A, Some(5)));
    assert_ne!(base, random_value(&seed, B, Some(5)));
    assert_ne!(base, random_value(&seed, A, Some(6)));
    assert_ne!(base, random_value(&seed, A, None));
    // The digest is a real digest, not a slice of the payload handed in.
    let seed_prefix: [u8; 16] = seed[0..16].try_into().unwrap();
    assert_ne!(base, seed_prefix);
}

#[test]
fn breeding_scenario_reserves_and_mixes() {
    // Create asset 0 and asset 1 for A, then breed them: asset 2 belongs to
    // A, three deposits are reserved, and every byte of the child genome
    // follows the recombination formula.
    let mut p = fresh();
    let dna_0 = [0x3cu8; 16];
    let dna_1 = [0x0fu8; 16];
    let selector = [0x55u8; 16];

    assert!(p.create(A, dna_0).is_ok());
    assert_eq!(p.reserved_balance(A), DEPOSIT);
    assert!(p.create(A, dna_1).is_ok());
    assert_eq!(p.reserved_balance(A), 2 * DEPOSIT);

    let ev = p.breed(A, 0, 1, selector).unwrap();
    assert_eq!(ev, Event::KittyCreate(A, 2));
    assert_eq!(p.owner(2), Some(A));
    assert_eq!(p.reserved_balance(A), 3 * DEPOSIT);

    let child = p.kitties(2).unwrap().dna;
    for i in 0..16 {
        assert_eq!(child[i], (selector[i] & dna_0[i]) | (!selector[i] & dna_1[i]));
    }
}

#[test]
fn create_then_transfer_moves_deposit_entirely() {
    let mut p = fresh();
    assert!(p.create(A, [1u8; 16]).is_ok());
    assert!(p.transfer(A, B, 0).is_ok());
    assert_eq!(p.owner(0), Some(B));
    assert_eq!(p.free_balance(A), 10_000);
    assert_eq!(p.reserved_balance(A), 0);
    assert_eq!(p.free_balance(B), 20_000 - DEPOSIT);
    assert_eq!(p.reserved_balance(B), DEPOSIT);
}

#[test]
fn transfer_fails_when_recipient_cannot_cover_deposit() {
    let mut p = fresh();
    assert!(p.create(A, [1u8; 16]).is_ok());
    assert_eq!(p.transfer(A, C, 0), Err(Error::MoneyNotEnough));
    assert_eq!(p.owner(0), Some(A));
    assert_eq!(p.reserved_balance(A), DEPOSIT);
}

#[test]
fn sale_with_zero_price_is_refused() {
    let mut p = fresh();
    assert!(p.create(A, [1u8; 16]).is_ok());
    assert_eq!(p.sale(A, 0, 0), Err(Error::NotForSale));
    assert_eq!(p.kitty_price(0), None);
}

#[test]
fn sale_by_non_owner_is_refused() {
    let mut p = fresh();
    assert!(p.create(A, [1u8; 16]).is_ok());
    assert_eq!(p.sale(B, 0, 5_000), Err(Error::NotOwner));
}

#[test]
fn sale_twice_with_same_price_changes_nothing() {
    let mut p = fresh();
    assert!(p.create(A, [1u8; 16]).is_ok());
    let first = p.sale(A, 0, 5_000).unwrap();
    let ask_after_first = p.market_ask();
    let second = p.sale(A, 0, 5_000).unwrap();
    assert_eq!(first, second);
    assert_eq!(p.kitty_price(0), Some(5_000));
    assert_eq!(p.market_ask(), ask_after_first);
    assert_eq!(p.market_ask(), vec![0]);
}

#[test]
fn relisting_overwrites_the_price() {
    let mut p = fresh();
    assert!(p.create(A, [1u8; 16]).is_ok());
    assert!(p.sale(A, 0, 5_000).is_ok());
    assert!(p.sale(A, 0, 7_000).is_ok());
    assert_eq!(p.kitty_price(0), Some(7_000));
    assert_eq!(p.market_ask(), vec![0]);
}

#[test]
fn ask_index_stays_sorted_and_duplicate_free() {
    let mut p = fresh();
    for i in 0..4 {
        assert!(p.create(A, [i as u8; 16]).is_ok());
    }
    assert!(p.sale(A, 2, 100).is_ok());
    assert!(p.sale(A, 0, 100).is_ok());
    assert!(p.sale(A, 3, 100).is_ok());
    assert!(p.sale(A, 0, 200).is_ok());
    assert_eq!(p.market_ask(), vec![0, 2, 3]);
}

#[test]
fn buy_over_budget_is_refused() {
    let mut p = fresh();
    assert!(p.create(A, [1u8; 16]).is_ok());
    assert!(p.sale(A, 0, 5_000).is_ok());
    assert_eq!(p.buy(B, 0, 4_999), Err(Error::OutOfBudget));
    assert_eq!(p.owner(0), Some(A));
    assert_eq!(p.kitty_price(0), Some(5_000));
}

#[test]
fn buy_without_funds_fails_and_changes_nothing() {
    let mut p = fresh();
    assert!(p.create(A, [1u8; 16]).is_ok());
    assert!(p.sale(A, 0, 5_000).is_ok());
    assert_eq!(p.buy(C, 0, 5_000), Err(Error::TransferFailed));
    assert_eq!(p.owner(0), Some(A));
    assert_eq!(p.kitty_price(0), Some(5_000));
    assert_eq!(p.free_balance(A), 10_000 - DEPOSIT);
    assert_eq!(p.free_balance(C), 0);
}

#[test]
fn buy_that_would_empty_the_buyer_is_refused() {
    // The payment must keep the buyer alive: spending the whole free
    // balance on the price is refused.
    let mut p = fresh();
    p.endow(C, 5_000);
    assert!(p.create(A, [1u8; 16]).is_ok());
    assert!(p.sale(A, 0, 5_000).is_ok());
    assert_eq!(p.buy(C, 0, 5_000), Err(Error::TransferFailed));
}

#[test]
fn buy_needs_deposit_on_top_of_price() {
    // After paying the price the buyer must still cover the deposit.
    let mut p = fresh();
    p.endow(C, 5_500);
    assert!(p.create(A, [1u8; 16]).is_ok());
    assert!(p.sale(A, 0, 5_000).is_ok());
    assert_eq!(p.buy(C, 0, 5_000), Err(Error::MoneyNotEnough));
    assert_eq!(p.owner(0), Some(A));
}

#[test]
fn index_allocator_peeks_then_advances() {
    let mut p = fresh();
    assert_eq!(p.get_kitty_index(), Ok(0));
    assert_eq!(p.next_kitty_index(), Ok(1));
    assert!(p.create(A, [1u8; 16]).is_ok());
    assert_eq!(p.get_kitty_index(), Ok(1));
    assert_eq!(p.next_kitty_index(), Ok(2));
    assert_eq!(p.kitties_count(), 1);
}

#[test]
fn getters_report_the_configuration_and_records() {
    let mut p = fresh();
    assert_eq!(p.asset_deposit(), DEPOSIT);
    assert!(p.kitties(0).is_none());
    assert!(p.create(A, [9u8; 16]).is_ok());
    let k = p.kitties(0).unwrap();
    assert_eq!(k.id, 0);
    assert_eq!(k.dna, [9u8; 16]);
    assert!(!k.for_sale);
    assert_eq!(k.price, 0);
    assert_eq!(p.free_balance(A), 10_000 - DEPOSIT);
}
