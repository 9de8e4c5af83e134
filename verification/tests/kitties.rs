use pallet_kitties::Error;
use pallet_kitties::Event;
use pallet_kitties::Pallet;
use pallet_kitties::RESERVE_OF_NEW_CREATE;

/// A store with account 1 and 2 well funded and account 3 nearly broke,
/// as the five operations expect to find them in the tests below.
fn new_test_ext() -> Pallet {
    let mut p = Pallet::new();
    assert!(p.fund(1, 10_000));
    assert!(p.fund(2, 10_000));
    assert!(p.fund(3, 10));
    p
}

fn entropy() -> [u8; 16] {
    [7u8; 16]
}

#[test]
fn create_with_max_count_overflow() {
    let mut p = new_test_ext();
    assert!(p.put_kitties_count(u32::MAX));
    assert_eq!(p.create(1, entropy()), Err(Error::KittiesCountOverflow));
}

#[test]
fn create_test_success_with_event() {
    let mut p = new_test_ext();
    let r = p.create(1, entropy());
    assert_eq!(p.kitties_count(), Some(1));
    assert_eq!(r, Ok(Event::KittyCreated(1, 1)));
}

#[test]
fn create_last_with_id_max_value() {
    let mut p = new_test_ext();
    assert!(p.put_kitties_count(u32::MAX - 1));
    assert!(p.create(1, entropy()).is_ok());
    assert_eq!(p.kitties_count(), Some(u32::MAX));
}

#[test]
fn create_failed_with_not_enough_balance() {
    let mut p = new_test_ext();
    assert_eq!(p.create(3, entropy()), Err(Error::NotEnoughBalance));
}

#[test]
fn transfer_success() {
    let mut p = new_test_ext();
    assert!(p.create(1, entropy()).is_ok());
    let r = p.transfer(1, 2, 1);
    assert_eq!(r, Ok(Event::KittyTransfered(1, 2, 1)));
}

#[test]
fn transfer_fail_when_to_some_owner() {
    let mut p = new_test_ext();
    let _ = p.create(1, entropy());
    assert_eq!(p.transfer(1, 1, 1), Err(Error::SameOwner));
}

#[test]
fn transfer_fail_not_owner() {
    let mut p = new_test_ext();
    assert!(p.create(1, entropy()).is_ok());
    assert_eq!(p.transfer(2, 1, 1), Err(Error::NotOwnerOfKitty));
}

#[test]
fn breed_success() {
    let mut p = new_test_ext();
    let _ = p.create(1, entropy());
    let _ = p.create(1, entropy());
    let r = p.breed(1, 1, 2, entropy());
    assert_eq!(p.kitties_count(), Some(3));
    assert_eq!(r, Ok(Event::KittyCreated(1, 3)));
}

#[test]
fn breed_fail_with_same_kitty_id() {
    let mut p = new_test_ext();
    assert_eq!(p.breed(1, 1, 1, entropy()), Err(Error::SameParentIndex));
}

#[test]
fn breed_fail_with_invalid_index() {
    let mut p = new_test_ext();
    assert_eq!(p.breed(1, 1, 2, entropy()), Err(Error::InvalidKittyIndex));
}

#[test]
fn breed_fail_with_invalid_owner() {
    let mut p = new_test_ext();
    let _ = p.create(1, entropy());
    let _ = p.create(2, entropy());
    assert_eq!(p.breed(1, 1, 2, entropy()), Err(Error::NotOwnerOfKitty));
}

#[test]
fn breed_fail_with_count_overflow() {
    let mut p = new_test_ext();
    let _ = p.create(1, entropy());
    let _ = p.create(1, entropy());
    assert!(p.put_kitties_count(u32::MAX));
    assert_eq!(p.breed(1, 1, 2, entropy()), Err(Error::KittiesCountOverflow));
}

#[test]
fn sell_fail_with_not_owner() {
    let mut p = new_test_ext();
    assert_eq!(p.sell(1, 1, Some(100)), Err(Error::NotOwnerOfKitty));
}

#[test]
fn sell_success() {
    let mut p = new_test_ext();
    let _ = p.create(1, entropy());
    let r = p.sell(1, 1, Some(100));
    assert_eq!(r, Ok(Event::KittyForSale(1, 1, Some(100))));
}

#[test]
fn cancel_sell_with_none_price() {
    let mut p = new_test_ext();
    let _ = p.create(1, entropy());
    let _ = p.sell(1, 1, Some(100));
    let r = p.sell(1, 1, None);
    assert!(r.is_ok());
    assert_eq!(None, p.kitties_price(1));
    assert_eq!(r, Ok(Event::KittyCancelSale(1, 1)));
}

#[test]
fn buy_failed_when_already_owned() {
    let mut p = new_test_ext();
    let _ = p.create(1, entropy());
    assert_eq!(p.buy(1, 1), Err(Error::KittyAlreadyOwned));
}

#[test]
fn buy_fail_when_not_for_sale() {
    let mut p = new_test_ext();
    let _ = p.create(1, entropy());
    assert_eq!(p.buy(2, 1), Err(Error::NotForSale));
}

#[test]
fn buy_fail_with_not_enough_balance() {
    let mut p = new_test_ext();
    let _ = p.create(1, entropy());
    let _ = p.sell(1, 1, Some(100));
    assert_eq!(p.buy(3, 1), Err(Error::NotEnoughBalance));
}

#[test]
fn buy_success() {
    let mut p = new_test_ext();
    let _ = p.create(1, entropy());
    let _ = p.sell(1, 1, Some(100));
    let r = p.buy(2, 1);
    assert!(r.is_ok());
    assert_eq!(p.kitties_price(1).is_some(), false);
    assert_eq!(r, Ok(Event::KittyTransfered(1, 2, 1)));
}

#[test]
fn create_assigns_entropy_as_payload() {
    let mut p = new_test_ext();
    let dna: [u8; 16] = [1, 2, 3, 4, 5, 6, 7, 8, 9, 10, 11, 12, 13, 14, 15, 16];
    assert!(p.create(1, dna).is_ok());
    assert_eq!(p.kitties(1).unwrap().0, dna);
}

#[test]
fn create_with_empty_store_assigns_id_one() {
    let mut p = new_test_ext();
    assert_eq!(p.kitties_count(), None);
    let r = p.create(1, entropy());
    assert_eq!(r, Ok(Event::KittyCreated(1, 1)));
    assert_eq!(p.kitties_count(), Some(1));
    assert_eq!(p.owner(1), Some(1));
}

#[test]
fn breed_child_payload_is_bitwise_select() {
    let mut p = new_test_ext();
    let dna1 = [0xf0u8; 16];
    let dna2 = [0x0fu8; 16];
    let sel: [u8; 16] = [
        0x00, 0xff, 0x0f, 0xf0, 0x55, 0xaa, 0x33, 0xcc, 0x01, 0x80, 0x7e, 0x18, 0x24, 0x42, 0x99,
        0x66,
    ];
    assert!(p.create(1, dna1).is_ok());
    assert!(p.create(1, dna2).is_ok());
    let r = p.breed(1, 1, 2, sel);
    assert_eq!(r, Ok(Event::KittyCreated(1, 3)));
    assert_eq!(p.kitties_count(), Some(3));
    let child = p.kitties(3).unwrap().0;
    for i in 0..16 {
        assert_eq!(child[i], (sel[i] & dna1[i]) | (!sel[i] & dna2[i]));
    }
}

#[test]
fn breed_same_parent_leaves_count_untouched() {
    let mut p = new_test_ext();
    assert_eq!(p.breed(1, 5, 5, entropy()), Err(Error::SameParentIndex));
    assert_eq!(p.kitties_count(), None);
}

#[test]
fn self_transfer_leaves_store_unchanged() {
    let mut p = new_test_ext();
    let _ = p.create(1, entropy());
    assert_eq!(p.transfer(1, 1, 1), Err(Error::SameOwner));
    assert_eq!(p.owner(1), Some(1));
    assert_eq!(p.kitties_count(), Some(1));
    assert_eq!(p.free_balance(1), 10_000 - RESERVE_OF_NEW_CREATE);
    assert_eq!(p.reserved_balance(1), RESERVE_OF_NEW_CREATE);
}

#[test]
fn buy_moves_price_and_collateral() {
    let mut p = new_test_ext();
    let _ = p.create(1, entropy());
    let _ = p.sell(1, 1, Some(100));
    assert!(p.buy(2, 1).is_ok());
    assert_eq!(p.owner(1), Some(2));
    assert_eq!(p.kitties_price(1), None);
    assert_eq!(p.free_balance(1), 10_000 + 100);
    assert_eq!(p.reserved_balance(1), 0);
    assert_eq!(p.free_balance(2), 10_000 - RESERVE_OF_NEW_CREATE - 100);
    assert_eq!(p.reserved_balance(2), RESERVE_OF_NEW_CREATE);
    let before: u64 = 10_000 + 10_000;
    let after = p.free_balance(1) + p.reserved_balance(1) + p.free_balance(2)
        + p.reserved_balance(2);
    assert_eq!(before, after);
}

#[test]
fn buy_fails_when_payment_would_kill_buyer() {
    let mut p = Pallet::new();
    assert!(p.fund(1, 10_000));
    assert!(p.fund(2, RESERVE_OF_NEW_CREATE + 100));
    let _ = p.create(1, entropy());
    let _ = p.sell(1, 1, Some(100));
    assert_eq!(p.buy(2, 1), Err(Error::WouldKillAccount));
    assert_eq!(p.owner(1), Some(1));
    assert_eq!(p.free_balance(2), RESERVE_OF_NEW_CREATE + 100);
    assert_eq!(p.reserved_balance(2), 0);
}

#[test]
fn buy_clamps_release_when_seller_never_reserved() {
    let mut p = new_test_ext();
    let _ = p.create(1, entropy());
    assert!(p.transfer(1, 2, 1).is_ok());
    let _ = p.sell(2, 1, Some(100));
    assert!(p.fund(4, 10_000));
    assert!(p.buy(4, 1).is_ok());
    assert_eq!(p.owner(1), Some(4));
    assert_eq!(p.free_balance(2), 10_000 + 100);
    assert_eq!(p.reserved_balance(2), 0);
    assert_eq!(p.reserved_balance(1), RESERVE_OF_NEW_CREATE);
}

#[test]
fn transfer_keeps_listing_attached() {
    let mut p = new_test_ext();
    let _ = p.create(1, entropy());
    let _ = p.sell(1, 1, Some(100));
    assert!(p.transfer(1, 2, 1).is_ok());
    assert_eq!(p.kitties_price(1), Some(100));
}

#[test]
fn transfer_of_missing_kitty_fails() {
    let mut p = new_test_ext();
    assert_eq!(p.transfer(1, 2, 99), Err(Error::InvalidKittyIndex));
}

#[test]
fn buy_of_missing_kitty_fails() {
    let mut p = new_test_ext();
    assert_eq!(p.buy(2, 99), Err(Error::InvalidKittyIndex));
}

#[test]
fn sell_overwrites_earlier_price() {
    let mut p = new_test_ext();
    let _ = p.create(1, entropy());
    let _ = p.sell(1, 1, Some(100));
    let _ = p.sell(1, 1, Some(200));
    assert_eq!(p.kitties_price(1), Some(200));
}

#[test]
fn fund_refuses_total_overflow() {
    let mut p = Pallet::new();
    assert!(p.fund(1, u64::MAX));
    assert!(!p.fund(2, 1));
    assert_eq!(p.free_balance(2), 0);
}

#[test]
fn failed_create_allocates_no_id() {
    let mut p = new_test_ext();
    assert_eq!(p.create(3, entropy()), Err(Error::NotEnoughBalance));
    assert_eq!(p.kitties_count(), None);
    assert_eq!(p.free_balance(3), 10);
    assert_eq!(p.reserved_balance(3), 0);
}

#[test]
fn put_kitties_count_refuses_lowering() {
    let mut p = new_test_ext();
    let _ = p.create(1, entropy());
    assert!(!p.put_kitties_count(0));
    assert_eq!(p.kitties_count(), Some(1));
}

#[test]
fn ids_increase_across_creates_and_breeds() {
    let mut p = new_test_ext();
    assert_eq!(p.create(1, entropy()), Ok(Event::KittyCreated(1, 1)));
    assert_eq!(p.create(1, entropy()), Ok(Event::KittyCreated(1, 2)));
    assert_eq!(p.breed(1, 1, 2, entropy()), Ok(Event::KittyCreated(1, 3)));
    assert_eq!(p.create(2, entropy()), Ok(Event::KittyCreated(2, 4)));
}
