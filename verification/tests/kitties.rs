use pallets::kitties::{Error, Event, Kitty, Pallet};

fn genes(first: u8) -> [u8; 16] {
    let mut g = [0u8; 16];
    for (i, byte) in g.iter_mut().enumerate() {
        *byte = first.wrapping_add(i as u8);
    }
    g
}

#[test]
fn ids_are_handed_out_in_order() {
    let mut kitties = Pallet::new();
    assert_eq!(kitties.next_kitty_id(), 0);
    assert_eq!(kitties.get_next_id(), Ok(0));
    assert_eq!(kitties.get_next_id(), Ok(1));
    assert_eq!(kitties.get_next_id(), Ok(2));
    assert_eq!(kitties.next_kitty_id(), 3);
}

#[test]
fn allocation_fails_at_the_maximum_and_changes_nothing() {
    let mut kitties = Pallet::restore(u32::MAX - 1, &vec![]).unwrap();
    assert_eq!(kitties.get_next_id(), Ok(u32::MAX - 1));
    assert_eq!(kitties.next_kitty_id(), u32::MAX);
    let before = kitties.clone();
    assert_eq!(kitties.get_next_id(), Err(Error::AllocationExhausted));
    assert_eq!(kitties.create(1), Err(Error::AllocationExhausted));
    assert_eq!(kitties, before);
    assert_eq!(kitties.next_kitty_id(), u32::MAX);
}

#[test]
fn create_registers_a_kitty_with_its_owner() {
    let mut kitties = Pallet::new();
    assert_eq!(
        kitties.create(5),
        Ok(Event::KittyCreated { who: 5, kitty_id: 0, kitty: Kitty([0; 16]) })
    );
    assert_eq!(
        kitties.create(6),
        Ok(Event::KittyCreated { who: 6, kitty_id: 1, kitty: Kitty([0; 16]) })
    );
    assert_eq!(kitties.kitties(0), Some(Kitty([0; 16])));
    assert_eq!(kitties.kitty_owner(0), Some(5));
    assert_eq!(kitties.kitty_owner(1), Some(6));
    assert_eq!(kitties.kitties(2), None);
    assert_eq!(kitties.kitty_owner(2), None);
    assert_eq!(kitties.next_kitty_id(), 2);
}

#[test]
fn breed_with_takes_bits_by_the_selector() {
    let a = Kitty([0xF0; 16]);
    let b = Kitty([0x0F; 16]);
    assert_eq!(a.breed_with(&b, &[0xAA; 16]), Kitty([0xA5; 16]));
    assert_eq!(a.breed_with(&b, &[0xFF; 16]), a);
    assert_eq!(a.breed_with(&b, &[0x00; 16]), b);

    let a = Kitty(genes(0x10));
    let b = Kitty(genes(0xC3));
    let selector = genes(0x5A);
    let mut expected = [0u8; 16];
    for i in 0..16 {
        expected[i] = (a.0[i] & selector[i]) | (b.0[i] & !selector[i]);
    }
    assert_eq!(expected[0], 0x91);
    assert_eq!(expected[1], 0x95);
    assert_eq!(a.breed_with(&b, &selector), Kitty(expected));
}

#[test]
fn breed_registers_the_child() {
    let a = Kitty([0xF0; 16]);
    let b = Kitty([0x0F; 16]);
    let mut kitties = Pallet::restore(9, &vec![(3, a, 1), (8, b, 2)]).unwrap();
    assert_eq!(
        kitties.breed_with_selector(4, 3, 8, &[0xAA; 16]),
        Ok(Event::KittyCreated { who: 4, kitty_id: 9, kitty: Kitty([0xA5; 16]) })
    );
    assert_eq!(kitties.kitties(9), Some(Kitty([0xA5; 16])));
    assert_eq!(kitties.kitty_owner(9), Some(4));
    assert_eq!(kitties.next_kitty_id(), 10);
    assert_eq!(kitties.kitties(3), Some(a));
    assert_eq!(kitties.kitties(8), Some(b));
    assert_eq!(kitties.kitty_owner(3), Some(1));
    assert_eq!(kitties.kitty_owner(8), Some(2));
}

#[test]
fn breed_is_reproducible() {
    let a = Kitty(genes(1));
    let b = Kitty(genes(200));
    let mut kitties = Pallet::restore(2, &vec![(0, a, 1), (1, b, 1)]).unwrap();
    let selector = genes(77);
    let first = kitties.breed_with_selector(1, 0, 1, &selector).unwrap();
    let second = kitties.breed_with_selector(2, 0, 1, &selector).unwrap();
    let Event::KittyCreated { kitty_id: id_1, kitty: child_1, .. } = first;
    let Event::KittyCreated { kitty_id: id_2, kitty: child_2, .. } = second;
    assert_eq!(child_1, child_2);
    assert_eq!((id_1, id_2), (2, 3));
}

#[test]
fn breed_with_itself_fails_without_allocating() {
    let mut kitties = Pallet::new();
    assert_eq!(kitties.breed_with_selector(1, 0, 0, &[0xFF; 16]), Err(Error::SameKittyId));
    assert_eq!(kitties.breed(1, 0, 0, &[1, 2, 3], 0), Err(Error::SameKittyId));
    assert_eq!(kitties, Pallet::new());
    assert_eq!(kitties.get_next_id(), Ok(0));

    let mut kitties = Pallet::new();
    assert!(kitties.create(1).is_ok());
    let before = kitties.clone();
    assert_eq!(kitties.breed_with_selector(1, 0, 0, &[0x00; 16]), Err(Error::SameKittyId));
    assert_eq!(kitties.breed(1, 0, 0, &[], 9), Err(Error::SameKittyId));
    assert_eq!(kitties, before);
    assert_eq!(kitties.create(1), Ok(Event::KittyCreated { who: 1, kitty_id: 1, kitty: Kitty([0; 16]) }));
}

#[test]
fn breed_needs_both_parents_registered() {
    let mut kitties = Pallet::new();
    assert!(kitties.create(1).is_ok());
    let before = kitties.clone();
    assert_eq!(kitties.breed_with_selector(1, 0, 1, &[0; 16]), Err(Error::InvalidKittyId));
    assert_eq!(kitties.breed_with_selector(1, 1, 0, &[0; 16]), Err(Error::InvalidKittyId));
    assert_eq!(kitties.breed_with_selector(1, 4, 5, &[0; 16]), Err(Error::InvalidKittyId));
    assert_eq!(kitties, before);
    assert_eq!(kitties.next_kitty_id(), 1);
}

#[test]
fn breed_fails_at_the_maximum_after_the_parents_are_checked() {
    let a = Kitty(genes(1));
    let b = Kitty(genes(2));
    let mut kitties = Pallet::restore(u32::MAX, &vec![(0, a, 1), (1, b, 1)]).unwrap();
    let before = kitties.clone();
    assert_eq!(kitties.breed_with_selector(1, 0, 1, &[0; 16]), Err(Error::AllocationExhausted));
    assert_eq!(kitties.breed_with_selector(1, 0, 0, &[0; 16]), Err(Error::SameKittyId));
    assert_eq!(kitties.breed_with_selector(1, 0, 7, &[0; 16]), Err(Error::InvalidKittyId));
    assert_eq!(kitties, before);
}

#[test]
fn transfer_changes_one_owner() {
    let mut kitties = Pallet::new();
    assert!(kitties.create(1).is_ok());
    assert!(kitties.create(1).is_ok());
    assert_eq!(kitties.transfer(1, 0, 2), Ok(()));
    assert_eq!(kitties.kitty_owner(0), Some(2));
    assert_eq!(kitties.kitty_owner(1), Some(1));
    assert_eq!(kitties.kitties(0), Some(Kitty([0; 16])));
    assert_eq!(kitties.next_kitty_id(), 2);
    assert_eq!(kitties.transfer(2, 0, 2), Ok(()));
    assert_eq!(kitties.kitty_owner(0), Some(2));
}

#[test]
fn failed_transfer_changes_nothing() {
    let mut kitties = Pallet::new();
    assert!(kitties.create(1).is_ok());
    let before = kitties.clone();
    assert_eq!(kitties.transfer(2, 0, 3), Err(Error::NotOwner));
    assert_eq!(kitties.transfer(1, 1, 3), Err(Error::InvalidKittyId));
    assert_eq!(kitties.transfer(2, 1, 3), Err(Error::InvalidKittyId));
    assert_eq!(kitties, before);
    assert_eq!(kitties.kitty_owner(0), Some(1));
}

#[test]
fn restore_holds_what_it_is_given() {
    let a = Kitty(genes(1));
    let b = Kitty(genes(2));
    let kitties = Pallet::restore(6, &vec![(5, a, 10), (2, b, 20)]).unwrap();
    assert_eq!(kitties.next_kitty_id(), 6);
    assert_eq!(kitties.kitties(5), Some(a));
    assert_eq!(kitties.kitties(2), Some(b));
    assert_eq!(kitties.kitty_owner(5), Some(10));
    assert_eq!(kitties.kitty_owner(2), Some(20));
    assert_eq!(kitties.kitties(0), None);
    assert_eq!(Pallet::restore(0, &vec![]), Some(Pallet::new()));
}

#[test]
fn restore_refuses_what_cannot_be_a_ledger() {
    let a = Kitty(genes(1));
    assert_eq!(Pallet::restore(5, &vec![(5, a, 1)]), None);
    assert_eq!(Pallet::restore(0, &vec![(0, a, 1)]), None);
    assert_eq!(Pallet::restore(9, &vec![(3, a, 1), (4, a, 1), (3, a, 2)]), None);
    assert!(Pallet::restore(9, &vec![(3, a, 1), (4, a, 1)]).is_some());
}

#[test]
fn default_kitty_has_zero_genes() {
    assert_eq!(Kitty::default(), Kitty([0; 16]));
    let mut kitties = Pallet::new();
    assert_eq!(
        kitties.create(3),
        Ok(Event::KittyCreated { who: 3, kitty_id: 0, kitty: Kitty::default() })
    );
}
