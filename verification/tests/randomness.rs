use pallets::kitties::{Event, Kitty, Pallet};
use pallets::randomness::{derive_seed, encode_seed_input};

#[test]
fn seed_input_is_entropy_then_caller_then_index() {
    assert_eq!(
        encode_seed_input(&[1, 2, 3], 7, 2),
        vec![1, 2, 3, 7, 0, 0, 0, 0, 0, 0, 0, 2, 0, 0, 0]
    );
    assert_eq!(
        encode_seed_input(&[], 0x0102030405060708, 0x0A0B0C0D),
        vec![8, 7, 6, 5, 4, 3, 2, 1, 0x0D, 0x0C, 0x0B, 0x0A]
    );
}

#[test]
fn seed_is_the_blake2_digest_of_its_input() {
    assert_eq!(
        derive_seed(&[], 0, 0),
        [92, 240, 71, 154, 56, 19, 128, 2, 106, 5, 193, 231, 188, 24, 191, 187]
    );
    assert_eq!(
        derive_seed(&[1, 2, 3], 7, 2),
        [36, 249, 60, 144, 243, 114, 3, 109, 95, 171, 61, 13, 48, 65, 115, 175]
    );
}

#[test]
fn seed_differs_from_call_to_call_and_repeats_on_replay() {
    let first = derive_seed(&[1, 2, 3], 7, 2);
    let next = derive_seed(&[1, 2, 3], 7, 3);
    assert_eq!(next, [39, 13, 50, 200, 211, 102, 129, 42, 41, 31, 116, 158, 233, 53, 112, 164]);
    assert_ne!(first, next);
    assert_eq!(first, derive_seed(&[1, 2, 3], 7, 2));
}

#[test]
fn breed_selects_by_the_derived_seed() {
    let a = Kitty([0xFF; 16]);
    let b = Kitty([0x00; 16]);
    let mut kitties = Pallet::restore(2, &vec![(0, a, 7), (1, b, 7)]).unwrap();
    let seed = [36, 249, 60, 144, 243, 114, 3, 109, 95, 171, 61, 13, 48, 65, 115, 175];
    assert_eq!(
        kitties.breed(7, 0, 1, &[1, 2, 3], 2),
        Ok(Event::KittyCreated { who: 7, kitty_id: 2, kitty: Kitty(seed) })
    );
    let mut replay = Pallet::restore(2, &vec![(0, a, 7), (1, b, 7)]).unwrap();
    assert_eq!(
        replay.breed_with_selector(7, 0, 1, &derive_seed(&[1, 2, 3], 7, 2)),
        Ok(Event::KittyCreated { who: 7, kitty_id: 2, kitty: Kitty(seed) })
    );
    assert_eq!(kitties, replay);
}
