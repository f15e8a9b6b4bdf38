use kitties::genome::random_value;
use kitties::pallet::Pallet;
use kitties::registry::Call;
use kitties::types::{AccountId, Balance, Config, Error, Event, Kitty, KittyIndex, Origin};

const ALICE: AccountId = 1;
const BOB: AccountId = 2;
const CAROL: AccountId = 3;

const PRICE: Balance = 100;

fn config() -> Config {
    Config { kitty_price: PRICE, max_kitty_length: 3, max_kitty_index: KittyIndex::MAX }
}

fn funded(config: Config) -> Pallet {
    let mut pallet = Pallet::new(config);
    assert!(pallet.deposit(ALICE, 1_000));
    assert!(pallet.deposit(BOB, 1_000));
    pallet
}

fn dna(byte: u8) -> [u8; 16] {
    [byte; 16]
}

fn alternating() -> [u8; 16] {
    let mut selector = [0u8; 16];
    let mut i = 0;
    while i < 16 {
        selector[i] = if i % 2 == 0 { 0xAA } else { 0x55 };
        i += 1;
    }
    selector
}

/// Everything that can be observed of the accounts and identifiers given.
fn snapshot(
    pallet: &Pallet,
) -> (KittyIndex, Vec<(Option<Kitty>, Option<AccountId>)>, Vec<(Vec<Kitty>, Balance, Balance)>) {
    let mut kitties = Vec::new();
    let mut id: KittyIndex = 0;
    while id < 8 {
        kitties.push((pallet.kitties(id), pallet.kitty_onwer(id)));
        id += 1;
    }
    let mut accounts = Vec::new();
    for who in [ALICE, BOB, CAROL] {
        accounts.push((
            pallet.all_kts_owned(who),
            pallet.free_balance(who),
            pallet.reserved_balance(who),
        ));
    }
    (pallet.next_kitty_id(), kitties, accounts)
}

#[test]
fn new_registry_is_empty() {
    let pallet = Pallet::new(config());
    assert_eq!(pallet.next_kitty_id(), 0);
    assert_eq!(pallet.kitties(0), None);
    assert_eq!(pallet.kitty_onwer(0), None);
    assert_eq!(pallet.all_kts_owned(ALICE), Vec::<Kitty>::new());
    assert_eq!(pallet.free_balance(ALICE), 0);
    assert_eq!(pallet.reserved_balance(ALICE), 0);
    assert_eq!(pallet.get_next_id(), Ok(0));
    assert_eq!(pallet.get_kitty(0), Err(Error::InvalidAssetId));
}

#[test]
fn create_registers_kitty_and_reserves_stake() {
    let mut pallet = funded(config());
    let result = pallet.create_with_dna(Origin::Signed(ALICE), dna(7));
    assert_eq!(result, Ok(Event::KittyCreate(ALICE, 0, Kitty(dna(7)))));
    assert_eq!(pallet.next_kitty_id(), 1);
    assert_eq!(pallet.kitties(0), Some(Kitty(dna(7))));
    assert_eq!(pallet.get_kitty(0), Ok(Kitty(dna(7))));
    assert_eq!(pallet.kitty_onwer(0), Some(ALICE));
    assert_eq!(pallet.all_kts_owned(ALICE), vec![Kitty(dna(7))]);
    assert_eq!(pallet.free_balance(ALICE), 900);
    assert_eq!(pallet.reserved_balance(ALICE), 100);
    assert_eq!(pallet.free_balance(BOB), 1_000);
    assert_eq!(pallet.reserved_balance(BOB), 0);
}

#[test]
fn identifiers_increase_by_one_and_never_repeat() {
    let mut config = config();
    config.max_kitty_length = 10;
    let mut pallet = funded(config);
    let mut seen: Vec<KittyIndex> = Vec::new();
    let mut round: u8 = 0;
    while round < 6 {
        let who = if round % 2 == 0 { ALICE } else { BOB };
        // A refused call in between must not use up an identifier.
        assert_eq!(
            pallet.create_with_dna(Origin::Unsigned, dna(round)),
            Err(Error::Unauthorized)
        );
        match pallet.create_with_dna(Origin::Signed(who), dna(round)) {
            Ok(Event::KittyCreate(owner, id, kitty)) => {
                assert_eq!(owner, who);
                assert_eq!(kitty, Kitty(dna(round)));
                seen.push(id);
            },
            other => panic!("unexpected outcome {:?}", other),
        }
        round += 1;
    }
    assert_eq!(seen, vec![0, 1, 2, 3, 4, 5]);
    assert_eq!(pallet.next_kitty_id(), 6);
    let bred = pallet.breed_with_selector(Origin::Signed(ALICE), 0, 1, dna(0xFF));
    assert!(matches!(bred, Ok(Event::KittyBreed(ALICE, 6, _))));
    assert_eq!(pallet.next_kitty_id(), 7);
}

#[test]
fn create_refuses_unsigned_origins() {
    let mut pallet = funded(config());
    let before = snapshot(&pallet);
    assert_eq!(pallet.create_with_dna(Origin::Unsigned, dna(1)), Err(Error::Unauthorized));
    assert_eq!(pallet.create_with_dna(Origin::Root, dna(1)), Err(Error::Unauthorized));
    assert_eq!(pallet.create(Origin::Root, &[1, 2, 3], Some(0)), Err(Error::Unauthorized));
    assert_eq!(snapshot(&pallet), before);
}

#[test]
fn create_refuses_account_without_stake() {
    let mut pallet = funded(config());
    assert!(pallet.deposit(CAROL, PRICE - 1));
    let before = snapshot(&pallet);
    assert_eq!(
        pallet.create_with_dna(Origin::Signed(CAROL), dna(1)),
        Err(Error::InsufficientBalance)
    );
    assert_eq!(snapshot(&pallet), before);
    assert!(pallet.deposit(CAROL, 1));
    assert_eq!(
        pallet.create_with_dna(Origin::Signed(CAROL), dna(1)),
        Ok(Event::KittyCreate(CAROL, 0, Kitty(dna(1))))
    );
    assert_eq!(pallet.free_balance(CAROL), 0);
    assert_eq!(pallet.reserved_balance(CAROL), PRICE);
}

#[test]
fn create_refuses_when_identifiers_are_exhausted() {
    let mut config = config();
    config.max_kitty_index = 2;
    let mut pallet = funded(config);
    assert_eq!(pallet.get_next_id(), Ok(0));
    assert!(pallet.create_with_dna(Origin::Signed(ALICE), dna(1)).is_ok());
    assert_eq!(pallet.get_next_id(), Ok(1));
    assert!(pallet.create_with_dna(Origin::Signed(ALICE), dna(2)).is_ok());
    assert_eq!(pallet.get_next_id(), Err(Error::IdentifierExhausted));
    let before = snapshot(&pallet);
    assert_eq!(
        pallet.create_with_dna(Origin::Signed(ALICE), dna(3)),
        Err(Error::IdentifierExhausted)
    );
    assert_eq!(
        pallet.breed_with_selector(Origin::Signed(BOB), 0, 1, dna(0xFF)),
        Err(Error::IdentifierExhausted)
    );
    assert_eq!(snapshot(&pallet), before);
    assert_eq!(pallet.next_kitty_id(), 2);
}

#[test]
fn exhausted_from_the_start_when_no_identifier_is_configured() {
    let mut config = config();
    config.max_kitty_index = 0;
    let mut pallet = funded(config);
    assert_eq!(
        pallet.create_with_dna(Origin::Signed(ALICE), dna(3)),
        Err(Error::IdentifierExhausted)
    );
    assert_eq!(pallet.reserved_balance(ALICE), 0);
}

#[test]
fn full_collection_refuses_further_kitties() {
    let mut pallet = funded(config());
    for byte in [1u8, 2, 3] {
        assert!(pallet.create_with_dna(Origin::Signed(ALICE), dna(byte)).is_ok());
    }
    assert_eq!(pallet.all_kts_owned(ALICE).len(), 3);
    assert_eq!(pallet.reserved_balance(ALICE), 300);
    let before = snapshot(&pallet);
    assert_eq!(
        pallet.create_with_dna(Origin::Signed(ALICE), dna(4)),
        Err(Error::OwnerCollectionFull)
    );
    assert_eq!(
        pallet.breed_with_selector(Origin::Signed(ALICE), 0, 1, dna(0xFF)),
        Err(Error::OwnerCollectionFull)
    );
    assert_eq!(snapshot(&pallet), before);
    assert_eq!(pallet.all_kts_owned(ALICE), vec![Kitty(dna(1)), Kitty(dna(2)), Kitty(dna(3))]);
    assert_eq!(pallet.reserved_balance(ALICE), 300);
    assert_eq!(pallet.free_balance(ALICE), 700);
}

#[test]
fn transfer_into_full_collection_is_refused() {
    let mut pallet = funded(config());
    for byte in [1u8, 2, 3] {
        assert!(pallet.create_with_dna(Origin::Signed(ALICE), dna(byte)).is_ok());
    }
    assert!(pallet.create_with_dna(Origin::Signed(BOB), dna(9)).is_ok());
    let before = snapshot(&pallet);
    assert_eq!(pallet.transfor(Origin::Signed(BOB), 3, ALICE), Err(Error::OwnerCollectionFull));
    assert_eq!(snapshot(&pallet), before);
    // A full owner can still hand a kitty to itself: it leaves before it enters.
    assert_eq!(
        pallet.transfor(Origin::Signed(ALICE), 0, ALICE),
        Ok(Event::KittyTransfor(ALICE, 0, ALICE))
    );
    assert_eq!(pallet.all_kts_owned(ALICE), vec![Kitty(dna(2)), Kitty(dna(3)), Kitty(dna(1))]);
}

#[test]
fn zero_capacity_refuses_every_kitty() {
    let mut config = config();
    config.max_kitty_length = 0;
    let mut pallet = funded(config);
    assert_eq!(
        pallet.create_with_dna(Origin::Signed(ALICE), dna(1)),
        Err(Error::OwnerCollectionFull)
    );
    assert_eq!(pallet.reserved_balance(ALICE), 0);
    assert_eq!(pallet.next_kitty_id(), 0);
}

#[test]
fn breeding_a_kitty_with_itself_masks_it_with_the_selector() {
    let mut pallet = funded(config());
    let created = pallet.create_with_dna(Origin::Signed(ALICE), dna(0xFF));
    assert_eq!(created, Ok(Event::KittyCreate(ALICE, 0, Kitty(dna(0xFF)))));
    let bred = pallet.breed_with_selector(Origin::Signed(ALICE), 0, 0, alternating());
    let expected: [u8; 16] = [
        0xAA, 0x55, 0xAA, 0x55, 0xAA, 0x55, 0xAA, 0x55, 0xAA, 0x55, 0xAA, 0x55, 0xAA, 0x55, 0xAA,
        0x55,
    ];
    assert_eq!(bred, Ok(Event::KittyBreed(ALICE, 1, Kitty(expected))));
    assert_eq!(pallet.kitties(1), Some(Kitty(expected)));
    assert_eq!(pallet.kitty_onwer(1), Some(ALICE));
    assert_eq!(pallet.all_kts_owned(ALICE), vec![Kitty(dna(0xFF)), Kitty(expected)]);
    assert_eq!(pallet.reserved_balance(ALICE), 200);
    assert_eq!(pallet.free_balance(ALICE), 800);
}

#[test]
fn breeding_combines_both_parents_under_the_selector() {
    let mut pallet = funded(config());
    assert!(pallet.create_with_dna(Origin::Signed(ALICE), dna(0b1100_0011)).is_ok());
    assert!(pallet.create_with_dna(Origin::Signed(BOB), dna(0b0011_0101)).is_ok());
    // Anyone may breed any two registered kitties.
    assert!(pallet.deposit(CAROL, PRICE));
    let bred = pallet.breed_with_selector(Origin::Signed(CAROL), 0, 1, dna(0b1111_0000));
    assert_eq!(bred, Ok(Event::KittyBreed(CAROL, 2, Kitty(dna(0b1111_0000)))));
    assert_eq!(pallet.kitty_onwer(2), Some(CAROL));
    assert_eq!(pallet.reserved_balance(CAROL), PRICE);
    assert_eq!(pallet.free_balance(CAROL), 0);
    assert_eq!(pallet.reserved_balance(ALICE), PRICE);
    assert_eq!(pallet.reserved_balance(BOB), PRICE);
}

#[test]
fn zero_selector_breeds_the_zero_genome() {
    let mut pallet = funded(config());
    assert!(pallet.create_with_dna(Origin::Signed(ALICE), dna(0xC3)).is_ok());
    assert!(pallet.create_with_dna(Origin::Signed(ALICE), dna(0x35)).is_ok());
    let bred = pallet.breed_with_selector(Origin::Signed(BOB), 0, 1, dna(0));
    assert_eq!(bred, Ok(Event::KittyBreed(BOB, 2, Kitty(dna(0)))));
}

#[test]
fn breeding_from_an_unknown_parent_is_refused() {
    let mut pallet = funded(config());
    assert!(pallet.create_with_dna(Origin::Signed(ALICE), dna(1)).is_ok());
    let before = snapshot(&pallet);
    assert_eq!(
        pallet.breed_with_selector(Origin::Signed(BOB), 0, 5, dna(0xFF)),
        Err(Error::InvalidAssetId)
    );
    assert_eq!(
        pallet.breed_with_selector(Origin::Signed(BOB), 5, 0, dna(0xFF)),
        Err(Error::InvalidAssetId)
    );
    assert_eq!(pallet.breed(Origin::Signed(BOB), 7, 7, &[9; 32], Some(1)), Err(Error::InvalidAssetId));
    assert_eq!(snapshot(&pallet), before);
    assert_eq!(pallet.free_balance(BOB), 1_000);
    assert_eq!(pallet.reserved_balance(BOB), 0);
}

#[test]
fn breeding_asks_for_stake_before_it_looks_at_the_parents() {
    let mut pallet = funded(config());
    let before = snapshot(&pallet);
    assert_eq!(
        pallet.breed_with_selector(Origin::Signed(CAROL), 0, 1, dna(0xFF)),
        Err(Error::InsufficientBalance)
    );
    assert_eq!(
        pallet.breed_with_selector(Origin::Unsigned, 0, 1, dna(0xFF)),
        Err(Error::Unauthorized)
    );
    assert_eq!(snapshot(&pallet), before);
}

#[test]
fn transfer_moves_kitty_and_stake() {
    let mut pallet = funded(config());
    assert!(pallet.create_with_dna(Origin::Signed(ALICE), dna(1)).is_ok());
    assert!(pallet.create_with_dna(Origin::Signed(ALICE), dna(2)).is_ok());
    assert_eq!(
        pallet.transfor(Origin::Signed(ALICE), 0, BOB),
        Ok(Event::KittyTransfor(ALICE, 0, BOB))
    );
    assert_eq!(pallet.kitty_onwer(0), Some(BOB));
    assert_eq!(pallet.kitty_onwer(1), Some(ALICE));
    assert_eq!(pallet.kitties(0), Some(Kitty(dna(1))));
    assert_eq!(pallet.all_kts_owned(ALICE), vec![Kitty(dna(2))]);
    assert_eq!(pallet.all_kts_owned(BOB), vec![Kitty(dna(1))]);
    assert_eq!(pallet.free_balance(ALICE), 900);
    assert_eq!(pallet.reserved_balance(ALICE), 100);
    assert_eq!(pallet.free_balance(BOB), 900);
    assert_eq!(pallet.reserved_balance(BOB), 100);
    assert_eq!(pallet.next_kitty_id(), 2);
}

#[test]
fn transfer_by_a_stranger_is_refused() {
    let mut pallet = funded(config());
    assert!(pallet.create_with_dna(Origin::Signed(ALICE), dna(1)).is_ok());
    let before = snapshot(&pallet);
    assert_eq!(pallet.transfor(Origin::Signed(BOB), 0, CAROL), Err(Error::NotOwner));
    assert_eq!(pallet.transfor(Origin::Signed(BOB), 0, BOB), Err(Error::NotOwner));
    assert_eq!(snapshot(&pallet), before);
    assert_eq!(pallet.kitty_onwer(0), Some(ALICE));
    assert_eq!(pallet.reserved_balance(ALICE), 100);
    assert_eq!(pallet.reserved_balance(BOB), 0);
}

#[test]
fn transfer_of_an_unknown_kitty_is_refused() {
    let mut pallet = funded(config());
    assert!(pallet.create_with_dna(Origin::Signed(ALICE), dna(1)).is_ok());
    let before = snapshot(&pallet);
    assert_eq!(pallet.transfor(Origin::Signed(ALICE), 1, BOB), Err(Error::InvalidAssetId));
    assert_eq!(pallet.transfor(Origin::Unsigned, 0, BOB), Err(Error::Unauthorized));
    assert_eq!(snapshot(&pallet), before);
}

#[test]
fn transfer_to_a_recipient_without_stake_is_refused() {
    let mut pallet = funded(config());
    assert!(pallet.create_with_dna(Origin::Signed(ALICE), dna(1)).is_ok());
    assert!(pallet.deposit(CAROL, PRICE - 1));
    let before = snapshot(&pallet);
    assert_eq!(pallet.transfor(Origin::Signed(ALICE), 0, CAROL), Err(Error::InsufficientBalance));
    assert_eq!(snapshot(&pallet), before);
    assert_eq!(pallet.free_balance(ALICE), 900);
    assert_eq!(pallet.reserved_balance(ALICE), 100);
    assert_eq!(pallet.free_balance(CAROL), PRICE - 1);
    assert_eq!(pallet.reserved_balance(CAROL), 0);
    assert_eq!(pallet.kitty_onwer(0), Some(ALICE));
}

#[test]
fn transfer_to_oneself_needs_no_free_balance() {
    let mut pallet = Pallet::new(config());
    assert!(pallet.deposit(ALICE, PRICE));
    assert!(pallet.create_with_dna(Origin::Signed(ALICE), dna(1)).is_ok());
    assert_eq!(pallet.free_balance(ALICE), 0);
    assert_eq!(
        pallet.transfor(Origin::Signed(ALICE), 0, ALICE),
        Ok(Event::KittyTransfor(ALICE, 0, ALICE))
    );
    assert_eq!(pallet.free_balance(ALICE), 0);
    assert_eq!(pallet.reserved_balance(ALICE), PRICE);
    assert_eq!(pallet.kitty_onwer(0), Some(ALICE));
    assert_eq!(pallet.all_kts_owned(ALICE), vec![Kitty(dna(1))]);
}

#[test]
fn transfer_removes_the_first_kitty_with_that_genome() {
    let mut pallet = funded(config());
    assert!(pallet.create_with_dna(Origin::Signed(ALICE), dna(1)).is_ok());
    assert!(pallet.create_with_dna(Origin::Signed(ALICE), dna(2)).is_ok());
    assert!(pallet.create_with_dna(Origin::Signed(ALICE), dna(1)).is_ok());
    assert_eq!(
        pallet.transfor(Origin::Signed(ALICE), 2, BOB),
        Ok(Event::KittyTransfor(ALICE, 2, BOB))
    );
    assert_eq!(pallet.all_kts_owned(ALICE), vec![Kitty(dna(2)), Kitty(dna(1))]);
    assert_eq!(pallet.all_kts_owned(BOB), vec![Kitty(dna(1))]);
    assert_eq!(pallet.kitty_onwer(0), Some(ALICE));
    assert_eq!(pallet.kitty_onwer(2), Some(BOB));
}

#[test]
fn create_breed_transfer_round_trip() {
    let mut pallet = funded(config());
    let id = match pallet.create_with_dna(Origin::Signed(ALICE), dna(0xFF)) {
        Ok(Event::KittyCreate(_, id, _)) => id,
        other => panic!("unexpected outcome {:?}", other),
    };
    let (child_id, child) = match pallet.breed_with_selector(Origin::Signed(ALICE), id, id, alternating()) {
        Ok(Event::KittyBreed(_, child_id, child)) => (child_id, child),
        other => panic!("unexpected outcome {:?}", other),
    };
    assert_eq!(
        pallet.transfor(Origin::Signed(ALICE), child_id, BOB),
        Ok(Event::KittyTransfor(ALICE, child_id, BOB))
    );
    assert_eq!(pallet.kitty_onwer(child_id), Some(BOB));
    assert_eq!(pallet.kitty_onwer(id), Some(ALICE));
    let alice = pallet.all_kts_owned(ALICE);
    let bob = pallet.all_kts_owned(BOB);
    assert!(!alice.contains(&child));
    assert_eq!(alice, vec![Kitty(dna(0xFF))]);
    assert_eq!(bob.iter().filter(|kitty| **kitty == child).count(), 1);
    assert_eq!(bob, vec![child]);
    assert_eq!(pallet.reserved_balance(ALICE), PRICE);
    assert_eq!(pallet.reserved_balance(BOB), PRICE);
    assert_eq!(pallet.free_balance(ALICE), 1_000 - PRICE);
    assert_eq!(pallet.free_balance(BOB), 1_000 - PRICE);
}

#[test]
fn round_trip_with_hashed_genomes() {
    let mut pallet = funded(config());
    let seed = [7u8; 32];
    let id = match pallet.create(Origin::Signed(ALICE), &seed, Some(0)) {
        Ok(Event::KittyCreate(ALICE, id, kitty)) => {
            assert_eq!(kitty, Kitty(random_value(&seed, ALICE, Some(0))));
            id
        },
        other => panic!("unexpected outcome {:?}", other),
    };
    let parent = pallet.get_kitty(id).unwrap();
    let (child_id, child) = match pallet.breed(Origin::Signed(ALICE), id, id, &seed, Some(1)) {
        Ok(Event::KittyBreed(ALICE, child_id, child)) => (child_id, child),
        other => panic!("unexpected outcome {:?}", other),
    };
    let selector = random_value(&seed, ALICE, Some(1));
    let mut i = 0;
    while i < 16 {
        assert_eq!(child.0[i], parent.0[i] & selector[i]);
        i += 1;
    }
    assert!(pallet.transfor(Origin::Signed(ALICE), child_id, BOB).is_ok());
    assert_eq!(pallet.kitty_onwer(child_id), Some(BOB));
    assert_eq!(pallet.all_kts_owned(BOB), vec![child]);
}

#[test]
fn reserved_stake_follows_the_number_of_kitties() {
    let mut pallet = funded(config());
    let mut expected_alice: Balance = 0;
    let mut expected_bob: Balance = 0;
    for step in 0u8..3 {
        assert!(pallet.create_with_dna(Origin::Signed(ALICE), dna(step)).is_ok());
        expected_alice += PRICE;
        assert_eq!(pallet.reserved_balance(ALICE), expected_alice);
        assert_eq!(pallet.all_kts_owned(ALICE).len() as Balance * PRICE, expected_alice);
    }
    for id in 0u32..2 {
        assert!(pallet.transfor(Origin::Signed(ALICE), id, BOB).is_ok());
        expected_alice -= PRICE;
        expected_bob += PRICE;
        assert_eq!(pallet.reserved_balance(ALICE), expected_alice);
        assert_eq!(pallet.reserved_balance(BOB), expected_bob);
        assert_eq!(pallet.all_kts_owned(BOB).len() as Balance * PRICE, expected_bob);
    }
    assert_eq!(pallet.free_balance(ALICE) + pallet.reserved_balance(ALICE), 1_000);
    assert_eq!(pallet.free_balance(BOB) + pallet.reserved_balance(BOB), 1_000);
}

#[test]
fn deposit_refuses_what_an_account_cannot_hold() {
    let mut pallet = Pallet::new(config());
    assert!(pallet.deposit(ALICE, Balance::MAX - 5));
    assert!(!pallet.deposit(ALICE, 6));
    assert_eq!(pallet.free_balance(ALICE), Balance::MAX - 5);
    assert!(pallet.deposit(ALICE, 5));
    assert_eq!(pallet.free_balance(ALICE), Balance::MAX);
    assert!(pallet.create_with_dna(Origin::Signed(ALICE), dna(1)).is_ok());
    assert_eq!(pallet.free_balance(ALICE), Balance::MAX - PRICE);
    assert_eq!(pallet.reserved_balance(ALICE), PRICE);
    assert!(!pallet.deposit(ALICE, 1));
}

#[test]
fn any_sequence_of_calls_keeps_the_registry_in_order() {
    let config = Config { kitty_price: 7, max_kitty_length: 2, max_kitty_index: 5 };
    let mut pallet = Pallet::new(config);
    let calls = [
        Call::Create { origin: Origin::Signed(ALICE), dna: dna(1) },
        Call::Deposit { who: ALICE, amount: 20 },
        Call::Create { origin: Origin::Signed(ALICE), dna: dna(1) },
        Call::Create { origin: Origin::Unsigned, dna: dna(2) },
        Call::Breed { origin: Origin::Signed(ALICE), kitty_id_1: 0, kitty_id_2: 0, selector: dna(0x0F) },
        Call::Breed { origin: Origin::Signed(ALICE), kitty_id_1: 0, kitty_id_2: 1, selector: dna(0x0F) },
        Call::Deposit { who: BOB, amount: 14 },
        Call::Transfor { origin: Origin::Signed(ALICE), kitty_id: 0, to: BOB },
        Call::Transfor { origin: Origin::Signed(ALICE), kitty_id: 0, to: BOB },
        Call::Create { origin: Origin::Signed(ALICE), dna: dna(3) },
        Call::Breed { origin: Origin::Signed(BOB), kitty_id_1: 2, kitty_id_2: 1, selector: dna(0xF0) },
        Call::Transfor { origin: Origin::Signed(BOB), kitty_id: 3, to: ALICE },
        Call::Deposit { who: ALICE, amount: 1 },
        Call::Transfor { origin: Origin::Signed(BOB), kitty_id: 3, to: ALICE },
        Call::Transfor { origin: Origin::Signed(BOB), kitty_id: 0, to: CAROL },
        Call::Deposit { who: CAROL, amount: 7 },
        Call::Transfor { origin: Origin::Signed(BOB), kitty_id: 0, to: CAROL },
        Call::Create { origin: Origin::Signed(BOB), dna: dna(4) },
        Call::Deposit { who: BOB, amount: 100 },
        Call::Create { origin: Origin::Signed(BOB), dna: dna(5) },
        Call::Create { origin: Origin::Signed(BOB), dna: dna(6) },
    ];
    let expected = [
        Some(Err(Error::InsufficientBalance)),
        None,
        Some(Ok(Event::KittyCreate(ALICE, 0, Kitty(dna(1))))),
        Some(Err(Error::Unauthorized)),
        Some(Ok(Event::KittyBreed(ALICE, 1, Kitty(dna(1))))),
        Some(Err(Error::InsufficientBalance)),
        None,
        Some(Ok(Event::KittyTransfor(ALICE, 0, BOB))),
        Some(Err(Error::NotOwner)),
        Some(Ok(Event::KittyCreate(ALICE, 2, Kitty(dna(3))))),
        Some(Ok(Event::KittyBreed(BOB, 3, Kitty(dna(0))))),
        Some(Err(Error::InsufficientBalance)),
        None,
        Some(Err(Error::OwnerCollectionFull)),
        Some(Err(Error::InsufficientBalance)),
        None,
        Some(Ok(Event::KittyTransfor(BOB, 0, CAROL))),
        Some(Ok(Event::KittyCreate(BOB, 4, Kitty(dna(4))))),
        None,
        Some(Err(Error::IdentifierExhausted)),
        Some(Err(Error::IdentifierExhausted)),
    ];
    assert_eq!(calls.len(), expected.len());
    let mut handed_out: Vec<KittyIndex> = Vec::new();
    let mut deposited: [Balance; 4] = [0; 4];
    for (call, expected) in calls.iter().zip(expected.iter()) {
        let next_before = pallet.next_kitty_id();
        let answer = pallet.dispatch(*call);
        assert_eq!(answer, *expected);
        if let Call::Deposit { who, amount } = call {
            deposited[*who as usize] += amount;
        }
        match answer {
            Some(Ok(Event::KittyCreate(_, id, _))) | Some(Ok(Event::KittyBreed(_, id, _))) => {
                assert_eq!(id, next_before);
                assert_eq!(pallet.next_kitty_id(), id + 1);
                handed_out.push(id);
            },
            _ => assert_eq!(pallet.next_kitty_id(), next_before),
        }
        let mut held_in_all = 0;
        for who in [ALICE, BOB, CAROL] {
            let held = pallet.all_kts_owned(who);
            assert!(held.len() <= 2);
            assert_eq!(pallet.reserved_balance(who), 7 * held.len() as Balance);
            assert_eq!(
                pallet.free_balance(who) + pallet.reserved_balance(who),
                deposited[who as usize]
            );
            held_in_all += held.len();
        }
        assert_eq!(held_in_all as KittyIndex, pallet.next_kitty_id());
        let mut id = 0;
        while id < pallet.next_kitty_id() {
            let kitty = pallet.kitties(id).unwrap();
            let owner = pallet.kitty_onwer(id).unwrap();
            assert!(pallet.all_kts_owned(owner).contains(&kitty));
            id += 1;
        }
        assert_eq!(pallet.kitties(id), None);
        assert_eq!(pallet.kitty_onwer(id), None);
    }
    assert_eq!(handed_out, vec![0, 1, 2, 3, 4]);
    assert_eq!(pallet.get_next_id(), Err(Error::IdentifierExhausted));
}
