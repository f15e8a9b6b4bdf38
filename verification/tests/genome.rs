use frame_support::pallet_prelude::Encode;
use kitties::genome::{breed_dna, encode_payload, random_value};
use kitties::types::{ensure_signed, Error, GetdefaultValue, Origin};

#[test]
fn payload_is_seed_then_account_then_index() {
    let bytes = encode_payload(&[0xA1, 0xB2, 0xC3], 0x0102_0304_0506_0708, Some(0x0A0B_0C0D));
    assert_eq!(
        bytes,
        vec![
            0xA1, 0xB2, 0xC3, // seed
            0x08, 0x07, 0x06, 0x05, 0x04, 0x03, 0x02, 0x01, // account, low byte first
            0x01, 0x0D, 0x0C, 0x0B, 0x0A, // index, low byte first
        ]
    );
}

#[test]
fn payload_without_index_ends_in_zero() {
    let bytes = encode_payload(&[], 1, None);
    assert_eq!(bytes, vec![1, 0, 0, 0, 0, 0, 0, 0, 0]);
    let bytes = encode_payload(&[5], u64::MAX, Some(0));
    assert_eq!(bytes, vec![5, 255, 255, 255, 255, 255, 255, 255, 255, 1, 0, 0, 0, 0]);
}

#[test]
fn payload_is_the_scale_encoding_of_the_triple() {
    let seed = [0x5Au8; 32];
    let sender: u64 = 0xDEAD_BEEF_0012_3456;
    for index in [None, Some(0u32), Some(1), Some(77), Some(u32::MAX)] {
        let expected = (seed, &sender, index).encode();
        assert_eq!(encode_payload(&seed, sender, index), expected);
    }
}

#[test]
fn random_value_is_the_blake2_digest_of_the_payload() {
    let seed = [3u8; 32];
    let payload = encode_payload(&seed, 42, Some(9));
    assert_eq!(random_value(&seed, 42, Some(9)), sp_io::hashing::blake2_128(&payload));
    let hashed_tuple = (seed, &42u64, Some(9u32)).using_encoded(sp_io::hashing::blake2_128);
    assert_eq!(random_value(&seed, 42, Some(9)), hashed_tuple);
}

#[test]
fn random_value_of_known_input() {
    // BLAKE2b with a 16-byte digest, over the nine bytes 00 .. 00 that stand
    // for an empty seed, account 0 and no index.
    let digest = random_value(&[], 0, None);
    assert_eq!(
        digest,
        [3, 196, 47, 1, 105, 73, 192, 226, 224, 122, 166, 216, 193, 52, 144, 186]
    );
    assert_eq!(digest, sp_io::hashing::blake2_128(&[0u8; 9]));
}

#[test]
fn seed_may_carry_the_block_it_was_drawn_in() {
    // A runtime hands out its seed together with a block number; both go into
    // the payload as they are encoded.
    let hash = [0xC4u8; 32];
    let block: u32 = 0x0001_E240;
    let sender: u64 = 5;
    let seed = (hash, block).encode();
    assert_eq!(seed.len(), 36);
    assert_eq!(&seed[32..], &[0x40, 0xE2, 0x01, 0x00]);
    let hashed_tuple = ((hash, block), &sender, Some(3u32)).using_encoded(sp_io::hashing::blake2_128);
    assert_eq!(random_value(&seed, sender, Some(3)), hashed_tuple);
}

#[test]
fn random_value_depends_on_its_inputs_alone() {
    let seed = [1u8, 2, 3, 4];
    let first = random_value(&seed, 1, Some(0));
    assert_eq!(first, random_value(&seed, 1, Some(0)));
    assert_ne!(first, random_value(&seed, 2, Some(0)));
    assert_ne!(first, random_value(&seed, 1, Some(1)));
    assert_ne!(first, random_value(&seed, 1, None));
    assert_ne!(first, random_value(&[1u8, 2, 3, 5], 1, Some(0)));
}

#[test]
fn breed_dna_follows_the_formula() {
    let dna_1: [u8; 16] = [0xFF; 16];
    let dna_2: [u8; 16] = [0xFF; 16];
    let mut selector = [0u8; 16];
    for i in 0..16 {
        selector[i] = if i % 2 == 0 { 0xAA } else { 0x55 };
    }
    let child = breed_dna(&dna_1, &dna_2, &selector);
    assert_eq!(
        child,
        [
            0xAA, 0x55, 0xAA, 0x55, 0xAA, 0x55, 0xAA, 0x55, 0xAA, 0x55, 0xAA, 0x55, 0xAA, 0x55,
            0xAA, 0x55
        ]
    );
}

#[test]
fn breed_dna_takes_bits_from_both_parents() {
    let mut dna_1 = [0u8; 16];
    let mut dna_2 = [0u8; 16];
    let mut selector = [0u8; 16];
    for i in 0..16 {
        dna_1[i] = i as u8;
        dna_2[i] = 0xF0 | (15 - i as u8);
        selector[i] = 0x3C;
    }
    let child = breed_dna(&dna_1, &dna_2, &selector);
    for i in 0..16 {
        assert_eq!(child[i], (dna_1[i] & selector[i]) | (dna_2[i] & selector[i]));
        assert_eq!(child[i], (dna_1[i] | dna_2[i]) & 0x3C);
        assert_eq!(child[i] & !selector[i], 0);
    }
    assert_eq!(child, breed_dna(&dna_2, &dna_1, &selector));
    assert_eq!(child[0], 0x3C);
    assert_eq!(child[5], 0x3C & (0x05 | 0xFA));
}

#[test]
fn breed_dna_with_zero_selector_is_zero() {
    let child = breed_dna(&[0x12; 16], &[0xEF; 16], &[0; 16]);
    assert_eq!(child, [0u8; 16]);
    let child = breed_dna(&[0x12; 16], &[0xEF; 16], &[0xFF; 16]);
    assert_eq!(child, [0xFF; 16]);
}

#[test]
fn only_signed_origins_pass() {
    assert_eq!(ensure_signed(Origin::Signed(17)), Ok(17));
    assert_eq!(ensure_signed(Origin::Root), Err(Error::Unauthorized));
    assert_eq!(ensure_signed(Origin::Unsigned), Err(Error::Unauthorized));
}

#[test]
fn default_identifier_is_zero() {
    assert_eq!(GetdefaultValue(), 0);
}
