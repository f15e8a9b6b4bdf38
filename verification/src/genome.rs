//! Genomes: how a fresh one is derived from randomness, and how two are bred.

use vstd::prelude::*;
use vstd::slice::slice_to_vec;
use crate::hashing::{blake2_128, blake2_128_digest};
use crate::types::AccountId;

verus! {

/// Byte `i` of `x`, counting from the least significant one.
pub open spec fn le_byte(x: u64, i: int) -> u8 {
    ((x >> ((8 * i) as u64)) & 0xff) as u8
}

/// The `width` low bytes of `x`, least significant first.
pub open spec fn le_bytes(x: u64, width: nat) -> Seq<u8> {
    Seq::new(width, |i: int| le_byte(x, i))
}

/// How the position of a call within its block is written down: a single `0`
/// when there is none, else a `1` followed by the four bytes of the position.
pub open spec fn index_bytes(extrinsic_index: Option<u32>) -> Seq<u8> {
    match extrinsic_index {
        None => seq![0u8],
        Some(n) => seq![1u8] + le_bytes(n as u64, 4),
    }
}

/// The bytes that are hashed into a genome: the seed as it is, then the eight
/// bytes of the requesting account, then the position of the call.
pub open spec fn payload(seed: Seq<u8>, sender: AccountId, extrinsic_index: Option<u32>) -> Seq<
    u8,
> {
    seed + le_bytes(sender, 8) + index_bytes(extrinsic_index)
}

/// The genome derived from a seed, the requesting account and the position of
/// the call: the 128-bit digest of [`payload`].
pub open spec fn random_dna(seed: Seq<u8>, sender: AccountId, extrinsic_index: Option<u32>) -> [u8;
    16] {
    blake2_128_digest(payload(seed, sender, extrinsic_index))
}

/// Appends the `width` low bytes of `x` to `out`, least significant first.
fn push_le_bytes(out: &mut Vec<u8>, x: u64, width: usize)
    requires
        width <= 8,
    ensures
        final(out)@ == old(out)@ + le_bytes(x, width as nat),
{
    let mut i: usize = 0;
    while i < width
        invariant
            i <= width <= 8,
            out@ == old(out)@ + le_bytes(x, i as nat),
        decreases width - i,
    {
        let shift: u64 = 8 * (i as u64);
        let byte: u8 = ((x >> shift) & 0xff) as u8;
        out.push(byte);
        i += 1;
        assert(out@ =~= old(out)@ + le_bytes(x, i as nat));
    }
}

/// Lays out the bytes that [`random_value`] hashes.
pub fn encode_payload(seed: &[u8], sender: AccountId, extrinsic_index: Option<u32>) -> (bytes: Vec<
    u8,
>)
    ensures
        bytes@ == payload(seed@, sender, extrinsic_index),
{
    let mut bytes: Vec<u8> = slice_to_vec(seed);
    push_le_bytes(&mut bytes, sender, 8);
    match extrinsic_index {
        None => {
            bytes.push(0u8);
        },
        Some(n) => {
            bytes.push(1u8);
            push_le_bytes(&mut bytes, n as u64, 4);
        },
    }
    assert(bytes@ =~= payload(seed@, sender, extrinsic_index));
    bytes
}

/// Derives a genome from a random seed, the requesting account and the
/// position of the call within its block.
///
/// The result depends on these three inputs alone.
pub fn random_value(seed: &[u8], sender: AccountId, extrinsic_index: Option<u32>) -> (dna: [u8; 16])
    ensures
        dna == random_dna(seed@, sender, extrinsic_index),
{
    let bytes = encode_payload(seed, sender, extrinsic_index);
    blake2_128(bytes.as_slice())
}

/// One byte of a child: the bits of either parent that the selector lets
/// through.
pub open spec fn bred_byte(a: u8, b: u8, selector: u8) -> u8 {
    (a & selector) | (b & selector)
}

/// The sixteen bytes of a child, each bred from the bytes at its position.
pub open spec fn bred_bytes(a: Seq<u8>, b: Seq<u8>, selector: Seq<u8>) -> Seq<u8> {
    Seq::new(16, |i: int| bred_byte(a[i], b[i], selector[i]))
}

/// The genome that consists of the given sixteen bytes.
pub open spec fn genome_of(bytes: Seq<u8>) -> [u8; 16] {
    choose|dna: [u8; 16]| dna@ == bytes
}

/// The child of two genomes under a selector.
pub open spec fn bred_dna(a: [u8; 16], b: [u8; 16], selector: [u8; 16]) -> [u8; 16] {
    genome_of(bred_bytes(a@, b@, selector@))
}

/// `base` with its first `n` bytes replaced by those of `bytes`.
spec fn patched(base: [u8; 16], bytes: Seq<u8>, n: nat) -> [u8; 16]
    decreases n,
{
    if n == 0 {
        base
    } else {
        vstd::array::spec_array_update(patched(base, bytes, (n - 1) as nat), n - 1, bytes[n - 1])
    }
}

proof fn lemma_patched(base: [u8; 16], bytes: Seq<u8>, n: nat)
    requires
        n <= 16,
    ensures
        forall|i: int| 0 <= i < n ==> patched(base, bytes, n)@[i] == bytes[i],
    decreases n,
{
    if n > 0 {
        lemma_patched(base, bytes, (n - 1) as nat);
    }
}

/// Any sixteen bytes make a genome, and only one.
pub proof fn lemma_genome_of(bytes: Seq<u8>)
    requires
        bytes.len() == 16,
    ensures
        genome_of(bytes)@ == bytes,
        forall|dna: [u8; 16]| dna@ == bytes ==> dna == genome_of(bytes),
{
    let base: [u8; 16] = arbitrary();
    let witness = patched(base, bytes, 16);
    lemma_patched(base, bytes, 16);
    assert(witness@ =~= bytes);
    assert forall|dna: [u8; 16]| dna@ == bytes implies dna == genome_of(bytes) by {
        assert(dna =~= genome_of(bytes));
    }
}

/// Byte by byte, a child is what the formula says.
pub proof fn lemma_bred_dna(a: [u8; 16], b: [u8; 16], selector: [u8; 16])
    ensures
        bred_dna(a, b, selector)@ == bred_bytes(a@, b@, selector@),
        forall|i: int|
            0 <= i < 16 ==> #[trigger] bred_dna(a, b, selector)[i] == (a[i] & selector[i]) | (b[i]
                & selector[i]),
{
    lemma_genome_of(bred_bytes(a@, b@, selector@));
}

/// Breeds two genomes: every byte of the child is
/// `(dna_1[i] & selector[i]) | (dna_2[i] & selector[i])`.
pub fn breed_dna(dna_1: &[u8; 16], dna_2: &[u8; 16], selector: &[u8; 16]) -> (data: [u8; 16])
    ensures
        data == bred_dna(*dna_1, *dna_2, *selector),
        forall|i: int|
            0 <= i < 16 ==> #[trigger] data[i] == (dna_1[i] & selector[i]) | (dna_2[i]
                & selector[i]),
{
    let mut data = [0u8;16];
    let mut i: usize = 0;
    while i < 16
        invariant
            i <= 16,
            forall|j: int|
                0 <= j < i ==> #[trigger] data[j] == bred_byte(dna_1[j], dna_2[j], selector[j]),
        decreases 16 - i,
    {
        data[i] = (dna_1[i] & selector[i]) | (dna_2[i] & selector[i]);
        i += 1;
    }
    proof {
        assert(data@ =~= bred_bytes(dna_1@, dna_2@, selector@));
        lemma_genome_of(data@);
    }
    data
}

/// Breeding a genome with itself keeps exactly the bits the selector lets
/// through: every byte of the child is `dna[i] & selector[i]`.
pub proof fn lemma_bred_with_itself(dna: [u8; 16], selector: [u8; 16])
    ensures
        forall|i: int|
            0 <= i < 16 ==> #[trigger] bred_dna(dna, dna, selector)[i] == dna[i] & selector[i],
{
    lemma_bred_dna(dna, dna, selector);
    assert forall|i: int| 0 <= i < 16 implies #[trigger] bred_dna(dna, dna, selector)[i] == dna[i]
        & selector[i] by {
        let d = dna[i];
        let s = selector[i];
        assert((d & s) | (d & s) == d & s) by (bit_vector);
    }
}

/// A child has no bit outside the selector, and inside it every bit that
/// either parent has: every byte is `(a[i] | b[i]) & selector[i]`.
pub proof fn lemma_bred_within_selector(a: [u8; 16], b: [u8; 16], selector: [u8; 16])
    ensures
        forall|i: int|
            0 <= i < 16 ==> #[trigger] bred_dna(a, b, selector)[i] == (a[i] | b[i]) & selector[i],
        forall|i: int| 0 <= i < 16 ==> #[trigger] bred_dna(a, b, selector)[i] & !selector[i] == 0,
{
    lemma_bred_dna(a, b, selector);
    assert forall|i: int| 0 <= i < 16 implies #[trigger] bred_dna(a, b, selector)[i] == (a[i]
        | b[i]) & selector[i] by {
        let x = a[i];
        let y = b[i];
        let s = selector[i];
        assert((x & s) | (y & s) == (x | y) & s) by (bit_vector);
    }
    assert forall|i: int| 0 <= i < 16 implies #[trigger] bred_dna(a, b, selector)[i]
        & !selector[i] == 0 by {
        let x = a[i];
        let y = b[i];
        let s = selector[i];
        assert(((x & s) | (y & s)) & !s == 0) by (bit_vector);
    }
}

/// The order of the parents does not matter.
pub proof fn lemma_bred_commutes(a: [u8; 16], b: [u8; 16], selector: [u8; 16])
    ensures
        bred_dna(a, b, selector) == bred_dna(b, a, selector),
{
    assert forall|i: int| 0 <= i < 16 implies bred_byte(a[i], b[i], selector[i]) == bred_byte(
        b[i],
        a[i],
        selector[i],
    ) by {
        let x = a[i];
        let y = b[i];
        let s = selector[i];
        assert((x & s) | (y & s) == (y & s) | (x & s)) by (bit_vector);
    }
    assert(bred_bytes(a@, b@, selector@) =~= bred_bytes(b@, a@, selector@));
}

} // verus!
