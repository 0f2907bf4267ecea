//! How genetic codes and genders are derived: from random material at mint,
//! and from two parents when breeding.

use vstd::prelude::*;
use crate::codec::{le_bytes, push_le_bytes};
use crate::config::{material, Config};
use crate::hashing::{blake2_128, blake2_128_digest};
use crate::types::{Gender, H256};

verus! {

/// One byte of a child: the bits of `first` where `seed` has a one, the bits
/// of `second` where it has a zero.
pub open spec fn mix_byte(seed: u8, first: u8, second: u8) -> u8 {
    (seed & first) | (!seed & second)
}

/// The genetic code bred from two parents under `seed`, byte by byte.
pub open spec fn mixed(seed: Seq<u8>, first: Seq<u8>, second: Seq<u8>) -> Seq<u8> {
    Seq::new(16, |i: int| mix_byte(seed[i], first[i], second[i]))
}

/// Whether bit `k` of `byte` is set.
pub open spec fn bit(byte: u8, k: u8) -> bool {
    (byte >> k) & 1 == 1
}

/// Every bit of a child is the bit of the first parent where the seed has a
/// one, and the bit of the second parent where the seed has a zero.
pub proof fn lemma_mix_takes_each_bit(seed: u8, first: u8, second: u8, k: u8)
    by (bit_vector)
    requires
        k < 8,
    ensures
        bit(mix_byte(seed, first, second), k) == (if bit(seed, k) {
            bit(first, k)
        } else {
            bit(second, k)
        }),
{
}

/// A byte mixed from two others differs from each of them only where it
/// agrees with the other.
proof fn lemma_mix_byte_inherits(seed: u8, first: u8, second: u8)
    by (bit_vector)
    ensures
        (mix_byte(seed, first, second) ^ first) & (mix_byte(seed, first, second) ^ second) == 0,
{
}

/// A child has no bit that neither parent has: where it differs from one
/// parent it agrees with the other, so where the parents agree, it agrees with both.
pub proof fn lemma_child_inherits(seed: Seq<u8>, first: Seq<u8>, second: Seq<u8>)
    ensures
        forall|i: int|
            0 <= i < 16 ==> (#[trigger] mixed(seed, first, second)[i] ^ first[i]) & (mixed(
                seed,
                first,
                second,
            )[i] ^ second[i]) == 0,
{
    assert forall|i: int| 0 <= i < 16 implies (#[trigger] mixed(seed, first, second)[i]
        ^ first[i]) & (mixed(seed, first, second)[i] ^ second[i]) == 0 by {
        lemma_mix_byte_inherits(seed[i], first[i], second[i]);
    }
}

/// The bytes that a fresh genetic code is hashed from: the random material
/// followed by the block height in 8 little-endian bytes.
pub open spec fn dna_payload(random: H256, height: u64) -> Seq<u8> {
    random.0@ + le_bytes(height as nat, 8)
}

/// The gender that random material stands for: male when its first byte is even.
pub open spec fn gender_of(random: H256) -> Gender {
    if random.0[0] % 2 == 0 {
        Gender::Male
    } else {
        Gender::Female
    }
}

/// The bytes of the subject `dna`.
pub open spec fn dna_subject_bytes() -> Seq<u8> {
    seq![0x64u8, 0x6eu8, 0x61u8]
}

/// The bytes of the subject `gender`.
pub open spec fn gender_subject_bytes() -> Seq<u8> {
    seq![0x67u8, 0x65u8, 0x6eu8, 0x64u8, 0x65u8, 0x72u8]
}

/// The genetic code that the runtime `rt` yields as it stands: the digest
/// of its material for the subject `dna` and of its block height.
pub open spec fn drawn_dna<T: Config>(rt: &T) -> Seq<u8> {
    blake2_128_digest(dna_payload(material(rt, dna_subject_bytes()), rt.height()))
}

/// The gender that the runtime `rt` yields as it stands: by the first byte of
/// its material for the subject `gender`.
pub open spec fn drawn_gender<T: Config>(rt: &T) -> Gender {
    gender_of(material(rt, gender_subject_bytes()))
}

/// The subject under which random material for a genetic code is asked for:
/// the ASCII bytes of `dna`.
pub fn dna_subject() -> (subject: [u8; 3])
    ensures
        subject@ =~= dna_subject_bytes(),
{
    [0x64u8, 0x6eu8, 0x61u8]
}

/// The subject under which random material for a gender is asked for: the
/// ASCII bytes of `gender`.
pub fn gender_subject() -> (subject: [u8; 6])
    ensures
        subject@ =~= gender_subject_bytes(),
{
    [0x67u8, 0x65u8, 0x6eu8, 0x64u8, 0x65u8, 0x72u8]
}

/// Breeds a genetic code from two parents: each bit comes from `first` where
/// the bit of `seed` is one and from `second` where it is zero.
pub fn mix_dna(seed: &[u8; 16], first: &[u8; 16], second: &[u8; 16]) -> (child: [u8; 16])
    ensures
        child@ == mixed(seed@, first@, second@),
        forall|i: int| 0 <= i < 16 ==> child[i] == (seed[i] & first[i]) | (!seed[i] & second[i]),
{
    let mut child: [u8; 16] = *seed;
    let mut i: usize = 0;
    while i < 16
        invariant
            i <= 16,
            forall|j: int| 0 <= j < i ==> child[j] == mix_byte(seed[j], first[j], second[j]),
            forall|j: int| i <= j < 16 ==> child[j] == seed[j],
        decreases 16 - i,
    {
        child[i] = (child[i] & first[i]) | (!child[i] & second[i]);
        i += 1;
    }
    assert(child@ =~= mixed(seed@, first@, second@));
    child
}

/// Derives a genetic code from random material and the block height.
pub fn dna_from_seed(random: &H256, height: u64) -> (dna: [u8; 16])
    ensures
        dna@ == blake2_128_digest(dna_payload(*random, height)),
{
    let mut payload: Vec<u8> = Vec::new();
    let mut i: usize = 0;
    while i < 32
        invariant
            i <= 32,
            payload@ == random.0@.subrange(0, i as int),
        decreases 32 - i,
    {
        payload.push(random.0[i]);
        assert(payload@ =~= random.0@.subrange(0, i + 1));
        i += 1;
    }
    assert(payload@ =~= random.0@);
    push_le_bytes(&mut payload, height as u128, 8);
    blake2_128(payload.as_slice())
}

/// Derives a gender from random material.
pub fn gender_from_seed(random: &H256) -> (gender: Gender)
    ensures
        gender == gender_of(*random),
{
    if random.0[0] % 2 == 0 {
        Gender::Male
    } else {
        Gender::Female
    }
}

} // verus!
