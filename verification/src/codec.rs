//! The byte encoding of a kitty record and the identifier derived from it.
//!
//! A record is laid out field by field: the 16 bytes of genetic code, the
//! price as a presence byte followed by 16 little-endian bytes when present,
//! one byte for the gender, and the owner in 8 little-endian bytes.

use vstd::prelude::*;
use crate::hashing::{blake2_256, blake2_256_digest};
use crate::types::{Balance, Gender, Kitty, H256};

verus! {

/// The `width` low-order bytes of `x`, least significant first.
pub open spec fn le_bytes(x: nat, width: nat) -> Seq<u8>
    decreases width,
{
    if width == 0 {
        Seq::empty()
    } else {
        seq![(x % 256) as u8] + le_bytes(x / 256, (width - 1) as nat)
    }
}

/// The encoding of an optional price.
pub open spec fn price_bytes(price: Option<Balance>) -> Seq<u8> {
    match price {
        None => seq![0u8],
        Some(amount) => seq![1u8] + le_bytes(amount as nat, 16),
    }
}

/// The byte that stands for a gender.
pub open spec fn gender_byte(gender: Gender) -> u8 {
    match gender {
        Gender::Male => 0,
        Gender::Female => 1,
    }
}

/// The encoding of a whole record.
pub open spec fn encoded(kitty: Kitty) -> Seq<u8> {
    kitty.dna@ + price_bytes(kitty.price) + seq![gender_byte(kitty.gender)] + le_bytes(
        kitty.owner as nat,
        8,
    )
}

/// The digest that identifies a record: the 256-bit Blake2 hash of its encoding.
pub open spec fn kitty_digest(kitty: Kitty) -> Seq<u8> {
    blake2_256_digest(encoded(kitty))
}

/// Appends the `width` low-order bytes of `x` to `out`, least significant first.
pub fn push_le_bytes(out: &mut Vec<u8>, x: u128, width: usize)
    ensures
        final(out)@ == old(out)@ + le_bytes(x as nat, width as nat),
{
    let mut rest: u128 = x;
    let mut i: usize = 0;
    while i < width
        invariant
            i <= width,
            out@ + le_bytes(rest as nat, (width - i) as nat) == old(out)@ + le_bytes(
                x as nat,
                width as nat,
            ),
        decreases width - i,
    {
        let ghost before = out@;
        out.push((rest % 256) as u8);
        proof {
            assert(le_bytes(rest as nat, (width - i) as nat) == seq![(rest as nat % 256) as u8]
                + le_bytes(rest as nat / 256, (width - i - 1) as nat));
            assert(out@ + le_bytes(rest as nat / 256, (width - i - 1) as nat) =~= before
                + le_bytes(rest as nat, (width - i) as nat));
        }
        rest = rest / 256;
        i += 1;
    }
    assert(out@ + le_bytes(rest as nat, 0) =~= out@);
}

impl Kitty {
    /// The bytes that the identifier of this record is computed from.
    pub fn encode(&self) -> (bytes: Vec<u8>)
        ensures
            bytes@ == encoded(*self),
    {
        let mut bytes: Vec<u8> = Vec::new();
        let mut i: usize = 0;
        while i < 16
            invariant
                i <= 16,
                bytes@ == self.dna@.subrange(0, i as int),
            decreases 16 - i,
        {
            bytes.push(self.dna[i]);
            assert(bytes@ =~= self.dna@.subrange(0, i + 1));
            i += 1;
        }
        assert(bytes@ =~= self.dna@);
        match self.price {
            None => {
                bytes.push(0u8);
                assert(bytes@ =~= self.dna@ + price_bytes(self.price));
            },
            Some(amount) => {
                bytes.push(1u8);
                push_le_bytes(&mut bytes, amount, 16);
                assert(bytes@ =~= self.dna@ + price_bytes(self.price));
            },
        }
        let tag: u8 = match self.gender {
            Gender::Male => 0,
            Gender::Female => 1,
        };
        bytes.push(tag);
        push_le_bytes(&mut bytes, self.owner as u128, 8);
        bytes
    }

    /// The identifier of this record: the hash of its encoding as it stands.
    pub fn hash(&self) -> (id: H256)
        ensures
            id.0@ == kitty_digest(*self),
    {
        let bytes = self.encode();
        H256(blake2_256(bytes.as_slice()))
    }
}

} // verus!
