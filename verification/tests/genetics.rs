use frame_support::pallet_prelude::Encode;
use frame_support::sp_runtime::traits::BlakeTwo256;
use kitties::codec::push_le_bytes;
use kitties::genetics::{dna_from_seed, dna_subject, gender_from_seed, gender_subject, mix_dna};
use kitties::{Gender, Kitty, H256};

fn sample_dna() -> [u8; 16] {
    [1, 2, 3, 4, 5, 6, 7, 8, 9, 10, 11, 12, 13, 14, 15, 16]
}

#[test]
fn little_endian_bytes_of_a_number() {
    let mut out = vec![0xaa];
    push_le_bytes(&mut out, 0x0102030405060708, 8);
    assert_eq!(out, vec![0xaa, 8, 7, 6, 5, 4, 3, 2, 1]);
    let mut out = Vec::new();
    push_le_bytes(&mut out, 258, 16);
    assert_eq!(out, vec![2, 1, 0, 0, 0, 0, 0, 0, 0, 0, 0, 0, 0, 0, 0, 0]);
    let mut out = Vec::new();
    push_le_bytes(&mut out, 0x1234, 1);
    assert_eq!(out, vec![0x34]);
    let mut out = vec![1, 2];
    push_le_bytes(&mut out, 99, 0);
    assert_eq!(out, vec![1, 2]);
    let mut out = Vec::new();
    push_le_bytes(&mut out, u128::MAX, 16);
    assert_eq!(out, vec![0xff; 16]);
}

#[test]
fn record_without_price_is_encoded_field_by_field() {
    let kitty = Kitty {
        dna: sample_dna(),
        price: None,
        gender: Gender::Female,
        owner: 0x0102030405060708,
    };
    assert_eq!(
        kitty.encode(),
        vec![1, 2, 3, 4, 5, 6, 7, 8, 9, 10, 11, 12, 13, 14, 15, 16, 0, 1, 8, 7, 6, 5, 4, 3, 2, 1]
    );
}

#[test]
fn record_with_price_is_encoded_field_by_field() {
    let kitty = Kitty { dna: sample_dna(), price: Some(258), gender: Gender::Male, owner: 7 };
    let mut expected = sample_dna().to_vec();
    expected.extend_from_slice(&[1, 2, 1, 0, 0, 0, 0, 0, 0, 0, 0, 0, 0, 0, 0, 0, 0]);
    expected.push(0);
    expected.extend_from_slice(&[7, 0, 0, 0, 0, 0, 0, 0]);
    assert_eq!(kitty.encode(), expected);
}

#[test]
fn identifier_is_the_blake2_256_digest_of_the_encoding() {
    let kitty = Kitty {
        dna: sample_dna(),
        price: None,
        gender: Gender::Female,
        owner: 0x0102030405060708,
    };
    let id = kitty.hash();
    assert_eq!(
        id,
        H256([
            117, 188, 72, 5, 28, 70, 35, 108, 194, 233, 228, 135, 246, 149, 75, 131, 213, 193,
            138, 130, 238, 82, 188, 246, 207, 134, 231, 17, 128, 151, 158, 166,
        ])
    );
    assert_eq!(id.0, sp_io::hashing::blake2_256(&kitty.encode()));
    assert_ne!(id.0.to_vec(), kitty.encode());

    let priced = Kitty { dna: sample_dna(), price: Some(258), gender: Gender::Male, owner: 7 };
    assert_eq!(
        priced.hash(),
        H256([
            253, 20, 101, 178, 93, 75, 9, 226, 253, 144, 244, 136, 39, 145, 161, 185, 22, 67, 211,
            243, 62, 66, 51, 40, 65, 182, 25, 50, 18, 159, 2, 177,
        ])
    );
}

#[test]
fn identifier_depends_on_every_field() {
    let kitty = Kitty { dna: sample_dna(), price: None, gender: Gender::Male, owner: 1 };
    let id = kitty.hash();
    assert_eq!(Kitty { ..kitty }.hash(), id);
    assert_ne!(Kitty { owner: 2, ..kitty }.hash(), id);
    assert_ne!(Kitty { gender: Gender::Female, ..kitty }.hash(), id);
    assert_ne!(Kitty { price: Some(0), ..kitty }.hash(), id);
    assert_ne!(Kitty { dna: [0; 16], ..kitty }.hash(), id);
}

#[test]
fn genetic_code_is_the_blake2_128_digest_of_randomness_and_height() {
    let mut random = [0u8; 32];
    for (i, byte) in random.iter_mut().enumerate() {
        *byte = i as u8;
    }
    let dna = dna_from_seed(&H256(random), 10);
    assert_eq!(dna, [78, 188, 170, 53, 55, 143, 48, 40, 154, 239, 46, 42, 217, 249, 135, 244]);
    let mut payload = random.to_vec();
    payload.extend_from_slice(&10u64.to_le_bytes());
    assert_eq!(dna, sp_io::hashing::blake2_128(&payload));
    assert_ne!(dna.to_vec(), payload[..16].to_vec());
    assert_ne!(dna_from_seed(&H256(random), 11), dna);
}

#[test]
fn gender_goes_by_the_first_random_byte() {
    let mut random = [0u8; 32];
    assert_eq!(gender_from_seed(&H256(random)), Gender::Male);
    random[0] = 1;
    assert_eq!(gender_from_seed(&H256(random)), Gender::Female);
    random[0] = 254;
    random[1] = 1;
    assert_eq!(gender_from_seed(&H256(random)), Gender::Male);
    random[0] = 255;
    assert_eq!(gender_from_seed(&H256(random)), Gender::Female);
}

#[test]
fn subjects_are_the_ascii_names() {
    assert_eq!(&dna_subject()[..], b"dna");
    assert_eq!(&gender_subject()[..], b"gender");
}

#[test]
fn mixing_takes_bits_by_the_seed() {
    let first = [0xf0u8; 16];
    let second = [0x0fu8; 16];
    assert_eq!(mix_dna(&[0xffu8; 16], &first, &second), first);
    assert_eq!(mix_dna(&[0x00u8; 16], &first, &second), second);
    assert_eq!(mix_dna(&[0b1010_1010u8; 16], &first, &second), [0b1010_0101u8; 16]);

    let seed = [3, 141, 59, 26, 53, 58, 97, 93, 23, 84, 62, 64, 33, 83, 27, 95];
    let dna1 = sample_dna();
    let dna2 = [200, 199, 198, 197, 196, 195, 194, 193, 192, 191, 190, 189, 188, 187, 186, 185];
    let child = mix_dna(&seed, &dna1, &dna2);
    assert_eq!(child[0], 201);
    assert_eq!(child[1], 66);
    for i in 0..16 {
        assert_eq!(child[i], (seed[i] & dna1[i]) | (!seed[i] & dna2[i]));
    }
    assert_eq!(mix_dna(&seed, &dna1, &dna1), dna1);
}

#[test]
fn zero_identifier_is_all_zero() {
    assert_eq!(H256::zero(), H256([0u8; 32]));
    assert!(H256::zero().same(&H256([0u8; 32])));
    let mut other = [0u8; 32];
    other[31] = 1;
    assert!(!H256::zero().same(&H256(other)));
}

#[test]
fn encoding_is_that_of_the_runtime_codec() {
    let owners: [u64; 3] = [0, 7, u64::MAX];
    let prices: [Option<u128>; 4] = [None, Some(0), Some(258), Some(u128::MAX)];
    for owner in owners {
        for price in prices {
            for (gender, tag) in [(Gender::Male, 0u8), (Gender::Female, 1u8)] {
                let kitty = Kitty { dna: sample_dna(), price, gender, owner };
                let fields = (sample_dna(), price, tag, owner);
                assert_eq!(kitty.encode(), fields.encode());
                assert_eq!(&kitty.hash().0[..], <BlakeTwo256 as frame_support::sp_runtime::traits::Hash>::hash_of(&fields).as_ref());
            }
        }
    }
}

#[test]
fn genetic_code_hashes_the_encoded_pair_of_randomness_and_height() {
    let random = [0xabu8; 32];
    for height in [0u64, 1, 10, 0x0102030405060708, u64::MAX] {
        let pair = (random, height);
        assert_eq!(
            dna_from_seed(&H256(random), height),
            sp_io::hashing::blake2_128(&pair.encode())
        );
    }
}
