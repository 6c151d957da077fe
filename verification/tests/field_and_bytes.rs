use rand_core::{RngCore, SeedableRng};
use zkrelay::field::Scalar;
use zkrelay::g1_to_scalar::{
    bytes_to_u128, glaffine_to_primefield, glaffine_to_scalar, is_less_or_equal_than,
    prime_field_to_scalar,
};
use zkrelay::curve::G1Affine;
use zkrelay::multipack::{bytes_to_bits, bytes_to_bits_le, compute_multipacking};

fn value_of(s: &Scalar) -> Vec<u8> {
    s.to_repr().to_vec()
}

fn repr_of(v: u128) -> Vec<u8> {
    let mut out = v.to_le_bytes().to_vec();
    out.resize(32, 0);
    out
}

#[test]
fn scalar_arithmetic_matches_field_rules() {
    let a = Scalar::from_u64(7);
    let b = Scalar::from_u128(5);
    assert_eq!(value_of(&a.add(&b)), repr_of(12));
    assert_eq!(value_of(&a.mul(&b)), repr_of(35));
    assert_eq!(value_of(&a.double()), repr_of(14));
    assert_eq!(value_of(&Scalar::zero()), repr_of(0));
    assert_eq!(value_of(&Scalar::one()), repr_of(1));
    // -1 is r - 1.
    let minus_one = Scalar::one().neg();
    let expected: [u8; 32] = [
        0x00, 0x00, 0x00, 0x00, 0xff, 0xff, 0xff, 0xff, 0xfe, 0x5b, 0xfe, 0xff, 0x02, 0xa4, 0xbd,
        0x53, 0x05, 0xd8, 0xa1, 0x09, 0x08, 0xd8, 0x39, 0x33, 0x48, 0x7d, 0x9d, 0x29, 0x53, 0xa7,
        0xed, 0x73,
    ];
    assert_eq!(minus_one.to_repr(), expected);
    assert_eq!(value_of(&minus_one.add(&Scalar::one())), repr_of(0));
    assert_eq!(value_of(&Scalar::zero().neg()), repr_of(0));
}

#[test]
fn bytes_to_u128_keeps_the_low_sixteen_bytes() {
    let mut bytes = [0u8; 96];
    bytes[0] = 0xaa;
    bytes[79] = 0x55;
    bytes[80] = 0x01;
    bytes[95] = 0x02;
    let expected = (1u128 << 120) | 2;
    assert_eq!(bytes_to_u128(&bytes), expected);
    assert_eq!(bytes_to_u128(&[0u8; 96]), 0);
    assert_eq!(bytes_to_u128(&[0xffu8; 96]), u128::MAX);
}

#[test]
fn point_maps_to_its_low_encoding_bytes() {
    let p = G1Affine::generator_mul(&Scalar::from_u64(100));
    let enc = p.to_uncompressed();
    let folded = bytes_to_u128(&enc);
    assert_eq!(value_of(&glaffine_to_primefield(p)), repr_of(folded));
    assert_eq!(value_of(&glaffine_to_scalar(p)), repr_of(folded));
    let mut expected = 0u128;
    for b in &enc[80..] {
        expected = (expected << 8) | *b as u128;
    }
    assert_eq!(folded, expected);
}

#[test]
fn prime_field_to_scalar_keeps_the_low_128_bits() {
    let big = Scalar::one().neg();
    let low = prime_field_to_scalar(big);
    let repr = big.to_repr();
    let mut expected = repr.to_vec();
    for b in expected.iter_mut().skip(16) {
        *b = 0;
    }
    assert_eq!(value_of(&low), expected);
    assert_eq!(value_of(&prime_field_to_scalar(Scalar::from_u64(99))), repr_of(99));
}

#[test]
fn is_less_or_equal_than_orders_by_value() {
    let a = Scalar::from_u64(5);
    let b = Scalar::from_u64(256);
    let c = Scalar::one().neg();
    assert!(is_less_or_equal_than(&a, &b));
    assert!(!is_less_or_equal_than(&b, &a));
    assert!(is_less_or_equal_than(&a, &a));
    assert!(is_less_or_equal_than(&b, &c));
    assert!(!is_less_or_equal_than(&c, &b));
}

#[test]
fn bit_orders_of_bytes() {
    let bytes = [0b1000_0001u8, 0x0f];
    assert_eq!(
        bytes_to_bits(&bytes),
        vec![true, false, false, false, false, false, false, true, false, false, false, false, true, true, true, true]
    );
    assert_eq!(
        bytes_to_bits_le(&bytes),
        vec![true, false, false, false, false, false, false, true, true, true, true, true, false, false, false, false]
    );
    assert!(bytes_to_bits(&[]).is_empty());
}

#[test]
fn bit_orders_mirror_each_other() {
    let bytes = [0x12u8, 0x34, 0xfe, 0x00, 0x80];
    let be = bytes_to_bits(&bytes);
    let le = bytes_to_bits_le(&bytes);
    for k in 0..bytes.len() {
        for j in 0..8 {
            assert_eq!(be[k * 8 + j], le[k * 8 + 7 - j]);
        }
    }
}

#[test]
fn multipacking_packs_chunks_little_endian() {
    assert!(compute_multipacking(&[]).is_empty());
    // 5 = 0b101, first bit least significant.
    let packed = compute_multipacking(&[true, false, true]);
    assert_eq!(packed.len(), 1);
    assert_eq!(value_of(&packed[0]), repr_of(5));
    // 300 bits: one full chunk of 254 and one of 46.
    let mut bits = vec![false; 300];
    bits[0] = true;
    bits[253] = true;
    bits[254] = true;
    bits[256] = true;
    let packed = compute_multipacking(&bits);
    assert_eq!(packed.len(), 2);
    let mut first = vec![0u8; 32];
    first[0] = 1;
    first[31] = 0x20; // bit 253
    assert_eq!(value_of(&packed[0]), first);
    assert_eq!(value_of(&packed[1]), repr_of(5));
    let exact = vec![true; 254];
    assert_eq!(compute_multipacking(&exact).len(), 1);
    let mut all_ones = vec![0xffu8; 32];
    all_ones[31] = 0x3f;
    assert_eq!(value_of(&compute_multipacking(&exact)[0]), all_ones);
}

#[test]
fn generator_multiples_match_the_curve_crate() {
    for k in [1u64, 2, 3, 100, 200] {
        let expected = bls12_381::G1Affine::from(
            bls12_381::G1Projective::generator() * bls12_381::Scalar::from(k),
        )
        .to_uncompressed();
        let p = G1Affine::generator_mul(&Scalar::from_u64(k));
        assert_eq!(p.to_uncompressed(), expected);
        assert_eq!(G1Affine::from_uncompressed(&expected).unwrap().to_uncompressed(), expected);
        let compressed = p.to_compressed();
        assert_eq!(G1Affine::from_compressed(&compressed).unwrap().to_uncompressed(), expected);
    }
    assert!(G1Affine::from_uncompressed(&[0u8; 96]).is_none());
    assert!(G1Affine::from_compressed(&[0u8; 48]).is_none());
}

#[test]
fn multipacking_tells_bit_strings_of_one_length_apart() {
    let mut a = vec![false; 260];
    let mut b = vec![false; 260];
    a[259] = true;
    b[258] = true;
    let pa: Vec<Vec<u8>> = compute_multipacking(&a).iter().map(value_of).collect();
    let pb: Vec<Vec<u8>> = compute_multipacking(&b).iter().map(value_of).collect();
    assert_ne!(pa, pb);
    // Trailing zeros of different lengths pack alike.
    let short: Vec<Vec<u8>> = compute_multipacking(&[true]).iter().map(value_of).collect();
    let long: Vec<Vec<u8>> = compute_multipacking(&[true, false]).iter().map(value_of).collect();
    assert_eq!(short, long);
}

#[test]
fn multipacking_agrees_with_field_arithmetic() {
    let mut rng = rand_xorshift::XorShiftRng::from_seed([
        0x59, 0x62, 0xbe, 0x3d, 0x76, 0x3d, 0x31, 0x8d, 0x17, 0xdb, 0x37, 0x32, 0x54, 0x06, 0xbc,
        0xe5,
    ]);
    for num_bits in 0..600 {
        let bits: Vec<bool> = (0..num_bits).map(|_| rng.next_u32() % 2 != 0).collect();
        let packed = compute_multipacking(&bits);
        let mut expected = Vec::new();
        for chunk in bits.chunks(254) {
            let mut cur = bls12_381::Scalar::zero();
            let mut coeff = bls12_381::Scalar::one();
            for bit in chunk {
                if *bit {
                    cur += coeff;
                }
                coeff = coeff.double();
            }
            expected.push(cur.to_bytes());
        }
        let got: Vec<[u8; 32]> = packed.iter().map(|s| s.to_repr()).collect();
        assert_eq!(got, expected);
    }
}
