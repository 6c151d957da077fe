use vstd::prelude::*;

use crate::bytes::{
    be_nat, le_nat, lemma_append_digit_mod, lemma_le_nat_smaller_at, lemma_shift_in_byte,
    u128_span,
};
use crate::curve::G1Affine;
use crate::field::Scalar;

verus! {

/// Folds all 96 bytes big-endian into a `u128`; only the low 128 bits of the
/// number survive, so the result is meant for comparisons only.
pub fn bytes_to_u128(bytes: &[u8; 96]) -> (r: u128)
    ensures
        r as nat == be_nat(bytes@) % u128_span(),
{
    let mut result: u128 = 0;
    let mut i: usize = 0;
    while i < 96
        invariant
            i <= 96,
            result as nat == be_nat(bytes@.take(i as int)) % u128_span(),
        decreases 96 - i,
    {
        let byte = bytes[i];
        proof {
            lemma_shift_in_byte(result, byte);
            lemma_append_digit_mod(be_nat(bytes@.take(i as int)), byte as nat);
            assert(bytes@.take(i + 1).drop_last() =~= bytes@.take(i as int));
        }
        result = (result << 8u128) | (byte as u128);
        i = i + 1;
    }
    assert(bytes@.take(96) =~= bytes@);
    result
}

/// Maps a G1 point to a scalar: its uncompressed encoding folded by
/// `bytes_to_u128`, as a field element.
pub fn glaffine_to_primefield(g1_affine: G1Affine) -> (s: Scalar)
    ensures
        s@ == be_nat(g1_affine@) % u128_span(),
{
    let g1_value = g1_affine.to_uncompressed();
    let g1 = bytes_to_u128(&g1_value);
    Scalar::from_u128(g1)
}

/// The same map as `glaffine_to_primefield`, into `Scalar` directly.
pub fn glaffine_to_scalar(g1_affine: G1Affine) -> (s: Scalar)
    ensures
        s@ == be_nat(g1_affine@) % u128_span(),
{
    let g1_value = g1_affine.to_uncompressed();
    let g1 = bytes_to_u128(&g1_value);
    Scalar::from_u128(g1)
}

/// Keeps the low 128 bits of a field element: its representation read from
/// the most significant byte down, folded into a `u128`.
pub fn prime_field_to_scalar(p1: Scalar) -> (s: Scalar)
    ensures
        s@ == p1@ % u128_span(),
{
    let repr = p1.to_repr();
    let mut u128_number: u128 = 0;
    let mut i: usize = 32;
    while i > 0
        invariant
            i <= 32,
            u128_number as nat == le_nat(repr@.skip(i as int)) % u128_span(),
        decreases i,
    {
        let byte = repr[i - 1];
        proof {
            lemma_shift_in_byte(u128_number, byte);
            lemma_append_digit_mod(le_nat(repr@.skip(i as int)), byte as nat);
            assert(repr@.skip(i - 1).drop_first() =~= repr@.skip(i as int));
            assert(le_nat(repr@.skip(i - 1)) == (byte as nat) + 256 * le_nat(repr@.skip(i as int)));
        }
        u128_number = (u128_number << 8u128) | (byte as u128);
        i = i - 1;
    }
    assert(repr@.skip(0) =~= repr@);
    Scalar::from_u128(u128_number)
}

/// Whether `a <= b` as integers, decided on the representations from the most
/// significant byte down.
pub fn is_less_or_equal_than(a: &Scalar, b: &Scalar) -> (r: bool)
    ensures
        r == (a@ <= b@),
{
    let a_repr = a.to_repr();
    let b_repr = b.to_repr();
    let mut i: usize = 32;
    while i > 0
        invariant
            i <= 32,
            forall|j: int| i <= j < 32 ==> a_repr@[j] == b_repr@[j],
            le_nat(a_repr@) == a@,
            le_nat(b_repr@) == b@,
        decreases i,
    {
        let x = a_repr[i - 1];
        let y = b_repr[i - 1];
        if x < y {
            proof {
                assert(a_repr@.skip(i as int) =~= b_repr@.skip(i as int));
                lemma_le_nat_smaller_at(a_repr@, b_repr@, i - 1);
            }
            return true;
        } else if x > y {
            proof {
                assert(a_repr@.skip(i as int) =~= b_repr@.skip(i as int));
                lemma_le_nat_smaller_at(b_repr@, a_repr@, i - 1);
            }
            return false;
        }
        i = i - 1;
    }
    assert(a_repr@ =~= b_repr@);
    true
}

} // verus!
