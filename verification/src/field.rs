use vstd::prelude::*;

use crate::bytes::le_nat;

verus! {

/// The order `r` of the BLS12-381 scalar field.
pub open spec fn scalar_modulus() -> nat {
    0x73eda753299d7d483339d80809a1d80553bda402fffe5bfeffffffff00000001nat
}

/// An element of the BLS12-381 scalar field, held as its canonical
/// little-endian 32-byte representation (the `to_repr` form).
#[derive(Clone, Copy, Debug)]
pub struct Scalar {
    bytes: [u8; 32],
}

/// The canonical little-endian representation of `s`.
pub closed spec fn scalar_repr(s: &Scalar) -> Seq<u8> {
    s.bytes@
}

impl View for Scalar {
    type V = nat;

    /// The integer in `[0, r)` that this element stands for.
    closed spec fn view(&self) -> nat {
        le_nat(self.bytes@)
    }
}

// Calls into the `bls12_381` crate. Each one decodes canonical representations,
// performs one field operation and encodes the result again.

/// `<bls12_381::Scalar as ff::Field>::ZERO`, encoded: the representation of 0.
#[verifier::external_body]
fn scalar_zero_call() -> (r: [u8; 32])
    ensures
        le_nat(r@) == 0,
{
    <bls12_381::Scalar as ff::Field>::ZERO.to_bytes()
}

/// `<bls12_381::Scalar as ff::Field>::ONE`, encoded: the representation of 1.
#[verifier::external_body]
fn scalar_one_call() -> (r: [u8; 32])
    ensures
        le_nat(r@) == 1,
{
    <bls12_381::Scalar as ff::Field>::ONE.to_bytes()
}

/// `bls12_381::Scalar::from(u64)`: the field element with the integer value `v`.
#[verifier::external_body]
fn scalar_from_u64_call(v: u64) -> (r: [u8; 32])
    ensures
        le_nat(r@) == v,
{
    bls12_381::Scalar::from(v).to_bytes()
}

/// `ff::PrimeField::from_u128` on `bls12_381::Scalar`: the field element with
/// the integer value `v` (which is below `r`).
#[verifier::external_body]
fn scalar_from_u128_call(v: u128) -> (r: [u8; 32])
    ensures
        le_nat(r@) == v,
{
    <bls12_381::Scalar as ff::PrimeField>::from_u128(v).to_bytes()
}

/// `bls12_381::Scalar::add`: `(a + b) mod r`.
#[verifier::external_body]
fn scalar_add_call(a: &[u8; 32], b: &[u8; 32]) -> (r: [u8; 32])
    requires
        le_nat(a@) < scalar_modulus(),
        le_nat(b@) < scalar_modulus(),
    ensures
        le_nat(r@) == (le_nat(a@) + le_nat(b@)) % scalar_modulus(),
{
    let x = bls12_381::Scalar::from_bytes(a).unwrap();
    let y = bls12_381::Scalar::from_bytes(b).unwrap();
    x.add(&y).to_bytes()
}

/// `bls12_381::Scalar::double`: `2a mod r`.
#[verifier::external_body]
fn scalar_double_call(a: &[u8; 32]) -> (r: [u8; 32])
    requires
        le_nat(a@) < scalar_modulus(),
    ensures
        le_nat(r@) == (2 * le_nat(a@)) % scalar_modulus(),
{
    bls12_381::Scalar::from_bytes(a).unwrap().double().to_bytes()
}

/// `bls12_381::Scalar::neg`: `(r - a) mod r`.
#[verifier::external_body]
fn scalar_neg_call(a: &[u8; 32]) -> (r: [u8; 32])
    requires
        le_nat(a@) < scalar_modulus(),
    ensures
        le_nat(r@) == (scalar_modulus() - le_nat(a@)) % (scalar_modulus() as int),
{
    bls12_381::Scalar::from_bytes(a).unwrap().neg().to_bytes()
}

/// `bls12_381::Scalar::mul`: `(a * b) mod r`.
#[verifier::external_body]
fn scalar_mul_call(a: &[u8; 32], b: &[u8; 32]) -> (r: [u8; 32])
    requires
        le_nat(a@) < scalar_modulus(),
        le_nat(b@) < scalar_modulus(),
    ensures
        le_nat(r@) == (le_nat(a@) * le_nat(b@)) % scalar_modulus(),
{
    let x = bls12_381::Scalar::from_bytes(a).unwrap();
    let y = bls12_381::Scalar::from_bytes(b).unwrap();
    x.mul(&y).to_bytes()
}

impl Scalar {
    #[verifier::type_invariant]
    closed spec fn canonical(self) -> bool {
        le_nat(self.bytes@) < scalar_modulus()
    }

    /// The additive identity.
    pub fn zero() -> (s: Scalar)
        ensures
            s@ == 0,
    {
        Scalar { bytes: scalar_zero_call() }
    }

    /// The multiplicative identity.
    pub fn one() -> (s: Scalar)
        ensures
            s@ == 1,
    {
        Scalar { bytes: scalar_one_call() }
    }

    /// The element with integer value `v`.
    pub fn from_u64(v: u64) -> (s: Scalar)
        ensures
            s@ == v,
    {
        Scalar { bytes: scalar_from_u64_call(v) }
    }

    /// The element with integer value `v`.
    pub fn from_u128(v: u128) -> (s: Scalar)
        ensures
            s@ == v,
    {
        Scalar { bytes: scalar_from_u128_call(v) }
    }

    /// The canonical little-endian representation, whose value is the element.
    pub fn to_repr(&self) -> (r: [u8; 32])
        ensures
            le_nat(r@) == self@,
            r@ == scalar_repr(self),
            self@ < scalar_modulus(),
    {
        proof {
            use_type_invariant(self);
        }
        self.bytes
    }

    /// `self + other` in the field.
    pub fn add(&self, other: &Scalar) -> (s: Scalar)
        ensures
            s@ == (self@ + other@) % scalar_modulus(),
    {
        proof {
            use_type_invariant(self);
            use_type_invariant(other);
        }
        Scalar { bytes: scalar_add_call(&self.bytes, &other.bytes) }
    }

    /// `2 * self` in the field.
    pub fn double(&self) -> (s: Scalar)
        ensures
            s@ == (2 * self@) % scalar_modulus(),
    {
        proof {
            use_type_invariant(self);
        }
        Scalar { bytes: scalar_double_call(&self.bytes) }
    }

    /// `-self` in the field.
    pub fn neg(&self) -> (s: Scalar)
        ensures
            s@ == (scalar_modulus() - self@) % (scalar_modulus() as int),
    {
        proof {
            use_type_invariant(self);
        }
        Scalar { bytes: scalar_neg_call(&self.bytes) }
    }

    /// `self * other` in the field.
    pub fn mul(&self, other: &Scalar) -> (s: Scalar)
        ensures
            s@ == (self@ * other@) % scalar_modulus(),
    {
        proof {
            use_type_invariant(self);
            use_type_invariant(other);
        }
        Scalar { bytes: scalar_mul_call(&self.bytes, &other.bytes) }
    }
}

} // verus!
