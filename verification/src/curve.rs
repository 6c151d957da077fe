use vstd::prelude::*;

verus! {

/// Whether `bls12_381::G1Affine::from_uncompressed` accepts these 96 bytes
/// (a canonical encoding of a point of the prime-order subgroup G1).
pub uninterp spec fn g1_uncompressed_valid(bytes: Seq<u8>) -> bool;

/// Whether `bls12_381::G2Affine::from_uncompressed` accepts these 192 bytes.
pub uninterp spec fn g2_uncompressed_valid(bytes: Seq<u8>) -> bool;

/// The 48-byte output of `bls12_381::G1Affine::to_compressed` for the point
/// whose uncompressed encoding is `uncompressed`.
pub uninterp spec fn g1_compressed_encoding(uncompressed: Seq<u8>) -> Seq<u8>;

/// The 96-byte output of `bls12_381::G2Affine::to_compressed` for the point
/// whose uncompressed encoding is `uncompressed`.
pub uninterp spec fn g2_compressed_encoding(uncompressed: Seq<u8>) -> Seq<u8>;

/// What `bls12_381::G1Affine::from_compressed` yields for `compressed`: the
/// uncompressed encoding of the decoded point, or `None` if it is rejected.
pub uninterp spec fn g1_from_compressed_result(compressed: Seq<u8>) -> Option<Seq<u8>>;

/// What `bls12_381::G2Affine::from_compressed` yields for `compressed`.
pub uninterp spec fn g2_from_compressed_result(compressed: Seq<u8>) -> Option<Seq<u8>>;

/// The uncompressed encoding of `G1Projective::generator() * k`, converted to
/// affine form, for the scalar of value `k`.
pub uninterp spec fn g1_generator_mul(k: nat) -> Seq<u8>;

/// Whether an uncompressed encoding has the infinity flag (the second most
/// significant bit of its first byte) set: the encoding of the point at
/// infinity.
pub open spec fn at_infinity(enc: Seq<u8>) -> bool {
    enc.len() > 0 && (enc[0] as nat / 64) % 2 == 1
}

/// A G1 encoding that decodes to a point other than the point at infinity.
pub open spec fn g1_accepted(enc: Seq<u8>) -> bool {
    g1_uncompressed_valid(enc) && !at_infinity(enc)
}

/// A G2 encoding that decodes to a point other than the point at infinity.
pub open spec fn g2_accepted(enc: Seq<u8>) -> bool {
    g2_uncompressed_valid(enc) && !at_infinity(enc)
}

/// `bls12_381::G1Affine::from_uncompressed(bytes).is_some()`.
#[verifier::external_body]
fn g1_check_uncompressed(bytes: &[u8; 96]) -> (ok: bool)
    ensures
        ok == g1_uncompressed_valid(bytes@),
{
    bool::from(bls12_381::G1Affine::from_uncompressed(bytes).is_some())
}

/// `bls12_381::G2Affine::from_uncompressed(bytes).is_some()`.
#[verifier::external_body]
fn g2_check_uncompressed(bytes: &[u8; 192]) -> (ok: bool)
    ensures
        ok == g2_uncompressed_valid(bytes@),
{
    bool::from(bls12_381::G2Affine::from_uncompressed(bytes).is_some())
}

/// `bls12_381::G1Affine::is_identity` of the point decoded from `p`: the
/// decoder takes the point's infinity from the infinity flag of the encoding.
#[verifier::external_body]
fn g1_is_identity_call(p: &[u8; 96]) -> (r: bool)
    requires
        g1_uncompressed_valid(p@),
    ensures
        r == at_infinity(p@),
{
    bool::from(bls12_381::G1Affine::from_uncompressed(p).unwrap().is_identity())
}

/// `bls12_381::G2Affine::is_identity` of the point decoded from `p`: the
/// decoder takes the point's infinity from the infinity flag of the encoding.
#[verifier::external_body]
fn g2_is_identity_call(p: &[u8; 192]) -> (r: bool)
    requires
        g2_uncompressed_valid(p@),
    ensures
        r == at_infinity(p@),
{
    bool::from(bls12_381::G2Affine::from_uncompressed(p).unwrap().is_identity())
}

/// `bls12_381::G1Affine::to_compressed` of the point decoded from `p`. The
/// crate's decoder accepts that encoding again and yields the same point.
#[verifier::external_body]
fn g1_to_compressed_call(p: &[u8; 96]) -> (r: [u8; 48])
    requires
        g1_uncompressed_valid(p@),
    ensures
        r@ == g1_compressed_encoding(p@),
        g1_from_compressed_result(r@) == Some(p@),
{
    bls12_381::G1Affine::from_uncompressed(p).unwrap().to_compressed()
}

/// `bls12_381::G2Affine::to_compressed` of the point decoded from `p`. The
/// crate's decoder accepts that encoding again and yields the same point.
#[verifier::external_body]
fn g2_to_compressed_call(p: &[u8; 192]) -> (r: [u8; 96])
    requires
        g2_uncompressed_valid(p@),
    ensures
        r@ == g2_compressed_encoding(p@),
        g2_from_compressed_result(r@) == Some(p@),
{
    bls12_381::G2Affine::from_uncompressed(p).unwrap().to_compressed()
}

/// `bls12_381::G1Affine::from_compressed`, with an accepted point re-encoded
/// by `to_uncompressed`. Compressed encodings are canonical: an accepted input
/// is exactly the compressed encoding of the point it yields.
#[verifier::external_body]
fn g1_from_compressed_call(b: &[u8; 48]) -> (r: Option<[u8; 96]>)
    ensures
        match r {
            Some(p) => g1_from_compressed_result(b@) == Some(p@) && g1_uncompressed_valid(p@)
                && g1_compressed_encoding(p@) == b@,
            None => g1_from_compressed_result(b@) is None,
        },
{
    match Option::<bls12_381::G1Affine>::from(bls12_381::G1Affine::from_compressed(b)) {
        Some(q) => Some(q.to_uncompressed()),
        None => None,
    }
}

/// `bls12_381::G2Affine::from_compressed`, with an accepted point re-encoded
/// by `to_uncompressed`. Compressed encodings are canonical: an accepted input
/// is exactly the compressed encoding of the point it yields.
#[verifier::external_body]
fn g2_from_compressed_call(b: &[u8; 96]) -> (r: Option<[u8; 192]>)
    ensures
        match r {
            Some(p) => g2_from_compressed_result(b@) == Some(p@) && g2_uncompressed_valid(p@)
                && g2_compressed_encoding(p@) == b@,
            None => g2_from_compressed_result(b@) is None,
        },
{
    match Option::<bls12_381::G2Affine>::from(bls12_381::G2Affine::from_compressed(b)) {
        Some(q) => Some(q.to_uncompressed()),
        None => None,
    }
}

/// `G1Affine::from(G1Projective::generator() * k)` encoded uncompressed, for
/// the scalar `k` whose canonical representation is `s`; the result is a point of G1.
#[verifier::external_body]
fn g1_generator_mul_call(s: &[u8; 32]) -> (r: [u8; 96])
    requires
        crate::bytes::le_nat(s@) < crate::field::scalar_modulus(),
    ensures
        r@ == g1_generator_mul(crate::bytes::le_nat(s@)),
        g1_uncompressed_valid(r@),
{
    let k = bls12_381::Scalar::from_bytes(s).unwrap();
    bls12_381::G1Affine::from(bls12_381::G1Projective::generator() * k).to_uncompressed()
}

/// Whether two byte arrays of equal length hold the same bytes.
fn bytes_equal(a: &[u8], b: &[u8]) -> (r: bool)
    requires
        a@.len() == b@.len(),
    ensures
        r == (a@ == b@),
{
    let n = a.len();
    let mut i: usize = 0;
    while i < n
        invariant
            n == a@.len(),
            a@.len() == b@.len(),
            i <= n,
            forall|j: int| 0 <= j < i ==> a@[j] == b@[j],
        decreases n - i,
    {
        if a[i] != b[i] {
            return false;
        }
        i = i + 1;
    }
    assert(a@ =~= b@);
    true
}

/// A point of the prime-order subgroup G1 of BLS12-381, held as its canonical
/// 96-byte uncompressed encoding.
#[derive(Clone, Copy, Debug)]
pub struct G1Affine {
    bytes: [u8; 96],
}

/// A point of the prime-order subgroup G2 of BLS12-381, held as its canonical
/// 192-byte uncompressed encoding.
#[derive(Clone, Copy, Debug)]
pub struct G2Affine {
    bytes: [u8; 192],
}

impl View for G1Affine {
    type V = Seq<u8>;

    /// The uncompressed encoding.
    closed spec fn view(&self) -> Seq<u8> {
        self.bytes@
    }
}

impl View for G2Affine {
    type V = Seq<u8>;

    /// The uncompressed encoding.
    closed spec fn view(&self) -> Seq<u8> {
        self.bytes@
    }
}

impl G1Affine {
    #[verifier::type_invariant]
    closed spec fn valid(self) -> bool {
        g1_uncompressed_valid(self.bytes@)
    }

    /// Facts that hold of every point.
    pub fn facts(&self)
        ensures
            self@.len() == 96,
            g1_uncompressed_valid(self@),
    {
        proof {
            use_type_invariant(self);
        }
    }

    /// Decodes an uncompressed encoding; `None` where the curve library rejects it.
    pub fn from_uncompressed(bytes: &[u8; 96]) -> (r: Option<G1Affine>)
        ensures
            r is Some <==> g1_uncompressed_valid(bytes@),
            r matches Some(p) ==> p@ == bytes@,
    {
        if g1_check_uncompressed(bytes) {
            Some(G1Affine { bytes: *bytes })
        } else {
            None
        }
    }

    /// Whether this is the point at infinity.
    pub fn is_identity(&self) -> (r: bool)
        ensures
            r == at_infinity(self@),
    {
        proof {
            use_type_invariant(self);
        }
        g1_is_identity_call(&self.bytes)
    }

    /// The uncompressed encoding.
    pub fn to_uncompressed(&self) -> (r: [u8; 96])
        ensures
            r@ == self@,
            g1_uncompressed_valid(r@),
    {
        proof {
            use_type_invariant(self);
        }
        self.bytes
    }

    /// The compressed encoding.
    pub fn to_compressed(&self) -> (r: [u8; 48])
        ensures
            r@ == g1_compressed_encoding(self@),
            g1_from_compressed_result(r@) == Some(self@),
    {
        proof {
            use_type_invariant(self);
        }
        g1_to_compressed_call(&self.bytes)
    }

    /// Decodes a compressed encoding; `None` where the curve library rejects it.
    pub fn from_compressed(b: &[u8; 48]) -> (r: Option<G1Affine>)
        ensures
            r is Some <==> g1_from_compressed_result(b@) is Some,
            r matches Some(p) ==> g1_from_compressed_result(b@) == Some(p@)
                && g1_compressed_encoding(p@) == b@,
    {
        match g1_from_compressed_call(b) {
            Some(p) => Some(G1Affine { bytes: p }),
            None => None,
        }
    }

    /// `G1Projective::generator() * s`, in affine form.
    pub fn generator_mul(s: &crate::field::Scalar) -> (r: G1Affine)
        ensures
            r@ == g1_generator_mul(s@),
    {
        let repr = s.to_repr();
        G1Affine { bytes: g1_generator_mul_call(&repr) }
    }
}

impl G2Affine {
    #[verifier::type_invariant]
    closed spec fn valid(self) -> bool {
        g2_uncompressed_valid(self.bytes@)
    }

    /// Facts that hold of every point.
    pub fn facts(&self)
        ensures
            self@.len() == 192,
            g2_uncompressed_valid(self@),
    {
        proof {
            use_type_invariant(self);
        }
    }

    /// Decodes an uncompressed encoding; `None` where the curve library rejects it.
    pub fn from_uncompressed(bytes: &[u8; 192]) -> (r: Option<G2Affine>)
        ensures
            r is Some <==> g2_uncompressed_valid(bytes@),
            r matches Some(p) ==> p@ == bytes@,
    {
        if g2_check_uncompressed(bytes) {
            Some(G2Affine { bytes: *bytes })
        } else {
            None
        }
    }

    /// Whether this is the point at infinity.
    pub fn is_identity(&self) -> (r: bool)
        ensures
            r == at_infinity(self@),
    {
        proof {
            use_type_invariant(self);
        }
        g2_is_identity_call(&self.bytes)
    }

    /// The uncompressed encoding.
    pub fn to_uncompressed(&self) -> (r: [u8; 192])
        ensures
            r@ == self@,
            g2_uncompressed_valid(r@),
    {
        proof {
            use_type_invariant(self);
        }
        self.bytes
    }

    /// The compressed encoding.
    pub fn to_compressed(&self) -> (r: [u8; 96])
        ensures
            r@ == g2_compressed_encoding(self@),
            g2_from_compressed_result(r@) == Some(self@),
    {
        proof {
            use_type_invariant(self);
        }
        g2_to_compressed_call(&self.bytes)
    }

    /// Decodes a compressed encoding; `None` where the curve library rejects it.
    pub fn from_compressed(b: &[u8; 96]) -> (r: Option<G2Affine>)
        ensures
            r is Some <==> g2_from_compressed_result(b@) is Some,
            r matches Some(p) ==> g2_from_compressed_result(b@) == Some(p@)
                && g2_compressed_encoding(p@) == b@,
    {
        match g2_from_compressed_call(b) {
            Some(p) => Some(G2Affine { bytes: p }),
            None => None,
        }
    }
}

impl PartialEq for G1Affine {
    fn eq(&self, other: &Self) -> (r: bool) {
        bytes_equal(self.bytes.as_slice(), other.bytes.as_slice())
    }
}

impl vstd::std_specs::cmp::PartialEqSpecImpl for G1Affine {
    open spec fn obeys_eq_spec() -> bool {
        true
    }

    open spec fn eq_spec(&self, other: &G1Affine) -> bool {
        self@ == other@
    }
}

impl PartialEq for G2Affine {
    fn eq(&self, other: &Self) -> (r: bool) {
        bytes_equal(self.bytes.as_slice(), other.bytes.as_slice())
    }
}

impl vstd::std_specs::cmp::PartialEqSpecImpl for G2Affine {
    open spec fn obeys_eq_spec() -> bool {
        true
    }

    open spec fn eq_spec(&self, other: &G2Affine) -> bool {
        self@ == other@
    }
}

} // verus!
