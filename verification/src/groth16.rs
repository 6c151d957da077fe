//! Groth16 proofs, verifying keys and parameters over BLS12-381, with their
//! byte encodings.

use vstd::prelude::*;

use std::sync::Arc;

use crate::bytes::{array_to_vec, slice_to_array};
use crate::constraint::SynthesisError;
use crate::curve::{
    at_infinity, g1_accepted, g1_compressed_encoding, g1_from_compressed_result,
    g1_uncompressed_valid, g2_accepted, g2_compressed_encoding, g2_from_compressed_result,
    g2_uncompressed_valid, G1Affine, G2Affine,
};

verus! {

/// An error while decoding Groth16 data, with a fixed message.
#[derive(Debug)]
pub struct Groth16Error {
    message: &'static str,
}

impl Groth16Error {
    /// The error's message.
    pub closed spec fn message_text(self) -> Seq<char> {
        self.message@
    }

    pub fn new(message: &'static str) -> (e: Self)
        ensures
            e.message_text() == message@,
    {
        Groth16Error { message }
    }
}

/// The uncompressed encodings of a sequence of G1 points.
pub open spec fn g1_views(s: Seq<G1Affine>) -> Seq<Seq<u8>> {
    s.map_values(|p: G1Affine| p@)
}

/// The uncompressed encodings of a sequence of G2 points.
pub open spec fn g2_views(s: Seq<G2Affine>) -> Seq<Seq<u8>> {
    s.map_values(|p: G2Affine| p@)
}

/// How an import of encoded points ends.
pub enum ImportOutcome {
    /// The decoder stops with a panic (an encoding of the wrong length).
    Panics,
    /// The decoder returns an error with this message.
    Fails(Seq<char>),
    /// Every point decodes.
    Succeeds,
}

/// One required field of an import: empty fails with `empty_msg`, a wrong
/// length panics, a rejected encoding fails with `invalid_msg`, and a valid one
/// lets the import go on to `rest`.
pub open spec fn field_step(
    bytes: Seq<u8>,
    len: nat,
    valid: bool,
    empty_msg: Seq<char>,
    invalid_msg: Seq<char>,
    rest: ImportOutcome,
) -> ImportOutcome {
    if bytes.len() == 0 {
        ImportOutcome::Fails(empty_msg)
    } else if bytes.len() != len {
        ImportOutcome::Panics
    } else if !valid {
        ImportOutcome::Fails(invalid_msg)
    } else {
        rest
    }
}

/// Decoding a list of uncompressed G1 encodings in order: the first encoding
/// of a wrong length panics, the first rejected one, or the first of the point
/// at infinity, fails.
pub open spec fn g1_list_outcome(items: Seq<Seq<u8>>) -> ImportOutcome
    decreases items.len(),
{
    if items.len() == 0 {
        ImportOutcome::Succeeds
    } else if items[0].len() != 96 {
        ImportOutcome::Panics
    } else if !g1_accepted(items[0]) {
        ImportOutcome::Fails("point at infinity"@)
    } else {
        g1_list_outcome(items.drop_first())
    }
}

/// Decoding a list of uncompressed G2 encodings in order.
pub open spec fn g2_list_outcome(items: Seq<Seq<u8>>) -> ImportOutcome
    decreases items.len(),
{
    if items.len() == 0 {
        ImportOutcome::Succeeds
    } else if items[0].len() != 192 {
        ImportOutcome::Panics
    } else if !g2_accepted(items[0]) {
        ImportOutcome::Fails("point at infinity"@)
    } else {
        g2_list_outcome(items.drop_first())
    }
}

proof fn lemma_list_failure_message(items: Seq<Seq<u8>>)
    ensures
        g1_list_outcome(items) is Fails ==> g1_list_outcome(items) == ImportOutcome::Fails(
            "point at infinity"@,
        ),
        g2_list_outcome(items) is Fails ==> g2_list_outcome(items) == ImportOutcome::Fails(
            "point at infinity"@,
        ),
    decreases items.len(),
{
    if items.len() > 0 {
        lemma_list_failure_message(items.drop_first());
    }
}

proof fn lemma_valid_lists_succeed(items: Seq<Seq<u8>>)
    ensures
        (forall|j: int| 0 <= j < items.len() ==> (#[trigger] items[j]).len() == 96
            && g1_accepted(items[j])) ==> g1_list_outcome(items) is Succeeds,
        (forall|j: int| 0 <= j < items.len() ==> (#[trigger] items[j]).len() == 192
            && g2_accepted(items[j])) ==> g2_list_outcome(items) is Succeeds,
    decreases items.len(),
{
    if items.len() > 0 {
        lemma_valid_lists_succeed(items.drop_first());
        assert(forall|j: int| 0 <= j < items.drop_first().len() ==> items.drop_first()[j] == items[j
            + 1]);
    }
}

/// The outcome of `Proof::import` on compressed encodings of `a`, `b`, `c`:
/// an empty field fails, a wrong length panics, and a rejected encoding panics
/// when the decoded points are unwrapped at the end.
pub open spec fn proof_import_outcome(a: Seq<u8>, b: Seq<u8>, c: Seq<u8>) -> ImportOutcome {
    if a.len() == 0 {
        ImportOutcome::Fails("Invalid G1"@)
    } else if a.len() != 48 {
        ImportOutcome::Panics
    } else if b.len() == 0 {
        ImportOutcome::Fails("Invalid G2"@)
    } else if b.len() != 96 {
        ImportOutcome::Panics
    } else if c.len() == 0 {
        ImportOutcome::Fails("Invalid G1"@)
    } else if c.len() != 48 {
        ImportOutcome::Panics
    } else if g1_from_compressed_result(a) is None || g2_from_compressed_result(b) is None
        || g1_from_compressed_result(c) is None {
        ImportOutcome::Panics
    } else {
        ImportOutcome::Succeeds
    }
}

/// The outcome of `VerifyingKey::import`: the six fields in order, then the
/// `ic` list. A key never holds the point at infinity, so its encoding is
/// refused like an invalid one.
pub open spec fn vk_import_outcome(
    alpha_g1: Seq<u8>,
    beta_g1: Seq<u8>,
    beta_g2: Seq<u8>,
    gamma_g2: Seq<u8>,
    delta_g1: Seq<u8>,
    delta_g2: Seq<u8>,
    ic: Seq<Seq<u8>>,
) -> ImportOutcome {
    field_step(
        alpha_g1,
        96,
        g1_accepted(alpha_g1),
        "alpha_g1 is empty"@,
        "invalid G1 alpha_g1"@,
        field_step(
            beta_g1,
            96,
            g1_accepted(beta_g1),
            "beta_g1 is empty"@,
            "invalid G1 beta_g1"@,
            field_step(
                beta_g2,
                192,
                g2_accepted(beta_g2),
                "beta_g2 is empty"@,
                "invalid G2 beta_g2"@,
                field_step(
                    gamma_g2,
                    192,
                    g2_accepted(gamma_g2),
                    "gamma_g2 is empty"@,
                    "invalid G2 gamma_g2"@,
                    field_step(
                        delta_g1,
                        96,
                        g1_accepted(delta_g1),
                        "delta_g1 is empty"@,
                        "invalid G1 delta_g1"@,
                        field_step(
                            delta_g2,
                            192,
                            g2_accepted(delta_g2),
                            "delta_g2 is empty"@,
                            "invalid G2 delta_g2"@,
                            g1_list_outcome(ic),
                        ),
                    ),
                ),
            ),
        ),
    )
}

/// The outcome of `Parameters::import`: every list is decoded, so a wrong
/// length in any of them panics; otherwise the first rejected point, or the
/// first point at infinity (which the lists never hold), fails.
pub open spec fn params_import_outcome(
    h: Seq<Seq<u8>>,
    l: Seq<Seq<u8>>,
    a: Seq<Seq<u8>>,
    b_g1: Seq<Seq<u8>>,
    b_g2: Seq<Seq<u8>>,
) -> ImportOutcome {
    let outcomes = seq![
        g1_list_outcome(h),
        g1_list_outcome(l),
        g1_list_outcome(a),
        g1_list_outcome(b_g1),
        g2_list_outcome(b_g2),
    ];
    if exists|i: int| 0 <= i < 5 && outcomes[i] is Panics {
        ImportOutcome::Panics
    } else if exists|i: int| 0 <= i < 5 && outcomes[i] is Fails {
        ImportOutcome::Fails("point at infinity"@)
    } else {
        ImportOutcome::Succeeds
    }
}

/// A Groth16 proof: the points `a` and `c` of G1 and `b` of G2.
#[derive(Clone, Copy, Debug)]
pub struct Proof {
    pub a: G1Affine,
    pub b: G2Affine,
    pub c: G1Affine,
}

impl PartialEq for Proof {
    fn eq(&self, other: &Self) -> (r: bool) {
        self.a == other.a && self.b == other.b && self.c == other.c
    }
}

impl vstd::std_specs::cmp::PartialEqSpecImpl for Proof {
    open spec fn obeys_eq_spec() -> bool {
        true
    }

    open spec fn eq_spec(&self, other: &Proof) -> bool {
        self.a@ == other.a@ && self.b@ == other.b@ && self.c@ == other.c@
    }
}

/// Decodes an uncompressed G1 encoding, refusing the point at infinity.
fn decode_g1_point(bytes: &[u8; 96]) -> (r: Option<G1Affine>)
    ensures
        r is Some <==> g1_accepted(bytes@),
        r matches Some(p) ==> p@ == bytes@,
{
    match G1Affine::from_uncompressed(bytes) {
        Some(p) => if p.is_identity() {
            None
        } else {
            Some(p)
        },
        None => None,
    }
}

/// Decodes an uncompressed G2 encoding, refusing the point at infinity.
fn decode_g2_point(bytes: &[u8; 192]) -> (r: Option<G2Affine>)
    ensures
        r is Some <==> g2_accepted(bytes@),
        r matches Some(p) ==> p@ == bytes@,
{
    match G2Affine::from_uncompressed(bytes) {
        Some(p) => if p.is_identity() {
            None
        } else {
            Some(p)
        },
        None => None,
    }
}

/// Decodes one non-empty list element of G1 points.
fn decode_g1_list(items: &Vec<Vec<u8>>) -> (r: Result<Vec<G1Affine>, Groth16Error>)
    requires
        !(g1_list_outcome(items.deep_view()) is Panics),
    ensures
        match r {
            Ok(points) => g1_list_outcome(items.deep_view()) is Succeeds && g1_views(points@)
                == items.deep_view(),
            Err(e) => g1_list_outcome(items.deep_view()) == ImportOutcome::Fails(e.message_text()),
        },
{
    let ghost all = items.deep_view();
    let mut points: Vec<G1Affine> = Vec::new();
    let n = items.len();
    let mut i: usize = 0;
    assert(all.skip(0) =~= all);
    while i < n
        invariant
            n == items@.len(),
            all == items.deep_view(),
            all.len() == n,
            i <= n,
            !(g1_list_outcome(all) is Panics),
            g1_list_outcome(all) == g1_list_outcome(all.skip(i as int)),
            g1_views(points@) == all.take(i as int),
        decreases n - i,
    {
        let item = &items[i];
        assert(item.deep_view() =~= item@);
        assert(all[i as int] == item@);
        assert(all.skip(i as int)[0] == item@);
        assert(all.skip(i as int).drop_first() =~= all.skip(i + 1));
        let arr: [u8; 96] = slice_to_array(item.as_slice());
        match decode_g1_point(&arr) {
            Some(p) => {
                let ghost before = points@;
                assert(g1_views(before).len() == before.len());
                points.push(p);
                assert(g1_views(points@).len() == i + 1);
                assert forall|j: int| 0 <= j < i + 1 implies g1_views(points@)[j] == all.take(
                    i + 1,
                )[j] by {
                    if j < i {
                        assert(g1_views(before)[j] == all.take(i as int)[j]);
                        assert(points@[j] == before[j]);
                    } else {
                        assert(points@[j] == p);
                        assert(p@ == item@);
                    }
                }
                assert(g1_views(points@) =~= all.take(i + 1));
            },
            None => {
                return Err(Groth16Error::new("point at infinity"));
            },
        }
        i = i + 1;
    }
    assert(all.take(n as int) =~= all);
    assert(all.skip(n as int) =~= Seq::<Seq<u8>>::empty());
    Ok(points)
}

/// Decodes a list of G2 points.
fn decode_g2_list(items: &Vec<Vec<u8>>) -> (r: Result<Vec<G2Affine>, Groth16Error>)
    requires
        !(g2_list_outcome(items.deep_view()) is Panics),
    ensures
        match r {
            Ok(points) => g2_list_outcome(items.deep_view()) is Succeeds && g2_views(points@)
                == items.deep_view(),
            Err(e) => g2_list_outcome(items.deep_view()) == ImportOutcome::Fails(e.message_text()),
        },
{
    let ghost all = items.deep_view();
    let mut points: Vec<G2Affine> = Vec::new();
    let n = items.len();
    let mut i: usize = 0;
    assert(all.skip(0) =~= all);
    while i < n
        invariant
            n == items@.len(),
            all == items.deep_view(),
            all.len() == n,
            i <= n,
            !(g2_list_outcome(all) is Panics),
            g2_list_outcome(all) == g2_list_outcome(all.skip(i as int)),
            g2_views(points@) == all.take(i as int),
        decreases n - i,
    {
        let item = &items[i];
        assert(item.deep_view() =~= item@);
        assert(all[i as int] == item@);
        assert(all.skip(i as int)[0] == item@);
        assert(all.skip(i as int).drop_first() =~= all.skip(i + 1));
        let arr: [u8; 192] = slice_to_array(item.as_slice());
        match decode_g2_point(&arr) {
            Some(p) => {
                let ghost before = points@;
                assert(g2_views(before).len() == before.len());
                points.push(p);
                assert(g2_views(points@).len() == i + 1);
                assert forall|j: int| 0 <= j < i + 1 implies g2_views(points@)[j] == all.take(
                    i + 1,
                )[j] by {
                    if j < i {
                        assert(g2_views(before)[j] == all.take(i as int)[j]);
                        assert(points@[j] == before[j]);
                    } else {
                        assert(points@[j] == p);
                        assert(p@ == item@);
                    }
                }
                assert(g2_views(points@) =~= all.take(i + 1));
            },
            None => {
                return Err(Groth16Error::new("point at infinity"));
            },
        }
        i = i + 1;
    }
    assert(all.take(n as int) =~= all);
    assert(all.skip(n as int) =~= Seq::<Seq<u8>>::empty());
    Ok(points)
}

/// Decodes one required uncompressed G1 field of a verifying key.
fn decode_g1_field(bytes: &[u8], empty_msg: &'static str, invalid_msg: &'static str) -> (r:
    Result<G1Affine, Groth16Error>)
    requires
        bytes@.len() == 0 || bytes@.len() == 96,
    ensures
        match r {
            Ok(p) => bytes@.len() == 96 && g1_accepted(bytes@) && p@ == bytes@,
            Err(e) => (bytes@.len() == 0 && e.message_text() == empty_msg@) || (bytes@.len() == 96
                && !g1_accepted(bytes@) && e.message_text() == invalid_msg@),
        },
{
    if bytes.len() == 0 {
        return Err(Groth16Error::new(empty_msg));
    }
    let arr: [u8; 96] = slice_to_array(bytes);
    match decode_g1_point(&arr) {
        Some(p) => Ok(p),
        None => Err(Groth16Error::new(invalid_msg)),
    }
}

/// Decodes one required uncompressed G2 field of a verifying key.
fn decode_g2_field(bytes: &[u8], empty_msg: &'static str, invalid_msg: &'static str) -> (r:
    Result<G2Affine, Groth16Error>)
    requires
        bytes@.len() == 0 || bytes@.len() == 192,
    ensures
        match r {
            Ok(p) => bytes@.len() == 192 && g2_accepted(bytes@) && p@ == bytes@,
            Err(e) => (bytes@.len() == 0 && e.message_text() == empty_msg@) || (bytes@.len() == 192
                && !g2_accepted(bytes@) && e.message_text() == invalid_msg@),
        },
{
    if bytes.len() == 0 {
        return Err(Groth16Error::new(empty_msg));
    }
    let arr: [u8; 192] = slice_to_array(bytes);
    match decode_g2_point(&arr) {
        Some(p) => Ok(p),
        None => Err(Groth16Error::new(invalid_msg)),
    }
}

/// What `Proof::export` returns for `p`: the compressed encodings of its
/// points, which decode to the points again.
pub open spec fn proof_export_spec(p: Proof, r: (Seq<u8>, Seq<u8>, Seq<u8>)) -> bool {
    &&& r.0 == g1_compressed_encoding(p.a@)
    &&& r.1 == g2_compressed_encoding(p.b@)
    &&& r.2 == g1_compressed_encoding(p.c@)
    &&& proof_import_outcome(r.0, r.1, r.2) is Succeeds
    &&& g1_from_compressed_result(r.0) == Some(p.a@)
    &&& g2_from_compressed_result(r.1) == Some(p.b@)
    &&& g1_from_compressed_result(r.2) == Some(p.c@)
}

/// What `Proof::import` returns on `a`, `b`, `c` (where it does not panic):
/// the decoded points, or the error of `proof_import_outcome`.
pub open spec fn proof_import_spec(a: Seq<u8>, b: Seq<u8>, c: Seq<u8>, r: Result<Proof, Groth16Error>) -> bool {
    match r {
        Ok(p) => proof_import_outcome(a, b, c) is Succeeds
            && g1_from_compressed_result(a) == Some(p.a@)
            && g2_from_compressed_result(b) == Some(p.b@)
            && g1_from_compressed_result(c) == Some(p.c@)
            && g1_compressed_encoding(p.a@) == a
            && g2_compressed_encoding(p.b@) == b
            && g1_compressed_encoding(p.c@) == c,
        Err(e) => proof_import_outcome(a, b, c) == ImportOutcome::Fails(e.message_text()),
    }
}

/// Importing what `export` gave for a proof cannot fail, and gives back the
/// same points.
pub proof fn law_proof_export_import(
    p: Proof,
    bytes: (Seq<u8>, Seq<u8>, Seq<u8>),
    r: Result<Proof, Groth16Error>,
)
    requires
        proof_export_spec(p, bytes),
        proof_import_spec(bytes.0, bytes.1, bytes.2, r),
    ensures
        r matches Ok(q) && q.a@ == p.a@ && q.b@ == p.b@ && q.c@ == p.c@,
{
}

impl Proof {
    /// The compressed encodings of `a`, `b` and `c`.
    pub fn export(&self) -> (r: (Vec<u8>, Vec<u8>, Vec<u8>))
        ensures
            proof_export_spec(*self, (r.0@, r.1@, r.2@)),
    {
        let a_bytes = array_to_vec(&self.a.to_compressed());
        let b_bytes = array_to_vec(&self.b.to_compressed());
        let c_bytes = array_to_vec(&self.c.to_compressed());
        (a_bytes, b_bytes, c_bytes)
    }

    /// Decodes a proof from the compressed encodings of `a`, `b` and `c`.
    pub fn import(a_bytes: &[u8], b_bytes: &[u8], c_bytes: &[u8]) -> (r: Result<Self, Groth16Error>)
        requires
            !(proof_import_outcome(a_bytes@, b_bytes@, c_bytes@) is Panics),
        ensures
            proof_import_spec(a_bytes@, b_bytes@, c_bytes@, r),
    {
        if a_bytes.len() == 0 {
            return Err(Groth16Error::new("Invalid G1"));
        }
        let a_repr: [u8; 48] = slice_to_array(a_bytes);
        let a = G1Affine::from_compressed(&a_repr);
        if b_bytes.len() == 0 {
            return Err(Groth16Error::new("Invalid G2"));
        }
        let b_repr: [u8; 96] = slice_to_array(b_bytes);
        let b = G2Affine::from_compressed(&b_repr);
        if c_bytes.len() == 0 {
            return Err(Groth16Error::new("Invalid G1"));
        }
        let c_repr: [u8; 48] = slice_to_array(c_bytes);
        let c = G1Affine::from_compressed(&c_repr);
        Ok(Proof { a: a.unwrap(), b: b.unwrap(), c: c.unwrap() })
    }

    /// `import` where it returns, and `None` on the inputs on which `import`
    /// panics (an encoding of a wrong length, or a rejected point).
    pub fn import_checked(a_bytes: &[u8], b_bytes: &[u8], c_bytes: &[u8]) -> (r: Option<
        Result<Self, Groth16Error>,
    >)
        ensures
            r is None <==> proof_import_outcome(a_bytes@, b_bytes@, c_bytes@) is Panics,
            r matches Some(res) ==> proof_import_spec(a_bytes@, b_bytes@, c_bytes@, res),
    {
        if a_bytes.len() != 0 && b_bytes.len() != 0 && c_bytes.len() != 0 {
            if a_bytes.len() != 48 || b_bytes.len() != 96 || c_bytes.len() != 48 {
                return None;
            }
            let a_repr: [u8; 48] = slice_to_array(a_bytes);
            let b_repr: [u8; 96] = slice_to_array(b_bytes);
            let c_repr: [u8; 48] = slice_to_array(c_bytes);
            if G1Affine::from_compressed(&a_repr).is_none() || G2Affine::from_compressed(
                &b_repr,
            ).is_none() || G1Affine::from_compressed(&c_repr).is_none() {
                return None;
            }
        } else if (a_bytes.len() != 0 && a_bytes.len() != 48) || (a_bytes.len() == 48
            && b_bytes.len() != 0 && b_bytes.len() != 96) {
            return None;
        }
        Some(Self::import(a_bytes, b_bytes, c_bytes))
    }
}

/// No point of the list is the point at infinity.
pub open spec fn g1_none_at_infinity(s: Seq<G1Affine>) -> bool {
    forall|j: int| 0 <= j < s.len() ==> !at_infinity(#[trigger] s[j]@)
}

/// No point of the list is the point at infinity.
pub open spec fn g2_none_at_infinity(s: Seq<G2Affine>) -> bool {
    forall|j: int| 0 <= j < s.len() ==> !at_infinity(#[trigger] s[j]@)
}

/// Encodes each G1 point uncompressed.
fn encode_g1_list(points: &Vec<G1Affine>) -> (r: Vec<Vec<u8>>)
    ensures
        r.deep_view() == g1_views(points@),
        forall|j: int| 0 <= j < r.deep_view().len() ==> (#[trigger] r.deep_view()[j]).len() == 96,
        g1_none_at_infinity(points@) ==> g1_list_outcome(r.deep_view()) is Succeeds,
{
    let mut out: Vec<Vec<u8>> = Vec::new();
    let n = points.len();
    let mut i: usize = 0;
    while i < n
        invariant
            n == points@.len(),
            i <= n,
            out.deep_view() == g1_views(points@.take(i as int)),
            forall|j: int| 0 <= j < i ==> (#[trigger] out.deep_view()[j]).len() == 96
                && g1_uncompressed_valid(out.deep_view()[j]),
        decreases n - i,
    {
        points[i].facts();
        let bytes = array_to_vec(&points[i].to_uncompressed());
        let ghost before = out.deep_view();
        out.push(bytes);
        assert(bytes.deep_view() =~= bytes@);
        assert(out.deep_view() =~= before.push(bytes@));
        assert(g1_views(points@.take(i + 1)) =~= g1_views(points@.take(i as int)).push(points@[i as int]@));
        i = i + 1;
    }
    assert(points@.take(n as int) =~= points@);
    proof {
        if g1_none_at_infinity(points@) {
            assert forall|j: int| 0 <= j < out.deep_view().len() implies (#[trigger] out.deep_view()[j]).len()
                == 96 && g1_accepted(out.deep_view()[j]) by {
                assert(out.deep_view()[j] == g1_views(points@)[j]);
                assert(!at_infinity(points@[j]@));
            }
            lemma_valid_lists_succeed(out.deep_view());
        }
    }
    out
}

/// Encodes each G2 point uncompressed.
fn encode_g2_list(points: &Vec<G2Affine>) -> (r: Vec<Vec<u8>>)
    ensures
        r.deep_view() == g2_views(points@),
        forall|j: int| 0 <= j < r.deep_view().len() ==> (#[trigger] r.deep_view()[j]).len() == 192,
        g2_none_at_infinity(points@) ==> g2_list_outcome(r.deep_view()) is Succeeds,
{
    let mut out: Vec<Vec<u8>> = Vec::new();
    let n = points.len();
    let mut i: usize = 0;
    while i < n
        invariant
            n == points@.len(),
            i <= n,
            out.deep_view() == g2_views(points@.take(i as int)),
            forall|j: int| 0 <= j < i ==> (#[trigger] out.deep_view()[j]).len() == 192
                && g2_uncompressed_valid(out.deep_view()[j]),
        decreases n - i,
    {
        points[i].facts();
        let bytes = array_to_vec(&points[i].to_uncompressed());
        let ghost before = out.deep_view();
        out.push(bytes);
        assert(bytes.deep_view() =~= bytes@);
        assert(out.deep_view() =~= before.push(bytes@));
        assert(g2_views(points@.take(i + 1)) =~= g2_views(points@.take(i as int)).push(points@[i as int]@));
        i = i + 1;
    }
    assert(points@.take(n as int) =~= points@);
    proof {
        if g2_none_at_infinity(points@) {
            assert forall|j: int| 0 <= j < out.deep_view().len() implies (#[trigger] out.deep_view()[j]).len()
                == 192 && g2_accepted(out.deep_view()[j]) by {
                assert(out.deep_view()[j] == g2_views(points@)[j]);
                assert(!at_infinity(points@[j]@));
            }
            lemma_valid_lists_succeed(out.deep_view());
        }
    }
    out
}

/// Whether two lists of G1 points hold the same points in the same order.
fn g1_lists_equal(a: &Vec<G1Affine>, b: &Vec<G1Affine>) -> (r: bool)
    ensures
        r == (g1_views(a@) == g1_views(b@)),
{
    if a.len() != b.len() {
        assert(g1_views(a@).len() != g1_views(b@).len());
        return false;
    }
    let n = a.len();
    let mut i: usize = 0;
    while i < n
        invariant
            n == a@.len(),
            n == b@.len(),
            i <= n,
            forall|j: int| 0 <= j < i ==> a@[j]@ == b@[j]@,
        decreases n - i,
    {
        if a[i] != b[i] {
            assert(g1_views(a@)[i as int] != g1_views(b@)[i as int]);
            return false;
        }
        i = i + 1;
    }
    assert(g1_views(a@) =~= g1_views(b@));
    true
}

/// Whether two lists of G2 points hold the same points in the same order.
fn g2_lists_equal(a: &Vec<G2Affine>, b: &Vec<G2Affine>) -> (r: bool)
    ensures
        r == (g2_views(a@) == g2_views(b@)),
{
    if a.len() != b.len() {
        assert(g2_views(a@).len() != g2_views(b@).len());
        return false;
    }
    let n = a.len();
    let mut i: usize = 0;
    while i < n
        invariant
            n == a@.len(),
            n == b@.len(),
            i <= n,
            forall|j: int| 0 <= j < i ==> a@[j]@ == b@[j]@,
        decreases n - i,
    {
        if a[i] != b[i] {
            assert(g2_views(a@)[i as int] != g2_views(b@)[i as int]);
            return false;
        }
        i = i + 1;
    }
    assert(g2_views(a@) =~= g2_views(b@));
    true
}

/// A copy of a list of G1 points.
fn copy_g1_list(points: &Vec<G1Affine>) -> (r: Vec<G1Affine>)
    ensures
        r@ == points@,
{
    let mut out: Vec<G1Affine> = Vec::new();
    let n = points.len();
    let mut i: usize = 0;
    while i < n
        invariant
            n == points@.len(),
            i <= n,
            out@ == points@.take(i as int),
        decreases n - i,
    {
        out.push(points[i]);
        assert(out@ =~= points@.take(i + 1));
        i = i + 1;
    }
    assert(points@.take(n as int) =~= points@);
    out
}

/// Whether decoding a list of uncompressed G1 encodings panics.
fn g1_list_panics(items: &Vec<Vec<u8>>) -> (r: bool)
    ensures
        r == (g1_list_outcome(items.deep_view()) is Panics),
{
    let ghost all = items.deep_view();
    let n = items.len();
    let mut i: usize = 0;
    assert(all.skip(0) =~= all);
    while i < n
        invariant
            n == items@.len(),
            all == items.deep_view(),
            all.len() == n,
            i <= n,
            g1_list_outcome(all) == g1_list_outcome(all.skip(i as int)),
        decreases n - i,
    {
        let item = &items[i];
        assert(item.deep_view() =~= item@);
        assert(all.skip(i as int)[0] == item@);
        assert(all.skip(i as int).drop_first() =~= all.skip(i + 1));
        if item.len() != 96 {
            return true;
        }
        let arr: [u8; 96] = slice_to_array(item.as_slice());
        if decode_g1_point(&arr).is_none() {
            return false;
        }
        i = i + 1;
    }
    assert(all.skip(n as int) =~= Seq::<Seq<u8>>::empty());
    false
}

/// Whether decoding a list of uncompressed G2 encodings panics.
fn g2_list_panics(items: &Vec<Vec<u8>>) -> (r: bool)
    ensures
        r == (g2_list_outcome(items.deep_view()) is Panics),
{
    let ghost all = items.deep_view();
    let n = items.len();
    let mut i: usize = 0;
    assert(all.skip(0) =~= all);
    while i < n
        invariant
            n == items@.len(),
            all == items.deep_view(),
            all.len() == n,
            i <= n,
            g2_list_outcome(all) == g2_list_outcome(all.skip(i as int)),
        decreases n - i,
    {
        let item = &items[i];
        assert(item.deep_view() =~= item@);
        assert(all.skip(i as int)[0] == item@);
        assert(all.skip(i as int).drop_first() =~= all.skip(i + 1));
        if item.len() != 192 {
            return true;
        }
        let arr: [u8; 192] = slice_to_array(item.as_slice());
        if decode_g2_point(&arr).is_none() {
            return false;
        }
        i = i + 1;
    }
    assert(all.skip(n as int) =~= Seq::<Seq<u8>>::empty());
    false
}

/// How one required uncompressed field ends the import: `None` when it
/// decodes and the import goes on, `Some(true)` when its length panics, and
/// `Some(false)` when it makes the import fail.
fn g1_field_stop(bytes: &[u8]) -> (r: Option<bool>)
    ensures
        r is None <==> (bytes@.len() == 96 && g1_accepted(bytes@)),
        r == Some(true) <==> (bytes@.len() != 0 && bytes@.len() != 96),
{
    if bytes.len() == 0 {
        return Some(false);
    }
    if bytes.len() != 96 {
        return Some(true);
    }
    let arr: [u8; 96] = slice_to_array(bytes);
    if decode_g1_point(&arr).is_some() {
        None
    } else {
        Some(false)
    }
}

/// As `g1_field_stop`, for a G2 field.
fn g2_field_stop(bytes: &[u8]) -> (r: Option<bool>)
    ensures
        r is None <==> (bytes@.len() == 192 && g2_accepted(bytes@)),
        r == Some(true) <==> (bytes@.len() != 0 && bytes@.len() != 192),
{
    if bytes.len() == 0 {
        return Some(false);
    }
    if bytes.len() != 192 {
        return Some(true);
    }
    let arr: [u8; 192] = slice_to_array(bytes);
    if decode_g2_point(&arr).is_some() {
        None
    } else {
        Some(false)
    }
}

/// A Groth16 verifying key.
pub struct VerifyingKey {
    /// alpha in G1, for verifying and for creating the A/C elements of a proof.
    pub alpha_g1: G1Affine,
    /// beta in G1 and G2, for verifying and for creating the B/C elements.
    pub beta_g1: G1Affine,
    pub beta_g2: G2Affine,
    /// gamma in G2, for verifying.
    pub gamma_g2: G2Affine,
    /// delta in G1/G2, for verifying and proving.
    pub delta_g1: G1Affine,
    pub delta_g2: G2Affine,
    /// `(beta * u_i(tau) + alpha * v_i(tau) + w_i(tau)) / gamma` for all public inputs.
    pub ic: Vec<G1Affine>,
}

/// Whether two verifying keys hold the same points.
pub open spec fn vk_same(a: &VerifyingKey, b: &VerifyingKey) -> bool {
    &&& a.alpha_g1@ == b.alpha_g1@
    &&& a.beta_g1@ == b.beta_g1@
    &&& a.beta_g2@ == b.beta_g2@
    &&& a.gamma_g2@ == b.gamma_g2@
    &&& a.delta_g1@ == b.delta_g1@
    &&& a.delta_g2@ == b.delta_g2@
    &&& g1_views(a.ic@) == g1_views(b.ic@)
}

impl Clone for VerifyingKey {
    fn clone(&self) -> (r: Self)
        ensures
            vk_same(&r, self),
            r.ic@ == self.ic@,
    {
        VerifyingKey {
            alpha_g1: self.alpha_g1,
            beta_g1: self.beta_g1,
            beta_g2: self.beta_g2,
            gamma_g2: self.gamma_g2,
            delta_g1: self.delta_g1,
            delta_g2: self.delta_g2,
            ic: copy_g1_list(&self.ic),
        }
    }
}

impl PartialEq for VerifyingKey {
    fn eq(&self, other: &Self) -> (r: bool) {
        self.alpha_g1 == other.alpha_g1 && self.beta_g1 == other.beta_g1 && self.beta_g2
            == other.beta_g2 && self.gamma_g2 == other.gamma_g2 && self.delta_g1 == other.delta_g1
            && self.delta_g2 == other.delta_g2 && g1_lists_equal(&self.ic, &other.ic)
    }
}

impl vstd::std_specs::cmp::PartialEqSpecImpl for VerifyingKey {
    open spec fn obeys_eq_spec() -> bool {
        true
    }

    open spec fn eq_spec(&self, other: &VerifyingKey) -> bool {
        vk_same(self, other)
    }
}

/// What `VerifyingKey::export` returns for `vk`: the uncompressed encodings
/// of its points, which import again.
pub open spec fn vk_export_spec(
    vk: &VerifyingKey,
    r: (Seq<u8>, Seq<u8>, Seq<u8>, Seq<u8>, Seq<u8>, Seq<u8>, Seq<Seq<u8>>),
) -> bool {
    &&& r.0 == vk.alpha_g1@
    &&& r.1 == vk.beta_g1@
    &&& r.2 == vk.beta_g2@
    &&& r.3 == vk.gamma_g2@
    &&& r.4 == vk.delta_g1@
    &&& r.5 == vk.delta_g2@
    &&& r.6 == g1_views(vk.ic@)
    &&& forall|j: int| 0 <= j < r.6.len() ==> (#[trigger] r.6[j]).len() == 96
    &&& vk_none_at_infinity(vk) ==> vk_import_outcome(r.0, r.1, r.2, r.3, r.4, r.5, r.6) is Succeeds
}

/// None of the key's points is the point at infinity (which a key never
/// holds, and which its import refuses).
pub open spec fn vk_none_at_infinity(vk: &VerifyingKey) -> bool {
    &&& !at_infinity(vk.alpha_g1@)
    &&& !at_infinity(vk.beta_g1@)
    &&& !at_infinity(vk.beta_g2@)
    &&& !at_infinity(vk.gamma_g2@)
    &&& !at_infinity(vk.delta_g1@)
    &&& !at_infinity(vk.delta_g2@)
    &&& g1_none_at_infinity(vk.ic@)
}

/// What `VerifyingKey::import` returns (where it does not panic): the key
/// whose points have the given encodings, or the error of
/// `vk_import_outcome`.
pub open spec fn vk_import_spec(
    alpha_g1: Seq<u8>,
    beta_g1: Seq<u8>,
    beta_g2: Seq<u8>,
    gamma_g2: Seq<u8>,
    delta_g1: Seq<u8>,
    delta_g2: Seq<u8>,
    ic: Seq<Seq<u8>>,
    r: &Result<VerifyingKey, Groth16Error>,
) -> bool {
    match r {
        Ok(vk) => vk_import_outcome(alpha_g1, beta_g1, beta_g2, gamma_g2, delta_g1, delta_g2, ic)
            is Succeeds && vk.alpha_g1@ == alpha_g1 && vk.beta_g1@ == beta_g1 && vk.beta_g2@
            == beta_g2 && vk.gamma_g2@ == gamma_g2 && vk.delta_g1@ == delta_g1 && vk.delta_g2@
            == delta_g2 && g1_views(vk.ic@) == ic,
        Err(e) => vk_import_outcome(alpha_g1, beta_g1, beta_g2, gamma_g2, delta_g1, delta_g2, ic)
            == ImportOutcome::Fails(e.message_text()),
    }
}

/// Importing what `export` gave for a verifying key with no point at
/// infinity cannot fail, and gives back a key with the same points.
pub proof fn law_vk_export_import(
    vk: &VerifyingKey,
    bytes: (Seq<u8>, Seq<u8>, Seq<u8>, Seq<u8>, Seq<u8>, Seq<u8>, Seq<Seq<u8>>),
    r: &Result<VerifyingKey, Groth16Error>,
)
    requires
        vk_none_at_infinity(vk),
        vk_export_spec(vk, bytes),
        vk_import_spec(bytes.0, bytes.1, bytes.2, bytes.3, bytes.4, bytes.5, bytes.6, r),
    ensures
        r matches Ok(back) && vk_same(&back, vk),
{
}

impl VerifyingKey {
    /// The uncompressed encodings of the six points and of every `ic` point.
    pub fn export(&self) -> (r: (Vec<u8>, Vec<u8>, Vec<u8>, Vec<u8>, Vec<u8>, Vec<u8>, Vec<Vec<u8>>))
        ensures
            vk_export_spec(self, (r.0@, r.1@, r.2@, r.3@, r.4@, r.5@, r.6.deep_view())),
    {
        self.alpha_g1.facts();
        self.beta_g1.facts();
        self.beta_g2.facts();
        self.gamma_g2.facts();
        self.delta_g1.facts();
        self.delta_g2.facts();
        let alpha_g1_bytes = array_to_vec(&self.alpha_g1.to_uncompressed());
        let beta_g1_bytes = array_to_vec(&self.beta_g1.to_uncompressed());
        let beta_g2_bytes = array_to_vec(&self.beta_g2.to_uncompressed());
        let gamma_g2_bytes = array_to_vec(&self.gamma_g2.to_uncompressed());
        let delta_g1_bytes = array_to_vec(&self.delta_g1.to_uncompressed());
        let delta_g2_bytes = array_to_vec(&self.delta_g2.to_uncompressed());
        let ic_bytes = encode_g1_list(&self.ic);
        (
            alpha_g1_bytes,
            beta_g1_bytes,
            beta_g2_bytes,
            gamma_g2_bytes,
            delta_g1_bytes,
            delta_g2_bytes,
            ic_bytes,
        )
    }

    /// Decodes a verifying key from uncompressed encodings: each required
    /// field must be present and valid, then every `ic` point.
    pub fn import(
        alpha_g1_bytes: &[u8],
        beta_g1_bytes: &[u8],
        beta_g2_bytes: &[u8],
        gamma_g2_bytes: &[u8],
        delta_g1_bytes: &[u8],
        delta_g2_bytes: &[u8],
        ic_bytes: Vec<Vec<u8>>,
    ) -> (r: Result<Self, Groth16Error>)
        requires
            !(vk_import_outcome(
                alpha_g1_bytes@,
                beta_g1_bytes@,
                beta_g2_bytes@,
                gamma_g2_bytes@,
                delta_g1_bytes@,
                delta_g2_bytes@,
                ic_bytes.deep_view(),
            ) is Panics),
        ensures
            vk_import_spec(
                alpha_g1_bytes@,
                beta_g1_bytes@,
                beta_g2_bytes@,
                gamma_g2_bytes@,
                delta_g1_bytes@,
                delta_g2_bytes@,
                ic_bytes.deep_view(),
                &r,
            ),
    {
        let alpha_g1 = match decode_g1_field(
            alpha_g1_bytes,
            "alpha_g1 is empty",
            "invalid G1 alpha_g1",
        ) {
            Ok(p) => p,
            Err(e) => return Err(e),
        };
        let beta_g1 = match decode_g1_field(beta_g1_bytes, "beta_g1 is empty", "invalid G1 beta_g1") {
            Ok(p) => p,
            Err(e) => return Err(e),
        };
        let beta_g2 = match decode_g2_field(beta_g2_bytes, "beta_g2 is empty", "invalid G2 beta_g2") {
            Ok(p) => p,
            Err(e) => return Err(e),
        };
        let gamma_g2 = match decode_g2_field(
            gamma_g2_bytes,
            "gamma_g2 is empty",
            "invalid G2 gamma_g2",
        ) {
            Ok(p) => p,
            Err(e) => return Err(e),
        };
        let delta_g1 = match decode_g1_field(
            delta_g1_bytes,
            "delta_g1 is empty",
            "invalid G1 delta_g1",
        ) {
            Ok(p) => p,
            Err(e) => return Err(e),
        };
        let delta_g2 = match decode_g2_field(
            delta_g2_bytes,
            "delta_g2 is empty",
            "invalid G2 delta_g2",
        ) {
            Ok(p) => p,
            Err(e) => return Err(e),
        };
        let ic = match decode_g1_list(&ic_bytes) {
            Ok(points) => points,
            Err(e) => return Err(e),
        };
        Ok(VerifyingKey { alpha_g1, beta_g1, beta_g2, gamma_g2, delta_g1, delta_g2, ic })
    }

    /// `import` where it returns, and `None` on the inputs on which `import`
    /// panics (a present encoding of a wrong length reached before any error).
    pub fn import_checked(
        alpha_g1_bytes: &[u8],
        beta_g1_bytes: &[u8],
        beta_g2_bytes: &[u8],
        gamma_g2_bytes: &[u8],
        delta_g1_bytes: &[u8],
        delta_g2_bytes: &[u8],
        ic_bytes: Vec<Vec<u8>>,
    ) -> (r: Option<Result<Self, Groth16Error>>)
        ensures
            r is None <==> vk_import_outcome(
                alpha_g1_bytes@,
                beta_g1_bytes@,
                beta_g2_bytes@,
                gamma_g2_bytes@,
                delta_g1_bytes@,
                delta_g2_bytes@,
                ic_bytes.deep_view(),
            ) is Panics,
            r matches Some(res) ==> vk_import_spec(
                alpha_g1_bytes@,
                beta_g1_bytes@,
                beta_g2_bytes@,
                gamma_g2_bytes@,
                delta_g1_bytes@,
                delta_g2_bytes@,
                ic_bytes.deep_view(),
                &res,
            ),
    {
        let stop = {
            match g1_field_stop(alpha_g1_bytes) {
                Some(p) => Some(p),
                None => match g1_field_stop(beta_g1_bytes) {
                    Some(p) => Some(p),
                    None => match g2_field_stop(beta_g2_bytes) {
                        Some(p) => Some(p),
                        None => match g2_field_stop(gamma_g2_bytes) {
                            Some(p) => Some(p),
                            None => match g1_field_stop(delta_g1_bytes) {
                                Some(p) => Some(p),
                                None => match g2_field_stop(delta_g2_bytes) {
                                    Some(p) => Some(p),
                                    None => Some(g1_list_panics(&ic_bytes)),
                                },
                            },
                        },
                    },
                },
            }
        };
        if stop == Some(true) {
            return None;
        }
        Some(Self::import(
            alpha_g1_bytes,
            beta_g1_bytes,
            beta_g2_bytes,
            gamma_g2_bytes,
            delta_g1_bytes,
            delta_g2_bytes,
            ic_bytes,
        ))
    }
}

/// Groth16 parameters: the verifying key and the proving key's point lists.
pub struct Parameters {
    pub vk: VerifyingKey,
    /// `(tau^i * t(tau)) / delta` for `i` in `0..m-1`.
    pub h: Arc<Vec<G1Affine>>,
    /// `(beta * u_i(tau) + alpha * v_i(tau) + w_i(tau)) / delta` for all auxiliary inputs.
    pub l: Arc<Vec<G1Affine>>,
    /// QAP "A" polynomials evaluated at tau in the Lagrange basis.
    pub a: Arc<Vec<G1Affine>>,
    /// QAP "B" polynomials evaluated at tau in the Lagrange basis, in G1 and in G2.
    pub b_g1: Arc<Vec<G1Affine>>,
    pub b_g2: Arc<Vec<G2Affine>>,
}

/// Whether two parameter sets hold the same points.
pub open spec fn params_same(a: &Parameters, b: &Parameters) -> bool {
    &&& vk_same(&a.vk, &b.vk)
    &&& g1_views(a.h@) == g1_views(b.h@)
    &&& g1_views(a.l@) == g1_views(b.l@)
    &&& g1_views(a.a@) == g1_views(b.a@)
    &&& g1_views(a.b_g1@) == g1_views(b.b_g1@)
    &&& g2_views(a.b_g2@) == g2_views(b.b_g2@)
}

impl PartialEq for Parameters {
    fn eq(&self, other: &Self) -> (r: bool) {
        self.vk == other.vk && g1_lists_equal(&self.h, &other.h) && g1_lists_equal(
            &self.l,
            &other.l,
        ) && g1_lists_equal(&self.a, &other.a) && g1_lists_equal(&self.b_g1, &other.b_g1)
            && g2_lists_equal(&self.b_g2, &other.b_g2)
    }
}

impl vstd::std_specs::cmp::PartialEqSpecImpl for Parameters {
    open spec fn obeys_eq_spec() -> bool {
        true
    }

    open spec fn eq_spec(&self, other: &Parameters) -> bool {
        params_same(self, other)
    }
}

/// What `Parameters::export` returns: a copy of the verifying key and the
/// uncompressed encodings of every list, which import again.
pub open spec fn params_export_spec(
    params: &Parameters,
    vk: &VerifyingKey,
    lists: (Seq<Seq<u8>>, Seq<Seq<u8>>, Seq<Seq<u8>>, Seq<Seq<u8>>, Seq<Seq<u8>>),
) -> bool {
    &&& vk_same(vk, &params.vk)
    &&& lists.0 == g1_views(params.h@)
    &&& lists.1 == g1_views(params.l@)
    &&& lists.2 == g1_views(params.a@)
    &&& lists.3 == g1_views(params.b_g1@)
    &&& lists.4 == g2_views(params.b_g2@)
    &&& params_none_at_infinity(params) ==> params_import_outcome(
        lists.0,
        lists.1,
        lists.2,
        lists.3,
        lists.4,
    ) is Succeeds
}

/// None of the points of the parameters' lists is the point at infinity
/// (which they never hold, and which their import refuses).
pub open spec fn params_none_at_infinity(params: &Parameters) -> bool {
    &&& g1_none_at_infinity(params.h@)
    &&& g1_none_at_infinity(params.l@)
    &&& g1_none_at_infinity(params.a@)
    &&& g1_none_at_infinity(params.b_g1@)
    &&& g2_none_at_infinity(params.b_g2@)
}

/// What `Parameters::import` returns (where it does not panic): the
/// parameters with the key `vk` and the decoded lists, or the error of
/// `params_import_outcome`.
pub open spec fn params_import_spec(
    vk: &VerifyingKey,
    lists: (Seq<Seq<u8>>, Seq<Seq<u8>>, Seq<Seq<u8>>, Seq<Seq<u8>>, Seq<Seq<u8>>),
    r: &Result<Parameters, Groth16Error>,
) -> bool {
    match r {
        Ok(params) => params_import_outcome(lists.0, lists.1, lists.2, lists.3, lists.4)
            is Succeeds && vk_same(&params.vk, vk) && g1_views(params.h@) == lists.0 && g1_views(
            params.l@,
        ) == lists.1 && g1_views(params.a@) == lists.2 && g1_views(params.b_g1@) == lists.3
            && g2_views(params.b_g2@) == lists.4,
        Err(e) => params_import_outcome(lists.0, lists.1, lists.2, lists.3, lists.4)
            == ImportOutcome::Fails(e.message_text()),
    }
}

/// Importing what `export` gave for parameters whose lists hold no point at
/// infinity cannot fail, and gives back parameters equal to them.
pub proof fn law_params_export_import(
    params: &Parameters,
    vk: &VerifyingKey,
    lists: (Seq<Seq<u8>>, Seq<Seq<u8>>, Seq<Seq<u8>>, Seq<Seq<u8>>, Seq<Seq<u8>>),
    r: &Result<Parameters, Groth16Error>,
)
    requires
        params_none_at_infinity(params),
        params_export_spec(params, vk, lists),
        params_import_spec(vk, lists, r),
    ensures
        r matches Ok(back) && params_same(&back, params),
{
}

impl Parameters {
    /// A copy of the verifying key, and the uncompressed encodings of the
    /// points of every list.
    pub fn export(&self) -> (r: (
        VerifyingKey,
        Vec<Vec<u8>>,
        Vec<Vec<u8>>,
        Vec<Vec<u8>>,
        Vec<Vec<u8>>,
        Vec<Vec<u8>>,
    ))
        ensures
            params_export_spec(
                self,
                &r.0,
                (r.1.deep_view(), r.2.deep_view(), r.3.deep_view(), r.4.deep_view(), r.5.deep_view()),
            ),
    {
        let vk = &self.vk;
        let h_bytes = encode_g1_list(&self.h);
        let l_bytes = encode_g1_list(&self.l);
        let a_bytes = encode_g1_list(&self.a);
        let b_g1_bytes = encode_g1_list(&self.b_g1);
        let b_g2_bytes = encode_g2_list(&self.b_g2);
        (vk.clone(), h_bytes, l_bytes, a_bytes, b_g1_bytes, b_g2_bytes)
    }

    /// Decodes the point lists from uncompressed encodings, keeping `vk`.
    pub fn import(
        vk: VerifyingKey,
        h_bytes: Vec<Vec<u8>>,
        l_bytes: Vec<Vec<u8>>,
        a_bytes: Vec<Vec<u8>>,
        b_g1_bytes: Vec<Vec<u8>>,
        b_g2_bytes: Vec<Vec<u8>>,
    ) -> (r: Result<Self, Groth16Error>)
        requires
            !(params_import_outcome(
                h_bytes.deep_view(),
                l_bytes.deep_view(),
                a_bytes.deep_view(),
                b_g1_bytes.deep_view(),
                b_g2_bytes.deep_view(),
            ) is Panics),
        ensures
            params_import_spec(
                &vk,
                (
                    h_bytes.deep_view(),
                    l_bytes.deep_view(),
                    a_bytes.deep_view(),
                    b_g1_bytes.deep_view(),
                    b_g2_bytes.deep_view(),
                ),
                &r,
            ),
    {
        let ghost outcomes = seq![
            g1_list_outcome(h_bytes.deep_view()),
            g1_list_outcome(l_bytes.deep_view()),
            g1_list_outcome(a_bytes.deep_view()),
            g1_list_outcome(b_g1_bytes.deep_view()),
            g2_list_outcome(b_g2_bytes.deep_view()),
        ];
        assert(!(outcomes[0] is Panics));
        assert(!(outcomes[1] is Panics));
        assert(!(outcomes[2] is Panics));
        assert(!(outcomes[3] is Panics));
        assert(!(outcomes[4] is Panics));
        let h = decode_g1_list(&h_bytes);
        let l = decode_g1_list(&l_bytes);
        let a = decode_g1_list(&a_bytes);
        let b_g1 = decode_g1_list(&b_g1_bytes);
        let b_g2 = decode_g2_list(&b_g2_bytes);
        let h = match h {
            Ok(p) => p,
            Err(e) => {
                proof {
                    lemma_list_failure_message(h_bytes.deep_view());
                    assert(outcomes[0] is Fails);
                    assert(outcomes[0] == ImportOutcome::Fails("point at infinity"@));
                }
                return Err(e);
            },
        };
        let l = match l {
            Ok(p) => p,
            Err(e) => {
                proof {
                    lemma_list_failure_message(l_bytes.deep_view());
                    assert(outcomes[1] is Fails);
                    assert(outcomes[1] == ImportOutcome::Fails("point at infinity"@));
                }
                return Err(e);
            },
        };
        let a = match a {
            Ok(p) => p,
            Err(e) => {
                proof {
                    lemma_list_failure_message(a_bytes.deep_view());
                    assert(outcomes[2] is Fails);
                    assert(outcomes[2] == ImportOutcome::Fails("point at infinity"@));
                }
                return Err(e);
            },
        };
        let b_g1 = match b_g1 {
            Ok(p) => p,
            Err(e) => {
                proof {
                    lemma_list_failure_message(b_g1_bytes.deep_view());
                    assert(outcomes[3] is Fails);
                    assert(outcomes[3] == ImportOutcome::Fails("point at infinity"@));
                }
                return Err(e);
            },
        };
        let b_g2 = match b_g2 {
            Ok(p) => p,
            Err(e) => {
                proof {
                    lemma_list_failure_message(b_g2_bytes.deep_view());
                    assert(outcomes[4] is Fails);
                    assert(outcomes[4] == ImportOutcome::Fails("point at infinity"@));
                }
                return Err(e);
            },
        };
        assert(forall|i: int| 0 <= i < 5 ==> outcomes[i] is Succeeds);
        Ok(Parameters {
            vk,
            h: Arc::new(h),
            l: Arc::new(l),
            a: Arc::new(a),
            b_g1: Arc::new(b_g1),
            b_g2: Arc::new(b_g2),
        })
    }

    /// `import` where it returns, and `None` on the inputs on which `import`
    /// panics (an encoding of a wrong length before the first rejected point
    /// of its list).
    pub fn import_checked(
        vk: VerifyingKey,
        h_bytes: Vec<Vec<u8>>,
        l_bytes: Vec<Vec<u8>>,
        a_bytes: Vec<Vec<u8>>,
        b_g1_bytes: Vec<Vec<u8>>,
        b_g2_bytes: Vec<Vec<u8>>,
    ) -> (r: Option<Result<Self, Groth16Error>>)
        ensures
            r is None <==> params_import_outcome(
                h_bytes.deep_view(),
                l_bytes.deep_view(),
                a_bytes.deep_view(),
                b_g1_bytes.deep_view(),
                b_g2_bytes.deep_view(),
            ) is Panics,
            r matches Some(res) ==> params_import_spec(
                &vk,
                (
                    h_bytes.deep_view(),
                    l_bytes.deep_view(),
                    a_bytes.deep_view(),
                    b_g1_bytes.deep_view(),
                    b_g2_bytes.deep_view(),
                ),
                &res,
            ),
    {
        let ghost outcomes = seq![
            g1_list_outcome(h_bytes.deep_view()),
            g1_list_outcome(l_bytes.deep_view()),
            g1_list_outcome(a_bytes.deep_view()),
            g1_list_outcome(b_g1_bytes.deep_view()),
            g2_list_outcome(b_g2_bytes.deep_view()),
        ];
        if g1_list_panics(&h_bytes) || g1_list_panics(&l_bytes) || g1_list_panics(&a_bytes)
            || g1_list_panics(&b_g1_bytes) || g2_list_panics(&b_g2_bytes) {
            assert(exists|i: int| 0 <= i < 5 && outcomes[i] is Panics);
            return None;
        }
        assert(forall|i: int| 0 <= i < 5 ==> !(outcomes[i] is Panics));
        Some(Self::import(vk, h_bytes, l_bytes, a_bytes, b_g1_bytes, b_g2_bytes))
    }
}

/// `Arc::clone`: another pointer to the same allocation, so the same value.
#[verifier::external_body]
fn share<T>(a: &Arc<T>) -> (r: Arc<T>)
    ensures
        *r == **a,
{
    Arc::clone(a)
}

/// Where a prover takes its parameters from: the verifying key, and each
/// query as a list of points with the position of its first point to use.
pub trait ParameterSource {
    fn get_vk(&mut self, num_ic: usize) -> Result<VerifyingKey, SynthesisError>;

    fn get_h(&mut self, num_h: usize) -> Result<(Arc<Vec<G1Affine>>, usize), SynthesisError>;

    fn get_l(&mut self, num_l: usize) -> Result<(Arc<Vec<G1Affine>>, usize), SynthesisError>;

    fn get_a(&mut self, num_inputs: usize, num_aux: usize) -> Result<
        ((Arc<Vec<G1Affine>>, usize), (Arc<Vec<G1Affine>>, usize)),
        SynthesisError,
    >;

    fn get_b_g1(&mut self, num_inputs: usize, num_aux: usize) -> Result<
        ((Arc<Vec<G1Affine>>, usize), (Arc<Vec<G1Affine>>, usize)),
        SynthesisError,
    >;

    fn get_b_g2(&mut self, num_inputs: usize, num_aux: usize) -> Result<
        ((Arc<Vec<G2Affine>>, usize), (Arc<Vec<G2Affine>>, usize)),
        SynthesisError,
    >;
}

/// Parameters held in memory are a source of themselves: every query is the
/// whole stored list; the `a` and `b` queries come twice, for the inputs (from
/// the first point) and for the auxiliary variables (from point `num_inputs`).
impl<'a> ParameterSource for &'a Parameters {
    fn get_vk(&mut self, num_ic: usize) -> (r: Result<VerifyingKey, SynthesisError>)
        ensures
            r matches Ok(vk) && vk_same(&vk, &old(self).vk) && vk.ic@ == old(self).vk.ic@,
    {
        Ok(self.vk.clone())
    }

    fn get_h(&mut self, num_h: usize) -> (r: Result<(Arc<Vec<G1Affine>>, usize), SynthesisError>)
        ensures
            r matches Ok(q) && *q.0 == *old(self).h && q.1 == 0,
    {
        Ok((share(&self.h), 0))
    }

    fn get_l(&mut self, num_l: usize) -> (r: Result<(Arc<Vec<G1Affine>>, usize), SynthesisError>)
        ensures
            r matches Ok(q) && *q.0 == *old(self).l && q.1 == 0,
    {
        Ok((share(&self.l), 0))
    }

    fn get_a(&mut self, num_inputs: usize, num_aux: usize) -> (r: Result<
        ((Arc<Vec<G1Affine>>, usize), (Arc<Vec<G1Affine>>, usize)),
        SynthesisError,
    >)
        ensures
            r matches Ok(q) && *q.0.0 == *old(self).a && q.0.1 == 0 && *q.1.0 == *old(self).a
                && q.1.1 == num_inputs,
    {
        Ok(((share(&self.a), 0), (share(&self.a), num_inputs)))
    }

    fn get_b_g1(&mut self, num_inputs: usize, num_aux: usize) -> (r: Result<
        ((Arc<Vec<G1Affine>>, usize), (Arc<Vec<G1Affine>>, usize)),
        SynthesisError,
    >)
        ensures
            r matches Ok(q) && *q.0.0 == *old(self).b_g1 && q.0.1 == 0 && *q.1.0 == *old(self).b_g1
                && q.1.1 == num_inputs,
    {
        Ok(((share(&self.b_g1), 0), (share(&self.b_g1), num_inputs)))
    }

    fn get_b_g2(&mut self, num_inputs: usize, num_aux: usize) -> (r: Result<
        ((Arc<Vec<G2Affine>>, usize), (Arc<Vec<G2Affine>>, usize)),
        SynthesisError,
    >)
        ensures
            r matches Ok(q) && *q.0.0 == *old(self).b_g2 && q.0.1 == 0 && *q.1.0 == *old(self).b_g2
                && q.1.1 == num_inputs,
    {
        Ok(((share(&self.b_g2), 0), (share(&self.b_g2), num_inputs)))
    }
}

} // verus!
