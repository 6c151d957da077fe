//! Fixed-size storage forms of exported proofs and verification keys.

use vstd::prelude::*;

use crate::bytes::slice_to_array;

verus! {

/// `n` zero bytes.
pub open spec fn zeros(n: nat) -> Seq<u8> {
    Seq::new(n, |i: int| 0u8)
}

/// A proof's compressed points as stored: 48, 96 and 48 bytes.
#[derive(Clone, Copy)]
pub struct ProofStore {
    pub transcation_proof_a: [u8; 48],
    pub transcation_proof_b: [u8; 96],
    pub transcation_proof_c: [u8; 48],
}

impl Default for ProofStore {
    fn default() -> (r: Self)
        ensures
            r.transcation_proof_a@ == zeros(48),
            r.transcation_proof_b@ == zeros(96),
            r.transcation_proof_c@ == zeros(48),
    {
        let r = Self {
            transcation_proof_a: [0;48],
            transcation_proof_b: [0;96],
            transcation_proof_c: [0;48],
        };
        assert(r.transcation_proof_a@ =~= zeros(48));
        assert(r.transcation_proof_b@ =~= zeros(96));
        assert(r.transcation_proof_c@ =~= zeros(48));
        r
    }
}

/// Stores the exported encodings of a proof's points; each must have its
/// stored length.
pub fn convert_to_proof_store(
    transcation_proof_a: Vec<u8>,
    transcation_proof_b: Vec<u8>,
    transcation_proof_c: Vec<u8>,
) -> (r: ProofStore)
    requires
        transcation_proof_a@.len() == 48,
        transcation_proof_b@.len() == 96,
        transcation_proof_c@.len() == 48,
    ensures
        r.transcation_proof_a@ == transcation_proof_a@,
        r.transcation_proof_b@ == transcation_proof_b@,
        r.transcation_proof_c@ == transcation_proof_c@,
{
    let transcation_proof_a: [u8; 48] = slice_to_array(transcation_proof_a.as_slice());
    let transcation_proof_b: [u8; 96] = slice_to_array(transcation_proof_b.as_slice());
    let transcation_proof_c: [u8; 48] = slice_to_array(transcation_proof_c.as_slice());
    ProofStore { transcation_proof_a, transcation_proof_b, transcation_proof_c }
}

/// A verifying key's uncompressed points as stored, with room for one `ic` point.
#[derive(Clone, Copy)]
pub struct VerificationKey {
    pub verification_alpha_g1: [u8; 96],
    pub verification_beta_g1: [u8; 96],
    pub verification_beta_g2: [u8; 192],
    pub verification_gamma_g2: [u8; 192],
    pub verification_delta_g1: [u8; 96],
    pub verification_delta_g2: [u8; 192],
    pub verification_ic: [[u8; 96]; 1],
}

impl Default for VerificationKey {
    fn default() -> (r: Self)
        ensures
            r.verification_alpha_g1@ == zeros(96),
            r.verification_beta_g1@ == zeros(96),
            r.verification_beta_g2@ == zeros(192),
            r.verification_gamma_g2@ == zeros(192),
            r.verification_delta_g1@ == zeros(96),
            r.verification_delta_g2@ == zeros(192),
            r.verification_ic[0]@ == zeros(96),
    {
        let ic0: [u8; 96] = [0;96];
        let r = Self {
            verification_alpha_g1: [0;96],
            verification_beta_g1: [0;96],
            verification_beta_g2: [0;192],
            verification_gamma_g2: [0;192],
            verification_delta_g1: [0;96],
            verification_delta_g2: [0;192],
            verification_ic: [ic0],
        };
        assert(r.verification_alpha_g1@ =~= zeros(96));
        assert(r.verification_beta_g1@ =~= zeros(96));
        assert(r.verification_beta_g2@ =~= zeros(192));
        assert(r.verification_gamma_g2@ =~= zeros(192));
        assert(r.verification_delta_g1@ =~= zeros(96));
        assert(r.verification_delta_g2@ =~= zeros(192));
        assert(r.verification_ic[0]@ =~= zeros(96));
        r
    }
}

/// Stores the exported encodings of a verifying key; each must have its
/// stored length, and `ic` holds at most one point, which replaces the zero
/// placeholder.
pub fn convert_to_verification_key(
    verification_alpha_g1: Vec<u8>,
    verification_beta_g1: Vec<u8>,
    verification_beta_g2: Vec<u8>,
    verification_gamma_g2: Vec<u8>,
    verification_delta_g1: Vec<u8>,
    verification_delta_g2: Vec<u8>,
    verification_ic: Vec<Vec<u8>>,
) -> (r: VerificationKey)
    requires
        verification_alpha_g1@.len() == 96,
        verification_beta_g1@.len() == 96,
        verification_beta_g2@.len() == 192,
        verification_gamma_g2@.len() == 192,
        verification_delta_g1@.len() == 96,
        verification_delta_g2@.len() == 192,
        verification_ic@.len() <= 1,
        forall|i: int| 0 <= i < verification_ic@.len() ==> (#[trigger] verification_ic@[i])@.len() == 96,
    ensures
        r.verification_alpha_g1@ == verification_alpha_g1@,
        r.verification_beta_g1@ == verification_beta_g1@,
        r.verification_beta_g2@ == verification_beta_g2@,
        r.verification_gamma_g2@ == verification_gamma_g2@,
        r.verification_delta_g1@ == verification_delta_g1@,
        r.verification_delta_g2@ == verification_delta_g2@,
        r.verification_ic[0]@ == if verification_ic@.len() == 1 {
            verification_ic@[0]@
        } else {
            zeros(96)
        },
{
    let verification_alpha_g1: [u8; 96] = slice_to_array(verification_alpha_g1.as_slice());
    let verification_beta_g1: [u8; 96] = slice_to_array(verification_beta_g1.as_slice());
    let verification_beta_g2: [u8; 192] = slice_to_array(verification_beta_g2.as_slice());
    let verification_gamma_g2: [u8; 192] = slice_to_array(verification_gamma_g2.as_slice());
    let verification_delta_g1: [u8; 96] = slice_to_array(verification_delta_g1.as_slice());
    let verification_delta_g2: [u8; 192] = slice_to_array(verification_delta_g2.as_slice());
    let mut ic0: [u8; 96] = [0;96];
    assert(ic0@ =~= zeros(96));
    let n = verification_ic.len();
    let mut i: usize = 0;
    while i < n
        invariant
            n == verification_ic@.len(),
            n <= 1,
            i <= n,
            forall|k: int| 0 <= k < n ==> (#[trigger] verification_ic@[k])@.len() == 96,
            ic0@ == if i == 1 {
                verification_ic@[0]@
            } else {
                zeros(96)
            },
        decreases n - i,
    {
        ic0 = slice_to_array(verification_ic[i].as_slice());
        i = i + 1;
    }
    VerificationKey {
        verification_alpha_g1,
        verification_beta_g1,
        verification_beta_g2,
        verification_gamma_g2,
        verification_delta_g1,
        verification_delta_g2,
        verification_ic: [ic0],
    }
}

} // verus!
