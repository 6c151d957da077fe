//! The proof pallet: records the verifying keys and proofs of the relay's
//! zero-knowledge proofs, the locked volumes and balances, and which parties
//! have agreed to trade.
//!
//! Generating parameters, proving and checking a proof are done by the
//! Groth16 prover outside this module: the functions here build the circuits
//! to prove and decide what the pallet stores from the prover's results.

use vstd::prelude::*;

use std::collections::HashMap;

use crate::bytes::array_to_vec;
use crate::curve::{
    g1_compressed_encoding, g1_from_compressed_result, g1_generator_mul, g2_compressed_encoding,
    g2_from_compressed_result, G1Affine,
};
use crate::field::{scalar_modulus, Scalar};
use crate::groth16::{
    g1_views, proof_import_outcome, vk_none_at_infinity, vk_import_outcome, ImportOutcome, Proof, VerifyingKey,
};
use crate::proof_circuit::{
    ptrad_statement, store_statement, transcation_statement, PtradCircuit, StoreCircuit,
    TranscationCircle,
};
use crate::store_type::{
    convert_to_proof_store, convert_to_verification_key, zeros, ProofStore, VerificationKey,
};

verus! {

broadcast use vstd::std_specs::hash::group_hash_axioms;

/// Events of the pallet.
#[derive(Clone, Copy, PartialEq, Eq, Structural, Debug)]
pub enum Event {
    CreateProof,
    VerifyProof,
}

/// Errors of the pallet.
#[derive(Clone, Copy, PartialEq, Eq, Structural, Debug)]
pub enum Error {
    /// During synthesis, we lacked knowledge of a variable assignment.
    AssignmentMissing,
    /// During synthesis, we divided by zero.
    DivisionByZero,
    /// During synthesis, we constructed an unsatisfiable constraint system.
    Unsatisfiable,
    /// During synthesis, our polynomials ended up being too high of degree
    PolynomialDegreeTooLarge,
    /// During proof generation, we encountered an identity in the CRS
    UnexpectedIdentity,
    /// During proof generation, we encountered an I/O error with the CRS
    UnThinkIOError,
    /// During CRS generation, we observed an unconstrained auxiliary variable
    UnconstrainedVariable,
    /// The counterparty has not agreed to the trade.
    NotAgree,
}

/// The pallet's storage. Every map reads as its value type's default where
/// it has no entry.
pub struct Pallet {
    pub proofs: HashMap<u32, ProofStore>,
    pub verification_keys: HashMap<u32, VerificationKey>,
    pub lock_volume: HashMap<u32, u128>,
    pub account_balance: HashMap<u32, u128>,
    pub transcation_recognition: HashMap<u32, bool>,
}

impl Default for Pallet {
    /// Empty storage.
    fn default() -> (p: Self)
        ensures
            p.proofs@ == Map::<u32, ProofStore>::empty(),
            p.verification_keys@ == Map::<u32, VerificationKey>::empty(),
            p.lock_volume@ == Map::<u32, u128>::empty(),
            p.account_balance@ == Map::<u32, u128>::empty(),
            p.transcation_recognition@ == Map::<u32, bool>::empty(),
    {
        Pallet {
            proofs: HashMap::new(),
            verification_keys: HashMap::new(),
            lock_volume: HashMap::new(),
            account_balance: HashMap::new(),
            transcation_recognition: HashMap::new(),
        }
    }
}

/// The storage the pallet's tests start from: accounts 1 and 2 each have
/// 1000 locked and a balance of 1000, and account 1 has agreed to trade.
pub fn new_test_ext() -> (p: Pallet)
    ensures
        p.proofs@ == Map::<u32, ProofStore>::empty(),
        p.verification_keys@ == Map::<u32, VerificationKey>::empty(),
        p.lock_volume@ == map![1u32 => 1000u128, 2u32 => 1000u128],
        p.account_balance@ == map![1u32 => 1000u128, 2u32 => 1000u128],
        p.transcation_recognition@ == map![1u32 => true],
{
    let mut p = Pallet::default();
    p.lock_volume.insert(1, 1000);
    p.lock_volume.insert(2, 1000);
    p.account_balance.insert(1, 1000);
    p.account_balance.insert(2, 1000);
    p.transcation_recognition.insert(1, true);
    assert(p.lock_volume@ =~= map![1u32 => 1000u128, 2u32 => 1000u128]);
    assert(p.account_balance@ =~= map![1u32 => 1000u128, 2u32 => 1000u128]);
    assert(p.transcation_recognition@ =~= map![1u32 => true]);
    p
}

/// The value stored under `k`, or `d` where there is none.
pub open spec fn value_or<V>(m: Map<u32, V>, k: u32, d: V) -> V {
    if m.contains_key(k) {
        m[k]
    } else {
        d
    }
}

/// The stored proof bytes `(a, b, c)` of a stored proof.
pub open spec fn proof_store_bytes(p: ProofStore) -> (Seq<u8>, Seq<u8>, Seq<u8>) {
    (p.transcation_proof_a@, p.transcation_proof_b@, p.transcation_proof_c@)
}

/// The stored verifying key bytes: the six points and the `ic` list.
pub open spec fn vk_store_bytes(k: VerificationKey) -> (
    Seq<u8>,
    Seq<u8>,
    Seq<u8>,
    Seq<u8>,
    Seq<u8>,
    Seq<u8>,
    Seq<Seq<u8>>,
) {
    (
        k.verification_alpha_g1@,
        k.verification_beta_g1@,
        k.verification_beta_g2@,
        k.verification_gamma_g2@,
        k.verification_delta_g1@,
        k.verification_delta_g2@,
        seq![k.verification_ic[0]@],
    )
}

/// The point encodings a verifying key is stored as: its six points, and its
/// single `ic` point or a zero placeholder.
pub open spec fn vk_storage_form(vk: &VerifyingKey) -> (
    Seq<u8>,
    Seq<u8>,
    Seq<u8>,
    Seq<u8>,
    Seq<u8>,
    Seq<u8>,
    Seq<Seq<u8>>,
) {
    (
        vk.alpha_g1@,
        vk.beta_g1@,
        vk.beta_g2@,
        vk.gamma_g2@,
        vk.delta_g1@,
        vk.delta_g2@,
        if vk.ic@.len() == 1 {
            g1_views(vk.ic@)
        } else {
            seq![zeros(96)]
        },
    )
}

/// The point encodings a proof is stored as.
pub open spec fn proof_storage_form(p: &Proof) -> (Seq<u8>, Seq<u8>, Seq<u8>) {
    (g1_compressed_encoding(p.a@), g2_compressed_encoding(p.b@), g1_compressed_encoding(p.c@))
}

fn read_u128(m: &HashMap<u32, u128>, k: u32) -> (r: u128)
    ensures
        r == value_or(m@, k, 0u128),
{
    match m.get(&k) {
        Some(v) => *v,
        None => 0,
    }
}

fn read_bool(m: &HashMap<u32, bool>, k: u32) -> (r: bool)
    ensures
        r == value_or(m@, k, false),
{
    match m.get(&k) {
        Some(v) => *v,
        None => false,
    }
}

/// The pre-trade circuit the pallet builds for the account `id` trading
/// `account`: Alice's key pair (private key 100), Bob's registered public
/// key (of private key 200), and the traded volume against the volume locked
/// for `id` (0 where none is).
pub open spec fn ptrade_circuit_for(pallet: &Pallet, id: u32, account: u128, c: PtradCircuit) -> bool {
    &&& c.private_key_alice matches Some(k) && k@ == 100
    &&& c.public_key_alice matches Some(p) && p@ == g1_generator_mul(100)
    &&& c.public_key_bob matches Some(p) && p@ == g1_generator_mul(200)
    &&& c.trad_volume matches Some(v) && v@ == account
    &&& c.lock_volume matches Some(v) && v@ == value_or(pallet.lock_volume@, id, 0u128)
}

/// The transaction circuit the pallet builds: Alice (private key 100) and
/// Bob (private key 200) each hold the other's public key, each trades a
/// volume of 1000, giving and getting 500.
pub open spec fn transcation_circuit_given(c: TranscationCircle) -> bool {
    &&& c.private_key_alice matches Some(k) && k@ == 100
    &&& c.public_key_alice matches Some(p) && p@ == g1_generator_mul(200)
    &&& c.private_key_bob matches Some(k) && k@ == 200
    &&& c.public_key_bob matches Some(p) && p@ == g1_generator_mul(100)
    &&& c.trad_volume_alice matches Some(v) && v@ == 1000
    &&& c.trad_volume_bob matches Some(v) && v@ == 1000
    &&& c.trad_volume_alice_get matches Some(v) && v@ == 500
    &&& c.trad_volume_alice_give matches Some(v) && v@ == 500
    &&& c.trad_volume_bob_get matches Some(v) && v@ == 500
    &&& c.trad_volume_bob_give matches Some(v) && v@ == 500
}

/// The store circuit the pallet builds: Alice's key pair (private key 100)
/// and her volume of 1000, giving and getting 500.
pub open spec fn store_circuit_given(c: StoreCircuit) -> bool {
    &&& c.private_key_alice matches Some(k) && k@ == 100
    &&& c.public_key_alice matches Some(p) && p@ == g1_generator_mul(100)
    &&& c.trad_volume_alice_get matches Some(v) && v@ == 500
    &&& c.trad_volume_alice_give matches Some(v) && v@ == 500
    &&& c.trad_volume_alice matches Some(v) && v@ == 1000
    &&& c.trad_volume_bob_give matches Some(v) && v@ == 500
}

/// The pre-trade proof the pallet asks for is true exactly when the traded
/// volume is the volume locked for the account.
pub proof fn law_ptrade_statement_iff_locked(pallet: &Pallet, id: u32, account: u128, c: PtradCircuit)
    requires
        ptrade_circuit_for(pallet, id, account, c),
    ensures
        ptrad_statement(c) <==> value_or(pallet.lock_volume@, id, 0u128) == account,
        c.trad_volume->0@ < scalar_modulus(),
        c.lock_volume->0@ < scalar_modulus(),
{
}

/// The transaction proof the pallet asks for is always true.
pub proof fn law_transcation_statement_holds(c: TranscationCircle)
    requires
        transcation_circuit_given(c),
    ensures
        transcation_statement(c),
{
    vstd::arithmetic::div_mod::lemma_small_mod(1000, scalar_modulus());
}

/// The store proof the pallet asks for is always true.
pub proof fn law_store_statement_holds(c: StoreCircuit)
    requires
        store_circuit_given(c),
    ensures
        store_statement(c),
{
    vstd::arithmetic::div_mod::lemma_small_mod(1000, scalar_modulus());
}

/// The transaction the pallet proves is an even exchange between Alice and
/// Bob: both trade the same volume, each gives half of it and gets half
/// back, and what one gives is what the other gets.
pub proof fn law_transaction_is_an_even_exchange(c: TranscationCircle)
    requires
        transcation_circuit_given(c),
    ensures
        c.trad_volume_alice->0@ == c.trad_volume_bob->0@,
        c.trad_volume_alice_give->0@ == c.trad_volume_bob_get->0@,
        c.trad_volume_bob_give->0@ == c.trad_volume_alice_get->0@,
        c.trad_volume_alice_give->0@ == c.trad_volume_alice_get->0@,
        c.trad_volume_bob_give->0@ == c.trad_volume_bob_get->0@,
        c.trad_volume_alice_give->0@ + c.trad_volume_alice_get->0@ == c.trad_volume_alice->0@,
        c.trad_volume_bob_give->0@ + c.trad_volume_bob_get->0@ == c.trad_volume_bob->0@,
{
}

/// The store proof records Alice's side of the transaction the pallet
/// proves: her key, her volume and its split into given and got, and what
/// Bob gives in return.
pub proof fn law_store_records_alices_side(t: TranscationCircle, s: StoreCircuit)
    requires
        transcation_circuit_given(t),
        store_circuit_given(s),
    ensures
        s.private_key_alice->0@ == t.private_key_alice->0@,
        s.public_key_alice->0@ == t.public_key_bob->0@,
        s.trad_volume_alice->0@ == t.trad_volume_alice->0@,
        s.trad_volume_alice_give->0@ == t.trad_volume_alice_give->0@,
        s.trad_volume_alice_get->0@ == t.trad_volume_alice_get->0@,
        s.trad_volume_bob_give->0@ == t.trad_volume_bob_give->0@,
{
}

/// Locking a volume for an account makes the pre-trade proof for that
/// account compare against it: the proof is true exactly when the traded
/// volume is the one locked.
pub proof fn law_locked_volume_reaches_ptrade(
    before: &Pallet,
    after: &Pallet,
    id: u32,
    volume: u128,
    account: u128,
    c: PtradCircuit,
)
    requires
        after.lock_volume@ == before.lock_volume@.insert(id, volume),
        ptrade_circuit_for(after, id, account, c),
    ensures
        c.lock_volume->0@ == volume,
        ptrad_statement(c) <==> volume == account,
{
}

/// Once a party has agreed to trade, a transaction with it as counterparty
/// can be opened.
pub proof fn law_agreement_opens_transaction(before: &Pallet, after: &Pallet, party: u32)
    requires
        after.transcation_recognition@ == before.transcation_recognition@.insert(party, true),
    ensures
        value_or(after.transcation_recognition@, party, false),
{
}

impl Pallet {
    /// The stored proof bytes under `id` (zeros where none is stored).
    pub open spec fn stored_proof(&self, id: u32) -> (Seq<u8>, Seq<u8>, Seq<u8>) {
        if self.proofs@.contains_key(id) {
            proof_store_bytes(self.proofs@[id])
        } else {
            (zeros(48), zeros(96), zeros(48))
        }
    }

    /// The stored verifying key bytes under `id` (zeros where none is stored).
    pub open spec fn stored_vk(&self, id: u32) -> (
        Seq<u8>,
        Seq<u8>,
        Seq<u8>,
        Seq<u8>,
        Seq<u8>,
        Seq<u8>,
        Seq<Seq<u8>>,
    ) {
        if self.verification_keys@.contains_key(id) {
            vk_store_bytes(self.verification_keys@[id])
        } else {
            (zeros(96), zeros(96), zeros(192), zeros(192), zeros(96), zeros(192), seq![zeros(96)])
        }
    }

    /// Whether the proof and verifying key stored under `id` both decode.
    pub open spec fn readable(&self, id: u32) -> bool {
        let (a, b, c) = self.stored_proof(id);
        let (alpha, beta1, beta2, gamma2, delta1, delta2, ic) = self.stored_vk(id);
        &&& proof_import_outcome(a, b, c) is Succeeds
        &&& vk_import_outcome(alpha, beta1, beta2, gamma2, delta1, delta2, ic) is Succeeds
    }

    /// Locks `volume` for the account `id`.
    pub fn lock_volume(&mut self, id: u32, volume: u128) -> (r: Result<(), Error>)
        ensures
            r is Ok,
            final(self).lock_volume@ == old(self).lock_volume@.insert(id, volume),
            final(self).proofs@ == old(self).proofs@,
            final(self).verification_keys@ == old(self).verification_keys@,
            final(self).account_balance@ == old(self).account_balance@,
            final(self).transcation_recognition@ == old(self).transcation_recognition@,
    {
        self.lock_volume.insert(id, volume);
        Ok(())
    }

    /// Records that the party `id` agrees to trade.
    pub fn have_a_trade(&mut self, id: u32) -> (r: Result<(), Error>)
        ensures
            r is Ok,
            final(self).transcation_recognition@ == old(self).transcation_recognition@.insert(
                id,
                true,
            ),
            final(self).proofs@ == old(self).proofs@,
            final(self).verification_keys@ == old(self).verification_keys@,
            final(self).lock_volume@ == old(self).lock_volume@,
            final(self).account_balance@ == old(self).account_balance@,
    {
        self.transcation_recognition.insert(id, true);
        Ok(())
    }

    /// The circuit of the pre-trade proof for the account `id` trading
    /// `account`: Alice's key pair (private key 100) and the registered public
    /// keys, with the traded volume against the volume locked for `id`.
    pub fn create_ptrade_proof(&self, id: u32, account: u128) -> (c: PtradCircuit)
        ensures
            ptrade_circuit_for(self, id, account, c),
    {
        PtradCircuit {
            private_key_alice: Some(Scalar::from_u64(100)),
            public_key_alice: Some(G1Affine::generator_mul(&Scalar::from_u64(100))),
            public_key_bob: Some(G1Affine::generator_mul(&Scalar::from_u64(200))),
            trad_volume: Some(Scalar::from_u128(account)),
            lock_volume: Some(Scalar::from_u128(read_u128(&self.lock_volume, id))),
        }
    }

    /// Stores the verifying key and proof of a created proof under `id`.
    pub fn record_proof(&mut self, id: u32, vk: &VerifyingKey, proof: &Proof) -> (e: Event)
        requires
            vk.ic@.len() <= 1,
        ensures
            e == Event::CreateProof,
            final(self).stored_proof(id) == proof_storage_form(proof),
            final(self).stored_vk(id) == vk_storage_form(vk),
            final(self).proofs@.remove(id) == old(self).proofs@.remove(id),
            final(self).verification_keys@.remove(id) == old(self).verification_keys@.remove(id),
            final(self).proofs@.contains_key(id),
            final(self).verification_keys@.contains_key(id),
            final(self).lock_volume@ == old(self).lock_volume@,
            final(self).account_balance@ == old(self).account_balance@,
            final(self).transcation_recognition@ == old(self).transcation_recognition@,
            proof_import_outcome(
                final(self).stored_proof(id).0,
                final(self).stored_proof(id).1,
                final(self).stored_proof(id).2,
            ) is Succeeds,
            g1_from_compressed_result(final(self).stored_proof(id).0) == Some(proof.a@),
            g2_from_compressed_result(final(self).stored_proof(id).1) == Some(proof.b@),
            g1_from_compressed_result(final(self).stored_proof(id).2) == Some(proof.c@),
            vk.ic@.len() == 1 && vk_none_at_infinity(vk) ==> final(self).readable(id),
    {
        let (
            verification_alpha_g1,
            verification_beta_g1,
            verification_beta_g2,
            verification_gamma_g2,
            verification_delta_g1,
            verification_delta_g2,
            verification_ic,
        ) = vk.export();
        vk.alpha_g1.facts();
        vk.beta_g1.facts();
        vk.beta_g2.facts();
        vk.gamma_g2.facts();
        vk.delta_g1.facts();
        vk.delta_g2.facts();
        let ghost ic_view = verification_ic.deep_view();
        proof {
            assert(g1_views(vk.ic@).len() == vk.ic@.len());
            assert forall|i: int| 0 <= i < verification_ic@.len() implies (
            #[trigger] verification_ic@[i])@.len() == 96 by {
                assert(verification_ic@[i].deep_view() =~= verification_ic@[i]@);
                assert(ic_view[i] == verification_ic@[i].deep_view());
            }
            if vk.ic@.len() == 1 {
                assert(verification_ic@[0].deep_view() =~= verification_ic@[0]@);
                assert(seq![verification_ic@[0]@] =~= ic_view);
            }
        }
        let stored_vk = convert_to_verification_key(
            verification_alpha_g1,
            verification_beta_g1,
            verification_beta_g2,
            verification_gamma_g2,
            verification_delta_g1,
            verification_delta_g2,
            verification_ic,
        );
        self.verification_keys.insert(id, stored_vk);
        let (proof_a, proof_b, proof_c) = proof.export();
        self.proofs.insert(id, convert_to_proof_store(proof_a, proof_b, proof_c));
        proof {
            assert(self.proofs@.remove(id) =~= old(self).proofs@.remove(id));
            assert(self.verification_keys@.remove(id) =~= old(self).verification_keys@.remove(id));
        }
        Event::CreateProof
    }

    /// Settles a pre-trade proof for the account `id` trading `account`: the
    /// verifying key and proof are recorded, and where the proof verified the
    /// account's balance becomes `account` and its trade is opened (not yet
    /// agreed to).
    pub fn settle_ptrade_proof(
        &mut self,
        id: u32,
        account: u128,
        vk: &VerifyingKey,
        proof: &Proof,
        verified: bool,
    ) -> (e: Event)
        requires
            vk.ic@.len() <= 1,
        ensures
            e == Event::CreateProof,
            final(self).stored_proof(id) == proof_storage_form(proof),
            final(self).stored_vk(id) == vk_storage_form(vk),
            final(self).proofs@.remove(id) == old(self).proofs@.remove(id),
            final(self).verification_keys@.remove(id) == old(self).verification_keys@.remove(id),
            final(self).lock_volume@ == old(self).lock_volume@,
            final(self).account_balance@ == if verified {
                old(self).account_balance@.insert(id, account)
            } else {
                old(self).account_balance@
            },
            final(self).transcation_recognition@ == if verified {
                old(self).transcation_recognition@.insert(id, false)
            } else {
                old(self).transcation_recognition@
            },
            vk.ic@.len() == 1 && vk_none_at_infinity(vk) ==> final(self).readable(id),
    {
        let e = self.record_proof(id, vk, proof);
        if verified {
            self.account_balance.insert(id, account);
            self.transcation_recognition.insert(id, false);
        }
        e
    }

    /// Opens the transaction proof of `trade_self` with `trade_object`, which
    /// must have agreed to trade (else `NotAgree`, and nothing changes): marks
    /// `trade_self` as agreeing and gives the circuit to prove.
    pub fn create_transcation_proof(&mut self, trade_self: u32, trade_object: u32) -> (r: Result<
        TranscationCircle,
        Error,
    >)
        ensures
            !value_or(old(self).transcation_recognition@, trade_object, false) ==> {
                &&& r == Err::<TranscationCircle, Error>(Error::NotAgree)
                &&& final(self).transcation_recognition@ == old(self).transcation_recognition@
            },
            value_or(old(self).transcation_recognition@, trade_object, false) ==> {
                &&& final(self).transcation_recognition@ == old(
                    self,
                ).transcation_recognition@.insert(trade_self, true)
                &&& r matches Ok(c) && transcation_circuit_given(c)
            },
            final(self).proofs@ == old(self).proofs@,
            final(self).verification_keys@ == old(self).verification_keys@,
            final(self).lock_volume@ == old(self).lock_volume@,
            final(self).account_balance@ == old(self).account_balance@,
    {
        let flag = read_bool(&self.transcation_recognition, trade_object);
        if flag == false {
            return Err(Error::NotAgree);
        }
        self.transcation_recognition.insert(trade_self, true);
        Ok(TranscationCircle {
            private_key_alice: Some(Scalar::from_u64(100)),
            public_key_alice: Some(G1Affine::generator_mul(&Scalar::from_u64(200))),
            private_key_bob: Some(Scalar::from_u64(200)),
            public_key_bob: Some(G1Affine::generator_mul(&Scalar::from_u64(100))),
            trad_volume_alice: Some(Scalar::from_u128(1000)),
            trad_volume_bob: Some(Scalar::from_u128(1000)),
            trad_volume_alice_get: Some(Scalar::from_u128(500)),
            trad_volume_alice_give: Some(Scalar::from_u128(500)),
            trad_volume_bob_get: Some(Scalar::from_u128(500)),
            trad_volume_bob_give: Some(Scalar::from_u128(500)),
        })
    }

    /// The circuit of the store proof.
    pub fn create_store_proof(&self) -> (c: StoreCircuit)
        ensures
            store_circuit_given(c),
    {
        StoreCircuit {
            private_key_alice: Some(Scalar::from_u64(100)),
            public_key_alice: Some(G1Affine::generator_mul(&Scalar::from_u64(100))),
            trad_volume_alice_get: Some(Scalar::from_u128(500)),
            trad_volume_alice_give: Some(Scalar::from_u128(500)),
            trad_volume_alice: Some(Scalar::from_u128(1000)),
            trad_volume_bob_give: Some(Scalar::from_u128(500)),
        }
    }

    /// The stored proof under `id` (zeros where none is stored).
    fn read_proof(&self, id: u32) -> (p: ProofStore)
        ensures
            proof_store_bytes(p) == self.stored_proof(id),
    {
        match self.proofs.get(&id) {
            Some(p) => *p,
            None => ProofStore::default(),
        }
    }

    /// The stored verifying key under `id` (zeros where none is stored).
    fn read_vk(&self, id: u32) -> (k: VerificationKey)
        ensures
            vk_store_bytes(k) == self.stored_vk(id),
    {
        match self.verification_keys.get(&id) {
            Some(k) => *k,
            None => VerificationKey::default(),
        }
    }

    /// Reads back the proof and verifying key stored under `id`, for the
    /// prover's verifier to check; both must decode.
    pub fn verification_proof(&self, id: u32) -> (r: (Proof, VerifyingKey, Event))
        requires
            self.readable(id),
        ensures
            g1_from_compressed_result(self.stored_proof(id).0) == Some(r.0.a@),
            g2_from_compressed_result(self.stored_proof(id).1) == Some(r.0.b@),
            g1_from_compressed_result(self.stored_proof(id).2) == Some(r.0.c@),
            r.1.alpha_g1@ == self.stored_vk(id).0,
            r.1.beta_g1@ == self.stored_vk(id).1,
            r.1.beta_g2@ == self.stored_vk(id).2,
            r.1.gamma_g2@ == self.stored_vk(id).3,
            r.1.delta_g1@ == self.stored_vk(id).4,
            r.1.delta_g2@ == self.stored_vk(id).5,
            g1_views(r.1.ic@) == self.stored_vk(id).6,
            r.2 == Event::VerifyProof,
    {
        let proof_store = self.read_proof(id);
        let proof = Proof::import(
            proof_store.transcation_proof_a.as_slice(),
            proof_store.transcation_proof_b.as_slice(),
            proof_store.transcation_proof_c.as_slice(),
        ).unwrap();
        let verification_key = self.read_vk(id);
        let mut ic: Vec<Vec<u8>> = Vec::new();
        ic.push(array_to_vec(&verification_key.verification_ic[0]));
        proof {
            assert(ic@[0].deep_view() =~= ic@[0]@);
            assert(ic.deep_view()[0] == ic@[0].deep_view());
            assert(ic.deep_view() =~= seq![verification_key.verification_ic[0]@]);
        }
        let vk = VerifyingKey::import(
            verification_key.verification_alpha_g1.as_slice(),
            verification_key.verification_beta_g1.as_slice(),
            verification_key.verification_beta_g2.as_slice(),
            verification_key.verification_gamma_g2.as_slice(),
            verification_key.verification_delta_g1.as_slice(),
            verification_key.verification_delta_g2.as_slice(),
            ic,
        ).unwrap();
        (proof, vk, Event::VerifyProof)
    }

    /// `verification_proof` where what is stored under `id` decodes, and
    /// `None` where it does not (there `verification_proof` panics).
    pub fn verification_proof_checked(&self, id: u32) -> (r: Option<(Proof, VerifyingKey, Event)>)
        ensures
            r is Some <==> self.readable(id),
            r matches Some(v) ==> {
                &&& g1_from_compressed_result(self.stored_proof(id).0) == Some(v.0.a@)
                &&& g2_from_compressed_result(self.stored_proof(id).1) == Some(v.0.b@)
                &&& g1_from_compressed_result(self.stored_proof(id).2) == Some(v.0.c@)
                &&& v.1.alpha_g1@ == self.stored_vk(id).0
                &&& v.1.beta_g1@ == self.stored_vk(id).1
                &&& v.1.beta_g2@ == self.stored_vk(id).2
                &&& v.1.gamma_g2@ == self.stored_vk(id).3
                &&& v.1.delta_g1@ == self.stored_vk(id).4
                &&& v.1.delta_g2@ == self.stored_vk(id).5
                &&& g1_views(v.1.ic@) == self.stored_vk(id).6
                &&& v.2 == Event::VerifyProof
            },
    {
        let proof_store = self.read_proof(id);
        match Proof::import_checked(
            proof_store.transcation_proof_a.as_slice(),
            proof_store.transcation_proof_b.as_slice(),
            proof_store.transcation_proof_c.as_slice(),
        ) {
            Some(Ok(_)) => {},
            _ => return None,
        }
        let verification_key = self.read_vk(id);
        let mut ic: Vec<Vec<u8>> = Vec::new();
        ic.push(array_to_vec(&verification_key.verification_ic[0]));
        proof {
            assert(ic@[0].deep_view() =~= ic@[0]@);
            assert(ic.deep_view()[0] == ic@[0].deep_view());
            assert(ic.deep_view() =~= seq![verification_key.verification_ic[0]@]);
        }
        match VerifyingKey::import_checked(
            verification_key.verification_alpha_g1.as_slice(),
            verification_key.verification_beta_g1.as_slice(),
            verification_key.verification_beta_g2.as_slice(),
            verification_key.verification_gamma_g2.as_slice(),
            verification_key.verification_delta_g1.as_slice(),
            verification_key.verification_delta_g2.as_slice(),
            ic,
        ) {
            Some(Ok(_)) => {},
            _ => return None,
        }
        Some(self.verification_proof(id))
    }
}

/// Reading back what was recorded: the proof and verifying key that
/// `record_proof` stored under `id` (the key with its one `ic` point) are the
/// points `verification_proof` reads back from `id`.
pub proof fn law_recorded_proof_reads_back(
    state: Pallet,
    id: u32,
    proof: Proof,
    vk: VerifyingKey,
    read_proof: Proof,
    read_vk: VerifyingKey,
)
    requires
        vk.ic@.len() == 1,
        state.stored_proof(id) == proof_storage_form(&proof),
        state.stored_vk(id) == vk_storage_form(&vk),
        g1_from_compressed_result(state.stored_proof(id).0) == Some(proof.a@),
        g2_from_compressed_result(state.stored_proof(id).1) == Some(proof.b@),
        g1_from_compressed_result(state.stored_proof(id).2) == Some(proof.c@),
        g1_from_compressed_result(state.stored_proof(id).0) == Some(read_proof.a@),
        g2_from_compressed_result(state.stored_proof(id).1) == Some(read_proof.b@),
        g1_from_compressed_result(state.stored_proof(id).2) == Some(read_proof.c@),
        read_vk.alpha_g1@ == state.stored_vk(id).0,
        read_vk.beta_g1@ == state.stored_vk(id).1,
        read_vk.beta_g2@ == state.stored_vk(id).2,
        read_vk.gamma_g2@ == state.stored_vk(id).3,
        read_vk.delta_g1@ == state.stored_vk(id).4,
        read_vk.delta_g2@ == state.stored_vk(id).5,
        g1_views(read_vk.ic@) == state.stored_vk(id).6,
    ensures
        read_proof.a@ == proof.a@,
        read_proof.b@ == proof.b@,
        read_proof.c@ == proof.c@,
        crate::groth16::vk_same(&read_vk, &vk),
{
}

} // verus!
