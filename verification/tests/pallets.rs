use zkrelay::constraint::Circuit;
use zkrelay::curve::{G1Affine, G2Affine};
use zkrelay::field::Scalar;
use zkrelay::groth16::{Proof, VerifyingKey};
use zkrelay::musig::{convert_to_pre_musig2, PreMusig2};
use zkrelay::randrng::{self, create_rng, TestRandomnessSource};
use zkrelay::recorder::RecordingSystem;
use zkrelay::store_type::{
    convert_to_proof_store, convert_to_verification_key, ProofStore, VerificationKey,
};
use zkrelay::zkproof::{self, Error, Event};

fn g1(k: u64) -> G1Affine {
    G1Affine::generator_mul(&Scalar::from_u64(k))
}

fn g2(k: u64) -> G2Affine {
    let p = bls12_381::G2Affine::from(bls12_381::G2Affine::generator() * bls12_381::Scalar::from(k));
    G2Affine::from_uncompressed(&p.to_uncompressed()).unwrap()
}

fn sample_vk() -> VerifyingKey {
    VerifyingKey {
        alpha_g1: g1(11),
        beta_g1: g1(13),
        beta_g2: g2(17),
        gamma_g2: g2(19),
        delta_g1: g1(23),
        delta_g2: g2(29),
        ic: vec![g1(31)],
    }
}

fn sample_proof() -> Proof {
    Proof { a: g1(3), b: g2(5), c: g1(7) }
}

#[test]
fn store_types_default_to_zeros() {
    let p = ProofStore::default();
    assert_eq!(p.transcation_proof_a, [0u8; 48]);
    assert_eq!(p.transcation_proof_b, [0u8; 96]);
    assert_eq!(p.transcation_proof_c, [0u8; 48]);
    let k = VerificationKey::default();
    assert_eq!(k.verification_alpha_g1, [0u8; 96]);
    assert_eq!(k.verification_gamma_g2, [0u8; 192]);
    assert_eq!(k.verification_ic, [[0u8; 96]; 1]);
    let m = PreMusig2::default();
    assert_eq!(m.secret, [0u8; 32]);
    assert_eq!(m.nonces, [0u8; 32]);
}

#[test]
fn store_types_keep_the_bytes_given() {
    let p = convert_to_proof_store(vec![1u8; 48], vec![2u8; 96], vec![3u8; 48]);
    assert_eq!(p.transcation_proof_a, [1u8; 48]);
    assert_eq!(p.transcation_proof_b, [2u8; 96]);
    assert_eq!(p.transcation_proof_c, [3u8; 48]);
    let k = convert_to_verification_key(
        vec![1u8; 96],
        vec![2u8; 96],
        vec![3u8; 192],
        vec![4u8; 192],
        vec![5u8; 96],
        vec![6u8; 192],
        vec![vec![7u8; 96]],
    );
    assert_eq!(k.verification_alpha_g1, [1u8; 96]);
    assert_eq!(k.verification_beta_g1, [2u8; 96]);
    assert_eq!(k.verification_beta_g2, [3u8; 192]);
    assert_eq!(k.verification_gamma_g2, [4u8; 192]);
    assert_eq!(k.verification_delta_g1, [5u8; 96]);
    assert_eq!(k.verification_delta_g2, [6u8; 192]);
    assert_eq!(k.verification_ic, [[7u8; 96]; 1]);
    let k = convert_to_verification_key(
        vec![1u8; 96],
        vec![2u8; 96],
        vec![3u8; 192],
        vec![4u8; 192],
        vec![5u8; 96],
        vec![6u8; 192],
        vec![],
    );
    assert_eq!(k.verification_ic, [[0u8; 96]; 1]);
    let mut secret = vec![0u8; 32];
    secret[0] = 9;
    let m = convert_to_pre_musig2(secret.clone(), vec![8u8; 32]);
    assert_eq!(m.secret.to_vec(), secret);
    assert_eq!(m.nonces, [8u8; 32]);
}

#[test]
fn rng_draws_from_the_seed_and_advances_the_nonce() {
    let mut storage = randrng::Pallet::default();
    assert_eq!(storage.nonce, 0);
    let mut rng = create_rng();
    assert_eq!(rng.randomness_subject(&storage), 0u64.to_le_bytes());
    let seed = [1u8, 2, 3, 4, 5, 6, 7, 8, 9];
    let v = rng.next_u32(&mut storage, &seed);
    assert_eq!(v, u32::from_le_bytes([1, 2, 3, 4]));
    assert_eq!(storage.random_number, v);
    assert_eq!(storage.nonce, 1);
    assert_eq!(rng.randomness_subject(&storage), 1u64.to_le_bytes());
    let w = rng.next_u64(&mut storage, &seed);
    assert_eq!(w, u64::from_le_bytes([1, 2, 3, 4, 5, 6, 7, 8]));
    assert_eq!(storage.random_number64, w);
    assert_eq!(storage.random_number, v);
    assert_eq!(storage.nonce, 2);
}

#[test]
fn rng_subjects_differ_between_draws() {
    let mut storage = randrng::Pallet::default();
    let mut rng = create_rng();
    let mut seen = Vec::new();
    for _ in 0..300 {
        let s = rng.randomness_subject(&storage);
        assert!(!seen.contains(&s));
        seen.push(s);
        rng.next_u32(&mut storage, &[0u8; 4]);
    }
    storage.nonce = 0x0102_0304_0506_0708;
    assert_eq!(rng.randomness_subject(&storage), [8, 7, 6, 5, 4, 3, 2, 1]);
}

#[test]
fn randomness_pallet_calls() {
    let mut storage = randrng::Pallet::default();
    let (seed, block) = TestRandomnessSource::random(&storage.nonce.to_le_bytes());
    assert_eq!(seed, [0u8; 32]);
    assert_eq!(block, 0);
    let e = storage.on_initialize(7, &[0x10, 0, 0, 0]);
    assert_eq!(e, randrng::Event::RandomNumberGenerated(16));
    assert_eq!(storage.on_initialize.get(&7), Some(&16));
    assert_eq!(storage.nonce, 1);
    let r = storage.generate_random_number(&seed);
    assert_eq!(r, Ok(randrng::Event::RandomNumberGenerated(0)));
    assert_eq!(storage.random_number, 0);
    assert_eq!(storage.nonce, 2);
    assert_eq!(storage.on_initialize.len(), 1);
    let r = storage.generate_random_number64(&[0xff; 8]);
    assert_eq!(r, Ok(()));
    assert_eq!(storage.random_number64, u64::MAX);
    assert_eq!(storage.nonce, 3);
}

#[test]
fn ptrade_circuit_uses_the_locked_volume() {
    let mut pallet = zkproof::Pallet::default();
    assert_eq!(pallet.lock_volume(4, 1000), Ok(()));
    assert_eq!(pallet.lock_volume.get(&4), Some(&1000));
    let circuit = pallet.create_ptrade_proof(4, 1000);
    assert_eq!(circuit.lock_volume.unwrap().to_repr(), Scalar::from_u128(1000).to_repr());
    assert_eq!(circuit.trad_volume.unwrap().to_repr(), Scalar::from_u128(1000).to_repr());
    let mut cs = RecordingSystem::new();
    circuit.synthesize(&mut cs).unwrap();
    assert!(cs.is_satisfied());
    // Nothing locked under another id: the lock reads as zero and the
    // volumes no longer match.
    let circuit = pallet.create_ptrade_proof(5, 1000);
    assert_eq!(circuit.lock_volume.unwrap().to_repr(), Scalar::zero().to_repr());
    let mut cs = RecordingSystem::new();
    circuit.synthesize(&mut cs).unwrap();
    assert!(!cs.is_satisfied());
}

#[test]
fn transaction_needs_the_counterparty_to_agree() {
    let mut pallet = zkproof::Pallet::default();
    assert!(matches!(pallet.create_transcation_proof(1, 2), Err(Error::NotAgree)));
    assert!(pallet.transcation_recognition.is_empty());
    assert_eq!(pallet.have_a_trade(2), Ok(()));
    let circuit = pallet.create_transcation_proof(1, 2).ok().unwrap();
    assert_eq!(pallet.transcation_recognition.get(&1), Some(&true));
    assert_eq!(circuit.trad_volume_alice.unwrap().to_repr(), Scalar::from_u128(1000).to_repr());
    let mut cs = RecordingSystem::new();
    circuit.synthesize(&mut cs).unwrap();
    assert!(cs.is_satisfied());
    let store = pallet.create_store_proof();
    let mut cs = RecordingSystem::new();
    store.synthesize(&mut cs).unwrap();
    assert!(cs.is_satisfied());
}

#[test]
fn recorded_proof_reads_back() {
    let mut pallet = zkproof::Pallet::default();
    let vk = sample_vk();
    let proof = sample_proof();
    assert_eq!(pallet.record_proof(9, &vk, &proof), Event::CreateProof);
    let stored = pallet.proofs.get(&9).unwrap();
    assert_eq!(stored.transcation_proof_a, g1(3).to_compressed());
    let (read_proof, read_vk, e) = pallet.verification_proof(9);
    assert!(read_proof == proof);
    assert!(read_vk == vk);
    assert_eq!(e, Event::VerifyProof);
    let (p2, vk2, _) = pallet.verification_proof_checked(9).unwrap();
    assert!(p2 == proof);
    assert!(vk2 == vk);
    // Nothing stored: the zeros decode to no point.
    assert!(pallet.verification_proof_checked(10).is_none());
}

#[test]
fn settled_ptrade_opens_the_trade_only_when_verified() {
    let mut pallet = zkproof::Pallet::default();
    let vk = sample_vk();
    let proof = sample_proof();
    assert_eq!(pallet.settle_ptrade_proof(1, 700, &vk, &proof, false), Event::CreateProof);
    assert!(pallet.account_balance.is_empty());
    assert!(pallet.transcation_recognition.is_empty());
    assert!(pallet.proofs.contains_key(&1));
    assert_eq!(pallet.settle_ptrade_proof(1, 700, &vk, &proof, true), Event::CreateProof);
    assert_eq!(pallet.account_balance.get(&1), Some(&700));
    assert_eq!(pallet.transcation_recognition.get(&1), Some(&false));
    // An opened trade is not yet an agreement.
    assert!(matches!(pallet.create_transcation_proof(2, 1), Err(Error::NotAgree)));
}

#[test]
fn test_storage_starts_with_locked_accounts() {
    let mut pallet = zkproof::new_test_ext();
    assert_eq!(pallet.lock_volume.get(&1), Some(&1000));
    assert_eq!(pallet.lock_volume.get(&2), Some(&1000));
    assert_eq!(pallet.account_balance.get(&1), Some(&1000));
    assert_eq!(pallet.account_balance.get(&2), Some(&1000));
    assert_eq!(pallet.transcation_recognition.get(&1), Some(&true));
    assert!(pallet.proofs.is_empty() && pallet.verification_keys.is_empty());
    let mut cs = RecordingSystem::new();
    pallet.create_ptrade_proof(2, 1000).synthesize(&mut cs).unwrap();
    assert!(cs.is_satisfied());
    let mut cs = RecordingSystem::new();
    pallet.create_ptrade_proof(2, 999).synthesize(&mut cs).unwrap();
    assert!(!cs.is_satisfied());
    assert!(pallet.create_transcation_proof(2, 1).is_ok());
    assert!(matches!(pallet.create_transcation_proof(1, 3), Err(Error::NotAgree)));
}
