use std::sync::Arc;

use zkrelay::curve::{G1Affine, G2Affine};
use zkrelay::field::Scalar;
use zkrelay::groth16::{Groth16Error, ParameterSource, Parameters, Proof, VerifyingKey};

fn g1(k: u64) -> G1Affine {
    G1Affine::generator_mul(&Scalar::from_u64(k))
}

fn g2(k: u64) -> G2Affine {
    let p = bls12_381::G2Affine::from(bls12_381::G2Affine::generator() * bls12_381::Scalar::from(k));
    G2Affine::from_uncompressed(&p.to_uncompressed()).unwrap()
}

fn sample_proof() -> Proof {
    Proof { a: g1(3), b: g2(5), c: g1(7) }
}

fn sample_vk(ic: usize) -> VerifyingKey {
    VerifyingKey {
        alpha_g1: g1(11),
        beta_g1: g1(13),
        beta_g2: g2(17),
        gamma_g2: g2(19),
        delta_g1: g1(23),
        delta_g2: g2(29),
        ic: (0..ic).map(|i| g1(31 + i as u64)).collect(),
    }
}

fn message(e: &Groth16Error) -> String {
    format!("{:?}", e)
}

#[test]
fn groth16_error_keeps_its_message() {
    let e = Groth16Error::new("Invalid G1");
    assert_eq!(message(&e), "Groth16Error { message: \"Invalid G1\" }");
}

#[test]
fn proof_export_then_import_gives_the_proof_back() {
    let proof = sample_proof();
    let (a, b, c) = proof.export();
    assert_eq!(a.len(), 48);
    assert_eq!(b.len(), 96);
    assert_eq!(c.len(), 48);
    assert_eq!(a, bls12_381::G1Affine::from(bls12_381::G1Affine::generator() * bls12_381::Scalar::from(3u64)).to_compressed().to_vec());
    let back = Proof::import(&a, &b, &c).unwrap();
    assert!(back == proof);
    assert!(!(back == Proof { a: g1(4), b: g2(5), c: g1(7) }));
    let checked = Proof::import_checked(&a, &b, &c).unwrap().unwrap();
    assert!(checked == proof);
}

#[test]
fn proof_import_reports_an_empty_field() {
    let (a, b, c) = sample_proof().export();
    let e = Proof::import(&[], &b, &c).err().unwrap();
    assert_eq!(message(&e), "Groth16Error { message: \"Invalid G1\" }");
    let e = Proof::import(&a, &[], &c).err().unwrap();
    assert_eq!(message(&e), "Groth16Error { message: \"Invalid G2\" }");
    let e = Proof::import(&a, &b, &[]).err().unwrap();
    assert_eq!(message(&e), "Groth16Error { message: \"Invalid G1\" }");
}

#[test]
fn proof_import_checked_refuses_what_import_cannot_decode() {
    let (a, b, c) = sample_proof().export();
    // Wrong length.
    assert!(Proof::import_checked(&a[..47], &b, &c).is_none());
    assert!(Proof::import_checked(&a, &b[..95], &c).is_none());
    // A wrong length behind an empty field: the empty field is reported first.
    let e = Proof::import_checked(&[], &b[..10], &c).unwrap().err().unwrap();
    assert_eq!(message(&e), "Groth16Error { message: \"Invalid G1\" }");
    // Bytes that are no point.
    let zeros = vec![0u8; 48];
    assert!(Proof::import_checked(&zeros, &b, &c).is_none());
    let e = Proof::import_checked(&a, &b, &[]).unwrap().err().unwrap();
    assert_eq!(message(&e), "Groth16Error { message: \"Invalid G1\" }");
}

#[test]
fn verifying_key_export_then_import_gives_the_key_back() {
    let vk = sample_vk(2);
    let (alpha, beta1, beta2, gamma2, delta1, delta2, ic) = vk.export();
    assert_eq!(alpha.len(), 96);
    assert_eq!(beta2.len(), 192);
    assert_eq!(ic.len(), 2);
    assert_eq!(ic[1], g1(32).to_uncompressed().to_vec());
    let back =
        VerifyingKey::import(&alpha, &beta1, &beta2, &gamma2, &delta1, &delta2, ic.clone()).unwrap();
    assert!(back == vk);
    assert!(!(back == sample_vk(1)));
    let checked =
        VerifyingKey::import_checked(&alpha, &beta1, &beta2, &gamma2, &delta1, &delta2, ic)
            .unwrap()
            .unwrap();
    assert!(checked == vk);
    assert!(vk.clone() == vk);
}

#[test]
fn verifying_key_import_reports_the_first_bad_field() {
    let (alpha, beta1, beta2, gamma2, delta1, delta2, ic) = sample_vk(1).export();
    let bad_g1 = vec![0u8; 96];
    let bad_g2 = vec![0u8; 192];
    let cases: Vec<(VerifyingKeyBytes, &str)> = vec![
        ((vec![], beta1.clone(), beta2.clone(), gamma2.clone(), delta1.clone(), delta2.clone()), "alpha_g1 is empty"),
        ((bad_g1.clone(), beta1.clone(), beta2.clone(), gamma2.clone(), delta1.clone(), delta2.clone()), "invalid G1 alpha_g1"),
        ((alpha.clone(), vec![], beta2.clone(), gamma2.clone(), delta1.clone(), delta2.clone()), "beta_g1 is empty"),
        ((alpha.clone(), bad_g1.clone(), beta2.clone(), gamma2.clone(), delta1.clone(), delta2.clone()), "invalid G1 beta_g1"),
        ((alpha.clone(), beta1.clone(), vec![], gamma2.clone(), delta1.clone(), delta2.clone()), "beta_g2 is empty"),
        ((alpha.clone(), beta1.clone(), bad_g2.clone(), gamma2.clone(), delta1.clone(), delta2.clone()), "invalid G2 beta_g2"),
        ((alpha.clone(), beta1.clone(), beta2.clone(), vec![], delta1.clone(), delta2.clone()), "gamma_g2 is empty"),
        ((alpha.clone(), beta1.clone(), beta2.clone(), bad_g2.clone(), delta1.clone(), delta2.clone()), "invalid G2 gamma_g2"),
        ((alpha.clone(), beta1.clone(), beta2.clone(), gamma2.clone(), vec![], delta2.clone()), "delta_g1 is empty"),
        ((alpha.clone(), beta1.clone(), beta2.clone(), gamma2.clone(), bad_g1.clone(), delta2.clone()), "invalid G1 delta_g1"),
        ((alpha.clone(), beta1.clone(), beta2.clone(), gamma2.clone(), delta1.clone(), vec![]), "delta_g2 is empty"),
        ((alpha.clone(), beta1.clone(), beta2.clone(), gamma2.clone(), delta1.clone(), bad_g2.clone()), "invalid G2 delta_g2"),
    ];
    for ((a, b1, b2, g2b, d1, d2), expected) in cases {
        let e = VerifyingKey::import(&a, &b1, &b2, &g2b, &d1, &d2, ic.clone()).err().unwrap();
        assert_eq!(message(&e), format!("Groth16Error {{ message: \"{}\" }}", expected));
    }
    let mut bad_ic = ic.clone();
    bad_ic.push(bad_g1.clone());
    let e = VerifyingKey::import(&alpha, &beta1, &beta2, &gamma2, &delta1, &delta2, bad_ic)
        .err().unwrap();
    assert_eq!(message(&e), "Groth16Error { message: \"point at infinity\" }");
}

type VerifyingKeyBytes = (Vec<u8>, Vec<u8>, Vec<u8>, Vec<u8>, Vec<u8>, Vec<u8>);

#[test]
fn verifying_key_import_checked_refuses_wrong_lengths() {
    let (alpha, beta1, beta2, gamma2, delta1, delta2, ic) = sample_vk(1).export();
    assert!(VerifyingKey::import_checked(&alpha[..95], &beta1, &beta2, &gamma2, &delta1, &delta2, ic.clone()).is_none());
    assert!(VerifyingKey::import_checked(&alpha, &beta1, &beta2[..100], &gamma2, &delta1, &delta2, ic.clone()).is_none());
    let mut short_ic = ic.clone();
    short_ic.push(vec![1u8; 10]);
    assert!(VerifyingKey::import_checked(&alpha, &beta1, &beta2, &gamma2, &delta1, &delta2, short_ic).is_none());
    // An error before the bad length is reported as it is.
    let e = VerifyingKey::import_checked(&[], &beta1[..3], &beta2, &gamma2, &delta1, &delta2, ic)
        .unwrap()
        .err().unwrap();
    assert_eq!(message(&e), "Groth16Error { message: \"alpha_g1 is empty\" }");
}

fn sample_parameters() -> Parameters {
    Parameters {
        vk: sample_vk(1),
        h: Arc::new(vec![g1(41), g1(43)]),
        l: Arc::new(vec![g1(47)]),
        a: Arc::new(vec![]),
        b_g1: Arc::new(vec![g1(53)]),
        b_g2: Arc::new(vec![g2(59), g2(61)]),
    }
}

#[test]
fn parameters_export_then_import_gives_them_back() {
    let params = sample_parameters();
    let (vk, h, l, a, b_g1, b_g2) = params.export();
    assert!(vk == params.vk);
    assert_eq!(h.len(), 2);
    assert!(a.is_empty());
    assert_eq!(b_g2[1], g2(61).to_uncompressed().to_vec());
    let back = Parameters::import(vk, h.clone(), l.clone(), a.clone(), b_g1.clone(), b_g2.clone())
        .unwrap();
    assert!(back == params);
    let checked = Parameters::import_checked(sample_vk(1), h, l, a, b_g1, b_g2).unwrap().unwrap();
    assert!(checked == params);
    let mut other = sample_parameters();
    other.l = Arc::new(vec![g1(48)]);
    assert!(!(other == params));
}

#[test]
fn parameters_import_rejects_a_bad_point() {
    let (vk, h, l, a, b_g1, b_g2) = sample_parameters().export();
    let mut bad_l = l.clone();
    bad_l.push(vec![0u8; 96]);
    let e = Parameters::import(vk, h.clone(), bad_l, a.clone(), b_g1.clone(), b_g2.clone())
        .err().unwrap();
    assert_eq!(message(&e), "Groth16Error { message: \"point at infinity\" }");
    let mut bad_b_g2 = b_g2.clone();
    bad_b_g2[0] = vec![0u8; 192];
    let e = Parameters::import(sample_vk(1), h.clone(), l.clone(), a.clone(), b_g1.clone(), bad_b_g2)
        .err().unwrap();
    assert_eq!(message(&e), "Groth16Error { message: \"point at infinity\" }");
    // A wrong length anywhere makes the import panic; the checked import says so.
    let mut short_h = h.clone();
    short_h.push(vec![0u8; 95]);
    assert!(Parameters::import_checked(sample_vk(1), short_h, l, a, b_g1, b_g2).is_none());
}

#[test]
fn parameters_are_their_own_source() {
    let params = sample_parameters();
    let mut source = &params;
    let vk = source.get_vk(1).ok().unwrap();
    assert!(vk == params.vk);
    let (h, start) = source.get_h(2).ok().unwrap();
    assert_eq!(start, 0);
    assert!(Arc::ptr_eq(&h, &params.h));
    let (l, start) = source.get_l(1).ok().unwrap();
    assert_eq!(start, 0);
    assert!(Arc::ptr_eq(&l, &params.l));
    let ((a_inputs, from_inputs), (a_aux, from_aux)) = source.get_a(3, 4).ok().unwrap();
    assert_eq!((from_inputs, from_aux), (0, 3));
    assert!(Arc::ptr_eq(&a_inputs, &params.a) && Arc::ptr_eq(&a_aux, &params.a));
    let ((b_inputs, from_inputs), (b_aux, from_aux)) = source.get_b_g1(2, 9).ok().unwrap();
    assert_eq!((from_inputs, from_aux), (0, 2));
    assert!(Arc::ptr_eq(&b_inputs, &params.b_g1) && Arc::ptr_eq(&b_aux, &params.b_g1));
    let ((b2_inputs, from_inputs), (b2_aux, from_aux)) = source.get_b_g2(5, 0).ok().unwrap();
    assert_eq!((from_inputs, from_aux), (0, 5));
    assert!(Arc::ptr_eq(&b2_inputs, &params.b_g2) && Arc::ptr_eq(&b2_aux, &params.b_g2));
}

#[test]
fn imports_refuse_the_point_at_infinity() {
    let g1_identity = bls12_381::G1Affine::identity().to_uncompressed().to_vec();
    let g2_identity = bls12_381::G2Affine::identity().to_uncompressed().to_vec();
    let mut id_arr = [0u8; 96];
    id_arr.copy_from_slice(&g1_identity);
    let id_point = G1Affine::from_uncompressed(&id_arr).unwrap();
    assert!(id_point.is_identity());
    assert!(!g1(5).is_identity());
    assert!(!g2(5).is_identity());
    let (alpha, beta1, beta2, gamma2, delta1, delta2, ic) = sample_vk(1).export();
    let e = VerifyingKey::import(&g1_identity, &beta1, &beta2, &gamma2, &delta1, &delta2, ic.clone())
        .err()
        .unwrap();
    assert_eq!(message(&e), "Groth16Error { message: \"invalid G1 alpha_g1\" }");
    let e = VerifyingKey::import(&alpha, &beta1, &g2_identity, &gamma2, &delta1, &delta2, ic.clone())
        .err()
        .unwrap();
    assert_eq!(message(&e), "Groth16Error { message: \"invalid G2 beta_g2\" }");
    let e = VerifyingKey::import(
        &alpha,
        &beta1,
        &beta2,
        &gamma2,
        &delta1,
        &delta2,
        vec![g1_identity.clone()],
    )
    .err()
    .unwrap();
    assert_eq!(message(&e), "Groth16Error { message: \"point at infinity\" }");
    let (vk, h, l, a, b_g1, b_g2) = sample_parameters().export();
    let mut bad_h = h.clone();
    bad_h.push(g1_identity);
    let e = Parameters::import(vk, bad_h, l.clone(), a.clone(), b_g1.clone(), b_g2.clone())
        .err()
        .unwrap();
    assert_eq!(message(&e), "Groth16Error { message: \"point at infinity\" }");
    let mut bad_b_g2 = b_g2.clone();
    bad_b_g2.push(g2_identity);
    let e = Parameters::import(sample_vk(1), h, l, a, b_g1, bad_b_g2).err().unwrap();
    assert_eq!(message(&e), "Groth16Error { message: \"point at infinity\" }");
}
