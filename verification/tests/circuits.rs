use zkrelay::constraint::{
    Circuit, ConstraintSystem, Index, LinearCombination, SynthesisError, VerificationError,
    Variable,
};
use zkrelay::multipack::{compute_multipacking, pack_into_inputs};
use zkrelay::recorder::RecordingSystem;
use zkrelay::curve::G1Affine;
use zkrelay::field::Scalar;
use zkrelay::g1_to_scalar::glaffine_to_primefield;
use zkrelay::proof_circuit::{PtradCircuit, StoreCircuit, TranscationCircle};

fn terms(lc: &LinearCombination) -> Vec<(Index, [u8; 32])> {
    lc.as_ref().iter().map(|(v, c)| (v.get_unchecked(), c.to_repr())).collect()
}

fn one_repr() -> [u8; 32] {
    Scalar::one().to_repr()
}

#[test]
fn variables_keep_their_index() {
    let v = Variable::new_unchecked(Index::Aux(3));
    assert_eq!(v.get_unchecked(), Index::Aux(3));
    assert_eq!(RecordingSystem::one().get_unchecked(), Index::Input(0));
}

#[test]
fn linear_combination_operators_append_terms() {
    let x = Variable::new_unchecked(Index::Aux(0));
    let y = Variable::new_unchecked(Index::Input(1));
    let two = Scalar::from_u64(2);
    let lc = LinearCombination::zero() + x;
    assert_eq!(terms(&lc), vec![(Index::Aux(0), one_repr())]);
    let lc = lc - y;
    assert_eq!(terms(&lc)[1], (Index::Input(1), Scalar::one().neg().to_repr()));
    let lc = lc + (two, y);
    assert_eq!(terms(&lc)[2], (Index::Input(1), two.to_repr()));
    let lc = lc - (two, x);
    assert_eq!(terms(&lc)[3], (Index::Aux(0), two.neg().to_repr()));
    let other = LinearCombination::zero() + (Scalar::from_u64(3), x);
    let sum = LinearCombination::zero() + &other;
    assert_eq!(terms(&sum), terms(&other));
    let diff = LinearCombination::zero() - &other;
    assert_eq!(terms(&diff), vec![(Index::Aux(0), Scalar::from_u64(3).neg().to_repr())]);
    let scaled = LinearCombination::zero() + (two, &other);
    assert_eq!(terms(&scaled), vec![(Index::Aux(0), Scalar::from_u64(6).to_repr())]);
    let neg_scaled = LinearCombination::zero() - (two, &other);
    assert_eq!(terms(&neg_scaled), vec![(Index::Aux(0), Scalar::from_u64(6).neg().to_repr())]);
    assert!(LinearCombination::zero().as_ref().is_empty());
}

#[test]
fn error_messages() {
    assert_eq!(
        SynthesisError::AssignmentMissing.message(),
        "an assignment for a variable could not be computed.无法计算变量的赋值"
    );
    assert_eq!(SynthesisError::DivisionByZero.message(), "division by zero.除以零");
    assert_eq!(SynthesisError::IoError.message(), "encountered an I/O error.遇到了I/O错误");
    assert_eq!(VerificationError::InvalidProof.message(), "proof verification failed证明验证失败");
    assert_eq!(
        VerificationError::InvalidVerifyingKey.message(),
        "malformed verifying key验证密钥格式错误"
    );
}

fn key(k: u64) -> G1Affine {
    G1Affine::generator_mul(&Scalar::from_u64(k))
}

#[test]
fn ptrad_circuit_constraints_and_witness() {
    let circuit = PtradCircuit {
        private_key_alice: Some(Scalar::from_u64(100)),
        public_key_alice: Some(key(100)),
        public_key_bob: Some(key(200)),
        trad_volume: Some(Scalar::from_u128(1000)),
        lock_volume: Some(Scalar::from_u128(1000)),
    };
    let mut cs = RecordingSystem::new();
    assert!(circuit.synthesize(&mut cs).is_ok());
    assert_eq!(cs.aux().len(), 7);
    assert_eq!(cs.num_constraints(), 4);
    let pk = glaffine_to_primefield(key(100)).to_repr();
    assert_eq!(cs.aux()[0].to_repr(), pk);
    assert_eq!(cs.aux()[1].to_repr(), pk);
    assert_eq!(cs.aux()[2].to_repr(), pk);
    assert_eq!(cs.aux()[3].to_repr(), glaffine_to_primefield(key(200)).to_repr());
    let (a, b, c) = cs.constraint(3);
    assert_eq!(terms(a), vec![(Index::Aux(6), one_repr())]);
    assert_eq!(terms(b), vec![(Index::Input(0), one_repr())]);
    assert_eq!(terms(c), vec![(Index::Aux(5), one_repr())]);
    assert!(cs.is_satisfied());
}

#[test]
fn ptrad_circuit_with_unequal_volumes_is_not_satisfied() {
    let circuit = PtradCircuit {
        private_key_alice: Some(Scalar::from_u64(100)),
        public_key_alice: Some(key(100)),
        public_key_bob: Some(key(200)),
        trad_volume: Some(Scalar::from_u128(900)),
        lock_volume: Some(Scalar::from_u128(1000)),
    };
    let mut cs = RecordingSystem::new();
    assert!(circuit.synthesize(&mut cs).is_ok());
    assert!(!cs.is_satisfied());
}

#[test]
fn ptrad_circuit_missing_volume_is_an_assignment_error() {
    let circuit = PtradCircuit {
        private_key_alice: Some(Scalar::from_u64(100)),
        public_key_alice: Some(key(100)),
        public_key_bob: Some(key(200)),
        trad_volume: None,
        lock_volume: Some(Scalar::from_u128(1000)),
    };
    let mut cs = RecordingSystem::new();
    assert!(matches!(circuit.synthesize(&mut cs), Err(SynthesisError::AssignmentMissing)));
}

#[test]
fn transcation_circuit_constraints() {
    let circuit = TranscationCircle {
        private_key_alice: Some(Scalar::from_u64(100)),
        public_key_alice: Some(key(200)),
        private_key_bob: Some(Scalar::from_u64(200)),
        public_key_bob: Some(key(100)),
        trad_volume_alice: Some(Scalar::from_u128(1000)),
        trad_volume_bob: Some(Scalar::from_u128(1000)),
        trad_volume_alice_give: Some(Scalar::from_u128(500)),
        trad_volume_alice_get: Some(Scalar::from_u128(500)),
        trad_volume_bob_give: Some(Scalar::from_u128(500)),
        trad_volume_bob_get: Some(Scalar::from_u128(500)),
    };
    let mut cs = RecordingSystem::new();
    assert!(circuit.synthesize(&mut cs).is_ok());
    assert_eq!(cs.aux().len(), 10);
    assert_eq!(cs.num_constraints(), 4);
    let (a, _, c) = cs.constraint(2);
    assert_eq!(terms(a), vec![(Index::Aux(5), one_repr())]);
    assert_eq!(
        terms(c),
        vec![(Index::Aux(4), one_repr()), (Index::Aux(6), Scalar::one().neg().to_repr())]
    );
    assert!(cs.is_satisfied());
}

#[test]
fn store_circuit_constraints() {
    let circuit = StoreCircuit {
        private_key_alice: Some(Scalar::from_u64(100)),
        public_key_alice: Some(key(100)),
        trad_volume_alice_get: Some(Scalar::from_u128(500)),
        trad_volume_alice_give: Some(Scalar::from_u128(500)),
        trad_volume_alice: Some(Scalar::from_u128(1000)),
        trad_volume_bob_give: Some(Scalar::from_u128(500)),
    };
    let mut cs = RecordingSystem::new();
    assert!(circuit.synthesize(&mut cs).is_ok());
    assert_eq!(cs.aux().len(), 5);
    assert_eq!(cs.num_constraints(), 2);
    let (a, _, c) = cs.constraint(0);
    assert_eq!(terms(a), vec![(Index::Aux(0), one_repr())]);
    assert_eq!(terms(c), vec![(Index::Aux(1), one_repr())]);
    assert!(cs.is_satisfied());
}

#[test]
fn recording_system_records_values_and_checks_constraints() {
    let mut cs = RecordingSystem::new();
    assert_eq!(cs.inputs().len(), 1);
    assert_eq!(cs.inputs()[0].to_repr(), one_repr());
    cs.push_namespace("outer");
    let x = cs.alloc_aux("x", || Ok(Scalar::from_u64(3))).unwrap();
    let y = cs.alloc_aux("y", || Ok(Scalar::from_u64(9))).unwrap();
    let p = cs.alloc_input("p", || Ok(Scalar::from_u64(27))).unwrap();
    assert_eq!(x.get_unchecked(), Index::Aux(0));
    assert_eq!(y.get_unchecked(), Index::Aux(1));
    assert_eq!(p.get_unchecked(), Index::Input(1));
    assert_eq!(cs.namespace_path().to_vec(), vec!["outer".to_string()]);
    cs.pop_namespace();
    assert!(cs.namespace_path().is_empty());
    assert!(matches!(
        cs.alloc_aux("missing", || Err(SynthesisError::AssignmentMissing)),
        Err(SynthesisError::AssignmentMissing)
    ));
    assert_eq!(cs.aux().len(), 2);
    // x * x = y and x * y = p hold.
    cs.enforce("square", |lc| lc + x, |lc| lc + x, |lc| lc + y);
    cs.enforce("cube", |lc| lc + x, |lc| lc + y, |lc| lc + p);
    assert_eq!(cs.num_constraints(), 2);
    assert!(cs.holds(0));
    assert!(cs.is_satisfied());
    let sum = LinearCombination::zero() + x + (Scalar::from_u64(2), y) - RecordingSystem::one();
    assert_eq!(cs.eval(&sum).unwrap().to_repr(), Scalar::from_u64(20).to_repr());
    // y * 1 = x fails.
    cs.enforce("wrong", |lc| lc + y, |lc| lc + RecordingSystem::one(), |lc| lc + x);
    assert!(!cs.holds(2));
    assert!(!cs.is_satisfied());
    // A variable that was never allocated has no value.
    let ghost_var = Variable::new_unchecked(Index::Aux(5));
    assert!(cs.eval(&(LinearCombination::zero() + ghost_var)).is_none());
    cs.enforce("unknown", |lc| lc + ghost_var, |lc| lc, |lc| lc);
    assert!(!cs.holds(3));
}

#[test]
fn ptrad_statement_false_key_leaves_system_unsatisfied() {
    // Alice's public key is not the one her private key derives.
    let circuit = PtradCircuit {
        private_key_alice: Some(Scalar::from_u64(101)),
        public_key_alice: Some(key(100)),
        public_key_bob: Some(key(200)),
        trad_volume: Some(Scalar::from_u128(1000)),
        lock_volume: Some(Scalar::from_u128(1000)),
    };
    let mut cs = RecordingSystem::new();
    assert!(circuit.synthesize(&mut cs).is_ok());
    assert!(!cs.holds(0));
    assert!(cs.holds(1) && cs.holds(2) && cs.holds(3));
    assert!(!cs.is_satisfied());
}

#[test]
fn split_constraint_holds_modulo_the_field() {
    // give + get wraps around the field order and still equals the total.
    let minus_one = Scalar::one().neg();
    let circuit = StoreCircuit {
        private_key_alice: Some(Scalar::from_u64(100)),
        public_key_alice: Some(key(100)),
        trad_volume_alice_get: Some(Scalar::from_u64(6)),
        trad_volume_alice_give: Some(minus_one),
        trad_volume_alice: Some(Scalar::from_u64(5)),
        trad_volume_bob_give: Some(Scalar::from_u64(0)),
    };
    let mut cs = RecordingSystem::new();
    assert!(circuit.synthesize(&mut cs).is_ok());
    assert!(cs.is_satisfied());
    let circuit = StoreCircuit {
        trad_volume_alice: Some(Scalar::from_u64(4)),
        ..circuit
    };
    let mut cs = RecordingSystem::new();
    assert!(circuit.synthesize(&mut cs).is_ok());
    assert!(!cs.is_satisfied());
}

#[test]
fn packing_bits_into_inputs_matches_multipacking() {
    for len in [0usize, 1, 3, 254, 255, 600] {
        let bits: Vec<bool> = (0..len).map(|i| (i * 7 + 3) % 5 < 2).collect();
        let mut cs = RecordingSystem::new();
        assert!(pack_into_inputs(&mut cs, &bits).is_ok());
        let expected = compute_multipacking(&bits);
        assert_eq!(cs.inputs().len(), 1 + expected.len());
        assert_eq!(cs.num_constraints(), expected.len());
        for (k, value) in expected.iter().enumerate() {
            assert_eq!(cs.inputs()[1 + k].to_repr(), value.to_repr());
            let (_, b, c) = cs.constraint(k);
            assert_eq!(terms(b), vec![(Index::Input(0), one_repr())]);
            assert_eq!(terms(c), vec![(Index::Input(1 + k), one_repr())]);
        }
        assert!(cs.aux().is_empty());
        assert!(cs.is_satisfied());
    }
    // Bit j of a chunk contributes 2^j times the constant one.
    let mut cs = RecordingSystem::new();
    pack_into_inputs(&mut cs, &[false, true, true]).unwrap();
    let (a, _, _) = cs.constraint(0);
    assert_eq!(
        terms(a),
        vec![
            (Index::Input(0), Scalar::from_u64(2).to_repr()),
            (Index::Input(0), Scalar::from_u64(4).to_repr())
        ]
    );
    assert_eq!(cs.inputs()[1].to_repr(), Scalar::from_u64(6).to_repr());
}

#[test]
fn missing_volumes_are_assignment_errors_in_every_circuit() {
    let circuit = TranscationCircle {
        private_key_alice: Some(Scalar::from_u64(100)),
        public_key_alice: Some(key(200)),
        private_key_bob: Some(Scalar::from_u64(200)),
        public_key_bob: Some(key(100)),
        trad_volume_alice: Some(Scalar::from_u128(1000)),
        trad_volume_bob: Some(Scalar::from_u128(1000)),
        trad_volume_alice_give: Some(Scalar::from_u128(500)),
        trad_volume_alice_get: Some(Scalar::from_u128(500)),
        trad_volume_bob_give: Some(Scalar::from_u128(500)),
        trad_volume_bob_get: None,
    };
    let mut cs = RecordingSystem::new();
    assert!(matches!(circuit.synthesize(&mut cs), Err(SynthesisError::AssignmentMissing)));
    let circuit = StoreCircuit {
        private_key_alice: Some(Scalar::from_u64(100)),
        public_key_alice: Some(key(100)),
        trad_volume_alice_get: Some(Scalar::from_u128(500)),
        trad_volume_alice_give: None,
        trad_volume_alice: Some(Scalar::from_u128(1000)),
        trad_volume_bob_give: None,
    };
    let mut cs = RecordingSystem::new();
    assert!(matches!(circuit.synthesize(&mut cs), Err(SynthesisError::AssignmentMissing)));
    // The unused field does not matter.
    let circuit = StoreCircuit { trad_volume_alice_give: Some(Scalar::from_u128(500)), ..circuit };
    let mut cs = RecordingSystem::new();
    assert!(circuit.synthesize(&mut cs).is_ok());
}
