//! The circuits of the relay's three proofs: pre-trade, transaction and store.

use vstd::prelude::*;

use crate::bytes::{be_nat, u128_span};
use crate::constraint::{
    lc_value, neg_value, Circuit, ConstraintSystem, ConstraintView, Index, LinearCombination,
    SynthesisError, SystemCall, Variable,
};
use crate::curve::{g1_generator_mul, G1Affine};
use crate::field::{scalar_modulus, Scalar};
use crate::g1_to_scalar::glaffine_to_primefield;
use crate::recorder::{
    constraint_holds, lemma_eval_difference, lemma_eval_unit, lemma_holds_extends,
    lemma_recorded_assignments, lemma_same_inputs, var_value, RecordingSystem,
};

verus! {

/// The field element a G1 point is mapped to by `glaffine_to_primefield`.
pub open spec fn point_value(p: Seq<u8>) -> nat {
    be_nat(p) % u128_span()
}

/// The field element of the public key derived from the private key of value `k`.
pub open spec fn derived_key_value(k: nat) -> nat {
    point_value(g1_generator_mul(k))
}

/// The linear combination `1 * x`.
pub open spec fn unit_lc(x: Index) -> Seq<(Index, nat)> {
    seq![(x, 1nat)]
}

/// The constraint `x * 1 = y`, which forces `x` and `y` to be equal.
pub open spec fn equality_constraint(x: Index, y: Index) -> ConstraintView {
    (unit_lc(x), unit_lc(Index::Input(0)), unit_lc(y))
}

/// The constraint `give * 1 = total - get`, which forces `total = give + get`.
pub open spec fn split_constraint(give: Index, total: Index, get: Index) -> ConstraintView {
    (unit_lc(give), unit_lc(Index::Input(0)), seq![(total, 1nat), (get, neg_value(1))])
}

/// An assigned value, where the system computes one, is `v`.
pub open spec fn assigned_as(a: Option<nat>, v: nat) -> bool {
    a matches Some(x) ==> x == v
}

/// An assigned value, where the system computes one, is the value of `s`.
pub open spec fn assigned_from(a: Option<nat>, s: Option<Scalar>) -> bool {
    a matches Some(x) ==> (s matches Some(t) && x == t@)
}

/// Allocates a private variable whose value is `value`; a missing value is
/// the error `AssignmentMissing` where the system asks for it.
fn alloc_value<CS: ConstraintSystem>(cs: &mut CS, annotation: &str, value: Option<Scalar>) -> (r:
    Result<Variable, SynthesisError>)
    ensures
        final(cs).calls() == old(cs).calls().push(SystemCall::AllocAux(annotation@)),
        final(cs).evaluates() == old(cs).evaluates(),
        !old(cs).evaluates() || value is Some ==> r is Ok,
        final(cs).constraints() == old(cs).constraints(),
        final(cs).num_inputs() == old(cs).num_inputs(),
        final(cs).input_assignment() == old(cs).input_assignment(),
        match r {
            Ok(v) => {
                &&& v.0 == Index::Aux(old(cs).num_aux() as usize)
                &&& final(cs).num_aux() == old(cs).num_aux() + 1
                &&& final(cs).aux_assignment() == old(cs).aux_assignment().push(
                    final(cs).aux_assignment().last(),
                )
                &&& assigned_from(final(cs).aux_assignment().last(), value)
            },
            Err(e) => value is None && e == SynthesisError::AssignmentMissing,
        },
{
    let f = move || -> (res: Result<Scalar, SynthesisError>)
        ensures
            res == value.ok_or(SynthesisError::AssignmentMissing),
        { value.ok_or(SynthesisError::AssignmentMissing) };
    let r = cs.alloc_aux(annotation, f);
    proof {
        if r is Ok {
            assert(final(cs).aux_assignment() =~= old(cs).aux_assignment().push(
                final(cs).aux_assignment().last(),
            ));
        }
    }
    r
}

/// Enforces `x * 1 = y`.
fn enforce_equal<CS: ConstraintSystem>(cs: &mut CS, annotation: &str, x: Variable, y: Variable)
    ensures
        final(cs).calls() == old(cs).calls().push(SystemCall::Enforce(annotation@)),
        final(cs).evaluates() == old(cs).evaluates(),
        final(cs).constraints() == old(cs).constraints().push(equality_constraint(x.0, y.0)),
        final(cs).num_aux() == old(cs).num_aux(),
        final(cs).num_inputs() == old(cs).num_inputs(),
        final(cs).aux_assignment() == old(cs).aux_assignment(),
        final(cs).input_assignment() == old(cs).input_assignment(),
{
    let one = CS::one();
    let fa = move |lc: LinearCombination| -> (r: LinearCombination)
        ensures
            r@ == lc@.push((x, r@.last().1)),
            r@.last().1@ == 1,
        {
            let r = lc + x;
            assert(r@ =~= lc@.push((x, r@.last().1)));
            r
        };
    let fb = move |lc: LinearCombination| -> (r: LinearCombination)
        ensures
            r@ == lc@.push((one, r@.last().1)),
            r@.last().1@ == 1,
        {
            let r = lc + one;
            assert(r@ =~= lc@.push((one, r@.last().1)));
            r
        };
    let fc = move |lc: LinearCombination| -> (r: LinearCombination)
        ensures
            r@ == lc@.push((y, r@.last().1)),
            r@.last().1@ == 1,
        {
            let r = lc + y;
            assert(r@ =~= lc@.push((y, r@.last().1)));
            r
        };
    let ghost before = cs.constraints();
    cs.enforce(annotation, fa, fb, fc);
    proof {
        let (za, la, zb, lb, zc, lc) = choose|
            za: LinearCombination,
            la: LinearCombination,
            zb: LinearCombination,
            lb: LinearCombination,
            zc: LinearCombination,
            lc: LinearCombination,
        |
            #![trigger fa.ensures((za,), la), fb.ensures((zb,), lb), fc.ensures((zc,), lc)]
            za@.len() == 0 && zb@.len() == 0 && zc@.len() == 0 && fa.ensures((za,), la)
                && fb.ensures((zb,), lb) && fc.ensures((zc,), lc)
                && cs.constraints() == before.push((lc_value(la@), lc_value(lb@), lc_value(lc@)));
        assert(lc_value(la@) =~= unit_lc(x.0));
        assert(lc_value(lb@) =~= unit_lc(Index::Input(0)));
        assert(lc_value(lc@) =~= unit_lc(y.0));
    }
}

/// Enforces `give * 1 = total - get`.
fn enforce_split<CS: ConstraintSystem>(
    cs: &mut CS,
    annotation: &str,
    give: Variable,
    total: Variable,
    get: Variable,
)
    ensures
        final(cs).calls() == old(cs).calls().push(SystemCall::Enforce(annotation@)),
        final(cs).evaluates() == old(cs).evaluates(),
        final(cs).constraints() == old(cs).constraints().push(
            split_constraint(give.0, total.0, get.0),
        ),
        final(cs).num_aux() == old(cs).num_aux(),
        final(cs).num_inputs() == old(cs).num_inputs(),
        final(cs).aux_assignment() == old(cs).aux_assignment(),
        final(cs).input_assignment() == old(cs).input_assignment(),
{
    let one = CS::one();
    let fa = move |lc: LinearCombination| -> (r: LinearCombination)
        ensures
            r@ == lc@.push((give, r@.last().1)),
            r@.last().1@ == 1,
        {
            let r = lc + give;
            assert(r@ =~= lc@.push((give, r@.last().1)));
            r
        };
    let fb = move |lc: LinearCombination| -> (r: LinearCombination)
        ensures
            r@ == lc@.push((one, r@.last().1)),
            r@.last().1@ == 1,
        {
            let r = lc + one;
            assert(r@ =~= lc@.push((one, r@.last().1)));
            r
        };
    let fc = move |lc: LinearCombination| -> (r: LinearCombination)
        ensures
            r@.len() == lc@.len() + 2,
            r@.take(lc@.len() as int) == lc@,
            r@[lc@.len() as int].0 == total,
            r@[lc@.len() as int].1@ == 1,
            r@[lc@.len() + 1int].0 == get,
            r@[lc@.len() + 1int].1@ == neg_value(1),
        {
            let ghost start = lc@;
            let t = lc + total;
            let r = t - get;
            assert(r@.take(start.len() as int) =~= start) by {
                assert(r@.drop_last() == t@);
                assert(t@.drop_last() == start);
                assert forall|i: int| 0 <= i < start.len() implies r@[i] == start[i] by {
                    assert(r@.drop_last()[i] == t@[i]);
                    assert(t@.drop_last()[i] == start[i]);
                }
            }
            assert(r@[start.len() as int] == t@[start.len() as int]) by {
                assert(r@.drop_last()[start.len() as int] == t@[start.len() as int]);
            }
            r
        };
    let ghost before = cs.constraints();
    cs.enforce(annotation, fa, fb, fc);
    proof {
        let (za, la, zb, lb, zc, lc) = choose|
            za: LinearCombination,
            la: LinearCombination,
            zb: LinearCombination,
            lb: LinearCombination,
            zc: LinearCombination,
            lc: LinearCombination,
        |
            #![trigger fa.ensures((za,), la), fb.ensures((zb,), lb), fc.ensures((zc,), lc)]
            za@.len() == 0 && zb@.len() == 0 && zc@.len() == 0 && fa.ensures((za,), la)
                && fb.ensures((zb,), lb) && fc.ensures((zc,), lc)
                && cs.constraints() == before.push((lc_value(la@), lc_value(lb@), lc_value(lc@)));
        assert(lc_value(la@) =~= unit_lc(give.0));
        assert(lc_value(lb@) =~= unit_lc(Index::Input(0)));
        assert(lc_value(lc@) =~= seq![(total.0, 1nat), (get.0, neg_value(1))]);
    }
}

/// The index of the `k`-th auxiliary variable after the first `n`.
pub open spec fn aux(n: nat, k: nat) -> Index {
    Index::Aux((n + k) as usize)
}

/// The field arithmetic of a split: `g = t - h` in the field exactly when
/// `g + h = t` there.
proof fn lemma_split_arith(g: nat, t: nat, h: nat)
    requires
        g < scalar_modulus(),
        t < scalar_modulus(),
        h < scalar_modulus(),
    ensures
        ((g * 1) % scalar_modulus() == ((t % scalar_modulus() + (neg_value(1) * h)
            % scalar_modulus()) % scalar_modulus()) as nat) <==> ((g + h) % scalar_modulus()
            == t),
{
    let m = scalar_modulus() as int;
    assert(neg_value(1) == m - 1);
    vstd::arithmetic::div_mod::lemma_small_mod(g, m as nat);
    vstd::arithmetic::div_mod::lemma_small_mod(t, m as nat);
    assert(((g * 1) as int) % m == g as int);
    if h == 0 {
        assert(((m - 1) * h) % m == 0);
        vstd::arithmetic::div_mod::lemma_small_mod(g + h, m as nat);
    } else {
        assert((m - 1) * h == m * (h - 1) + (m - h)) by (nonlinear_arith);
        vstd::arithmetic::div_mod::lemma_mod_multiples_vanish(h - 1, m - h, m);
        vstd::arithmetic::div_mod::lemma_small_mod((m - h) as nat, m as nat);
        assert(((m - 1) * h) % m == m - h);
        if t >= h {
            vstd::arithmetic::div_mod::lemma_mod_multiples_vanish(1, t - h, m);
            vstd::arithmetic::div_mod::lemma_small_mod((t - h) as nat, m as nat);
            assert((t + (m - h)) % m == t - h);
            if g + h >= m {
                vstd::arithmetic::div_mod::lemma_mod_multiples_vanish(1, g + h - m, m);
                vstd::arithmetic::div_mod::lemma_small_mod((g + h - m) as nat, m as nat);
            } else {
                vstd::arithmetic::div_mod::lemma_small_mod((g + h) as nat, m as nat);
            }
        } else {
            vstd::arithmetic::div_mod::lemma_small_mod((t + m - h) as nat, m as nat);
            if g + h >= m {
                vstd::arithmetic::div_mod::lemma_mod_multiples_vanish(1, g + h - m, m);
                vstd::arithmetic::div_mod::lemma_small_mod((g + h - m) as nat, m as nat);
            } else {
                vstd::arithmetic::div_mod::lemma_small_mod((g + h) as nat, m as nat);
            }
        }
    }
}

/// `x * 1 = y` holds exactly when `x` and `y` have the same value.
pub proof fn lemma_equality_holds(x: Index, y: Index, aux: Seq<nat>, inputs: Seq<nat>)
    requires
        var_value(x, aux, inputs) matches Some(u) && u < scalar_modulus(),
        var_value(y, aux, inputs) matches Some(v) && v < scalar_modulus(),
    ensures
        constraint_holds(equality_constraint(x, y), aux, inputs) <==> var_value(x, aux, inputs)
            == var_value(y, aux, inputs),
{
    lemma_eval_unit(x, aux, inputs);
    lemma_eval_unit(y, aux, inputs);
    lemma_eval_unit(Index::Input(0), aux, inputs);
    let u = var_value(x, aux, inputs)->0;
    let v = var_value(y, aux, inputs)->0;
    vstd::arithmetic::div_mod::lemma_small_mod(u, scalar_modulus());
    vstd::arithmetic::div_mod::lemma_small_mod(v, scalar_modulus());
    vstd::arithmetic::div_mod::lemma_small_mod(1, scalar_modulus());
    assert((u * 1) % scalar_modulus() == u);
}

/// `give * 1 = total - get` holds exactly when `give + get = total` in the field.
pub proof fn lemma_split_holds(give: Index, total: Index, get: Index, aux: Seq<nat>, inputs: Seq<nat>)
    requires
        var_value(give, aux, inputs) matches Some(g) && g < scalar_modulus(),
        var_value(total, aux, inputs) matches Some(t) && t < scalar_modulus(),
        var_value(get, aux, inputs) matches Some(h) && h < scalar_modulus(),
    ensures
        constraint_holds(split_constraint(give, total, get), aux, inputs) <==> (var_value(
            give,
            aux,
            inputs,
        )->0 + var_value(get, aux, inputs)->0) % scalar_modulus() == var_value(
            total,
            aux,
            inputs,
        )->0,
{
    lemma_eval_unit(give, aux, inputs);
    lemma_eval_unit(Index::Input(0), aux, inputs);
    lemma_eval_difference(total, get, neg_value(1), aux, inputs);
    let g = var_value(give, aux, inputs)->0;
    let t = var_value(total, aux, inputs)->0;
    let h = var_value(get, aux, inputs)->0;
    vstd::arithmetic::div_mod::lemma_small_mod(g, scalar_modulus());
    vstd::arithmetic::div_mod::lemma_small_mod(1, scalar_modulus());
    assert(split_constraint(give, total, get).2 == seq![(total, 1nat), (get, neg_value(1))]);
    lemma_split_arith(g, t, h);
}

/// The pre-trade proof's circuit: Alice's key pair matches, both public keys
/// are the registered ones, and the traded volume equals the locked volume.
#[derive(Clone, Copy, Debug)]
pub struct PtradCircuit {
    pub private_key_alice: Option<Scalar>,
    pub public_key_alice: Option<G1Affine>,
    pub public_key_bob: Option<G1Affine>,
    pub trad_volume: Option<Scalar>,
    pub lock_volume: Option<Scalar>,
}

/// The constraints of the pre-trade circuit, whose variables are the
/// auxiliary variables from `n` on.
pub open spec fn ptrad_constraints(n: nat) -> Seq<ConstraintView> {
    seq![
        equality_constraint(aux(n, 1), aux(n, 0)),
        equality_constraint(aux(n, 1), aux(n, 2)),
        equality_constraint(aux(n, 4), aux(n, 3)),
        equality_constraint(aux(n, 6), aux(n, 5)),
    ]
}

/// What the pre-trade proof states: Alice's public key is derived from her
/// private key and is the registered one, Bob's public key is the registered
/// one, and the traded volume is the locked volume.
pub open spec fn ptrad_statement(c: PtradCircuit) -> bool {
    &&& point_value(c.public_key_alice->0@) == derived_key_value(c.private_key_alice->0@)
    &&& point_value(c.public_key_alice->0@) == derived_key_value(100)
    &&& point_value(c.public_key_bob->0@) == derived_key_value(200)
    &&& c.lock_volume->0@ == c.trad_volume->0@
}

/// The values a recording system holds after a synthesis that added `k`
/// auxiliary variables to `before`: the old ones first, with the same inputs.
proof fn lemma_recorded_extension(before: RecordingSystem, after: RecordingSystem, k: nat)
    requires
        after.input_assignment() == before.input_assignment(),
        extends_by(after.aux_assignment(), before.aux_assignment(), k),
        after.num_aux() == before.num_aux() + k,
    ensures
        after.aux_values().len() == before.aux_values().len() + k,
        after.aux_values().take(before.aux_values().len() as int) == before.aux_values(),
        after.input_values() == before.input_values(),
        after.aux_values().len() <= usize::MAX,
{
    lemma_recorded_assignments(before);
    lemma_recorded_assignments(after);
    lemma_same_inputs(before, after);
    let n = before.aux_values().len() as int;
    assert forall|i: int| 0 <= i < n implies after.aux_values()[i] == before.aux_values()[i] by {
        assert(after.aux_assignment().take(n)[i] == after.aux_assignment()[i]);
    }
    assert(after.aux_values().take(n) =~= before.aux_values());
}

/// The constraints of `before` still hold in `after` when `after` only added
/// auxiliary variables and constraints to a satisfied `before`.
proof fn lemma_old_constraints_hold(before: RecordingSystem, after: RecordingSystem, added: Seq<ConstraintView>)
    requires
        before.satisfied(),
        after.constraints() == before.constraints() + added,
        after.aux_values().len() >= before.aux_values().len(),
        after.aux_values().take(before.aux_values().len() as int) == before.aux_values(),
        after.input_values() == before.input_values(),
    ensures
        after.satisfied() <==> forall|j: int| 0 <= j < added.len() ==> constraint_holds(
            #[trigger] added[j],
            after.aux_values(),
            after.input_values(),
        ),
{
    let m = before.constraints().len();
    assert forall|i: int| 0 <= i < m implies constraint_holds(
        #[trigger] after.constraints()[i],
        after.aux_values(),
        after.input_values(),
    ) by {
        assert(after.constraints()[i] == before.constraints()[i]);
        lemma_holds_extends(before.constraints()[i], before.aux_values(), after.aux_values(), before.input_values());
    }
    if after.satisfied() {
        assert forall|j: int| 0 <= j < added.len() implies constraint_holds(
            #[trigger] added[j],
            after.aux_values(),
            after.input_values(),
        ) by {
            assert(after.constraints()[m + j] == added[j]);
        }
    }
    if forall|j: int| 0 <= j < added.len() ==> constraint_holds(
        #[trigger] added[j],
        after.aux_values(),
        after.input_values(),
    ) {
        assert forall|i: int| 0 <= i < after.constraints().len() implies constraint_holds(
            #[trigger] after.constraints()[i],
            after.aux_values(),
            after.input_values(),
        ) by {
            if i >= m {
                assert(after.constraints()[i] == added[i - m]);
            }
        }
    }
}

/// Synthesizing the pre-trade circuit into a recording system that was
/// satisfied leaves it satisfied exactly when the circuit's statement is true.
pub proof fn law_ptrad_satisfied_iff_statement(c: PtradCircuit, before: RecordingSystem, after: RecordingSystem)
    requires
        c.private_key_alice is Some,
        c.public_key_alice is Some,
        c.public_key_bob is Some,
        c.trad_volume matches Some(v) && v@ < scalar_modulus(),
        c.lock_volume matches Some(v) && v@ < scalar_modulus(),
        before.satisfied(),
        ptrad_synthesized(c, before, after),
    ensures
        after.satisfied() <==> ptrad_statement(c),
{
    lemma_recorded_assignments(before);
    lemma_recorded_assignments(after);
    lemma_recorded_extension(before, after, 7);
    let n = before.num_aux();
    let vals = after.aux_values();
    let inputs = after.input_values();
    let asg = after.aux_assignment();
    assert(asg[n as int + 0] == Some(vals[n as int + 0]));
    assert(asg[n as int + 1] == Some(vals[n as int + 1]));
    assert(asg[n as int + 2] == Some(vals[n as int + 2]));
    assert(asg[n as int + 3] == Some(vals[n as int + 3]));
    assert(asg[n as int + 4] == Some(vals[n as int + 4]));
    assert(asg[n as int + 5] == Some(vals[n as int + 5]));
    assert(asg[n as int + 6] == Some(vals[n as int + 6]));
    let added = ptrad_constraints(n);
    lemma_old_constraints_hold(before, after, added);
    lemma_equality_holds(aux(n, 1), aux(n, 0), vals, inputs);
    lemma_equality_holds(aux(n, 1), aux(n, 2), vals, inputs);
    lemma_equality_holds(aux(n, 4), aux(n, 3), vals, inputs);
    lemma_equality_holds(aux(n, 6), aux(n, 5), vals, inputs);
    if ptrad_statement(c) {
        assert forall|j: int| 0 <= j < added.len() implies constraint_holds(
            #[trigger] added[j],
            vals,
            inputs,
        ) by {}
    }
    if after.satisfied() {
        assert(constraint_holds(added[0], vals, inputs));
        assert(constraint_holds(added[1], vals, inputs));
        assert(constraint_holds(added[2], vals, inputs));
        assert(constraint_holds(added[3], vals, inputs));
    }
}

/// The transaction proof's circuit: each party's private key yields the
/// other's registered public key, and each party's volume splits into what it
/// gives and what it keeps.
#[derive(Clone, Copy, Debug)]
pub struct TranscationCircle {
    pub private_key_alice: Option<Scalar>,
    pub public_key_alice: Option<G1Affine>,
    pub private_key_bob: Option<Scalar>,
    pub public_key_bob: Option<G1Affine>,
    pub trad_volume_alice: Option<Scalar>,
    pub trad_volume_bob: Option<Scalar>,
    pub trad_volume_alice_give: Option<Scalar>,
    pub trad_volume_alice_get: Option<Scalar>,
    pub trad_volume_bob_give: Option<Scalar>,
    pub trad_volume_bob_get: Option<Scalar>,
}

/// The constraints of the transaction circuit.
pub open spec fn transcation_constraints(n: nat) -> Seq<ConstraintView> {
    seq![
        equality_constraint(aux(n, 1), aux(n, 0)),
        equality_constraint(aux(n, 3), aux(n, 2)),
        split_constraint(aux(n, 5), aux(n, 4), aux(n, 6)),
        split_constraint(aux(n, 8), aux(n, 7), aux(n, 9)),
    ]
}

/// The store proof's circuit: Alice's key pair matches and her volume splits
/// into what she gives and what she keeps.
#[derive(Clone, Copy, Debug)]
pub struct StoreCircuit {
    pub private_key_alice: Option<Scalar>,
    pub public_key_alice: Option<G1Affine>,
    pub trad_volume_alice_get: Option<Scalar>,
    pub trad_volume_alice_give: Option<Scalar>,
    pub trad_volume_alice: Option<Scalar>,
    pub trad_volume_bob_give: Option<Scalar>,
}

/// The constraints of the store circuit.
pub open spec fn store_constraints(n: nat) -> Seq<ConstraintView> {
    seq![
        equality_constraint(aux(n, 0), aux(n, 1)),
        split_constraint(aux(n, 3), aux(n, 2), aux(n, 4)),
    ]
}

/// `assignment` extends `before` by exactly `k` values.
pub open spec fn extends_by(assignment: Seq<Option<nat>>, before: Seq<Option<nat>>, k: nat) -> bool {
    assignment.len() == before.len() + k && assignment.take(before.len() as int) == before
}

/// What a successful `synthesize` of `c` does to a constraint system:
/// `before` is the system before the call and `after` the system after it.
/// The calls a successful `synthesize` of the ptrad circuit makes, in order:
/// each allocation and constraint with its annotation.
pub open spec fn ptrad_calls() -> Seq<SystemCall> {
    seq![
        SystemCall::AllocAux("compute_public_key_alice"@),
        SystemCall::AllocAux("public_key_alice"@),
        SystemCall::Enforce("public_key_alice = compute_public_key_alice"@),
        SystemCall::AllocAux("alice_public_key_store"@),
        SystemCall::Enforce("public_key_alice = alice_public_key_store"@),
        SystemCall::AllocAux("bob_public_key_store"@),
        SystemCall::AllocAux("public_key_bob"@),
        SystemCall::Enforce("public_key_bob = bob_public_key_store"@),
        SystemCall::AllocAux("trad_volume"@),
        SystemCall::AllocAux("lock_volume"@),
        SystemCall::Enforce("lock_volume =  trad_volume"@),
    ]
}

pub open spec fn ptrad_synthesized<CS: ConstraintSystem>(c: PtradCircuit, before: CS, after: CS) -> bool {
    let n = before.num_aux();
    let base = before.aux_assignment();
    let asg = after.aux_assignment();
    &&& after.num_aux() == n + 7
    &&& after.num_inputs() == before.num_inputs()
    &&& after.input_assignment() == before.input_assignment()
    &&& after.calls() == before.calls() + ptrad_calls()
    &&& after.constraints() == before.constraints() + ptrad_constraints(n)
    &&& extends_by(asg, base, 7)
    &&& assigned_as(asg[base.len() + 0int], derived_key_value(c.private_key_alice->0@))
    &&& assigned_as(asg[base.len() + 1int], point_value(c.public_key_alice->0@))
    &&& assigned_as(asg[base.len() + 2int], derived_key_value(100))
    &&& assigned_as(asg[base.len() + 3int], derived_key_value(200))
    &&& assigned_as(asg[base.len() + 4int], point_value(c.public_key_bob->0@))
    &&& assigned_from(asg[base.len() + 5int], c.trad_volume)
    &&& assigned_from(asg[base.len() + 6int], c.lock_volume)
}

impl Circuit for PtradCircuit {
    open spec fn ready(&self) -> bool {
        self.private_key_alice is Some && self.public_key_alice is Some && self.public_key_bob is Some
    }

    fn synthesize<CS: ConstraintSystem>(self, cs: &mut CS) -> (r: Result<(), SynthesisError>)
        ensures
            r is Ok ==> ptrad_synthesized(self, *old(cs), *final(cs)),
            r is Err ==> r == Err::<(), SynthesisError>(SynthesisError::AssignmentMissing)
                && old(cs).evaluates() && (self.trad_volume is None || self.lock_volume is None),
            !old(cs).evaluates() || (self.trad_volume is Some && self.lock_volume is Some) ==> r is Ok,
    {
        let ghost n = cs.num_aux();
        let ghost k0 = cs.calls();
        let ghost c0 = cs.constraints();
        let ghost base = cs.aux_assignment();
        let private_key_alice_value = self.private_key_alice.unwrap();
        let compute_public_key_alice_value = G1Affine::generator_mul(&private_key_alice_value);
        let compute_public_key_alice_change = Some(
            glaffine_to_primefield(compute_public_key_alice_value),
        );
        let compute_public_key_alice = alloc_value(
            cs,
            "compute_public_key_alice",
            compute_public_key_alice_change,
        )?;
        let public_key_alice_value = self.public_key_alice.unwrap();
        let public_key_alice_change = Some(glaffine_to_primefield(public_key_alice_value));
        let public_key_alice = alloc_value(cs, "public_key_alice", public_key_alice_change)?;
        enforce_equal(
            cs,
            "public_key_alice = compute_public_key_alice",
            public_key_alice,
            compute_public_key_alice,
        );

        let alice_public_key_store_value = G1Affine::generator_mul(&Scalar::from_u64(100));
        let alice_public_key_store_change = Some(glaffine_to_primefield(alice_public_key_store_value));
        let alice_public_key_store_c = alloc_value(
            cs,
            "alice_public_key_store",
            alice_public_key_store_change,
        )?;
        enforce_equal(
            cs,
            "public_key_alice = alice_public_key_store",
            public_key_alice,
            alice_public_key_store_c,
        );

        let bob_public_key_store_value = G1Affine::generator_mul(&Scalar::from_u64(200));
        let bob_public_key_store_change = Some(glaffine_to_primefield(bob_public_key_store_value));
        let bob_public_key_store_c = alloc_value(
            cs,
            "bob_public_key_store",
            bob_public_key_store_change,
        )?;
        let public_key_bob_value = self.public_key_bob.unwrap();
        let public_key_bob_change = Some(glaffine_to_primefield(public_key_bob_value));
        let public_key_bob = alloc_value(cs, "public_key_bob", public_key_bob_change)?;
        enforce_equal(
            cs,
            "public_key_bob = bob_public_key_store",
            public_key_bob,
            bob_public_key_store_c,
        );

        let trad_volume = alloc_value(cs, "trad_volume", self.trad_volume)?;
        let lock_volume = alloc_value(cs, "lock_volume", self.lock_volume)?;
        enforce_equal(cs, "lock_volume =  trad_volume", lock_volume, trad_volume);
        proof {
            assert(cs.calls() =~= k0 + ptrad_calls());
            assert(cs.constraints() =~= c0 + ptrad_constraints(n));
            let asg = cs.aux_assignment();
            assert(asg.take(base.len() as int) =~= base);
        }
        Ok(())
    }
}

/// What a successful `synthesize` of `c` does to a constraint system:
/// `before` is the system before the call and `after` the system after it.
/// The calls a successful `synthesize` of the transcation circuit makes, in order:
/// each allocation and constraint with its annotation.
pub open spec fn transcation_calls() -> Seq<SystemCall> {
    seq![
        SystemCall::AllocAux("compute_public_key_alice"@),
        SystemCall::AllocAux("public_key_bob"@),
        SystemCall::Enforce("public_key_bob = compute_public_key_alice"@),
        SystemCall::AllocAux("compute_public_key_bob"@),
        SystemCall::AllocAux("public_key_alice"@),
        SystemCall::Enforce("public_key_alice = compute_public_key_bob"@),
        SystemCall::AllocAux("trad_volume_alice"@),
        SystemCall::AllocAux("trad_volume_alice_give"@),
        SystemCall::AllocAux("trad_volume_alice_get"@),
        SystemCall::Enforce("trad_volume_alice = trad_volume_alice_give + trad_volume_alice_get"@),
        SystemCall::AllocAux("trad_volume_bob"@),
        SystemCall::AllocAux("trad_volume_bob_give"@),
        SystemCall::AllocAux("trad_volume_bob_get"@),
        SystemCall::Enforce("trad_volume_bob = trad_volume_bob_give + trad_volume_bob_get"@),
    ]
}

pub open spec fn transcation_synthesized<CS: ConstraintSystem>(c: TranscationCircle, before: CS, after: CS) -> bool {
    let n = before.num_aux();
    let base = before.aux_assignment();
    let asg = after.aux_assignment();
    &&& after.num_aux() == n + 10
    &&& after.num_inputs() == before.num_inputs()
    &&& after.input_assignment() == before.input_assignment()
    &&& after.calls() == before.calls() + transcation_calls()
    &&& after.constraints() == before.constraints() + transcation_constraints(n)
    &&& extends_by(asg, base, 10)
    &&& assigned_as(asg[base.len() + 0int], derived_key_value(c.private_key_alice->0@))
    &&& assigned_as(asg[base.len() + 1int], point_value(c.public_key_bob->0@))
    &&& assigned_as(asg[base.len() + 2int], derived_key_value(c.private_key_bob->0@))
    &&& assigned_as(asg[base.len() + 3int], point_value(c.public_key_alice->0@))
    &&& assigned_from(asg[base.len() + 4int], c.trad_volume_alice)
    &&& assigned_from(asg[base.len() + 5int], c.trad_volume_alice_give)
    &&& assigned_from(asg[base.len() + 6int], c.trad_volume_alice_get)
    &&& assigned_from(asg[base.len() + 7int], c.trad_volume_bob)
    &&& assigned_from(asg[base.len() + 8int], c.trad_volume_bob_give)
    &&& assigned_from(asg[base.len() + 9int], c.trad_volume_bob_get)
}

/// What the transaction proof states: each party's private key yields the
/// other party's registered public key, and each party's volume is what it
/// gives plus what it gets, in the field.
pub open spec fn transcation_statement(c: TranscationCircle) -> bool {
    &&& point_value(c.public_key_bob->0@) == derived_key_value(c.private_key_alice->0@)
    &&& point_value(c.public_key_alice->0@) == derived_key_value(c.private_key_bob->0@)
    &&& (c.trad_volume_alice_give->0@ + c.trad_volume_alice_get->0@) % scalar_modulus()
        == c.trad_volume_alice->0@
    &&& (c.trad_volume_bob_give->0@ + c.trad_volume_bob_get->0@) % scalar_modulus()
        == c.trad_volume_bob->0@
}

/// Synthesizing the transaction circuit into a recording system that was
/// satisfied leaves it satisfied exactly when the circuit's statement is true.
pub proof fn law_transcation_satisfied_iff_statement(
    c: TranscationCircle,
    before: RecordingSystem,
    after: RecordingSystem,
)
    requires
        c.private_key_alice is Some,
        c.public_key_alice is Some,
        c.private_key_bob is Some,
        c.public_key_bob is Some,
        c.trad_volume_alice matches Some(v) && v@ < scalar_modulus(),
        c.trad_volume_bob matches Some(v) && v@ < scalar_modulus(),
        c.trad_volume_alice_give matches Some(v) && v@ < scalar_modulus(),
        c.trad_volume_alice_get matches Some(v) && v@ < scalar_modulus(),
        c.trad_volume_bob_give matches Some(v) && v@ < scalar_modulus(),
        c.trad_volume_bob_get matches Some(v) && v@ < scalar_modulus(),
        before.satisfied(),
        transcation_synthesized(c, before, after),
    ensures
        after.satisfied() <==> transcation_statement(c),
{
    lemma_recorded_assignments(before);
    lemma_recorded_assignments(after);
    lemma_recorded_extension(before, after, 10);
    let n = before.num_aux();
    let vals = after.aux_values();
    let inputs = after.input_values();
    let asg = after.aux_assignment();
    assert(asg[n as int + 0] == Some(vals[n as int + 0]));
    assert(asg[n as int + 1] == Some(vals[n as int + 1]));
    assert(asg[n as int + 2] == Some(vals[n as int + 2]));
    assert(asg[n as int + 3] == Some(vals[n as int + 3]));
    assert(asg[n as int + 4] == Some(vals[n as int + 4]));
    assert(asg[n as int + 5] == Some(vals[n as int + 5]));
    assert(asg[n as int + 6] == Some(vals[n as int + 6]));
    assert(asg[n as int + 7] == Some(vals[n as int + 7]));
    assert(asg[n as int + 8] == Some(vals[n as int + 8]));
    assert(asg[n as int + 9] == Some(vals[n as int + 9]));
    let added = transcation_constraints(n);
    lemma_old_constraints_hold(before, after, added);
    lemma_equality_holds(aux(n, 1), aux(n, 0), vals, inputs);
    lemma_equality_holds(aux(n, 3), aux(n, 2), vals, inputs);
    lemma_split_holds(aux(n, 5), aux(n, 4), aux(n, 6), vals, inputs);
    lemma_split_holds(aux(n, 8), aux(n, 7), aux(n, 9), vals, inputs);
    if transcation_statement(c) {
        assert forall|j: int| 0 <= j < added.len() implies constraint_holds(
            #[trigger] added[j],
            vals,
            inputs,
        ) by {}
    }
    if after.satisfied() {
        assert(constraint_holds(added[0], vals, inputs));
        assert(constraint_holds(added[1], vals, inputs));
        assert(constraint_holds(added[2], vals, inputs));
        assert(constraint_holds(added[3], vals, inputs));
    }
}

impl Circuit for TranscationCircle {
    open spec fn ready(&self) -> bool {
        &&& self.private_key_alice is Some
        &&& self.public_key_bob is Some
        &&& self.private_key_bob is Some
        &&& self.public_key_alice is Some
    }

    fn synthesize<CS: ConstraintSystem>(self, cs: &mut CS) -> (r: Result<(), SynthesisError>)
        ensures
            r is Ok ==> transcation_synthesized(self, *old(cs), *final(cs)),
            r is Err ==> r == Err::<(), SynthesisError>(SynthesisError::AssignmentMissing)
                && old(cs).evaluates() && (self.trad_volume_alice is None
                || self.trad_volume_alice_give is None || self.trad_volume_alice_get is None
                || self.trad_volume_bob is None || self.trad_volume_bob_give is None
                || self.trad_volume_bob_get is None),
            !old(cs).evaluates() || (self.trad_volume_alice is Some && self.trad_volume_alice_give is Some
                && self.trad_volume_alice_get is Some && self.trad_volume_bob is Some
                && self.trad_volume_bob_give is Some && self.trad_volume_bob_get is Some) ==> r is Ok,
    {
        let ghost n = cs.num_aux();
        let ghost k0 = cs.calls();
        let ghost c0 = cs.constraints();
        let ghost base = cs.aux_assignment();
        let private_key_alice_value = self.private_key_alice.unwrap();
        let compute_public_key_alice_value = G1Affine::generator_mul(&private_key_alice_value);
        let compute_public_key_alice_change = Some(
            glaffine_to_primefield(compute_public_key_alice_value),
        );
        let compute_public_key_alice = alloc_value(
            cs,
            "compute_public_key_alice",
            compute_public_key_alice_change,
        )?;
        let public_key_bob_value = self.public_key_bob.unwrap();
        let public_key_bob_change = Some(glaffine_to_primefield(public_key_bob_value));
        let public_key_bob = alloc_value(cs, "public_key_bob", public_key_bob_change)?;
        enforce_equal(
            cs,
            "public_key_bob = compute_public_key_alice",
            public_key_bob,
            compute_public_key_alice,
        );

        let private_key_bob_value = self.private_key_bob.unwrap();
        let compute_public_key_bob_value = G1Affine::generator_mul(&private_key_bob_value);
        let compute_public_key_bob_change = Some(glaffine_to_primefield(compute_public_key_bob_value));
        let compute_public_key_bob = alloc_value(
            cs,
            "compute_public_key_bob",
            compute_public_key_bob_change,
        )?;
        let public_key_alice_value = self.public_key_alice.unwrap();
        let public_key_alice_change = Some(glaffine_to_primefield(public_key_alice_value));
        let public_key_alice = alloc_value(cs, "public_key_alice", public_key_alice_change)?;
        enforce_equal(
            cs,
            "public_key_alice = compute_public_key_bob",
            public_key_alice,
            compute_public_key_bob,
        );

        let trad_volume_alice = alloc_value(cs, "trad_volume_alice", self.trad_volume_alice)?;
        let trad_volume_alice_give = alloc_value(
            cs,
            "trad_volume_alice_give",
            self.trad_volume_alice_give,
        )?;
        let trad_volume_alice_get = alloc_value(
            cs,
            "trad_volume_alice_get",
            self.trad_volume_alice_get,
        )?;
        enforce_split(
            cs,
            "trad_volume_alice = trad_volume_alice_give + trad_volume_alice_get",
            trad_volume_alice_give,
            trad_volume_alice,
            trad_volume_alice_get,
        );

        let trad_volume_bob = alloc_value(cs, "trad_volume_bob", self.trad_volume_bob)?;
        let trad_volume_bob_give = alloc_value(
            cs,
            "trad_volume_bob_give",
            self.trad_volume_bob_give,
        )?;
        let trad_volume_bob_get = alloc_value(cs, "trad_volume_bob_get", self.trad_volume_bob_get)?;
        enforce_split(
            cs,
            "trad_volume_bob = trad_volume_bob_give + trad_volume_bob_get",
            trad_volume_bob_give,
            trad_volume_bob,
            trad_volume_bob_get,
        );
        proof {
            assert(cs.calls() =~= k0 + transcation_calls());
            assert(cs.constraints() =~= c0 + transcation_constraints(n));
            let asg = cs.aux_assignment();
            assert(asg.take(base.len() as int) =~= base);
        }
        Ok(())
    }
}

/// What a successful `synthesize` of `c` does to a constraint system:
/// `before` is the system before the call and `after` the system after it.
/// The calls a successful `synthesize` of the store circuit makes, in order:
/// each allocation and constraint with its annotation.
pub open spec fn store_calls() -> Seq<SystemCall> {
    seq![
        SystemCall::AllocAux("compute_public_key_alice"@),
        SystemCall::AllocAux("public_key_alice"@),
        SystemCall::Enforce("compute_public_key_alice = public_key_alice"@),
        SystemCall::AllocAux("trad_volume_alice"@),
        SystemCall::AllocAux("trad_volume_alice_give"@),
        SystemCall::AllocAux("trad_volume_alice_get"@),
        SystemCall::Enforce("trad_volume_alice = trad_volume_alice_give + trad_volume_alice_get"@),
    ]
}

pub open spec fn store_synthesized<CS: ConstraintSystem>(c: StoreCircuit, before: CS, after: CS) -> bool {
    let n = before.num_aux();
    let base = before.aux_assignment();
    let asg = after.aux_assignment();
    &&& after.num_aux() == n + 5
    &&& after.num_inputs() == before.num_inputs()
    &&& after.input_assignment() == before.input_assignment()
    &&& after.calls() == before.calls() + store_calls()
    &&& after.constraints() == before.constraints() + store_constraints(n)
    &&& extends_by(asg, base, 5)
    &&& assigned_as(asg[base.len() + 0int], derived_key_value(c.private_key_alice->0@))
    &&& assigned_as(asg[base.len() + 1int], point_value(c.public_key_alice->0@))
    &&& assigned_from(asg[base.len() + 2int], c.trad_volume_alice)
    &&& assigned_from(asg[base.len() + 3int], c.trad_volume_alice_give)
    &&& assigned_from(asg[base.len() + 4int], c.trad_volume_alice_get)
}

/// What the store proof states: Alice's private key yields her public key,
/// and her volume is what she gives plus what she gets, in the field.
pub open spec fn store_statement(c: StoreCircuit) -> bool {
    &&& derived_key_value(c.private_key_alice->0@) == point_value(c.public_key_alice->0@)
    &&& (c.trad_volume_alice_give->0@ + c.trad_volume_alice_get->0@) % scalar_modulus()
        == c.trad_volume_alice->0@
}

/// Synthesizing the store circuit into a recording system that was satisfied
/// leaves it satisfied exactly when the circuit's statement is true.
pub proof fn law_store_satisfied_iff_statement(c: StoreCircuit, before: RecordingSystem, after: RecordingSystem)
    requires
        c.private_key_alice is Some,
        c.public_key_alice is Some,
        c.trad_volume_alice matches Some(v) && v@ < scalar_modulus(),
        c.trad_volume_alice_give matches Some(v) && v@ < scalar_modulus(),
        c.trad_volume_alice_get matches Some(v) && v@ < scalar_modulus(),
        before.satisfied(),
        store_synthesized(c, before, after),
    ensures
        after.satisfied() <==> store_statement(c),
{
    lemma_recorded_assignments(before);
    lemma_recorded_assignments(after);
    lemma_recorded_extension(before, after, 5);
    let n = before.num_aux();
    let vals = after.aux_values();
    let inputs = after.input_values();
    let asg = after.aux_assignment();
    assert(asg[n as int + 0] == Some(vals[n as int + 0]));
    assert(asg[n as int + 1] == Some(vals[n as int + 1]));
    assert(asg[n as int + 2] == Some(vals[n as int + 2]));
    assert(asg[n as int + 3] == Some(vals[n as int + 3]));
    assert(asg[n as int + 4] == Some(vals[n as int + 4]));
    let added = store_constraints(n);
    lemma_old_constraints_hold(before, after, added);
    lemma_equality_holds(aux(n, 0), aux(n, 1), vals, inputs);
    lemma_split_holds(aux(n, 3), aux(n, 2), aux(n, 4), vals, inputs);
    if store_statement(c) {
        assert forall|j: int| 0 <= j < added.len() implies constraint_holds(
            #[trigger] added[j],
            vals,
            inputs,
        ) by {}
    }
    if after.satisfied() {
        assert(constraint_holds(added[0], vals, inputs));
        assert(constraint_holds(added[1], vals, inputs));
    }
}

impl Circuit for StoreCircuit {
    open spec fn ready(&self) -> bool {
        self.private_key_alice is Some && self.public_key_alice is Some
    }

    fn synthesize<CS: ConstraintSystem>(self, cs: &mut CS) -> (r: Result<(), SynthesisError>)
        ensures
            r is Ok ==> store_synthesized(self, *old(cs), *final(cs)),
            r is Err ==> r == Err::<(), SynthesisError>(SynthesisError::AssignmentMissing)
                && old(cs).evaluates() && (self.trad_volume_alice is None
                || self.trad_volume_alice_give is None || self.trad_volume_alice_get is None),
            !old(cs).evaluates() || (self.trad_volume_alice is Some && self.trad_volume_alice_give is Some
                && self.trad_volume_alice_get is Some) ==> r is Ok,
    {
        let ghost n = cs.num_aux();
        let ghost k0 = cs.calls();
        let ghost c0 = cs.constraints();
        let ghost base = cs.aux_assignment();
        let private_key_alice_value = self.private_key_alice.unwrap();
        let compute_public_key_alice_value = G1Affine::generator_mul(&private_key_alice_value);
        let compute_public_key_alice_change = Some(
            glaffine_to_primefield(compute_public_key_alice_value),
        );
        let compute_public_key_alice = alloc_value(
            cs,
            "compute_public_key_alice",
            compute_public_key_alice_change,
        )?;
        let public_key_alice_value = self.public_key_alice.unwrap();
        let public_key_alice_change = Some(glaffine_to_primefield(public_key_alice_value));
        let public_key_alice = alloc_value(cs, "public_key_alice", public_key_alice_change)?;
        enforce_equal(
            cs,
            "compute_public_key_alice = public_key_alice",
            compute_public_key_alice,
            public_key_alice,
        );
        let trad_volume_alice = alloc_value(cs, "trad_volume_alice", self.trad_volume_alice)?;
        let trad_volume_alice_give = alloc_value(
            cs,
            "trad_volume_alice_give",
            self.trad_volume_alice_give,
        )?;
        let trad_volume_alice_get = alloc_value(
            cs,
            "trad_volume_alice_get",
            self.trad_volume_alice_get,
        )?;
        enforce_split(
            cs,
            "trad_volume_alice = trad_volume_alice_give + trad_volume_alice_get",
            trad_volume_alice_give,
            trad_volume_alice,
            trad_volume_alice_get,
        );
        proof {
            assert(cs.calls() =~= k0 + store_calls());
            assert(cs.constraints() =~= c0 + store_constraints(n));
            let asg = cs.aux_assignment();
            assert(asg.take(base.len() as int) =~= base);
        }
        Ok(())
    }
}

} // verus!
