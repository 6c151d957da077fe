use vstd::prelude::*;

use crate::constraint::{
    lc_value, ConstraintSystem, ConstraintView, Index, LinearCombination, SynthesisError,
    SystemCall, Variable,
};
use crate::field::{scalar_modulus, Scalar};
use crate::g1_to_scalar::is_less_or_equal_than;

verus! {

broadcast use vstd::string::group_string_axioms;

/// The value of the variable `idx`, where it has one: the input of index 0
/// is the constant 1, the others are the values held.
pub open spec fn var_value(idx: Index, aux: Seq<nat>, inputs: Seq<nat>) -> Option<nat> {
    match idx {
        Index::Aux(i) => if i < aux.len() {
            Some(aux[i as int])
        } else {
            None
        },
        Index::Input(i) => if i == 0 {
            Some(1)
        } else if i < inputs.len() {
            Some(inputs[i as int])
        } else {
            None
        },
    }
}

/// The value of a linear combination in the scalar field, term by term from
/// the first; `None` where a term names a variable that has no value.
pub open spec fn lc_eval(terms: Seq<(Index, nat)>, aux: Seq<nat>, inputs: Seq<nat>) -> Option<nat>
    decreases terms.len(),
{
    if terms.len() == 0 {
        Some(0)
    } else {
        match (lc_eval(terms.drop_last(), aux, inputs), var_value(terms.last().0, aux, inputs)) {
            (Some(acc), Some(x)) => Some(
                ((acc + (terms.last().1 * x) % scalar_modulus()) % scalar_modulus()) as nat,
            ),
            _ => None,
        }
    }
}

/// Once a prefix of the terms has no value, neither has the whole.
proof fn lemma_prefix_without_value(terms: Seq<(Index, nat)>, aux: Seq<nat>, inputs: Seq<nat>, k: int)
    requires
        0 <= k <= terms.len(),
        lc_eval(terms.take(k), aux, inputs) is None,
    ensures
        lc_eval(terms, aux, inputs) is None,
    decreases terms.len() - k,
{
    if k < terms.len() {
        assert(terms.take(k + 1).drop_last() =~= terms.take(k));
        lemma_prefix_without_value(terms, aux, inputs, k + 1);
    } else {
        assert(terms.take(k) =~= terms);
    }
}

/// The value of a linear combination, where it has one, is a field element.
pub proof fn lemma_eval_in_field(terms: Seq<(Index, nat)>, aux: Seq<nat>, inputs: Seq<nat>)
    ensures
        lc_eval(terms, aux, inputs) matches Some(v) ==> v < scalar_modulus(),
    decreases terms.len(),
{
    if terms.len() > 0 {
        lemma_eval_in_field(terms.drop_last(), aux, inputs);
    }
}

/// A single term `c * v` has the value `c` times the value of `v`, in the
/// field; it has none where `v` has none.
pub proof fn law_eval_single_term(v: Index, c: nat, aux: Seq<nat>, inputs: Seq<nat>)
    ensures
        lc_eval(seq![(v, c)], aux, inputs) == match var_value(v, aux, inputs) {
            Some(x) => Some((c * x) % scalar_modulus()),
            None => None::<nat>,
        },
{
    let t = seq![(v, c)];
    assert(t.drop_last() =~= Seq::<(Index, nat)>::empty());
    assert(lc_eval(t.drop_last(), aux, inputs) == Some(0nat));
    assert(t.last() == (v, c));
    if let Some(x) = var_value(v, aux, inputs) {
        vstd::arithmetic::div_mod::lemma_mod_twice((c * x) as int, scalar_modulus() as int);
    }
}

/// The value of two linear combinations written one after the other is the
/// field sum of their values; it has none where either has none. With
/// `law_eval_single_term`, this fixes the value of every combination: the
/// sum of its terms' coefficients times their variables' values.
pub proof fn law_eval_of_concatenation(s: Seq<(Index, nat)>, t: Seq<(Index, nat)>, aux: Seq<nat>, inputs: Seq<nat>)
    ensures
        lc_eval(s + t, aux, inputs) == match (lc_eval(s, aux, inputs), lc_eval(t, aux, inputs)) {
            (Some(a), Some(b)) => Some((a + b) % scalar_modulus()),
            _ => None::<nat>,
        },
    decreases t.len(),
{
    let m = scalar_modulus() as int;
    lemma_eval_in_field(s, aux, inputs);
    if t.len() == 0 {
        assert(s + t =~= s);
        if let Some(a) = lc_eval(s, aux, inputs) {
            vstd::arithmetic::div_mod::lemma_small_mod(a, scalar_modulus());
        }
    } else {
        let t2 = t.drop_last();
        let x = t.last();
        law_eval_of_concatenation(s, t2, aux, inputs);
        assert((s + t).drop_last() =~= s + t2);
        assert((s + t).last() == x);
        lemma_eval_in_field(t2, aux, inputs);
        if let Some(v) = var_value(x.0, aux, inputs) {
            if let (Some(a), Some(b)) = (lc_eval(s, aux, inputs), lc_eval(t2, aux, inputs)) {
                let term = (x.1 * v) % scalar_modulus();
                assert(term < m);
                vstd::arithmetic::div_mod::lemma_small_mod(term, scalar_modulus());
                vstd::arithmetic::div_mod::lemma_small_mod(a, scalar_modulus());
                vstd::arithmetic::div_mod::lemma_add_mod_noop((a + b) as int, term as int, m);
                vstd::arithmetic::div_mod::lemma_add_mod_noop(a as int, (b + term) as int, m);
                vstd::arithmetic::div_mod::lemma_mod_twice((a + b) as int, m);
                assert(((a + b) % scalar_modulus() + term) % scalar_modulus() == (a + b + term)
                    % scalar_modulus()) by {
                    vstd::arithmetic::div_mod::lemma_mod_twice(term as int, m);
                }
                assert((a + (b + term) % scalar_modulus()) % scalar_modulus() == (a + b + term)
                    % scalar_modulus()) by {
                    vstd::arithmetic::div_mod::lemma_mod_twice((b + term) as int, m);
                }
            } else if lc_eval(s, aux, inputs) is None {
                assert(lc_eval(s + t2, aux, inputs) is None);
            }
        }
    }
}

/// Whether the constraint `A * B = C` holds under the given values.
pub open spec fn constraint_holds(k: ConstraintView, aux: Seq<nat>, inputs: Seq<nat>) -> bool {
    match (lc_eval(k.0, aux, inputs), lc_eval(k.1, aux, inputs), lc_eval(k.2, aux, inputs)) {
        (Some(a), Some(b), Some(c)) => (a * b) % scalar_modulus() == c,
        _ => false,
    }
}

/// The values of a sequence of field elements.
pub open spec fn values_of(s: Seq<Scalar>) -> Seq<nat> {
    s.map_values(|x: Scalar| x@)
}

/// The values a recording system assigns are the values it holds, and it
/// counts the variables it holds.
pub proof fn lemma_recorded_assignments(cs: RecordingSystem)
    ensures
        cs.num_aux() == cs.aux_values().len(),
        cs.num_inputs() == cs.input_values().len(),
        cs.aux_values().len() <= usize::MAX,
        cs.input_values().len() <= usize::MAX,
        cs.aux_assignment().len() == cs.aux_values().len(),
        cs.input_assignment().len() == cs.input_values().len(),
        forall|i: int| 0 <= i < cs.aux_values().len() ==> #[trigger] cs.aux_assignment()[i] == Some(cs.aux_values()[i]),
        forall|i: int| 0 <= i < cs.input_values().len() ==> #[trigger] cs.input_assignment()[i] == Some(cs.input_values()[i]),
{
    assert(cs.aux@.len() == cs.aux.len());
    assert(cs.inputs@.len() == cs.inputs.len());
}

/// Two recording systems that assign the same input values hold the same
/// input values.
pub proof fn lemma_same_inputs(a: RecordingSystem, b: RecordingSystem)
    requires
        a.input_assignment() == b.input_assignment(),
    ensures
        a.input_values() == b.input_values(),
{
    lemma_recorded_assignments(a);
    lemma_recorded_assignments(b);
    assert forall|i: int| 0 <= i < a.input_values().len() implies a.input_values()[i] == b.input_values()[i] by {
        assert(a.input_assignment()[i] == b.input_assignment()[i]);
    }
    assert(a.input_values() =~= b.input_values());
}

/// A linear combination whose value is known keeps it when more auxiliary
/// variables are added.
pub proof fn lemma_eval_extends(terms: Seq<(Index, nat)>, aux: Seq<nat>, more: Seq<nat>, inputs: Seq<nat>)
    requires
        aux.len() <= more.len(),
        more.take(aux.len() as int) == aux,
        lc_eval(terms, aux, inputs) is Some,
    ensures
        lc_eval(terms, more, inputs) == lc_eval(terms, aux, inputs),
    decreases terms.len(),
{
    if terms.len() > 0 {
        lemma_eval_extends(terms.drop_last(), aux, more, inputs);
        let x = terms.last().0;
        if let Index::Aux(i) = x {
            assert(more[i as int] == more.take(aux.len() as int)[i as int]);
        }
    }
}

/// A linear combination whose value is known keeps it when more input
/// variables are added.
pub proof fn lemma_eval_extends_inputs(terms: Seq<(Index, nat)>, aux: Seq<nat>, inputs: Seq<nat>, more: Seq<nat>)
    requires
        inputs.len() <= more.len(),
        more.take(inputs.len() as int) == inputs,
        lc_eval(terms, aux, inputs) is Some,
    ensures
        lc_eval(terms, aux, more) == lc_eval(terms, aux, inputs),
    decreases terms.len(),
{
    if terms.len() > 0 {
        lemma_eval_extends_inputs(terms.drop_last(), aux, inputs, more);
        let x = terms.last().0;
        if let Index::Input(i) = x {
            if i != 0 {
                assert(more[i as int] == more.take(inputs.len() as int)[i as int]);
            }
        }
    }
}

/// A constraint that holds keeps holding when more input variables are
/// added.
pub proof fn lemma_holds_extends_inputs(k: ConstraintView, aux: Seq<nat>, inputs: Seq<nat>, more: Seq<nat>)
    requires
        inputs.len() <= more.len(),
        more.take(inputs.len() as int) == inputs,
        constraint_holds(k, aux, inputs),
    ensures
        constraint_holds(k, aux, more),
{
    lemma_eval_extends_inputs(k.0, aux, inputs, more);
    lemma_eval_extends_inputs(k.1, aux, inputs, more);
    lemma_eval_extends_inputs(k.2, aux, inputs, more);
}

/// A constraint that holds keeps holding when more auxiliary variables are
/// added.
pub proof fn lemma_holds_extends(k: ConstraintView, aux: Seq<nat>, more: Seq<nat>, inputs: Seq<nat>)
    requires
        aux.len() <= more.len(),
        more.take(aux.len() as int) == aux,
        constraint_holds(k, aux, inputs),
    ensures
        constraint_holds(k, more, inputs),
{
    lemma_eval_extends(k.0, aux, more, inputs);
    lemma_eval_extends(k.1, aux, more, inputs);
    lemma_eval_extends(k.2, aux, more, inputs);
}

/// The value of the combination `1 * x`.
pub proof fn lemma_eval_unit(x: Index, aux: Seq<nat>, inputs: Seq<nat>)
    ensures
        lc_eval(seq![(x, 1nat)], aux, inputs) == match var_value(x, aux, inputs) {
            Some(v) => Some(v % scalar_modulus()),
            None => None::<nat>,
        },
{
    let t = seq![(x, 1nat)];
    assert(t.drop_last() =~= Seq::<(Index, nat)>::empty());
    assert(lc_eval(t.drop_last(), aux, inputs) == Some(0nat));
    assert(t.last() == (x, 1nat));
    if let Some(v) = var_value(x, aux, inputs) {
        assert(((0 + (1 * v) % scalar_modulus()) % scalar_modulus()) == v % scalar_modulus()) by {
            vstd::arithmetic::div_mod::lemma_mod_twice(v as int, scalar_modulus() as int);
        }
    }
}

/// The value of the combination `1 * x - 1 * y`.
pub proof fn lemma_eval_difference(x: Index, y: Index, minus_one: nat, aux: Seq<nat>, inputs: Seq<nat>)
    ensures
        lc_eval(seq![(x, 1nat), (y, minus_one)], aux, inputs) == match (
            var_value(x, aux, inputs),
            var_value(y, aux, inputs),
        ) {
            (Some(u), Some(v)) => Some(
                ((u % scalar_modulus() + (minus_one * v) % scalar_modulus()) % scalar_modulus()) as nat,
            ),
            _ => None::<nat>,
        },
{
    let t = seq![(x, 1nat), (y, minus_one)];
    assert(t.drop_last() =~= seq![(x, 1nat)]);
    lemma_eval_unit(x, aux, inputs);
}

/// A constraint system that records every variable with its value and every
/// constraint, and can check whether the assignment satisfies them.
pub struct RecordingSystem {
    aux: Vec<Scalar>,
    inputs: Vec<Scalar>,
    constraints: Vec<(LinearCombination, LinearCombination, LinearCombination)>,
    namespaces: Vec<String>,
    calls: Ghost<Seq<SystemCall>>,
}

/// The constraints as the terms of their three sides.
pub open spec fn constraint_views(
    s: Seq<(LinearCombination, LinearCombination, LinearCombination)>,
) -> Seq<ConstraintView> {
    s.map_values(
        |t: (LinearCombination, LinearCombination, LinearCombination)|
            (lc_value(t.0@), lc_value(t.1@), lc_value(t.2@)),
    )
}

impl RecordingSystem {
    /// The values of the auxiliary variables, in allocation order.
    pub closed spec fn aux_values(&self) -> Seq<nat> {
        values_of(self.aux@)
    }

    /// The values of the input variables, the constant one first.
    pub closed spec fn input_values(&self) -> Seq<nat> {
        values_of(self.inputs@)
    }

    /// The recorded constraints, each side as a linear combination.
    pub closed spec fn recorded(&self) -> Seq<(LinearCombination, LinearCombination, LinearCombination)> {
        self.constraints@
    }

    /// The names of the namespaces entered and not yet left, outermost first.
    pub closed spec fn namespaces(&self) -> Seq<Seq<char>> {
        self.namespaces@.map_values(|n: String| n@)
    }

    /// Whether every recorded constraint holds under the recorded values.
    pub open spec fn satisfied(&self) -> bool {
        forall|i: int|
            0 <= i < self.constraints().len() ==> constraint_holds(
                #[trigger] self.constraints()[i],
                self.aux_values(),
                self.input_values(),
            )
    }

    /// An empty system: no constraints, no auxiliary variables, and the one
    /// input variable that stands for the constant 1.
    pub fn new() -> (cs: RecordingSystem)
        ensures
            cs.constraints() == Seq::<ConstraintView>::empty(),
            cs.aux_values() == Seq::<nat>::empty(),
            cs.input_values() == seq![1nat],
            cs.num_aux() == 0,
            cs.num_inputs() == 1,
            cs.namespaces() == Seq::<Seq<char>>::empty(),
            cs.calls() == Seq::<SystemCall>::empty(),
    {
        let mut inputs: Vec<Scalar> = Vec::new();
        inputs.push(Scalar::one());
        let cs = RecordingSystem {
            aux: Vec::new(),
            inputs,
            constraints: Vec::new(),
            namespaces: Vec::new(),
            calls: Ghost(Seq::empty()),
        };
        assert(cs.input_values() =~= seq![1nat]);
        assert(cs.aux_values() =~= Seq::<nat>::empty());
        assert(cs.constraints() =~= Seq::<ConstraintView>::empty());
        assert(cs.namespaces() =~= Seq::<Seq<char>>::empty());
        cs
    }

    /// The number of recorded constraints.
    pub fn num_constraints(&self) -> (n: usize)
        ensures
            n == self.constraints().len(),
    {
        self.constraints.len()
    }

    /// The `i`-th recorded constraint, its three sides in order.
    pub fn constraint(&self, i: usize) -> (k: &(LinearCombination, LinearCombination, LinearCombination))
        requires
            i < self.constraints().len(),
        ensures
            *k == self.recorded()[i as int],
            (lc_value(k.0@), lc_value(k.1@), lc_value(k.2@)) == self.constraints()[i as int],
    {
        &self.constraints[i]
    }

    /// The auxiliary variables' values, in allocation order.
    pub fn aux(&self) -> (v: &[Scalar])
        ensures
            values_of(v@) == self.aux_values(),
            v@.len() == self.num_aux(),
    {
        self.aux.as_slice()
    }

    /// The input variables' values, the constant one first.
    pub fn inputs(&self) -> (v: &[Scalar])
        ensures
            values_of(v@) == self.input_values(),
            v@.len() == self.num_inputs(),
    {
        self.inputs.as_slice()
    }

    /// The names of the namespaces entered and not yet left, outermost first.
    pub fn namespace_path(&self) -> (p: &[String])
        ensures
            p@.map_values(|n: String| n@) == self.namespaces(),
    {
        self.namespaces.as_slice()
    }

    /// The value of a variable, where it has one.
    fn value_of(&self, idx: Index) -> (r: Option<Scalar>)
        ensures
            match r {
                Some(s) => var_value(idx, self.aux_values(), self.input_values()) == Some(s@),
                None => var_value(idx, self.aux_values(), self.input_values()) is None,
            },
    {
        match idx {
            Index::Aux(i) => if i < self.aux.len() {
                Some(self.aux[i])
            } else {
                None
            },
            Index::Input(i) => if i == 0 {
                Some(Scalar::one())
            } else if i < self.inputs.len() {
                Some(self.inputs[i])
            } else {
                None
            },
        }
    }

    /// The value of `lc` under the recorded values; `None` where a term names
    /// a variable that was never allocated.
    pub fn eval(&self, lc: &LinearCombination) -> (r: Option<Scalar>)
        ensures
            match r {
                Some(s) => lc_eval(lc_value(lc@), self.aux_values(), self.input_values()) == Some(s@),
                None => lc_eval(lc_value(lc@), self.aux_values(), self.input_values()) is None,
            },
    {
        let terms = lc.as_ref();
        let ghost whole = lc_value(lc@);
        let ghost aux = self.aux_values();
        let ghost inputs = self.input_values();
        let mut acc = Scalar::zero();
        let mut i: usize = 0;
        assert(whole.take(0) =~= Seq::<(Index, nat)>::empty());
        while i < terms.len()
            invariant
                terms@ == lc@,
                whole == lc_value(lc@),
                aux == self.aux_values(),
                inputs == self.input_values(),
                i <= terms@.len(),
                lc_eval(whole.take(i as int), aux, inputs) == Some(acc@),
            decreases terms@.len() - i,
        {
            let (var, coeff) = terms[i];
            assert(whole.take(i + 1).drop_last() =~= whole.take(i as int));
            assert(whole.take(i + 1).last() == (var.0, coeff@));
            match self.value_of(var.0) {
                Some(x) => {
                    let term = coeff.mul(&x);
                    acc = acc.add(&term);
                },
                None => {
                    proof {
                        lemma_prefix_without_value(whole, aux, inputs, i + 1);
                    }
                    return None;
                },
            }
            i = i + 1;
        }
        assert(whole.take(i as int) =~= whole);
        Some(acc)
    }

    /// Whether the `i`-th constraint holds under the recorded values.
    pub fn holds(&self, i: usize) -> (b: bool)
        requires
            i < self.constraints().len(),
        ensures
            b == constraint_holds(self.constraints()[i as int], self.aux_values(), self.input_values()),
    {
        let k = &self.constraints[i];
        let a = self.eval(&k.0);
        let b = self.eval(&k.1);
        let c = self.eval(&k.2);
        match (a, b, c) {
            (Some(a), Some(b), Some(c)) => {
                let ab = a.mul(&b);
                is_less_or_equal_than(&ab, &c) && is_less_or_equal_than(&c, &ab)
            },
            _ => false,
        }
    }

    /// Whether every recorded constraint holds under the recorded values.
    pub fn is_satisfied(&self) -> (b: bool)
        ensures
            b == self.satisfied(),
    {
        let n = self.constraints.len();
        let mut i: usize = 0;
        while i < n
            invariant
                n == self.constraints().len(),
                i <= n,
                forall|j: int|
                    0 <= j < i ==> constraint_holds(
                        #[trigger] self.constraints()[j],
                        self.aux_values(),
                        self.input_values(),
                    ),
            decreases n - i,
        {
            if !self.holds(i) {
                return false;
            }
            i = i + 1;
        }
        true
    }
}

impl ConstraintSystem for RecordingSystem {
    closed spec fn evaluates(&self) -> bool {
        true
    }

    closed spec fn calls(&self) -> Seq<SystemCall> {
        self.calls@
    }

    closed spec fn constraints(&self) -> Seq<ConstraintView> {
        constraint_views(self.constraints@)
    }

    closed spec fn num_aux(&self) -> nat {
        self.aux@.len()
    }

    closed spec fn num_inputs(&self) -> nat {
        self.inputs@.len()
    }

    closed spec fn aux_assignment(&self) -> Seq<Option<nat>> {
        self.aux@.map_values(|x: Scalar| Some(x@))
    }

    closed spec fn input_assignment(&self) -> Seq<Option<nat>> {
        self.inputs@.map_values(|x: Scalar| Some(x@))
    }

    fn alloc_aux<F>(&mut self, annotation: &str, f: F) -> (r: Result<Variable, SynthesisError>) where
        F: FnOnce() -> Result<Scalar, SynthesisError>,
    {
        self.calls = Ghost(self.calls@.push(SystemCall::AllocAux(annotation@)));
        match f() {
            Ok(value) => {
                let idx = self.aux.len();
                let ghost before = self.aux@;
                self.aux.push(value);
                assert(self.aux@.map_values(|x: Scalar| Some(x@)).drop_last() =~= before.map_values(
                    |x: Scalar| Some(x@),
                ));
                Ok(Variable::new_unchecked(Index::Aux(idx)))
            },
            Err(e) => Err(e),
        }
    }

    fn alloc_input<F>(&mut self, annotation: &str, f: F) -> (r: Result<Variable, SynthesisError>) where
        F: FnOnce() -> Result<Scalar, SynthesisError>,
    {
        self.calls = Ghost(self.calls@.push(SystemCall::AllocInput(annotation@)));
        match f() {
            Ok(value) => {
                let idx = self.inputs.len();
                let ghost before = self.inputs@;
                self.inputs.push(value);
                assert(self.inputs@.map_values(|x: Scalar| Some(x@)).drop_last()
                    =~= before.map_values(|x: Scalar| Some(x@)));
                Ok(Variable::new_unchecked(Index::Input(idx)))
            },
            Err(e) => Err(e),
        }
    }

    fn enforce<LA, LB, LC>(&mut self, annotation: &str, a: LA, b: LB, c: LC) where
        LA: FnOnce(LinearCombination) -> LinearCombination,
        LB: FnOnce(LinearCombination) -> LinearCombination,
        LC: FnOnce(LinearCombination) -> LinearCombination,
    {
        self.calls = Ghost(self.calls@.push(SystemCall::Enforce(annotation@)));
        let za = LinearCombination::zero();
        let zb = LinearCombination::zero();
        let zc = LinearCombination::zero();
        let la = a(za);
        let lb = b(zb);
        let lc = c(zc);
        let ghost before = self.constraints@;
        self.constraints.push((la, lb, lc));
        assert(constraint_views(self.constraints@) =~= constraint_views(before).push(
            (lc_value(la@), lc_value(lb@), lc_value(lc@)),
        ));
    }

    fn push_namespace(&mut self, name: &str)
        ensures
            final(self).namespaces() == old(self).namespaces().push(name@),
    {
        self.calls = Ghost(self.calls@.push(SystemCall::PushNamespace(name@)));
        let ghost before = self.namespaces@;
        let entry = name.to_string();
        self.namespaces.push(entry);
        assert(self.namespaces@.map_values(|n: String| n@) =~= before.map_values(|n: String| n@).push(
            name@,
        ));
    }

    fn pop_namespace(&mut self)
        ensures
            final(self).namespaces() == if old(self).namespaces().len() > 0 {
                old(self).namespaces().drop_last()
            } else {
                old(self).namespaces()
            },
    {
        self.calls = Ghost(self.calls@.push(SystemCall::PopNamespace));
        let ghost before = self.namespaces@;
        self.namespaces.pop();
        assert(self.namespaces@.map_values(|n: String| n@) =~= if before.len() > 0 {
            before.map_values(|n: String| n@).drop_last()
        } else {
            before.map_values(|n: String| n@)
        });
    }
}

} // verus!
