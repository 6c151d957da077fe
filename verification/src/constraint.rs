use vstd::prelude::*;

use crate::field::{scalar_modulus, Scalar};

verus! {

/// Represents the index of either an input variable or auxiliary variable.
#[derive(Clone, Copy, PartialEq, Eq, Structural, Debug)]
pub enum Index {
    Input(usize),
    Aux(usize),
}

/// Represents a variable in our constraint system.
#[derive(Clone, Copy, Debug)]
pub struct Variable(pub Index);

impl Variable {
    /// This constructs a variable with an arbitrary index.
    pub fn new_unchecked(idx: Index) -> (v: Variable)
        ensures
            v.0 == idx,
    {
        Variable(idx)
    }

    /// This returns the index underlying the variable.
    pub fn get_unchecked(&self) -> (idx: Index)
        ensures
            idx == self.0,
    {
        self.0
    }
}

/// A linear combination of variables with coefficients in the scalar field:
/// the terms `(variable, coefficient)` in the order they were added.
#[derive(Clone)]
pub struct LinearCombination(Vec<(Variable, Scalar)>);

impl View for LinearCombination {
    type V = Seq<(Variable, Scalar)>;

    closed spec fn view(&self) -> Seq<(Variable, Scalar)> {
        self.0@
    }
}

impl LinearCombination {
    /// The empty combination.
    pub fn zero() -> (lc: LinearCombination)
        ensures
            lc@ == Seq::<(Variable, Scalar)>::empty(),
    {
        LinearCombination(Vec::new())
    }

    /// The terms of the combination.
    pub fn as_ref(&self) -> (terms: &[(Variable, Scalar)])
        ensures
            terms@ == self@,
    {
        self.0.as_slice()
    }
}

/// The value of `-v` in the scalar field, for `v` in `[0, r)`.
pub open spec fn neg_value(v: nat) -> nat {
    ((scalar_modulus() - v) % (scalar_modulus() as int)) as nat
}

/// `terms` followed by the terms of `other` with every coefficient replaced
/// by `coeff(c)` (where `c` is the original coefficient's value).
pub open spec fn appended_with(
    terms: Seq<(Variable, Scalar)>,
    other: Seq<(Variable, Scalar)>,
    r: Seq<(Variable, Scalar)>,
    coeff: spec_fn(nat) -> nat,
) -> bool {
    &&& r.len() == terms.len() + other.len()
    &&& r.take(terms.len() as int) == terms
    &&& forall|i: int|
        0 <= i < other.len() ==> (#[trigger] r[terms.len() + i]).0 == other[i].0 && r[terms.len()
            + i].1@ == coeff(other[i].1@)
}

/// A coefficient of value `c` multiplied by `scale` (when given) and then
/// negated (when `negate`).
pub open spec fn mapped_coeff(c: nat, scale: Option<Scalar>, negate: bool) -> nat {
    let scaled = match scale {
        Some(k) => (c * k@) % scalar_modulus(),
        None => c,
    };
    if negate {
        neg_value(scaled)
    } else {
        scaled
    }
}

impl LinearCombination {
    /// Appends the term `coeff * var`.
    fn push_term(self, coeff: Scalar, var: Variable) -> (r: LinearCombination)
        ensures
            r@ == self@.push((var, coeff)),
    {
        let mut terms = self.0;
        terms.push((var, coeff));
        LinearCombination(terms)
    }

    /// Appends the terms of `other`, each coefficient first multiplied by
    /// `scale` (when given) and then negated (when `negate`).
    fn append_mapped(self, other: &LinearCombination, scale: Option<Scalar>, negate: bool) -> (r:
        LinearCombination)
        ensures
            appended_with(self@, other@, r@, |c: nat| mapped_coeff(c, scale, negate)),
    {
        let ghost start = self@;
        let mut acc = self;
        let n = other.0.len();
        let mut i: usize = 0;
        while i < n
            invariant
                n == other@.len(),
                i <= n,
                acc@.len() == start.len() + i,
                acc@.take(start.len() as int) == start,
                forall|j: int|
                    0 <= j < i ==> (#[trigger] acc@[start.len() + j]).0 == other@[j].0
                        && acc@[start.len() + j].1@ == mapped_coeff(other@[j].1@, scale, negate),
            decreases n - i,
        {
            let (var, c) = other.0[i];
            let tmp = match scale {
                Some(k) => c.mul(&k),
                None => c,
            };
            let term = if negate {
                tmp.neg()
            } else {
                tmp
            };
            let ghost scaled = match scale {
                Some(k) => (c@ * k@) % scalar_modulus(),
                None => c@,
            };
            assert(tmp@ == scaled);
            assert(term@ == (if negate {
                neg_value(scaled)
            } else {
                scaled
            }));
            assert(term@ == mapped_coeff(c@, scale, negate));
            assert(c == other@[i as int].1 && var == other@[i as int].0);
            let ghost before = acc@;
            acc = acc.push_term(term, var);
            assert(acc@.take(start.len() as int) =~= before.take(start.len() as int));
            assert(acc@[start.len() + i] == (var, term));
            assert forall|j: int| 0 <= j < i + 1 implies (#[trigger] acc@[start.len() + j]).0
                == other@[j].0 && acc@[start.len() + j].1@ == mapped_coeff(other@[j].1@, scale, negate) by {
                if j < i {
                    assert(acc@[start.len() + j] == before[start.len() + j]);
                }
            }
            i = i + 1;
        }
        acc
    }
}

impl std::ops::Add<(Scalar, Variable)> for LinearCombination {
    type Output = LinearCombination;

    /// `self + coeff * var`.
    fn add(self, rhs: (Scalar, Variable)) -> (r: LinearCombination)
        ensures
            r@ == self@.push((rhs.1, rhs.0)),
    {
        let (coeff, var) = rhs;
        self.push_term(coeff, var)
    }
}

impl std::ops::Sub<(Scalar, Variable)> for LinearCombination {
    type Output = LinearCombination;

    /// `self - coeff * var`: appends `var` with the negated coefficient.
    fn sub(self, rhs: (Scalar, Variable)) -> (r: LinearCombination)
        ensures
            r@.len() == self@.len() + 1,
            r@.drop_last() == self@,
            r@.last().0 == rhs.1,
            r@.last().1@ == neg_value(rhs.0@),
    {
        let (coeff, var) = rhs;
        let r = self.push_term(coeff.neg(), var);
        assert(r@.drop_last() =~= self@);
        r
    }
}

impl std::ops::Add<Variable> for LinearCombination {
    type Output = LinearCombination;

    /// `self + var`: appends `var` with coefficient one.
    fn add(self, other: Variable) -> (r: LinearCombination)
        ensures
            r@.len() == self@.len() + 1,
            r@.drop_last() == self@,
            r@.last().0 == other,
            r@.last().1@ == 1,
    {
        let r = self + (Scalar::one(), other);
        assert(r@.drop_last() =~= self@);
        r
    }
}

impl std::ops::Sub<Variable> for LinearCombination {
    type Output = LinearCombination;

    /// `self - var`: appends `var` with coefficient minus one.
    fn sub(self, other: Variable) -> (r: LinearCombination)
        ensures
            r@.len() == self@.len() + 1,
            r@.drop_last() == self@,
            r@.last().0 == other,
            r@.last().1@ == neg_value(1),
    {
        self - (Scalar::one(), other)
    }
}

impl<'a> std::ops::Add<&'a LinearCombination> for LinearCombination {
    type Output = LinearCombination;

    /// `self + other`: appends the terms of `other`.
    fn add(self, other: &'a LinearCombination) -> (r: LinearCombination)
        ensures
            r@ == self@ + other@,
    {
        let ghost start = self@;
        let mut acc = self;
        let n = other.0.len();
        let mut i: usize = 0;
        while i < n
            invariant
                n == other@.len(),
                i <= n,
                acc@ == start + other@.take(i as int),
            decreases n - i,
        {
            let (var, c) = other.0[i];
            acc = acc.push_term(c, var);
            assert(start + other@.take(i + 1) =~= (start + other@.take(i as int)).push(other@[i as int]));
            i = i + 1;
        }
        assert(other@.take(n as int) =~= other@);
        acc
    }
}

impl<'a> std::ops::Sub<&'a LinearCombination> for LinearCombination {
    type Output = LinearCombination;

    /// `self - other`: appends the terms of `other` with negated coefficients.
    fn sub(self, other: &'a LinearCombination) -> (r: LinearCombination)
        ensures
            appended_with(self@, other@, r@, |c: nat| neg_value(c)),
    {
        self.append_mapped(other, None, true)
    }
}

impl<'a> std::ops::Add<(Scalar, &'a LinearCombination)> for LinearCombination {
    type Output = LinearCombination;

    /// `self + coeff * other`: appends the terms of `other`, each coefficient
    /// multiplied by `coeff`.
    fn add(self, rhs: (Scalar, &'a LinearCombination)) -> (r: LinearCombination)
        ensures
            appended_with(self@, rhs.1@, r@, |c: nat| (c * rhs.0@) % scalar_modulus()),
    {
        let (coeff, other) = rhs;
        self.append_mapped(other, Some(coeff), false)
    }
}

impl<'a> std::ops::Sub<(Scalar, &'a LinearCombination)> for LinearCombination {
    type Output = LinearCombination;

    /// `self - coeff * other`: appends the terms of `other`, each coefficient
    /// multiplied by `coeff` and negated.
    fn sub(self, rhs: (Scalar, &'a LinearCombination)) -> (r: LinearCombination)
        ensures
            appended_with(self@, rhs.1@, r@, |c: nat| neg_value((c * rhs.0@) % scalar_modulus())),
    {
        let (coeff, other) = rhs;
        self.append_mapped(other, Some(coeff), true)
    }
}

// The operators above state their results in their own `ensures`; the
// generic operator specification of vstd is not used for this type.
impl vstd::std_specs::ops::AddSpecImpl<(Scalar, Variable)> for LinearCombination {
    open spec fn obeys_add_spec() -> bool {
        false
    }

    open spec fn add_req(self, rhs: (Scalar, Variable)) -> bool {
        true
    }

    open spec fn add_spec(self, rhs: (Scalar, Variable)) -> LinearCombination {
        vstd::pervasive::arbitrary()
    }
}

impl vstd::std_specs::ops::AddSpecImpl<Variable> for LinearCombination {
    open spec fn obeys_add_spec() -> bool {
        false
    }

    open spec fn add_req(self, rhs: Variable) -> bool {
        true
    }

    open spec fn add_spec(self, rhs: Variable) -> LinearCombination {
        vstd::pervasive::arbitrary()
    }
}

impl<'a> vstd::std_specs::ops::AddSpecImpl<&'a LinearCombination> for LinearCombination {
    open spec fn obeys_add_spec() -> bool {
        false
    }

    open spec fn add_req(self, rhs: &'a LinearCombination) -> bool {
        true
    }

    open spec fn add_spec(self, rhs: &'a LinearCombination) -> LinearCombination {
        vstd::pervasive::arbitrary()
    }
}

impl<'a> vstd::std_specs::ops::AddSpecImpl<(Scalar, &'a LinearCombination)> for LinearCombination {
    open spec fn obeys_add_spec() -> bool {
        false
    }

    open spec fn add_req(self, rhs: (Scalar, &'a LinearCombination)) -> bool {
        true
    }

    open spec fn add_spec(self, rhs: (Scalar, &'a LinearCombination)) -> LinearCombination {
        vstd::pervasive::arbitrary()
    }
}

impl vstd::std_specs::ops::SubSpecImpl<(Scalar, Variable)> for LinearCombination {
    open spec fn obeys_sub_spec() -> bool {
        false
    }

    open spec fn sub_req(self, rhs: (Scalar, Variable)) -> bool {
        true
    }

    open spec fn sub_spec(self, rhs: (Scalar, Variable)) -> LinearCombination {
        vstd::pervasive::arbitrary()
    }
}

impl vstd::std_specs::ops::SubSpecImpl<Variable> for LinearCombination {
    open spec fn obeys_sub_spec() -> bool {
        false
    }

    open spec fn sub_req(self, rhs: Variable) -> bool {
        true
    }

    open spec fn sub_spec(self, rhs: Variable) -> LinearCombination {
        vstd::pervasive::arbitrary()
    }
}

impl<'a> vstd::std_specs::ops::SubSpecImpl<&'a LinearCombination> for LinearCombination {
    open spec fn obeys_sub_spec() -> bool {
        false
    }

    open spec fn sub_req(self, rhs: &'a LinearCombination) -> bool {
        true
    }

    open spec fn sub_spec(self, rhs: &'a LinearCombination) -> LinearCombination {
        vstd::pervasive::arbitrary()
    }
}

impl<'a> vstd::std_specs::ops::SubSpecImpl<(Scalar, &'a LinearCombination)> for LinearCombination {
    open spec fn obeys_sub_spec() -> bool {
        false
    }

    open spec fn sub_req(self, rhs: (Scalar, &'a LinearCombination)) -> bool {
        true
    }

    open spec fn sub_spec(self, rhs: (Scalar, &'a LinearCombination)) -> LinearCombination {
        vstd::pervasive::arbitrary()
    }
}

/// Errors during synthesis of a circuit into a constraint system.
#[derive(Debug)]
pub enum SynthesisError {
    /// During synthesis, we lacked knowledge of a variable assignment.
    AssignmentMissing,
    /// During synthesis, we divided by zero.
    DivisionByZero,
    /// During synthesis, we constructed an unsatisfiable constraint system.
    Unsatisfiable,
    /// During synthesis, our polynomials ended up being too high of degree
    PolynomialDegreeTooLarge,
    /// During proof generation, we encountered an identity in the CRS
    UnexpectedIdentity,
    /// During proof generation, we encountered an I/O error with the CRS
    IoError,
    /// During CRS generation, we observed an unconstrained auxiliary variable
    UnconstrainedVariable,
}

impl SynthesisError {
    /// The text the error displays as.
    pub fn message(&self) -> (m: &'static str)
        ensures
            m@ == synthesis_error_message(*self),
    {
        match *self {
            SynthesisError::AssignmentMissing => "an assignment for a variable could not be computed.无法计算变量的赋值",
            SynthesisError::DivisionByZero => "division by zero.除以零",
            SynthesisError::Unsatisfiable => "unsatisfiable constraint system.约束系统不可满足",
            SynthesisError::PolynomialDegreeTooLarge => "polynomial degree is too large.多项式次数过大",
            SynthesisError::UnexpectedIdentity => "encountered an identity element in the CRS.在CRS中遇到了标识元素",
            SynthesisError::IoError => "encountered an I/O error.遇到了I/O错误",
            SynthesisError::UnconstrainedVariable => "auxiliary variable was unconstrained.辅助变量未受约束",
        }
    }
}

/// The text each synthesis error displays as.
pub open spec fn synthesis_error_message(e: SynthesisError) -> Seq<char> {
    match e {
        SynthesisError::AssignmentMissing => "an assignment for a variable could not be computed.无法计算变量的赋值"@,
        SynthesisError::DivisionByZero => "division by zero.除以零"@,
        SynthesisError::Unsatisfiable => "unsatisfiable constraint system.约束系统不可满足"@,
        SynthesisError::PolynomialDegreeTooLarge => "polynomial degree is too large.多项式次数过大"@,
        SynthesisError::UnexpectedIdentity => "encountered an identity element in the CRS.在CRS中遇到了标识元素"@,
        SynthesisError::IoError => "encountered an I/O error.遇到了I/O错误"@,
        SynthesisError::UnconstrainedVariable => "auxiliary variable was unconstrained.辅助变量未受约束"@,
    }
}

/// An error during verification.
#[derive(Debug, Clone)]
pub enum VerificationError {
    /// Verification was attempted with a malformed verifying key.
    InvalidVerifyingKey,
    /// Proof verification failed.
    InvalidProof,
}

impl VerificationError {
    /// The text the error displays as.
    pub fn message(&self) -> (m: &'static str)
        ensures
            m@ == verification_error_message(*self),
    {
        match *self {
            VerificationError::InvalidVerifyingKey => "malformed verifying key验证密钥格式错误",
            VerificationError::InvalidProof => "proof verification failed证明验证失败",
        }
    }
}

/// The text each verification error displays as.
pub open spec fn verification_error_message(e: VerificationError) -> Seq<char> {
    match e {
        VerificationError::InvalidVerifyingKey => "malformed verifying key验证密钥格式错误"@,
        VerificationError::InvalidProof => "proof verification failed证明验证失败"@,
    }
}

/// The terms of a linear combination as (variable index, coefficient value).
pub open spec fn lc_value(s: Seq<(Variable, Scalar)>) -> Seq<(Index, nat)> {
    s.map_values(|t: (Variable, Scalar)| (t.0.0, t.1@))
}

/// A rank-1 constraint `A * B = C`, each side as the terms of its linear combination.
pub type ConstraintView = (Seq<(Index, nat)>, Seq<(Index, nat)>, Seq<(Index, nat)>);

/// A circuit that can be synthesized into a rank-1 constraint system.
pub trait Circuit: Sized {
    /// Whether the circuit holds what synthesis needs (its keys).
    spec fn ready(&self) -> bool;

    /// Synthesize the circuit into a rank-1 quadratic constraint system.
    fn synthesize<CS: ConstraintSystem>(self, cs: &mut CS) -> (r: Result<(), SynthesisError>)
        requires
            self.ready(),
    ;
}

/// A call a constraint system receives, with the annotation it was given.
pub enum SystemCall {
    AllocAux(Seq<char>),
    AllocInput(Seq<char>),
    Enforce(Seq<char>),
    PushNamespace(Seq<char>),
    PopNamespace,
}

/// A constraint system which can have new variables allocated and
/// constraints between them formed.
pub trait ConstraintSystem: Sized {
    /// The calls received so far, in order, with their annotations.
    spec fn calls(&self) -> Seq<SystemCall>;

    /// The constraints enforced so far, in order.
    spec fn constraints(&self) -> Seq<ConstraintView>;

    /// How many auxiliary (private) variables have been allocated.
    spec fn num_aux(&self) -> nat;

    /// How many input (public) variables have been allocated, the constant
    /// one included.
    spec fn num_inputs(&self) -> nat;

    /// The values assigned to the auxiliary variables, where this system
    /// computes them (`None` where it does not).
    spec fn aux_assignment(&self) -> Seq<Option<nat>>;

    /// The values assigned to the input variables, the constant one first,
    /// where this system computes them (`None` where it does not).
    spec fn input_assignment(&self) -> Seq<Option<nat>>;

    /// Whether this system asks the value closures for the values it
    /// allocates (a system that only records the shape of a circuit does not).
    spec fn evaluates(&self) -> bool;

    /// Return the "one" input variable.
    fn one() -> (v: Variable)
        ensures
            v.0 == Index::Input(0),
    {
        Variable::new_unchecked(Index::Input(0))
    }

    /// Allocate a private variable. `f` gives its value, for systems that
    /// compute values; its error is passed on.
    fn alloc_aux<F>(&mut self, annotation: &str, f: F) -> (r: Result<Variable, SynthesisError>) where
        F: FnOnce() -> Result<Scalar, SynthesisError>,
        requires
            f.requires(()),
        ensures
            final(self).calls() == old(self).calls().push(SystemCall::AllocAux(annotation@)),
            final(self).evaluates() == old(self).evaluates(),
            !old(self).evaluates() ==> r is Ok,
            old(self).evaluates() && r is Ok ==> final(self).aux_assignment().last() is Some,
            final(self).constraints() == old(self).constraints(),
            final(self).num_inputs() == old(self).num_inputs(),
            final(self).input_assignment() == old(self).input_assignment(),
            match r {
                Ok(v) => {
                    &&& v.0 == Index::Aux(old(self).num_aux() as usize)
                    &&& final(self).num_aux() == old(self).num_aux() + 1
                    &&& final(self).aux_assignment().len() == old(self).aux_assignment().len() + 1
                    &&& final(self).aux_assignment().drop_last() == old(self).aux_assignment()
                    &&& final(self).aux_assignment().last() matches Some(x) ==> exists|s: Scalar|
                        f.ensures((), Ok::<Scalar, SynthesisError>(s)) && #[trigger] s@ == x
                },
                Err(e) => f.ensures((), Err::<Scalar, SynthesisError>(e)),
            },
    ;

    /// Allocate a public variable. `f` gives its value, for systems that
    /// compute values; its error is passed on.
    fn alloc_input<F>(&mut self, annotation: &str, f: F) -> (r: Result<Variable, SynthesisError>) where
        F: FnOnce() -> Result<Scalar, SynthesisError>,
        requires
            f.requires(()),
        ensures
            final(self).calls() == old(self).calls().push(SystemCall::AllocInput(annotation@)),
            final(self).evaluates() == old(self).evaluates(),
            !old(self).evaluates() ==> r is Ok,
            old(self).evaluates() && r is Ok ==> final(self).input_assignment().last() is Some,
            final(self).constraints() == old(self).constraints(),
            final(self).num_aux() == old(self).num_aux(),
            final(self).aux_assignment() == old(self).aux_assignment(),
            match r {
                Ok(v) => {
                    &&& v.0 == Index::Input(old(self).num_inputs() as usize)
                    &&& final(self).num_inputs() == old(self).num_inputs() + 1
                    &&& final(self).input_assignment().len() == old(self).input_assignment().len() + 1
                    &&& final(self).input_assignment().drop_last() == old(self).input_assignment()
                    &&& final(self).input_assignment().last() matches Some(x) ==> exists|s: Scalar|
                        f.ensures((), Ok::<Scalar, SynthesisError>(s)) && #[trigger] s@ == x
                },
                Err(e) => f.ensures((), Err::<Scalar, SynthesisError>(e)),
            },
    ;

    /// Enforce that `A * B = C`, where `A`, `B` and `C` are what `a`, `b` and
    /// `c` make of an empty linear combination.
    fn enforce<LA, LB, LC>(&mut self, annotation: &str, a: LA, b: LB, c: LC) where
        LA: FnOnce(LinearCombination) -> LinearCombination,
        LB: FnOnce(LinearCombination) -> LinearCombination,
        LC: FnOnce(LinearCombination) -> LinearCombination,
        requires
            forall|z: LinearCombination| a.requires((z,)),
            forall|z: LinearCombination| b.requires((z,)),
            forall|z: LinearCombination| c.requires((z,)),
        ensures
            final(self).calls() == old(self).calls().push(SystemCall::Enforce(annotation@)),
            final(self).evaluates() == old(self).evaluates(),
            final(self).num_aux() == old(self).num_aux(),
            final(self).num_inputs() == old(self).num_inputs(),
            final(self).aux_assignment() == old(self).aux_assignment(),
            final(self).input_assignment() == old(self).input_assignment(),
            exists|
                za: LinearCombination,
                la: LinearCombination,
                zb: LinearCombination,
                lb: LinearCombination,
                zc: LinearCombination,
                lc: LinearCombination,
            |
                #![trigger a.ensures((za,), la), b.ensures((zb,), lb), c.ensures((zc,), lc)]
                za@.len() == 0 && zb@.len() == 0 && zc@.len() == 0 && a.ensures((za,), la)
                    && b.ensures((zb,), lb) && c.ensures((zc,), lc)
                    && final(self).constraints() == old(self).constraints().push(
                    (lc_value(la@), lc_value(lb@), lc_value(lc@)),
                ),
    ;

    /// Create a new (sub)namespace and enter into it.
    fn push_namespace(&mut self, name: &str)
        ensures
            final(self).calls() == old(self).calls().push(SystemCall::PushNamespace(name@)),
            final(self).evaluates() == old(self).evaluates(),
            final(self).constraints() == old(self).constraints(),
            final(self).num_aux() == old(self).num_aux(),
            final(self).num_inputs() == old(self).num_inputs(),
            final(self).aux_assignment() == old(self).aux_assignment(),
            final(self).input_assignment() == old(self).input_assignment(),
    ;

    /// Exit out of the existing namespace.
    fn pop_namespace(&mut self)
        ensures
            final(self).calls() == old(self).calls().push(SystemCall::PopNamespace),
            final(self).evaluates() == old(self).evaluates(),
            final(self).constraints() == old(self).constraints(),
            final(self).num_aux() == old(self).num_aux(),
            final(self).num_inputs() == old(self).num_inputs(),
            final(self).aux_assignment() == old(self).aux_assignment(),
            final(self).input_assignment() == old(self).input_assignment(),
    ;
}

} // verus!
