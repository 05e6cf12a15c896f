//! The rank-1 constraint system: variables, linear combinations, constraints
//! and the accumulating container a circuit populates during synthesis.

use vstd::prelude::*;

use crate::field::FieldOps;

verus! {

/// A handle identifying one slot of a constraint system.
///
/// The role of a variable is fixed when it is allocated and its index is the
/// number of variables of that role allocated before it, so within one
/// constraint system no two allocation calls return the same handle.
#[derive(Clone, Copy, PartialEq, Eq, Structural, Debug)]
pub enum Variable {
    /// The implicit constant fixed to the field's multiplicative identity.
    One,
    /// A public-input variable; its value is part of the public statement.
    Input(usize),
    /// A witness variable, private to the prover.
    Witness(usize),
}

/// Why a synthesis run aborted.
#[derive(Clone, Copy, PartialEq, Eq, Structural, Debug)]
pub enum SynthesisError {
    /// A value was required while assigning the witness, but the circuit
    /// reported it absent.
    AssignmentMissing,
    /// A linear combination referenced a variable the constraint system never
    /// allocated.  The container prevents this by construction, so its own
    /// operations never return it; the taxonomy stays open for backends.
    MalformedLinearCombination,
}

/// Whether a synthesis run carries concrete values.
///
/// During parameter generation no values exist at all; during proving every
/// allocation must come with a value.
#[derive(Clone, Copy, PartialEq, Eq, Structural, Debug)]
pub enum Mode {
    /// Parameter generation: variables are allocated, values are skipped.
    Setup,
    /// Proof generation: every allocation resolves a concrete value.
    Prove,
}

/// A weighted sum of variables, `sum coefficient_i * variable_i`.
///
/// Keys are unique; the order of the terms is irrelevant to the semantics but
/// deterministic, so that constraint ordering is reproducible.
pub struct LinearCombination<F> {
    pub terms: Vec<(Variable, F)>,
}

/// One constraint, asserting `a * b = c` under the witness assignment.
pub struct Constraint<F> {
    pub a: LinearCombination<F>,
    pub b: LinearCombination<F>,
    pub c: LinearCombination<F>,
}

/// No variable occurs twice among the terms.
pub open spec fn keys_unique<F>(terms: Seq<(Variable, F)>) -> bool {
    forall|i: int, j: int|
        0 <= i < j < terms.len() ==> (#[trigger] terms[i]).0 != (#[trigger] terms[j]).0
}

/// The coefficient a term sequence gives a variable, if any.
pub open spec fn coeff_lookup<F>(terms: Seq<(Variable, F)>, v: Variable) -> Option<F>
    decreases terms.len(),
{
    if terms.len() == 0 {
        None
    } else if terms.last().0 == v {
        Some(terms.last().1)
    } else {
        coeff_lookup(terms.drop_last(), v)
    }
}

/// How combining two linear combinations treats one variable: the union of
/// the variable sets, summing coefficients shared by both sides.
pub open spec fn combined_coeff<F: FieldOps>(a: Option<F>, b: Option<F>) -> Option<F> {
    match (a, b) {
        (Some(x), Some(y)) => Some(F::sp_add(x, y)),
        (Some(x), None) => Some(x),
        (None, Some(y)) => Some(y),
        (None, None) => None,
    }
}

/// A variable has a coefficient exactly when it occurs among the terms.
pub proof fn lemma_lookup_occurs<F>(terms: Seq<(Variable, F)>, v: Variable)
    ensures
        coeff_lookup(terms, v).is_some() <==> exists|i: int|
            0 <= i < terms.len() && (#[trigger] terms[i]).0 == v,
    decreases terms.len(),
{
    if terms.len() > 0 {
        lemma_lookup_occurs(terms.drop_last(), v);
        if terms.last().0 == v {
            assert(terms[terms.len() - 1].0 == v);
        } else if coeff_lookup(terms.drop_last(), v).is_some() {
            let i = choose|i: int|
                0 <= i < terms.drop_last().len() && (#[trigger] terms.drop_last()[i]).0 == v;
            assert(terms[i].0 == v);
        } else {
            assert forall|i: int| 0 <= i < terms.len() implies (#[trigger] terms[i]).0 != v by {
                if i < terms.len() - 1 {
                    assert(terms.drop_last()[i].0 != v);
                }
            }
        }
    }
}

/// With unique keys, the coefficient of a variable occurring at index `i` is
/// the coefficient stored there.
pub proof fn lemma_lookup_at_index<F>(terms: Seq<(Variable, F)>, i: int)
    requires
        keys_unique(terms),
        0 <= i < terms.len(),
    ensures
        coeff_lookup(terms, terms[i].0) == Some(terms[i].1),
    decreases terms.len(),
{
    if i == terms.len() - 1 {
        assert(terms.last().0 == terms[i].0);
    } else {
        assert(terms.last().0 != terms[i].0);
        assert(keys_unique(terms.drop_last()));
        assert(terms.drop_last()[i] == terms[i]);
        lemma_lookup_at_index(terms.drop_last(), i);
    }
}

/// Appending a term sets that variable's coefficient and leaves every other
/// variable's coefficient unchanged.
pub proof fn lemma_lookup_push<F>(terms: Seq<(Variable, F)>, v: Variable, c: F)
    ensures
        coeff_lookup(terms.push((v, c)), v) == Some(c),
        forall|u: Variable| u != v ==> #[trigger] coeff_lookup(terms.push((v, c)), u)
            == coeff_lookup(terms, u),
{
    let pushed = terms.push((v, c));
    assert(pushed.last() == (v, c));
    assert(pushed.drop_last() =~= terms);
}

/// What combining leaves at one position of the left-hand side: the shared
/// coefficients summed, the others kept.
pub open spec fn merged_entry<F: FieldOps>(t: (Variable, F), other: Seq<(Variable, F)>) -> (
    Variable,
    F,
) {
    match coeff_lookup(other, t.0) {
        Some(d) => (t.0, F::sp_add(t.1, d)),
        None => t,
    }
}

/// Appending a fresh variable keeps the keys unique.
pub proof fn lemma_unique_push<F>(terms: Seq<(Variable, F)>, v: Variable, c: F)
    requires
        keys_unique(terms),
        coeff_lookup(terms, v).is_none(),
    ensures
        keys_unique(terms.push((v, c))),
{
    lemma_lookup_occurs(terms, v);
    let pushed = terms.push((v, c));
    assert forall|i: int, j: int| 0 <= i < j < pushed.len() implies (#[trigger] pushed[i]).0 != (
    #[trigger] pushed[j]).0 by {
        if j == terms.len() {
            assert(pushed[i] == terms[i]);
        }
    }
}

impl<F: FieldOps> LinearCombination<F> {
    /// The linear combination is well formed: no variable occurs twice.
    pub open spec fn wf(self) -> bool {
        keys_unique(self.terms@)
    }

    /// The empty linear combination.
    pub fn new() -> (r: Self)
        ensures
            r.terms@ == Seq::<(Variable, F)>::empty(),
            r.wf(),
    {
        LinearCombination { terms: Vec::new() }
    }

    /// A single variable with coefficient one, the usual starting point when
    /// a circuit builds a constraint.
    pub fn from_variable(v: Variable) -> (r: Self)
        ensures
            r.terms@ =~= seq![(v, F::sp_one())],
            r.wf(),
    {
        let mut terms: Vec<(Variable, F)> = Vec::new();
        terms.push((v, F::field_one()));
        LinearCombination { terms }
    }

    /// The coefficient this combination gives a variable, if the variable
    /// occurs in it.
    pub fn coeff_of(&self, v: Variable) -> (r: Option<F>)
        requires
            self.wf(),
        ensures
            r == coeff_lookup(self.terms@, v),
    {
        let n: usize = self.terms.len();
        let mut k: usize = 0;
        while k < n
            invariant
                self.wf(),
                n == self.terms@.len(),
                0 <= k <= n,
                forall|t: int| 0 <= t < k ==> (#[trigger] self.terms@[t]).0 != v,
            decreases n - k,
        {
            if self.terms[k].0 == v {
                proof {
                    lemma_lookup_at_index(self.terms@, k as int);
                }
                return Some(self.terms[k].1);
            }
            k = k + 1;
        }
        proof {
            lemma_lookup_occurs(self.terms@, v);
        }
        None
    }

    /// The sum of two linear combinations: the union of their variable sets,
    /// summing the coefficients of variables shared by both sides.  The terms
    /// of `self` come first, in their order, then the variables only `other`
    /// holds, in theirs, so the result is deterministic.
    pub fn combine(&self, other: &Self) -> (r: Self)
        requires
            self.wf(),
            other.wf(),
        ensures
            r.wf(),
            forall|v: Variable| #[trigger] coeff_lookup(r.terms@, v) == combined_coeff::<F>(
                coeff_lookup(self.terms@, v),
                coeff_lookup(other.terms@, v),
            ),
    {
        let n: usize = self.terms.len();
        let m: usize = other.terms.len();
        let mut res: Vec<(Variable, F)> = Vec::new();
        let mut i: usize = 0;
        while i < n
            invariant
                self.wf(),
                other.wf(),
                n == self.terms@.len(),
                0 <= i <= n,
                res@.len() == i,
                forall|t: int| 0 <= t < i ==> #[trigger] res@[t] == merged_entry::<F>(
                    self.terms@[t],
                    other.terms@,
                ),
            decreases n - i,
        {
            let (v, c) = self.terms[i];
            let summed: F = match other.coeff_of(v) {
                Some(d) => c.field_add(&d),
                None => c,
            };
            res.push((v, summed));
            i = i + 1;
        }
        proof {
            assert forall|t: int| 0 <= t < res@.len() implies (#[trigger] res@[t]).0
                == self.terms@[t].0 by {}
            assert(keys_unique(res@));
            assert forall|v: Variable|
                coeff_lookup(self.terms@, v).is_some() implies #[trigger] coeff_lookup(res@, v)
                == combined_coeff::<F>(
                coeff_lookup(self.terms@, v),
                coeff_lookup(other.terms@, v),
            ) by {
                lemma_lookup_occurs(self.terms@, v);
                let t = choose|t: int|
                    0 <= t < self.terms@.len() && (#[trigger] self.terms@[t]).0 == v;
                lemma_lookup_at_index(self.terms@, t);
                lemma_lookup_at_index(res@, t);
            }
            assert forall|v: Variable|
                coeff_lookup(self.terms@, v).is_none() implies #[trigger] coeff_lookup(res@, v)
                == coeff_lookup(other.terms@.subrange(0, 0), v) by {
                lemma_lookup_occurs(self.terms@, v);
                lemma_lookup_occurs(res@, v);
                assert(other.terms@.subrange(0, 0).len() == 0);
            }
        }
        let mut j: usize = 0;
        while j < m
            invariant
                self.wf(),
                other.wf(),
                m == other.terms@.len(),
                0 <= j <= m,
                keys_unique(res@),
                forall|v: Variable|
                    coeff_lookup(self.terms@, v).is_some() ==> #[trigger] coeff_lookup(res@, v)
                        == combined_coeff::<F>(
                        coeff_lookup(self.terms@, v),
                        coeff_lookup(other.terms@, v),
                    ),
                forall|v: Variable|
                    coeff_lookup(self.terms@, v).is_none() ==> #[trigger] coeff_lookup(res@, v)
                        == coeff_lookup(other.terms@.subrange(0, j as int), v),
            decreases m - j,
        {
            let (v, d) = other.terms[j];
            let ghost res_pre = res@;
            let ghost prefix = other.terms@.subrange(0, j as int);
            proof {
                lemma_lookup_at_index(other.terms@, j as int);
                assert(other.terms@.subrange(0, j as int + 1) =~= prefix.push((v, d)));
                lemma_lookup_push(prefix, v, d);
                // the key `v` is new to the prefix, since keys are unique in `other`
                lemma_lookup_occurs(prefix, v);
                assert forall|t: int| 0 <= t < prefix.len() implies (#[trigger] prefix[t]).0
                    != v by {
                    assert(prefix[t] == other.terms@[t]);
                }
                assert(coeff_lookup(prefix, v).is_none());
            }
            match self.coeff_of(v) {
                Some(_) => {
                    proof {
                        assert forall|u: Variable|
                            coeff_lookup(self.terms@, u).is_none() implies #[trigger] coeff_lookup(
                            res@,
                            u,
                        ) == coeff_lookup(other.terms@.subrange(0, j as int + 1), u) by {
                            assert(u != v);
                        }
                    }
                },
                None => {
                    proof {
                        assert(coeff_lookup(res_pre, v) == coeff_lookup(prefix, v));
                        lemma_unique_push(res_pre, v, d);
                        lemma_lookup_push(res_pre, v, d);
                    }
                    res.push((v, d));
                    proof {
                        assert forall|u: Variable|
                            coeff_lookup(self.terms@, u).is_none() implies #[trigger] coeff_lookup(
                            res@,
                            u,
                        ) == coeff_lookup(other.terms@.subrange(0, j as int + 1), u) by {
                            if u != v {
                                assert(coeff_lookup(res@, u) == coeff_lookup(res_pre, u));
                            }
                        }
                        assert forall|u: Variable|
                            coeff_lookup(self.terms@, u).is_some() implies #[trigger] coeff_lookup(
                            res@,
                            u,
                        ) == combined_coeff::<F>(
                            coeff_lookup(self.terms@, u),
                            coeff_lookup(other.terms@, u),
                        ) by {
                            assert(u != v);
                            assert(coeff_lookup(res@, u) == coeff_lookup(res_pre, u));
                        }
                    }
                },
            }
            j = j + 1;
        }
        proof {
            assert(other.terms@.subrange(0, m as int) =~= other.terms@);
            assert forall|v: Variable| #[trigger] coeff_lookup(res@, v) == combined_coeff::<F>(
                coeff_lookup(self.terms@, v),
                coeff_lookup(other.terms@, v),
            ) by {}
        }
        LinearCombination { terms: res }
    }

    /// Scalar multiplication: every coefficient multiplied by `k`, the
    /// variables and their order kept.
    pub fn scale(&self, k: &F) -> (r: Self)
        requires
            self.wf(),
        ensures
            r.wf(),
            r.terms@.len() == self.terms@.len(),
            forall|t: int|
                0 <= t < self.terms@.len() ==> #[trigger] r.terms@[t] == (
                    self.terms@[t].0,
                    F::sp_mul(*k, self.terms@[t].1),
                ),
    {
        let n: usize = self.terms.len();
        let mut res: Vec<(Variable, F)> = Vec::new();
        let mut i: usize = 0;
        while i < n
            invariant
                self.wf(),
                n == self.terms@.len(),
                0 <= i <= n,
                res@.len() == i,
                forall|t: int|
                    0 <= t < i ==> #[trigger] res@[t] == (
                        self.terms@[t].0,
                        F::sp_mul(*k, self.terms@[t].1),
                    ),
            decreases n - i,
        {
            let (v, c) = self.terms[i];
            res.push((v, k.field_mul(&c)));
            i = i + 1;
        }
        proof {
            assert forall|t: int| 0 <= t < res@.len() implies (#[trigger] res@[t]).0
                == self.terms@[t].0 by {}
            assert(keys_unique(res@));
        }
        LinearCombination { terms: res }
    }
}

/// The variable is one the constraint system with the given counts has
/// allocated (or the implicit constant).
pub open spec fn var_valid(v: Variable, n_witness: nat, n_inputs: nat) -> bool {
    match v {
        Variable::One => true,
        Variable::Input(i) => i < n_inputs,
        Variable::Witness(i) => i < n_witness,
    }
}

/// Every variable of the term sequence is allocated.
pub open spec fn lc_valid<F>(terms: Seq<(Variable, F)>, n_witness: nat, n_inputs: nat) -> bool {
    forall|i: int|
        0 <= i < terms.len() ==> var_valid((#[trigger] terms[i]).0, n_witness, n_inputs)
}

/// The accumulating constraint system a circuit populates.
///
/// Created empty by a driver, mutated only through allocation and
/// enforcement during synthesis, then read by the proving backend.  Witness
/// and public-input slots are `None` exactly in setup mode, where no values
/// exist; the index of a slot is the index part of its variable handle.
pub struct ConstraintSystem<F> {
    pub mode: Mode,
    pub witness: Vec<Option<F>>,
    pub inputs: Vec<Option<F>>,
    pub constraints: Vec<Constraint<F>>,
}

impl<F: FieldOps> ConstraintSystem<F> {
    /// The number of witness variables allocated so far.
    pub open spec fn num_witness(self) -> nat {
        self.witness@.len()
    }

    /// The number of public-input variables allocated so far.
    pub open spec fn num_inputs(self) -> nat {
        self.inputs@.len()
    }

    /// Well-formedness: in setup mode no slot holds a value, in proving mode
    /// every slot holds a canonical value; every stored constraint is made of
    /// well-formed linear combinations over allocated variables.
    pub open spec fn wf(self) -> bool {
        &&& (self.mode == Mode::Setup ==> forall|i: int|
            0 <= i < self.witness@.len() ==> (#[trigger] self.witness@[i]).is_none())
        &&& (self.mode == Mode::Setup ==> forall|i: int|
            0 <= i < self.inputs@.len() ==> (#[trigger] self.inputs@[i]).is_none())
        &&& (self.mode == Mode::Prove ==> forall|i: int|
            0 <= i < self.witness@.len() ==> (#[trigger] self.witness@[i]).is_some())
        &&& (self.mode == Mode::Prove ==> forall|i: int|
            0 <= i < self.inputs@.len() ==> (#[trigger] self.inputs@[i]).is_some())
        &&& (forall|k: int|
            0 <= k < self.constraints@.len() ==> (#[trigger] self.constraints@[k]).wf(
                self.num_witness(),
                self.num_inputs(),
            ))
    }

    /// An empty constraint system in the given mode.
    pub fn new(mode: Mode) -> (r: Self)
        ensures
            r.mode == mode,
            r.witness@.len() == 0,
            r.inputs@.len() == 0,
            r.constraints@.len() == 0,
            r.wf(),
    {
        ConstraintSystem { mode, witness: Vec::new(), inputs: Vec::new(), constraints: Vec::new() }
    }

    /// The constant-one variable, available in every constraint system to
    /// express additive constants.
    pub fn one(&self) -> (v: Variable)
        ensures
            v == Variable::One,
    {
        Variable::One
    }

    /// Allocates a fresh witness variable.
    ///
    /// In setup mode the value is skipped altogether; in proving mode an
    /// absent value fails with [`SynthesisError::AssignmentMissing`] and
    /// leaves the system unchanged.  The returned handle's index is the
    /// number of witness variables allocated before the call.
    pub fn allocate_witness(&mut self, value: Option<F>) -> (r: Result<Variable, SynthesisError>)
        requires
            old(self).wf(),
        ensures
            final(self).wf(),
            final(self).mode == old(self).mode,
            final(self).inputs@ == old(self).inputs@,
            final(self).constraints@ == old(self).constraints@,
            old(self).mode == Mode::Setup ==> r == Ok::<Variable, SynthesisError>(
                Variable::Witness(old(self).witness@.len() as usize),
            ) && final(self).witness@ == old(self).witness@.push(None::<F>),
            old(self).mode == Mode::Prove && value.is_some() ==> r == Ok::<
                Variable,
                SynthesisError,
            >(Variable::Witness(old(self).witness@.len() as usize)) && final(self).witness@ == old(
                self,
            ).witness@.push(value),
            old(self).mode == Mode::Prove && value.is_none() ==> r == Err::<
                Variable,
                SynthesisError,
            >(SynthesisError::AssignmentMissing) && final(self).witness@ == old(self).witness@,
    {
        let index: usize = self.witness.len();
        match self.mode {
            Mode::Setup => {
                self.witness.push(None);
                proof {
                    self.lemma_push_keeps_constraints_wf(*old(self));
                }
                Ok(Variable::Witness(index))
            },
            Mode::Prove => {
                if value.is_some() {
                    self.witness.push(value);
                    proof {
                        self.lemma_push_keeps_constraints_wf(*old(self));
                    }
                    Ok(Variable::Witness(index))
                } else {
                    Err(SynthesisError::AssignmentMissing)
                }
            },
        }
    }

    /// Allocates a fresh public-input variable; same contract as witness
    /// allocation, but the value becomes part of the public statement, in
    /// allocation order.
    pub fn allocate_public_input(&mut self, value: Option<F>) -> (r: Result<
        Variable,
        SynthesisError,
    >)
        requires
            old(self).wf(),
        ensures
            final(self).wf(),
            final(self).mode == old(self).mode,
            final(self).witness@ == old(self).witness@,
            final(self).constraints@ == old(self).constraints@,
            old(self).mode == Mode::Setup ==> r == Ok::<Variable, SynthesisError>(
                Variable::Input(old(self).inputs@.len() as usize),
            ) && final(self).inputs@ == old(self).inputs@.push(None::<F>),
            old(self).mode == Mode::Prove && value.is_some() ==> r == Ok::<
                Variable,
                SynthesisError,
            >(Variable::Input(old(self).inputs@.len() as usize)) && final(self).inputs@ == old(
                self,
            ).inputs@.push(value),
            old(self).mode == Mode::Prove && value.is_none() ==> r == Err::<
                Variable,
                SynthesisError,
            >(SynthesisError::AssignmentMissing) && final(self).inputs@ == old(self).inputs@,
    {
        let index: usize = self.inputs.len();
        match self.mode {
            Mode::Setup => {
                self.inputs.push(None);
                proof {
                    self.lemma_push_keeps_constraints_wf(*old(self));
                }
                Ok(Variable::Input(index))
            },
            Mode::Prove => {
                if value.is_some() {
                    self.inputs.push(value);
                    proof {
                        self.lemma_push_keeps_constraints_wf(*old(self));
                    }
                    Ok(Variable::Input(index))
                } else {
                    Err(SynthesisError::AssignmentMissing)
                }
            },
        }
    }

    /// Growing the variable lists keeps every stored constraint valid.
    proof fn lemma_push_keeps_constraints_wf(self, pre: Self)
        requires
            pre.wf(),
            self.constraints@ == pre.constraints@,
            pre.num_witness() <= self.num_witness(),
            pre.num_inputs() <= self.num_inputs(),
        ensures
            forall|k: int|
                0 <= k < self.constraints@.len() ==> (#[trigger] self.constraints@[k]).wf(
                    self.num_witness(),
                    self.num_inputs(),
                ),
    {
        assert forall|k: int| 0 <= k < self.constraints@.len() implies (
        #[trigger] self.constraints@[k]).wf(self.num_witness(), self.num_inputs()) by {
            assert(pre.constraints@[k].wf(pre.num_witness(), pre.num_inputs()));
            pre.constraints@[k].lemma_wf_monotone(
                pre.num_witness(),
                pre.num_inputs(),
                self.num_witness(),
                self.num_inputs(),
            );
        }
    }

    /// Appends the constraint `a * b = c` to the ordered constraint list.
    ///
    /// Enforcement is append-only and structural: satisfiability is never
    /// checked here, only when a concrete witness is evaluated against the
    /// full list.
    pub fn enforce(&mut self, a: LinearCombination<F>, b: LinearCombination<F>, c: LinearCombination<F>)
        requires
            old(self).wf(),
            a.wf(),
            b.wf(),
            c.wf(),
            lc_valid(a.terms@, old(self).num_witness(), old(self).num_inputs()),
            lc_valid(b.terms@, old(self).num_witness(), old(self).num_inputs()),
            lc_valid(c.terms@, old(self).num_witness(), old(self).num_inputs()),
        ensures
            final(self).wf(),
            final(self).mode == old(self).mode,
            final(self).witness@ == old(self).witness@,
            final(self).inputs@ == old(self).inputs@,
            final(self).constraints@.len() == old(self).constraints@.len() + 1,
            forall|k: int|
                0 <= k < old(self).constraints@.len() ==> #[trigger] final(self).constraints@[k]
                    == old(self).constraints@[k],
            final(self).constraints@.last().a == a,
            final(self).constraints@.last().b == b,
            final(self).constraints@.last().c == c,
    {
        self.constraints.push(Constraint { a, b, c });
    }

    /// The public statement: the values of the public-input variables in
    /// allocation order.  This order is the integration contract with the
    /// verifier.
    pub fn public_inputs(&self) -> (r: Vec<F>)
        requires
            self.wf(),
            self.mode == Mode::Prove,
        ensures
            r@.len() == self.inputs@.len(),
            forall|i: int| 0 <= i < r@.len() ==> #[trigger] r@[i] == self.inputs@[i].unwrap(),
    {
        let n: usize = self.inputs.len();
        let mut r: Vec<F> = Vec::new();
        let mut i: usize = 0;
        while i < n
            invariant
                self.wf(),
                self.mode == Mode::Prove,
                n == self.inputs@.len(),
                0 <= i <= n,
                r@.len() == i,
                forall|t: int| 0 <= t < i ==> #[trigger] r@[t] == self.inputs@[t].unwrap(),
            decreases n - i,
        {
            match &self.inputs[i] {
                Some(x) => r.push(*x),
                None => {
                    proof {
                        assert(self.inputs@[i as int].is_some());
                    }
                },
            }
            i = i + 1;
        }
        r
    }
}

impl<F: FieldOps> Constraint<F> {
    /// The constraint is made of well-formed linear combinations whose
    /// variables the given counts have allocated.
    pub open spec fn wf(self, n_witness: nat, n_inputs: nat) -> bool {
        &&& self.a.wf() && lc_valid(self.a.terms@, n_witness, n_inputs)
        &&& self.b.wf() && lc_valid(self.b.terms@, n_witness, n_inputs)
        &&& self.c.wf() && lc_valid(self.c.terms@, n_witness, n_inputs)
    }

    /// Validity is preserved when the variable counts grow.
    pub proof fn lemma_wf_monotone(self, nw0: nat, ni0: nat, nw1: nat, ni1: nat)
        requires
            self.wf(nw0, ni0),
            nw0 <= nw1,
            ni0 <= ni1,
        ensures
            self.wf(nw1, ni1),
    {
        assert forall|i: int|
            0 <= i < self.a.terms@.len() implies var_valid(
            (#[trigger] self.a.terms@[i]).0,
            nw1,
            ni1,
        ) by {
            assert(var_valid(self.a.terms@[i].0, nw0, ni0));
        }
        assert forall|i: int|
            0 <= i < self.b.terms@.len() implies var_valid(
            (#[trigger] self.b.terms@[i]).0,
            nw1,
            ni1,
        ) by {
            assert(var_valid(self.b.terms@[i].0, nw0, ni0));
        }
        assert forall|i: int|
            0 <= i < self.c.terms@.len() implies var_valid(
            (#[trigger] self.c.terms@[i]).0,
            nw1,
            ni1,
        ) by {
            assert(var_valid(self.c.terms@[i].0, nw0, ni0));
        }
    }
}

/// Variable uniqueness: handles differ whenever their role or their index
/// differs, and the handle indexed by the current count of its role — the
/// one the next allocation returns — is not valid for that count.  Each
/// allocation call returns the handle indexed by the count of its role
/// before the call and then grows that count, so every handle an allocation
/// returns was invalid before the call while every earlier handle was
/// already valid: within one constraint system, no two allocation calls
/// return the same handle.
pub proof fn lemma_variable_uniqueness(i: usize, j: usize)
    ensures
        i != j ==> Variable::Witness(i) != Variable::Witness(j),
        i != j ==> Variable::Input(i) != Variable::Input(j),
        Variable::Witness(i) != Variable::Input(j),
        Variable::Witness(i) != Variable::One,
        Variable::Input(i) != Variable::One,
        !var_valid(Variable::Witness(i), i as nat, j as nat),
        !var_valid(Variable::Input(j), i as nat, j as nat),
{
}

/// The value the (possibly partial) assignment of a constraint system gives
/// a variable: the constant one, or the stored slot of the handle's index.
pub open spec fn var_value<F: FieldOps>(cs: ConstraintSystem<F>, v: Variable) -> F {
    match v {
        Variable::One => F::sp_one(),
        Variable::Input(i) => cs.inputs@[i as int].unwrap(),
        Variable::Witness(i) => cs.witness@[i as int].unwrap(),
    }
}

/// The value of a linear combination under the assignment of `cs`:
/// `sum coefficient_i * value(variable_i)`.
pub open spec fn lc_eval<F: FieldOps>(cs: ConstraintSystem<F>, terms: Seq<(Variable, F)>) -> F
    decreases terms.len(),
{
    if terms.len() == 0 {
        F::sp_zero()
    } else {
        F::sp_add(
            lc_eval(cs, terms.drop_last()),
            F::sp_mul(terms.last().1, var_value(cs, terms.last().0)),
        )
    }
}

/// The constraint holds under the assignment of `cs`.
pub open spec fn constraint_satisfied<F: FieldOps>(cs: ConstraintSystem<F>, c: Constraint<F>) -> bool {
    F::sp_mul(lc_eval(cs, c.a.terms@), lc_eval(cs, c.b.terms@)) == lc_eval(cs, c.c.terms@)
}

/// Every enforced constraint holds under the assignment of `cs`: the witness
/// satisfies the constraint system.
pub open spec fn satisfied<F: FieldOps>(cs: ConstraintSystem<F>) -> bool {
    forall|k: int|
        0 <= k < cs.constraints@.len() ==> constraint_satisfied(cs, #[trigger] cs.constraints@[k])
}

} // verus!
