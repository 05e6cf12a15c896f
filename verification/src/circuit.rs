//! The synthesis contract a circuit author implements, and the reference
//! multiplication circuit that exercises every part of it.

use vstd::prelude::*;

use crate::field::FieldOps;
use crate::r1cs::{
    constraint_satisfied, lc_eval, lc_valid, satisfied, var_value, Constraint,
    ConstraintSystem, LinearCombination, Mode, SynthesisError, Variable,
};

verus! {

/// A description of a computation that can populate a constraint system.
///
/// Implementors allocate variables and enforce constraints against the
/// handle they are given, in one linear pass; on failure the constraint
/// system may be left partially populated and must be discarded by the
/// caller.
pub trait ConstraintSynthesizer<F: FieldOps>: Sized {
    /// Consumes the circuit's private data and populates `cs`.
    fn generate_constraints(self, cs: &mut ConstraintSystem<F>) -> (r: Result<(), SynthesisError>)
        requires
            old(cs).wf(),
        ensures
            final(cs).wf(),
            final(cs).mode == old(cs).mode,
    ;
}

/// The term sequence is a single variable with coefficient one.
pub open spec fn is_unit_lc<F: FieldOps>(terms: Seq<(Variable, F)>, v: Variable) -> bool {
    terms =~= seq![(v, F::sp_one())]
}

/// The constraint says `w0 * w1 = i0`, each side a unit linear combination.
pub open spec fn is_multiply_constraint<F: FieldOps>(
    c: Constraint<F>,
    w0: Variable,
    w1: Variable,
    i0: Variable,
) -> bool {
    &&& is_unit_lc(c.a.terms@, w0)
    &&& is_unit_lc(c.b.terms@, w1)
    &&& is_unit_lc(c.c.terms@, i0)
}

/// Synthesis appended exactly one constraint, multiplying the two fresh
/// witness variables into the fresh public input, and left the earlier
/// constraints alone.
pub open spec fn multiply_constraint_added<F: FieldOps>(
    pre: ConstraintSystem<F>,
    post: ConstraintSystem<F>,
) -> bool {
    &&& post.constraints@.len() == pre.constraints@.len() + 1
    &&& (forall|k: int|
        0 <= k < pre.constraints@.len() ==> #[trigger] post.constraints@[k]
            == pre.constraints@[k])
    &&& is_multiply_constraint(
        post.constraints@.last(),
        Variable::Witness(pre.witness@.len() as usize),
        Variable::Witness((pre.witness@.len() + 1) as usize),
        Variable::Input(pre.inputs@.len() as usize),
    )
}

/// Everything synthesizing the multiplication circuit does to a constraint
/// system, as a relation between the state before, the state after and the
/// returned result.
///
/// In setup mode the run allocates two value-less witness variables and one
/// value-less public input and always succeeds.  In proving mode a missing
/// private input fails the run with `AssignmentMissing` at the first
/// allocation that needs it — in particular no public-input value derived
/// from a missing input is ever allocated — while with both inputs present
/// the run stores `a`, `b` and the product `a * b` as the single public
/// input.
pub open spec fn multiply_synth_rel<F: FieldOps>(
    a: Option<F>,
    b: Option<F>,
    pre: ConstraintSystem<F>,
    post: ConstraintSystem<F>,
    r: Result<(), SynthesisError>,
) -> bool {
    &&& post.mode == pre.mode
    &&& match pre.mode {
        Mode::Setup => {
            &&& r == Ok::<(), SynthesisError>(())
            &&& post.witness@ == pre.witness@.push(None::<F>).push(None::<F>)
            &&& post.inputs@ == pre.inputs@.push(None::<F>)
            &&& multiply_constraint_added(pre, post)
        },
        Mode::Prove => {
            if a.is_none() {
                &&& r == Err::<(), SynthesisError>(SynthesisError::AssignmentMissing)
                &&& post.witness@ == pre.witness@
                &&& post.inputs@ == pre.inputs@
                &&& post.constraints@ == pre.constraints@
            } else if b.is_none() {
                &&& r == Err::<(), SynthesisError>(SynthesisError::AssignmentMissing)
                &&& post.witness@ == pre.witness@.push(a)
                &&& post.inputs@ == pre.inputs@
                &&& post.constraints@ == pre.constraints@
            } else {
                &&& r == Ok::<(), SynthesisError>(())
                &&& post.witness@ == pre.witness@.push(a).push(b)
                &&& post.inputs@ == pre.inputs@.push(Some(F::sp_mul(a.unwrap(), b.unwrap())))
                &&& multiply_constraint_added(pre, post)
            }
        },
    }
}

/// The reference circuit: two private field elements whose product is the
/// public statement.
#[derive(Clone, Copy)]
pub struct MultiplyDemoCircuit<F> {
    pub a: Option<F>,
    pub b: Option<F>,
}

impl<F: FieldOps> MultiplyDemoCircuit<F> {
    /// Allocates `a` and `b` as witness variables, their product as a
    /// public-input variable, and enforces the single constraint
    /// `a * b = product`.
    pub fn synthesize(self, cs: &mut ConstraintSystem<F>) -> (r: Result<(), SynthesisError>)
        requires
            old(cs).wf(),
        ensures
            final(cs).wf(),
            multiply_synth_rel(self.a, self.b, *old(cs), *final(cs), r),
    {
        let a_var = match cs.allocate_witness(self.a) {
            Ok(v) => v,
            Err(e) => {
                return Err(e);
            },
        };
        let b_var = match cs.allocate_witness(self.b) {
            Ok(v) => v,
            Err(e) => {
                return Err(e);
            },
        };
        let product: Option<F> = match (self.a, self.b) {
            (Some(x), Some(y)) => Some(x.field_mul(&y)),
            _ => None,
        };
        let c_var = match cs.allocate_public_input(product) {
            Ok(v) => v,
            Err(e) => {
                return Err(e);
            },
        };
        let lc_a = LinearCombination::from_variable(a_var);
        let lc_b = LinearCombination::from_variable(b_var);
        let lc_c = LinearCombination::from_variable(c_var);
        proof {
            assert(lc_valid(lc_a.terms@, cs.num_witness(), cs.num_inputs()));
            assert(lc_valid(lc_b.terms@, cs.num_witness(), cs.num_inputs()));
            assert(lc_valid(lc_c.terms@, cs.num_witness(), cs.num_inputs()));
        }
        cs.enforce(lc_a, lc_b, lc_c);
        Ok(())
    }
}

impl<F: FieldOps> ConstraintSynthesizer<F> for MultiplyDemoCircuit<F> {
    fn generate_constraints(self, cs: &mut ConstraintSystem<F>) -> (r: Result<(), SynthesisError>) {
        self.synthesize(cs)
    }
}

/// The two constraint lists are observably the same: equally long, with the
/// same terms on each side of each constraint.
pub open spec fn constraints_equivalent<F>(x: Seq<Constraint<F>>, y: Seq<Constraint<F>>) -> bool {
    &&& x.len() == y.len()
    &&& forall|k: int|
        0 <= k < x.len() ==> (#[trigger] x[k]).a.terms@ == y[k].a.terms@ && x[k].b.terms@
            == y[k].b.terms@ && x[k].c.terms@ == y[k].c.terms@
}

/// The two constraint systems are observably the same: same mode, same
/// variable slots in the same order, same constraints in the same order.
pub open spec fn cs_equivalent<F>(x: ConstraintSystem<F>, y: ConstraintSystem<F>) -> bool {
    &&& x.mode == y.mode
    &&& x.witness@ == y.witness@
    &&& x.inputs@ == y.inputs@
    &&& constraints_equivalent(x.constraints@, y.constraints@)
}

/// Determinism of synthesis: two runs of the multiplication circuit with the
/// same inputs, against observably equal starting systems, return the same
/// result, allocate the same variables in the same order and enforce the
/// same sequence of constraints.
pub proof fn lemma_synthesis_deterministic<F: FieldOps>(
    a: Option<F>,
    b: Option<F>,
    pre1: ConstraintSystem<F>,
    post1: ConstraintSystem<F>,
    r1: Result<(), SynthesisError>,
    pre2: ConstraintSystem<F>,
    post2: ConstraintSystem<F>,
    r2: Result<(), SynthesisError>,
)
    requires
        cs_equivalent(pre1, pre2),
        multiply_synth_rel(a, b, pre1, post1, r1),
        multiply_synth_rel(a, b, pre2, post2, r2),
    ensures
        r1 == r2,
        cs_equivalent(post1, post2),
{
    if pre1.mode == Mode::Setup || (a.is_some() && b.is_some()) {
        assert forall|k: int| 0 <= k < post1.constraints@.len() implies (
        #[trigger] post1.constraints@[k]).a.terms@ == post2.constraints@[k].a.terms@
            && post1.constraints@[k].b.terms@ == post2.constraints@[k].b.terms@
            && post1.constraints@[k].c.terms@ == post2.constraints@[k].c.terms@ by {
            if k < pre1.constraints@.len() {
                assert(post1.constraints@[k] == pre1.constraints@[k]);
                assert(post2.constraints@[k] == pre2.constraints@[k]);
            } else {
                assert(post1.constraints@[k] == post1.constraints@.last());
                assert(post2.constraints@[k] == post2.constraints@.last());
            }
        }
    }
}

/// Evaluating a unit linear combination gives the variable's assigned value.
proof fn lemma_eval_unit<F: FieldOps>(
    cs: ConstraintSystem<F>,
    terms: Seq<(Variable, F)>,
    v: Variable,
)
    requires
        is_unit_lc(terms, v),
        var_value(cs, v).sp_wf(),
    ensures
        lc_eval(cs, terms) == var_value(cs, v),
{
    assert(terms.len() == 1);
    assert(terms.last() == (v, F::sp_one()));
    assert(terms.drop_last() =~= Seq::<(Variable, F)>::empty());
    assert(lc_eval(cs, terms.drop_last()) == F::sp_zero());
    F::lemma_mul_one(var_value(cs, v));
    F::lemma_add_zero(var_value(cs, v));
}

/// Completeness for the honest prover: synthesizing the multiplication
/// circuit in proving mode from an empty system, with both private inputs
/// present, succeeds, publishes exactly the product `a * b` as the public
/// statement, and yields a witness assignment that satisfies every enforced
/// constraint.  The proving backend therefore receives an exactly
/// satisfiable system.
pub proof fn lemma_honest_prover_satisfies<F: FieldOps>(
    a: F,
    b: F,
    pre: ConstraintSystem<F>,
    post: ConstraintSystem<F>,
    r: Result<(), SynthesisError>,
)
    requires
        a.sp_wf(),
        b.sp_wf(),
        pre.mode == Mode::Prove,
        pre.witness@.len() == 0,
        pre.inputs@.len() == 0,
        pre.constraints@.len() == 0,
        multiply_synth_rel(Some(a), Some(b), pre, post, r),
    ensures
        r == Ok::<(), SynthesisError>(()),
        post.witness@ =~= seq![Some(a), Some(b)],
        post.inputs@ =~= seq![Some(F::sp_mul(a, b))],
        post.constraints@.len() == 1,
        satisfied(post),
{
    let c = post.constraints@.last();
    assert(is_multiply_constraint(c, Variable::Witness(0), Variable::Witness(1), Variable::Input(0)));
    assert(var_value(post, Variable::Witness(0)) == a);
    assert(var_value(post, Variable::Witness(1)) == b);
    assert(var_value(post, Variable::Input(0)) == F::sp_mul(a, b));
    F::lemma_mul_wf(a, b);
    lemma_eval_unit(post, c.a.terms@, Variable::Witness(0));
    lemma_eval_unit(post, c.b.terms@, Variable::Witness(1));
    lemma_eval_unit(post, c.c.terms@, Variable::Input(0));
    assert(constraint_satisfied(post, c));
    assert forall|k: int| 0 <= k < post.constraints@.len() implies constraint_satisfied(
        post,
        #[trigger] post.constraints@[k],
    ) by {
        assert(post.constraints@[k] == c);
    }
}

/// Setup/instance independence, at the synthesis level: a setup-mode run
/// (all values absent) and any successful proving-mode run of the
/// multiplication circuit allocate the same numbers of witness and
/// public-input variables, in the same order, and enforce observably the
/// same constraints — so keys derived from the setup shape fit every
/// concrete `(a, b)` instance.
pub proof fn lemma_setup_matches_instances<F: FieldOps>(
    a: F,
    b: F,
    pre_s: ConstraintSystem<F>,
    post_s: ConstraintSystem<F>,
    r_s: Result<(), SynthesisError>,
    pre_p: ConstraintSystem<F>,
    post_p: ConstraintSystem<F>,
    r_p: Result<(), SynthesisError>,
)
    requires
        pre_s.mode == Mode::Setup,
        pre_p.mode == Mode::Prove,
        pre_s.witness@.len() == 0,
        pre_s.inputs@.len() == 0,
        pre_s.constraints@.len() == 0,
        pre_p.witness@.len() == 0,
        pre_p.inputs@.len() == 0,
        pre_p.constraints@.len() == 0,
        multiply_synth_rel(None::<F>, None::<F>, pre_s, post_s, r_s),
        multiply_synth_rel(Some(a), Some(b), pre_p, post_p, r_p),
    ensures
        r_s == Ok::<(), SynthesisError>(()),
        r_p == Ok::<(), SynthesisError>(()),
        post_s.witness@.len() == post_p.witness@.len(),
        post_s.inputs@.len() == post_p.inputs@.len(),
        constraints_equivalent(post_s.constraints@, post_p.constraints@),
{
    let cs0 = post_s.constraints@[0];
    let cp0 = post_p.constraints@[0];
    assert(cs0.a.terms@ =~= seq![(Variable::Witness(0usize), F::sp_one())]);
    assert(cp0.a.terms@ =~= seq![(Variable::Witness(0usize), F::sp_one())]);
    assert(cs0.b.terms@ =~= seq![(Variable::Witness(1usize), F::sp_one())]);
    assert(cp0.b.terms@ =~= seq![(Variable::Witness(1usize), F::sp_one())]);
    assert(cs0.c.terms@ =~= seq![(Variable::Input(0usize), F::sp_one())]);
    assert(cp0.c.terms@ =~= seq![(Variable::Input(0usize), F::sp_one())]);
}

/// The soundness face of the emitted system, at the constraint level: an
/// assignment satisfies the constraint the multiplication circuit enforces
/// only if the public input is exactly the product of the two witness
/// values.  A public value different from the product therefore leaves the
/// system unsatisfied, whatever backend later checks it.
pub proof fn lemma_constraints_bind_public_input<F: FieldOps>(
    cs: ConstraintSystem<F>,
    w0: F,
    w1: F,
    x: F,
)
    requires
        w0.sp_wf(),
        w1.sp_wf(),
        x.sp_wf(),
        cs.witness@ =~= seq![Some(w0), Some(w1)],
        cs.inputs@ =~= seq![Some(x)],
        cs.constraints@.len() == 1,
        is_multiply_constraint(
            cs.constraints@[0],
            Variable::Witness(0),
            Variable::Witness(1),
            Variable::Input(0),
        ),
        satisfied(cs),
    ensures
        x == F::sp_mul(w0, w1),
{
    let c = cs.constraints@[0];
    assert(constraint_satisfied(cs, c));
    assert(var_value(cs, Variable::Witness(0)) == w0);
    assert(var_value(cs, Variable::Witness(1)) == w1);
    assert(var_value(cs, Variable::Input(0)) == x);
    lemma_eval_unit(cs, c.a.terms@, Variable::Witness(0));
    lemma_eval_unit(cs, c.b.terms@, Variable::Witness(1));
    lemma_eval_unit(cs, c.c.terms@, Variable::Input(0));
}

/// Missing-value propagation: synthesizing the multiplication circuit in
/// proving mode with both private inputs absent fails with
/// `AssignmentMissing`, and allocates no variable and no public-input value
/// at all before failing.
pub proof fn lemma_missing_value_propagation<F: FieldOps>(
    pre: ConstraintSystem<F>,
    post: ConstraintSystem<F>,
    r: Result<(), SynthesisError>,
)
    requires
        pre.mode == Mode::Prove,
        multiply_synth_rel(None::<F>, None::<F>, pre, post, r),
    ensures
        r == Err::<(), SynthesisError>(SynthesisError::AssignmentMissing),
        post.witness@ == pre.witness@,
        post.inputs@ == pre.inputs@,
        post.constraints@ == pre.constraints@,
{
}

} // verus!
