//! Tests of the constraint-system core over the crate's own verified field.

use zk_r1cs::circuit::MultiplyDemoCircuit;
use zk_r1cs::field::{FieldOps, Fp64, FIELD_MODULUS};
use zk_r1cs::r1cs::{ConstraintSystem, LinearCombination, Mode, SynthesisError, Variable};

fn fp(v: u64) -> Fp64 {
    Fp64 { v }
}

#[test]
fn fp64_arithmetic_exact() {
    assert_eq!(Fp64::field_zero(), fp(0));
    assert_eq!(Fp64::field_one(), fp(1));
    assert_eq!(fp(3).field_add(&fp(5)), fp(8));
    assert_eq!(fp(3).field_mul(&fp(5)), fp(15));
    // wrap-around at the modulus
    assert_eq!(fp(FIELD_MODULUS - 1).field_add(&fp(1)), fp(0));
    assert_eq!(fp(FIELD_MODULUS - 1).field_mul(&fp(2)), fp(FIELD_MODULUS - 2));
}

#[test]
fn prove_mode_synthesis_multiplies() {
    let mut cs = ConstraintSystem::<Fp64>::new(Mode::Prove);
    let circuit = MultiplyDemoCircuit { a: Some(fp(6)), b: Some(fp(7)) };
    assert_eq!(circuit.synthesize(&mut cs), Ok(()));
    assert_eq!(cs.witness, vec![Some(fp(6)), Some(fp(7))]);
    assert_eq!(cs.inputs, vec![Some(fp(42))]);
    assert_eq!(cs.constraints.len(), 1);
    assert_eq!(cs.constraints[0].a.terms, vec![(Variable::Witness(0), fp(1))]);
    assert_eq!(cs.constraints[0].b.terms, vec![(Variable::Witness(1), fp(1))]);
    assert_eq!(cs.constraints[0].c.terms, vec![(Variable::Input(0), fp(1))]);
    assert_eq!(cs.public_inputs(), vec![fp(42)]);
}

#[test]
fn setup_mode_skips_values() {
    let mut cs = ConstraintSystem::<Fp64>::new(Mode::Setup);
    let circuit = MultiplyDemoCircuit::<Fp64> { a: None, b: None };
    assert_eq!(circuit.synthesize(&mut cs), Ok(()));
    assert_eq!(cs.witness, vec![None, None]);
    assert_eq!(cs.inputs, vec![None]);
    assert_eq!(cs.constraints.len(), 1);
}

#[test]
fn missing_values_fail_without_allocating_inputs() {
    let mut cs = ConstraintSystem::<Fp64>::new(Mode::Prove);
    let circuit = MultiplyDemoCircuit::<Fp64> { a: None, b: None };
    assert_eq!(circuit.synthesize(&mut cs), Err(SynthesisError::AssignmentMissing));
    assert!(cs.inputs.is_empty());
    assert!(cs.witness.is_empty());
    assert!(cs.constraints.is_empty());

    let mut cs2 = ConstraintSystem::<Fp64>::new(Mode::Prove);
    let circuit2 = MultiplyDemoCircuit::<Fp64> { a: Some(fp(4)), b: None };
    assert_eq!(circuit2.synthesize(&mut cs2), Err(SynthesisError::AssignmentMissing));
    assert!(cs2.inputs.is_empty());
    assert_eq!(cs2.witness, vec![Some(fp(4))]);
}

#[test]
fn synthesis_is_deterministic() {
    let run = || {
        let mut cs = ConstraintSystem::<Fp64>::new(Mode::Prove);
        let circuit = MultiplyDemoCircuit { a: Some(fp(11)), b: Some(fp(13)) };
        let r = circuit.synthesize(&mut cs);
        (r, cs)
    };
    let (r1, cs1) = run();
    let (r2, cs2) = run();
    assert_eq!(r1, r2);
    assert_eq!(cs1.witness, cs2.witness);
    assert_eq!(cs1.inputs, cs2.inputs);
    assert_eq!(cs1.constraints.len(), cs2.constraints.len());
    for (x, y) in cs1.constraints.iter().zip(cs2.constraints.iter()) {
        assert_eq!(x.a.terms, y.a.terms);
        assert_eq!(x.b.terms, y.b.terms);
        assert_eq!(x.c.terms, y.c.terms);
    }
}

#[test]
fn allocations_return_distinct_handles() {
    let mut cs = ConstraintSystem::<Fp64>::new(Mode::Prove);
    let mut handles: Vec<Variable> = vec![cs.one()];
    handles.push(cs.allocate_witness(Some(fp(1))).unwrap());
    handles.push(cs.allocate_witness(Some(fp(2))).unwrap());
    handles.push(cs.allocate_public_input(Some(fp(3))).unwrap());
    handles.push(cs.allocate_public_input(Some(fp(4))).unwrap());
    for i in 0..handles.len() {
        for j in 0..handles.len() {
            if i != j {
                assert_ne!(handles[i], handles[j]);
            }
        }
    }
    assert_eq!(handles[1], Variable::Witness(0));
    assert_eq!(handles[3], Variable::Input(0));
}

#[test]
fn setup_mode_ignores_supplied_values() {
    let mut cs = ConstraintSystem::<Fp64>::new(Mode::Setup);
    let v = cs.allocate_witness(Some(fp(9))).unwrap();
    assert_eq!(v, Variable::Witness(0));
    assert_eq!(cs.witness, vec![None]);
    let w = cs.allocate_witness(None).unwrap();
    assert_eq!(w, Variable::Witness(1));
}

#[test]
fn public_inputs_keep_allocation_order() {
    let mut cs = ConstraintSystem::<Fp64>::new(Mode::Prove);
    cs.allocate_public_input(Some(fp(10))).unwrap();
    cs.allocate_public_input(Some(fp(20))).unwrap();
    cs.allocate_public_input(Some(fp(30))).unwrap();
    assert_eq!(cs.public_inputs(), vec![fp(10), fp(20), fp(30)]);
}

#[test]
fn combine_unions_and_sums() {
    let one = Variable::One;
    let w0 = Variable::Witness(0);
    let i0 = Variable::Input(0);

    let mut left = LinearCombination::<Fp64>::new();
    left = left.combine(&LinearCombination::from_variable(w0));
    left = left.combine(&LinearCombination::from_variable(one));
    // left: 1*w0 + 1*one
    let mut right = LinearCombination::from_variable(w0);
    right = right.combine(&LinearCombination::from_variable(i0));
    right = right.scale(&fp(4));
    // right: 4*w0 + 4*i0
    let sum = left.combine(&right);
    assert_eq!(sum.coeff_of(w0), Some(fp(5)));
    assert_eq!(sum.coeff_of(one), Some(fp(1)));
    assert_eq!(sum.coeff_of(i0), Some(fp(4)));
    assert_eq!(sum.coeff_of(Variable::Witness(7)), None);
    // deterministic order: left's variables first, then the new ones
    assert_eq!(
        sum.terms,
        vec![(w0, fp(5)), (one, fp(1)), (i0, fp(4))]
    );
}

#[test]
fn scale_multiplies_every_coefficient() {
    let lc = LinearCombination::<Fp64>::from_variable(Variable::Witness(2));
    let scaled = lc.scale(&fp(6));
    assert_eq!(scaled.terms, vec![(Variable::Witness(2), fp(6))]);
    assert_eq!(scaled.coeff_of(Variable::Witness(2)), Some(fp(6)));
}

#[test]
fn enforce_appends_in_order() {
    let mut cs = ConstraintSystem::<Fp64>::new(Mode::Prove);
    let w0 = cs.allocate_witness(Some(fp(2))).unwrap();
    let w1 = cs.allocate_witness(Some(fp(3))).unwrap();
    let lc0 = LinearCombination::from_variable(w0);
    let lc1 = LinearCombination::from_variable(w1);
    let one_lc = LinearCombination::from_variable(cs.one());
    cs.enforce(lc0, one_lc, lc1);
    let lc0b = LinearCombination::from_variable(w0);
    let lc1b = LinearCombination::from_variable(w1);
    let one_b = LinearCombination::from_variable(cs.one());
    cs.enforce(lc1b, one_b, lc0b);
    assert_eq!(cs.constraints.len(), 2);
    assert_eq!(cs.constraints[0].a.terms, vec![(w0, fp(1))]);
    assert_eq!(cs.constraints[1].a.terms, vec![(w1, fp(1))]);
}
