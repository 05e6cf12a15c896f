//! End-to-end tests driving the synthesized constraint system through the
//! Groth16 proving backend over BLS12-381.

use zk_r1cs::circuit::{ConstraintSynthesizer, MultiplyDemoCircuit};
use zk_r1cs::field::FieldOps;
use zk_r1cs::r1cs::{ConstraintSystem, Mode, SynthesisError, Variable};

use ark_bls12_381::{Bls12_381, Fr as BlsFr};
use ark_groth16::Groth16;
use ark_relations::r1cs::{
    ConstraintSynthesizer as ArkConstraintSynthesizer, ConstraintSystemRef,
    LinearCombination as ArkLinearCombination, SynthesisError as ArkSynthesisError,
    Variable as ArkVariable,
};
use ark_snark::SNARK;
use ark_std::rand::rngs::StdRng;
use ark_std::rand::SeedableRng;
use ark_std::UniformRand;
use std::ops::MulAssign;

/// The BLS12-381 scalar field seen through the library's field contract.
#[derive(Clone, Copy)]
struct Scalar(BlsFr);

impl FieldOps for Scalar {
    // The ghost members of the contract are compiled to plain functions; an
    // implementation outside the verifier supplies them with the matching
    // runtime meaning, though nothing ever calls them.
    fn sp_wf(self) -> bool {
        true
    }

    fn sp_add(a: Self, b: Self) -> Self {
        Scalar(a.0 + b.0)
    }

    fn sp_mul(a: Self, b: Self) -> Self {
        Scalar(a.0 * b.0)
    }

    fn sp_zero() -> Self {
        Scalar(BlsFr::from(0u64))
    }

    fn sp_one() -> Self {
        Scalar(BlsFr::from(1u64))
    }

    fn lemma_add_wf(_a: Self, _b: Self) {}

    fn lemma_mul_wf(_a: Self, _b: Self) {}

    fn lemma_add_zero(_a: Self) {}

    fn lemma_mul_one(_a: Self) {}

    fn field_zero() -> Self {
        Scalar(BlsFr::from(0u64))
    }

    fn field_one() -> Self {
        Scalar(BlsFr::from(1u64))
    }

    fn field_add(&self, other: &Self) -> Self {
        Scalar(self.0 + other.0)
    }

    fn field_mul(&self, other: &Self) -> Self {
        Scalar(self.0 * other.0)
    }
}

/// Feeds the library's multiplication circuit to the ark proving stack:
/// synthesis runs against the library's constraint system, whose contents
/// are then replayed verbatim into the backend's.
#[derive(Clone, Copy)]
struct MultiplyBridge {
    a: Option<BlsFr>,
    b: Option<BlsFr>,
}

fn convert_lc(
    lc: &zk_r1cs::r1cs::LinearCombination<Scalar>,
    wvars: &[ArkVariable],
    ivars: &[ArkVariable],
) -> ArkLinearCombination<BlsFr> {
    let mut terms: Vec<(BlsFr, ArkVariable)> = Vec::new();
    for (v, coeff) in lc.terms.iter() {
        let var = match v {
            Variable::One => ArkVariable::One,
            Variable::Input(i) => ivars[*i],
            Variable::Witness(i) => wvars[*i],
        };
        terms.push((coeff.0, var));
    }
    ArkLinearCombination(terms)
}

impl ArkConstraintSynthesizer<BlsFr> for MultiplyBridge {
    fn generate_constraints(self, cs: ConstraintSystemRef<BlsFr>) -> Result<(), ArkSynthesisError> {
        let mode = if cs.is_in_setup_mode() { Mode::Setup } else { Mode::Prove };
        let mut sys = ConstraintSystem::<Scalar>::new(mode);
        let circuit = MultiplyDemoCircuit { a: self.a.map(Scalar), b: self.b.map(Scalar) };
        circuit.generate_constraints(&mut sys).map_err(|e| match e {
            SynthesisError::AssignmentMissing => ArkSynthesisError::AssignmentMissing,
            SynthesisError::MalformedLinearCombination => ArkSynthesisError::Unsatisfiable,
        })?;
        let mut wvars: Vec<ArkVariable> = Vec::new();
        for slot in sys.witness.iter() {
            let value = slot.map(|s| s.0);
            wvars.push(
                cs.new_witness_variable(|| value.ok_or(ArkSynthesisError::AssignmentMissing))?,
            );
        }
        let mut ivars: Vec<ArkVariable> = Vec::new();
        for slot in sys.inputs.iter() {
            let value = slot.map(|s| s.0);
            ivars.push(cs.new_input_variable(|| value.ok_or(ArkSynthesisError::AssignmentMissing))?);
        }
        for c in sys.constraints.iter() {
            cs.enforce_constraint(
                convert_lc(&c.a, &wvars, &ivars),
                convert_lc(&c.b, &wvars, &ivars),
                convert_lc(&c.c, &wvars, &ivars),
            )?;
        }
        Ok(())
    }
}

#[test]
fn test_groth16_circuit_multiply() {
    let rng = &mut StdRng::seed_from_u64(1234);

    let (pk, vk) =
        Groth16::<Bls12_381>::circuit_specific_setup(MultiplyBridge { a: None, b: None }, rng)
            .unwrap();

    let a = BlsFr::rand(rng);
    let b = BlsFr::rand(rng);
    let mut c = a;
    c.mul_assign(&b);

    let proof = Groth16::<Bls12_381>::prove(
        &pk,
        MultiplyBridge { a: Some(a), b: Some(b) },
        rng,
    )
    .unwrap();

    assert!(Groth16::<Bls12_381>::verify(&vk, &[c], &proof).unwrap());
    assert!(!Groth16::<Bls12_381>::verify(&vk, &[a], &proof).unwrap());
}

#[test]
fn setup_keys_serve_any_instance() {
    let rng = &mut StdRng::seed_from_u64(99);

    let (pk, vk) =
        Groth16::<Bls12_381>::circuit_specific_setup(MultiplyBridge { a: None, b: None }, rng)
            .unwrap();

    let mut round = 0;
    while round < 2 {
        let a = BlsFr::rand(rng);
        let b = BlsFr::rand(rng);
        let mut c = a;
        c.mul_assign(&b);
        let proof = Groth16::<Bls12_381>::prove(
            &pk,
            MultiplyBridge { a: Some(a), b: Some(b) },
            rng,
        )
        .unwrap();
        assert!(Groth16::<Bls12_381>::verify(&vk, &[c], &proof).unwrap());
        round += 1;
    }
}

#[test]
fn missing_assignment_aborts_proving() {
    let rng = &mut StdRng::seed_from_u64(5);

    let (pk, _vk) =
        Groth16::<Bls12_381>::circuit_specific_setup(MultiplyBridge { a: None, b: None }, rng)
            .unwrap();

    let a = BlsFr::rand(rng);
    let result = Groth16::<Bls12_381>::prove(
        &pk,
        MultiplyBridge { a: Some(a), b: None },
        rng,
    );
    assert!(result.is_err());
}
