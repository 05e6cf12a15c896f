//! The minimal field-algebra contract the constraint system is generic over,
//! together with a small verified prime field used as the reference
//! implementation.

use vstd::prelude::*;

verus! {

/// The algebra a field implementation must offer to the synthesis core.
///
/// A type implementing this trait supplies addition, multiplication and the
/// two identities, together with the laws the core's proofs rely on.  The
/// operations are total: they accept every value of the type, and the
/// identity laws are promised for the canonical values singled out by
/// [`FieldOps::sp_wf`].  The concrete pairing-friendly field of a proving
/// backend lives outside this crate; a driver wraps it in a type of its own
/// and implements this trait for the wrapper.  [`Fp64`] below is a verified
/// implementation.
pub trait FieldOps: Sized + Copy {
    /// Whether the value is a canonical member of the field.
    spec fn sp_wf(self) -> bool;

    /// The mathematical sum of two field elements.
    spec fn sp_add(a: Self, b: Self) -> Self;

    /// The mathematical product of two field elements.
    spec fn sp_mul(a: Self, b: Self) -> Self;

    /// The additive identity.
    spec fn sp_zero() -> Self;

    /// The multiplicative identity.
    spec fn sp_one() -> Self;

    fn field_zero() -> (r: Self)
        ensures
            r == Self::sp_zero(),
            r.sp_wf(),
    ;

    fn field_one() -> (r: Self)
        ensures
            r == Self::sp_one(),
            r.sp_wf(),
    ;

    fn field_add(&self, other: &Self) -> (r: Self)
        ensures
            r == Self::sp_add(*self, *other),
    ;

    fn field_mul(&self, other: &Self) -> (r: Self)
        ensures
            r == Self::sp_mul(*self, *other),
    ;

    /// Sums of canonical values are canonical.
    proof fn lemma_add_wf(a: Self, b: Self)
        requires
            a.sp_wf(),
            b.sp_wf(),
        ensures
            Self::sp_add(a, b).sp_wf(),
    ;

    /// Products of canonical values are canonical.
    proof fn lemma_mul_wf(a: Self, b: Self)
        requires
            a.sp_wf(),
            b.sp_wf(),
        ensures
            Self::sp_mul(a, b).sp_wf(),
    ;

    /// Adding the additive identity changes nothing.
    proof fn lemma_add_zero(a: Self)
        requires
            a.sp_wf(),
        ensures
            Self::sp_add(Self::sp_zero(), a) == a,
    ;

    /// Multiplying by the multiplicative identity changes nothing.
    proof fn lemma_mul_one(a: Self)
        requires
            a.sp_wf(),
        ensures
            Self::sp_mul(Self::sp_one(), a) == a,
    ;
}

/// The modulus of the reference field: the Mersenne prime `2^31 - 1`.
pub const FIELD_MODULUS: u64 = 2147483647;

/// A verified prime field of integers modulo [`FIELD_MODULUS`].
///
/// Small enough that sums and products fit in machine integers, yet a genuine
/// field, so the whole synthesis pipeline can be exercised without any
/// external arithmetic.  Operations reduce their operands first, so they are
/// total; canonical values are those already below the modulus.
#[derive(Clone, Copy, PartialEq, Eq, Structural, Debug)]
pub struct Fp64 {
    pub v: u64,
}

impl FieldOps for Fp64 {
    open spec fn sp_wf(self) -> bool {
        self.v < FIELD_MODULUS
    }

    open spec fn sp_add(a: Self, b: Self) -> Self {
        Fp64 { v: (((a.v % FIELD_MODULUS + b.v % FIELD_MODULUS) as int % (FIELD_MODULUS as int)) as u64) }
    }

    open spec fn sp_mul(a: Self, b: Self) -> Self {
        Fp64 { v: ((((a.v % FIELD_MODULUS) * (b.v % FIELD_MODULUS)) as int % (FIELD_MODULUS as int)) as u64) }
    }

    open spec fn sp_zero() -> Self {
        Fp64 { v: 0 }
    }

    open spec fn sp_one() -> Self {
        Fp64 { v: 1 }
    }

    fn field_zero() -> (r: Self) {
        Fp64 { v: 0 }
    }

    fn field_one() -> (r: Self) {
        Fp64 { v: 1 }
    }

    fn field_add(&self, other: &Self) -> (r: Self) {
        Fp64 { v: (self.v % FIELD_MODULUS + other.v % FIELD_MODULUS) % FIELD_MODULUS }
    }

    fn field_mul(&self, other: &Self) -> (r: Self) {
        let x: u64 = self.v % FIELD_MODULUS;
        let y: u64 = other.v % FIELD_MODULUS;
        proof {
            assert(x * y <= (FIELD_MODULUS - 1) * (FIELD_MODULUS - 1)) by (nonlinear_arith)
                requires
                    x < FIELD_MODULUS,
                    y < FIELD_MODULUS,
            ;
        }
        Fp64 { v: (x * y) % FIELD_MODULUS }
    }

    proof fn lemma_add_wf(a: Self, b: Self) {
        vstd::arithmetic::div_mod::lemma_mod_bound(
            (a.v % FIELD_MODULUS + b.v % FIELD_MODULUS) as int,
            FIELD_MODULUS as int,
        );
    }

    proof fn lemma_mul_wf(a: Self, b: Self) {
        vstd::arithmetic::div_mod::lemma_mod_bound(
            ((a.v % FIELD_MODULUS) * (b.v % FIELD_MODULUS)) as int,
            FIELD_MODULUS as int,
        );
    }

    proof fn lemma_add_zero(a: Self) {
        vstd::arithmetic::div_mod::lemma_small_mod(a.v as nat, FIELD_MODULUS as nat);
    }

    proof fn lemma_mul_one(a: Self) {
        vstd::arithmetic::div_mod::lemma_small_mod(a.v as nat, FIELD_MODULUS as nat);
        vstd::arithmetic::div_mod::lemma_small_mod(1nat, FIELD_MODULUS as nat);
        assert(1u64 % FIELD_MODULUS == 1);
        assert(a.v % FIELD_MODULUS == a.v);
        assert((1 * (a.v % FIELD_MODULUS)) as int == a.v as int) by (nonlinear_arith)
            requires
                a.v % FIELD_MODULUS == a.v,
        ;
    }
}

} // verus!
