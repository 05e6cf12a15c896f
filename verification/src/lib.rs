//! A constraint-synthesis core for rank-1 constraint systems (R1CS).
//!
//! A circuit author describes a computation as variables and constraints of
//! the form `A * B = C` over linear combinations of variables; a proving
//! backend then consumes the populated constraint system.  The field
//! arithmetic and the proving algorithms themselves are external
//! collaborators, reached through the [`field::FieldOps`] contract and the
//! plain data this crate exposes.

pub mod circuit;
pub mod field;
pub mod r1cs;
