//! Prover-side FRI layer folding.
//!
//! One fold step takes a polynomial together with the evaluation domain it
//! lives on and produces a half-size polynomial, a half-size domain, and the
//! evaluations of the new polynomial over the new domain.  Iterating the step
//! reduces a degree-bound claim about a large polynomial into a chain of
//! shrinking claims.

pub mod field;
pub mod fri;
pub mod polynomial;
