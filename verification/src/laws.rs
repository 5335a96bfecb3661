//! What holds of the operations of this crate on exact scalars.
//!
//! The contracts of the operations say what is computed, step by step, in the
//! scalar type's own arithmetic. The proofs here say what that amounts to
//! where the arithmetic is exact: for the integral scalars of
//! [`crate::integral`] wherever a computation stays in range, and for every
//! scalar type whose arithmetic is that of a field ([`crate::field`]).
//! Floating-point arithmetic is neither; of it the laws hold only up to
//! rounding, which is not stated here.
pub mod determinant;
pub mod inverse;
pub mod matrices;
pub mod rank;
pub mod row_echelon;
pub mod scalars;
pub mod vectors;
