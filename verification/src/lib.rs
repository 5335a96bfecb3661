//! Vector and matrix algebra over an abstract scalar type.
//!
//! The crate offers fixed-length vectors ([`Vector`]) and rectangular
//! matrices ([`Matrix`]) whose scalars are any type with the arithmetic
//! operators of `std::ops` and the capabilities of [`traits`]. Its core is
//! the reduction of matrices: reduced row echelon form, rank, determinant and
//! inverse.
//!
//! Every function states what it computes over the sequences that model its
//! arguments, in terms of the scalar type's own arithmetic. For the machine
//! integers that arithmetic is partial: an operation that would overflow may
//! not be evaluated, and the contracts ask the caller to rule that out.
//! What the results amount to where the arithmetic is exact is proved in
//! [`laws`].
pub mod cross_product;
pub mod display;
pub mod errors;
pub mod field;
pub mod integral;
pub mod laws;
pub mod linear_combination;
pub mod matrix;
pub mod slices;
pub mod traits;
pub mod types;
pub mod vector;

pub use cross_product::cross_product;
pub use errors::{LinearCombinationError, MatrixInverseError, MatrixShapeError};
pub use linear_combination::linear_combination;
pub use matrix::Matrix;
pub use traits::{Conjugate, Magnitude, Negative, One, Zero};
pub use vector::Vector;
