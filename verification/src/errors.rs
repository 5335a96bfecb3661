//! The errors that the operations of this crate report.
use vstd::prelude::*;

verus! {

/// Why a linear combination could not be formed.
#[derive(Debug, Clone, Copy, PartialEq, Eq)]
pub enum LinearCombinationError {
    /// The vectors do not all have the length of the first one.
    VectorsDimensionMismatch {
        /// The length of the first vector.
        expected_len: usize,
        /// The length of the first vector that differs from it.
        founded_len: usize,
    },
}

/// Why rows could not be made into a matrix.
#[derive(Debug, Clone, Copy, PartialEq, Eq)]
pub enum MatrixShapeError {
    /// The rows do not all have the length of the first one.
    RaggedRows {
        /// The index of the first row whose length differs.
        row: usize,
        /// The length of the first row.
        expected_len: usize,
        /// The length of the row that differs.
        found_len: usize,
    },
}

/// Why a matrix could not be inverted.
#[derive(Debug, Clone, Copy, PartialEq, Eq)]
pub enum MatrixInverseError {
    /// The matrix is not square.
    NotSquare {
        /// The number of rows of the matrix.
        rows: usize,
        /// The number of columns of the matrix.
        columns: usize,
    },
    /// Elimination met a zero pivot.
    Singular,
}

} // verus!
