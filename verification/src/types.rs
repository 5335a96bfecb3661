//! The bundle of capabilities of a scalar.
use std::fmt::Display;
use std::ops::{Add, Mul, Sub};
use vstd::prelude::*;

verus! {

/// A type that can stand as the scalar of a vector or a matrix: it is
/// copied freely, has a default value, can be written as text, and is added,
/// subtracted and multiplied.
///
/// The trait has no items of its own. Every type with these capabilities
/// implements it.
pub trait Scalar: Copy + Display + Add<Output = Self> + Sub<Output = Self> + Mul<
    Output = Self,
> + Default {
}

impl<T> Scalar for T where
    T: Copy + Display + Add<Output = T> + Sub<Output = T> + Mul<Output = T> + Default,
 {
}

} // verus!
