//! The scalar capability set.
//!
//! A type takes part in the vector and matrix algebra of this crate by
//! implementing the traits below next to the arithmetic operators of
//! `std::ops`. Each method comes with a specification function of the same
//! meaning, so that contracts elsewhere in the crate can speak of "the zero of
//! `K`" or "the conjugate of `x`" without knowing the type.
//!
//! The crate implements the traits for the machine integers. A scalar type
//! defined elsewhere implements them itself; where that is done in code that
//! is not verified, the specification functions are written as ordinary
//! functions that return what the methods return.
use vstd::prelude::*;

verus! {

/// Types with an additive identity.
pub trait Zero: Sized {
    /// The additive identity.
    spec fn zero_spec() -> Self;

    /// Whether a value counts as the additive identity.
    spec fn is_zero_spec(&self) -> bool;

    /// Returns the additive identity.
    fn zero() -> (z: Self)
        ensures
            z == Self::zero_spec(),
    ;

    /// Tells whether the value is the additive identity.
    fn is_zero(&self) -> (b: bool)
        ensures
            b == self.is_zero_spec(),
    ;
}

/// Types with a multiplicative identity.
pub trait One: Sized {
    /// The multiplicative identity.
    spec fn one_spec() -> Self;

    /// Returns the multiplicative identity.
    fn one() -> (o: Self)
        ensures
            o == Self::one_spec(),
    ;
}

/// Types that hold the additive inverse of their multiplicative identity.
///
/// Multiplying by this value flips a sign; unsigned integers do not
/// implement the trait.
pub trait Negative: Sized {
    /// The additive inverse of the multiplicative identity.
    spec fn negative_one_spec() -> Self;

    /// Returns the additive inverse of the multiplicative identity.
    fn negative_one() -> (n: Self)
        ensures
            n == Self::negative_one_spec(),
    ;
}

/// Types whose values have a size that can be compared against a numerical
/// tolerance.
pub trait Magnitude {
    /// The type in which the magnitude is measured.
    type Output;

    /// The magnitude of the value.
    spec fn magnitude_spec(&self) -> Self::Output;

    /// Whether the magnitude lies below the tolerance under which elimination
    /// treats a value as zero.
    spec fn is_negligible_spec(&self) -> bool;

    /// Returns the magnitude of the value.
    fn magnitude(&self) -> (m: Self::Output)
        ensures
            m == self.magnitude_spec(),
    ;

    /// Tells whether the magnitude lies below the tolerance under which
    /// elimination treats a value as zero. Exact types have no tolerance: only
    /// their zero is negligible.
    fn is_negligible(&self) -> (b: bool)
        ensures
            b == self.is_negligible_spec(),
    ;
}

/// Types that support conjugation.
///
/// Conjugation is the identity on real scalars and flips the sign of the
/// imaginary part of a complex one.
pub trait Conjugate: Sized {
    /// The conjugate of the value.
    spec fn conjugate_spec(&self) -> Self;

    /// Returns the conjugate of the value.
    fn conjugate(&self) -> (c: Self)
        ensures
            c == self.conjugate_spec(),
    ;
}

impl Zero for i8 {
    open spec fn zero_spec() -> i8 {
        0
    }

    open spec fn is_zero_spec(&self) -> bool {
        *self == 0
    }

    fn zero() -> (z: i8) {
        0
    }

    fn is_zero(&self) -> (b: bool) {
        *self == 0
    }
}

impl One for i8 {
    open spec fn one_spec() -> i8 {
        1
    }

    fn one() -> (o: i8) {
        1
    }
}

impl Negative for i8 {
    open spec fn negative_one_spec() -> i8 {
        (-1) as i8
    }

    fn negative_one() -> (n: i8) {
        -1
    }
}

impl Zero for i16 {
    open spec fn zero_spec() -> i16 {
        0
    }

    open spec fn is_zero_spec(&self) -> bool {
        *self == 0
    }

    fn zero() -> (z: i16) {
        0
    }

    fn is_zero(&self) -> (b: bool) {
        *self == 0
    }
}

impl One for i16 {
    open spec fn one_spec() -> i16 {
        1
    }

    fn one() -> (o: i16) {
        1
    }
}

impl Negative for i16 {
    open spec fn negative_one_spec() -> i16 {
        (-1) as i16
    }

    fn negative_one() -> (n: i16) {
        -1
    }
}

impl Zero for i32 {
    open spec fn zero_spec() -> i32 {
        0
    }

    open spec fn is_zero_spec(&self) -> bool {
        *self == 0
    }

    fn zero() -> (z: i32) {
        0
    }

    fn is_zero(&self) -> (b: bool) {
        *self == 0
    }
}

impl One for i32 {
    open spec fn one_spec() -> i32 {
        1
    }

    fn one() -> (o: i32) {
        1
    }
}

impl Negative for i32 {
    open spec fn negative_one_spec() -> i32 {
        (-1) as i32
    }

    fn negative_one() -> (n: i32) {
        -1
    }
}

impl Zero for i64 {
    open spec fn zero_spec() -> i64 {
        0
    }

    open spec fn is_zero_spec(&self) -> bool {
        *self == 0
    }

    fn zero() -> (z: i64) {
        0
    }

    fn is_zero(&self) -> (b: bool) {
        *self == 0
    }
}

impl One for i64 {
    open spec fn one_spec() -> i64 {
        1
    }

    fn one() -> (o: i64) {
        1
    }
}

impl Negative for i64 {
    open spec fn negative_one_spec() -> i64 {
        (-1) as i64
    }

    fn negative_one() -> (n: i64) {
        -1
    }
}

impl Zero for u8 {
    open spec fn zero_spec() -> u8 {
        0
    }

    open spec fn is_zero_spec(&self) -> bool {
        *self == 0
    }

    fn zero() -> (z: u8) {
        0
    }

    fn is_zero(&self) -> (b: bool) {
        *self == 0
    }
}

impl One for u8 {
    open spec fn one_spec() -> u8 {
        1
    }

    fn one() -> (o: u8) {
        1
    }
}

impl Zero for u16 {
    open spec fn zero_spec() -> u16 {
        0
    }

    open spec fn is_zero_spec(&self) -> bool {
        *self == 0
    }

    fn zero() -> (z: u16) {
        0
    }

    fn is_zero(&self) -> (b: bool) {
        *self == 0
    }
}

impl One for u16 {
    open spec fn one_spec() -> u16 {
        1
    }

    fn one() -> (o: u16) {
        1
    }
}

impl Zero for u32 {
    open spec fn zero_spec() -> u32 {
        0
    }

    open spec fn is_zero_spec(&self) -> bool {
        *self == 0
    }

    fn zero() -> (z: u32) {
        0
    }

    fn is_zero(&self) -> (b: bool) {
        *self == 0
    }
}

impl One for u32 {
    open spec fn one_spec() -> u32 {
        1
    }

    fn one() -> (o: u32) {
        1
    }
}

impl Zero for u64 {
    open spec fn zero_spec() -> u64 {
        0
    }

    open spec fn is_zero_spec(&self) -> bool {
        *self == 0
    }

    fn zero() -> (z: u64) {
        0
    }

    fn is_zero(&self) -> (b: bool) {
        *self == 0
    }
}

impl One for u64 {
    open spec fn one_spec() -> u64 {
        1
    }

    fn one() -> (o: u64) {
        1
    }
}

impl Magnitude for i8 {
    type Output = u8;

    open spec fn magnitude_spec(&self) -> u8 {
        vstd::math::abs(*self as int) as u8
    }

    open spec fn is_negligible_spec(&self) -> bool {
        *self == 0
    }

    fn magnitude(&self) -> (m: u8) {
        if *self >= 0 {
            *self as u8
        } else {
            (-(*self as i16)) as u8
        }
    }

    fn is_negligible(&self) -> (b: bool) {
        *self == 0
    }
}

impl Magnitude for i16 {
    type Output = u16;

    open spec fn magnitude_spec(&self) -> u16 {
        vstd::math::abs(*self as int) as u16
    }

    open spec fn is_negligible_spec(&self) -> bool {
        *self == 0
    }

    fn magnitude(&self) -> (m: u16) {
        if *self >= 0 {
            *self as u16
        } else {
            (-(*self as i32)) as u16
        }
    }

    fn is_negligible(&self) -> (b: bool) {
        *self == 0
    }
}

impl Magnitude for i32 {
    type Output = u32;

    open spec fn magnitude_spec(&self) -> u32 {
        vstd::math::abs(*self as int) as u32
    }

    open spec fn is_negligible_spec(&self) -> bool {
        *self == 0
    }

    fn magnitude(&self) -> (m: u32) {
        if *self >= 0 {
            *self as u32
        } else {
            (-(*self as i64)) as u32
        }
    }

    fn is_negligible(&self) -> (b: bool) {
        *self == 0
    }
}

impl Magnitude for i64 {
    type Output = u64;

    open spec fn magnitude_spec(&self) -> u64 {
        vstd::math::abs(*self as int) as u64
    }

    open spec fn is_negligible_spec(&self) -> bool {
        *self == 0
    }

    fn magnitude(&self) -> (m: u64) {
        if *self >= 0 {
            *self as u64
        } else {
            (-(*self as i128)) as u64
        }
    }

    fn is_negligible(&self) -> (b: bool) {
        *self == 0
    }
}

impl Magnitude for u8 {
    type Output = u8;

    open spec fn magnitude_spec(&self) -> u8 {
        *self
    }

    open spec fn is_negligible_spec(&self) -> bool {
        *self == 0
    }

    fn magnitude(&self) -> (m: u8) {
        *self
    }

    fn is_negligible(&self) -> (b: bool) {
        *self == 0
    }
}

impl Magnitude for u16 {
    type Output = u16;

    open spec fn magnitude_spec(&self) -> u16 {
        *self
    }

    open spec fn is_negligible_spec(&self) -> bool {
        *self == 0
    }

    fn magnitude(&self) -> (m: u16) {
        *self
    }

    fn is_negligible(&self) -> (b: bool) {
        *self == 0
    }
}

impl Magnitude for u32 {
    type Output = u32;

    open spec fn magnitude_spec(&self) -> u32 {
        *self
    }

    open spec fn is_negligible_spec(&self) -> bool {
        *self == 0
    }

    fn magnitude(&self) -> (m: u32) {
        *self
    }

    fn is_negligible(&self) -> (b: bool) {
        *self == 0
    }
}

impl Magnitude for u64 {
    type Output = u64;

    open spec fn magnitude_spec(&self) -> u64 {
        *self
    }

    open spec fn is_negligible_spec(&self) -> bool {
        *self == 0
    }

    fn magnitude(&self) -> (m: u64) {
        *self
    }

    fn is_negligible(&self) -> (b: bool) {
        *self == 0
    }
}

impl Conjugate for i8 {
    open spec fn conjugate_spec(&self) -> i8 {
        *self
    }

    fn conjugate(&self) -> (c: i8) {
        *self
    }
}

impl Conjugate for i16 {
    open spec fn conjugate_spec(&self) -> i16 {
        *self
    }

    fn conjugate(&self) -> (c: i16) {
        *self
    }
}

impl Conjugate for i32 {
    open spec fn conjugate_spec(&self) -> i32 {
        *self
    }

    fn conjugate(&self) -> (c: i32) {
        *self
    }
}

impl Conjugate for i64 {
    open spec fn conjugate_spec(&self) -> i64 {
        *self
    }

    fn conjugate(&self) -> (c: i64) {
        *self
    }
}

impl Conjugate for u8 {
    open spec fn conjugate_spec(&self) -> u8 {
        *self
    }

    fn conjugate(&self) -> (c: u8) {
        *self
    }
}

impl Conjugate for u16 {
    open spec fn conjugate_spec(&self) -> u16 {
        *self
    }

    fn conjugate(&self) -> (c: u16) {
        *self
    }
}

impl Conjugate for u32 {
    open spec fn conjugate_spec(&self) -> u32 {
        *self
    }

    fn conjugate(&self) -> (c: u32) {
        *self
    }
}

impl Conjugate for u64 {
    open spec fn conjugate_spec(&self) -> u64 {
        *self
    }

    fn conjugate(&self) -> (c: u64) {
        *self
    }
}

} // verus!
