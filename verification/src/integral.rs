//! Scalars that compute with integers.
//!
//! The machine integers are partial rings: a sum, a difference or a product
//! may be evaluated exactly if the integer it stands for lies in the range of
//! the type, and it then stands for that integer. [`Integral`] states this
//! once for all of them, so that what holds of integer arithmetic can be
//! carried over to every computation of this crate that stays in range.
use crate::traits::{One, Zero};
use std::ops::{Add, Div, Mul, Sub};
use vstd::prelude::*;
use vstd::std_specs::ops::{AddSpec, DivSpec, MulSpec, SubSpec};

verus! {

/// A scalar type whose values stand for integers and whose arithmetic is
/// integer arithmetic wherever the result lies in the range of the type.
pub trait Integral: Copy + Zero + One + Add<Output = Self> + Sub<Output = Self> + Mul<
    Output = Self,
> + Div<Output = Self> {
    /// The integer that the value stands for.
    spec fn value(self) -> int;

    /// Whether the type has a value that stands for `i`.
    spec fn representable(i: int) -> bool;

    /// The operators of the type keep to their specifications.
    proof fn lemma_obeys()
        ensures
            Self::obeys_add_spec(),
            Self::obeys_sub_spec(),
            Self::obeys_mul_spec(),
            Self::obeys_div_spec(),
    ;

    /// Every value stands for an integer in range, and for no other value's
    /// integer.
    proof fn lemma_value(a: Self, b: Self)
        ensures
            Self::representable(a.value()),
            a.value() == b.value() ==> a == b,
    ;

    /// The additive identity stands for 0, the multiplicative identity for 1,
    /// and a value is zero exactly if it stands for 0.
    proof fn lemma_identities(a: Self)
        ensures
            Self::zero_spec().value() == 0,
            Self::one_spec().value() == 1,
            a.is_zero_spec() <==> a.value() == 0,
    ;

    /// `a + b` may be evaluated exactly if the sum is in range, and then
    /// stands for it.
    proof fn lemma_add(a: Self, b: Self)
        ensures
            a.add_req(b) <==> Self::representable(a.value() + b.value()),
            a.add_req(b) ==> a.add_spec(b).value() == a.value() + b.value(),
    ;

    /// `a - b` may be evaluated exactly if the difference is in range, and
    /// then stands for it.
    proof fn lemma_sub(a: Self, b: Self)
        ensures
            a.sub_req(b) <==> Self::representable(a.value() - b.value()),
            a.sub_req(b) ==> a.sub_spec(b).value() == a.value() - b.value(),
    ;

    /// `a * b` may be evaluated exactly if the product is in range, and then
    /// stands for it.
    proof fn lemma_mul(a: Self, b: Self)
        ensures
            a.mul_req(b) <==> Self::representable(a.value() * b.value()),
            a.mul_req(b) ==> a.mul_spec(b).value() == a.value() * b.value(),
    ;

    /// Every value may be divided by the multiplicative identity, which
    /// leaves it as it is.
    proof fn lemma_div_by_one(a: Self)
        ensures
            a.div_req(Self::one_spec()),
            a.div_spec(Self::one_spec()) == a,
    ;
}

impl Integral for i8 {
    open spec fn value(self) -> int {
        self as int
    }

    open spec fn representable(i: int) -> bool {
        i8::MIN <= i <= i8::MAX
    }

    proof fn lemma_obeys() {
    }

    proof fn lemma_value(a: i8, b: i8) {
    }

    proof fn lemma_identities(a: i8) {
    }

    proof fn lemma_add(a: i8, b: i8) {
    }

    proof fn lemma_sub(a: i8, b: i8) {
    }

    proof fn lemma_mul(a: i8, b: i8) {
    }

    proof fn lemma_div_by_one(a: i8) {
    }
}

impl Integral for i16 {
    open spec fn value(self) -> int {
        self as int
    }

    open spec fn representable(i: int) -> bool {
        i16::MIN <= i <= i16::MAX
    }

    proof fn lemma_obeys() {
    }

    proof fn lemma_value(a: i16, b: i16) {
    }

    proof fn lemma_identities(a: i16) {
    }

    proof fn lemma_add(a: i16, b: i16) {
    }

    proof fn lemma_sub(a: i16, b: i16) {
    }

    proof fn lemma_mul(a: i16, b: i16) {
    }

    proof fn lemma_div_by_one(a: i16) {
    }
}

impl Integral for i32 {
    open spec fn value(self) -> int {
        self as int
    }

    open spec fn representable(i: int) -> bool {
        i32::MIN <= i <= i32::MAX
    }

    proof fn lemma_obeys() {
    }

    proof fn lemma_value(a: i32, b: i32) {
    }

    proof fn lemma_identities(a: i32) {
    }

    proof fn lemma_add(a: i32, b: i32) {
    }

    proof fn lemma_sub(a: i32, b: i32) {
    }

    proof fn lemma_mul(a: i32, b: i32) {
    }

    proof fn lemma_div_by_one(a: i32) {
    }
}

impl Integral for i64 {
    open spec fn value(self) -> int {
        self as int
    }

    open spec fn representable(i: int) -> bool {
        i64::MIN <= i <= i64::MAX
    }

    proof fn lemma_obeys() {
    }

    proof fn lemma_value(a: i64, b: i64) {
    }

    proof fn lemma_identities(a: i64) {
    }

    proof fn lemma_add(a: i64, b: i64) {
    }

    proof fn lemma_sub(a: i64, b: i64) {
    }

    proof fn lemma_mul(a: i64, b: i64) {
    }

    proof fn lemma_div_by_one(a: i64) {
    }
}

impl Integral for u8 {
    open spec fn value(self) -> int {
        self as int
    }

    open spec fn representable(i: int) -> bool {
        u8::MIN <= i <= u8::MAX
    }

    proof fn lemma_obeys() {
    }

    proof fn lemma_value(a: u8, b: u8) {
    }

    proof fn lemma_identities(a: u8) {
    }

    proof fn lemma_add(a: u8, b: u8) {
    }

    proof fn lemma_sub(a: u8, b: u8) {
    }

    proof fn lemma_mul(a: u8, b: u8) {
    }

    proof fn lemma_div_by_one(a: u8) {
    }
}

impl Integral for u16 {
    open spec fn value(self) -> int {
        self as int
    }

    open spec fn representable(i: int) -> bool {
        u16::MIN <= i <= u16::MAX
    }

    proof fn lemma_obeys() {
    }

    proof fn lemma_value(a: u16, b: u16) {
    }

    proof fn lemma_identities(a: u16) {
    }

    proof fn lemma_add(a: u16, b: u16) {
    }

    proof fn lemma_sub(a: u16, b: u16) {
    }

    proof fn lemma_mul(a: u16, b: u16) {
    }

    proof fn lemma_div_by_one(a: u16) {
    }
}

impl Integral for u32 {
    open spec fn value(self) -> int {
        self as int
    }

    open spec fn representable(i: int) -> bool {
        u32::MIN <= i <= u32::MAX
    }

    proof fn lemma_obeys() {
    }

    proof fn lemma_value(a: u32, b: u32) {
    }

    proof fn lemma_identities(a: u32) {
    }

    proof fn lemma_add(a: u32, b: u32) {
    }

    proof fn lemma_sub(a: u32, b: u32) {
    }

    proof fn lemma_mul(a: u32, b: u32) {
    }

    proof fn lemma_div_by_one(a: u32) {
    }
}

impl Integral for u64 {
    open spec fn value(self) -> int {
        self as int
    }

    open spec fn representable(i: int) -> bool {
        u64::MIN <= i <= u64::MAX
    }

    proof fn lemma_obeys() {
    }

    proof fn lemma_value(a: u64, b: u64) {
    }

    proof fn lemma_identities(a: u64) {
    }

    proof fn lemma_add(a: u64, b: u64) {
    }

    proof fn lemma_sub(a: u64, b: u64) {
    }

    proof fn lemma_mul(a: u64, b: u64) {
    }

    proof fn lemma_div_by_one(a: u64) {
    }
}

} // verus!
