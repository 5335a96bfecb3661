//! The cross product of three-dimensional vectors.
use crate::vector::Vector;
use std::ops::{Mul, Sub};
use vstd::prelude::*;
use vstd::std_specs::ops::{MulSpec, SubSpec};

verus! {

/// Whether `a·b − c·d` may be evaluated.
pub open spec fn minor_req<K: Sub<Output = K> + Mul<Output = K>>(a: K, b: K, c: K, d: K) -> bool {
    a.mul_req(b) && c.mul_req(d) && a.mul_spec(b).sub_req(c.mul_spec(d))
}

/// The value `a·b − c·d`.
pub open spec fn minor<K: Sub<Output = K> + Mul<Output = K>>(a: K, b: K, c: K, d: K) -> K {
    a.mul_spec(b).sub_spec(c.mul_spec(d))
}

/// Whether the three components of [`cross`] may be evaluated.
pub open spec fn cross_req<K: Sub<Output = K> + Mul<Output = K>>(u: Seq<K>, v: Seq<K>) -> bool {
    &&& minor_req(u[1], v[2], u[2], v[1])
    &&& minor_req(u[2], v[0], u[0], v[2])
    &&& minor_req(u[0], v[1], u[1], v[0])
}

/// The cross product of two sequences of three scalars:
/// `[u₁v₂ − u₂v₁, u₂v₀ − u₀v₂, u₀v₁ − u₁v₀]`.
pub open spec fn cross<K: Sub<Output = K> + Mul<Output = K>>(u: Seq<K>, v: Seq<K>) -> Seq<K> {
    seq![
        minor(u[1], v[2], u[2], v[1]),
        minor(u[2], v[0], u[0], v[2]),
        minor(u[0], v[1], u[1], v[0]),
    ]
}

/// The cross product of `u` and `v`.
///
/// The product is defined for two vectors of three components each. For any
/// other pair the function does no arithmetic and hands back a copy of `u`.
pub fn cross_product<K>(u: &Vector<K>, v: &Vector<K>) -> (r: Vector<K>) where
    K: Copy + Sub<Output = K> + Mul<Output = K>,

    requires
        u@.len() == 3 && v@.len() == 3 ==> K::obeys_mul_spec() && cross_req(u@, v@),
    ensures
        u@.len() != 3 || v@.len() != 3 ==> r@ == u@,
        u@.len() == 3 && v@.len() == 3 ==> r@.len() == 3,
        u@.len() == 3 && v@.len() == 3 && K::obeys_sub_spec() ==> r@ == cross(u@, v@),
{
    if u.len() != 3 || v.len() != 3 {
        return Vector::from(u.as_slice());
    }
    let a = u.as_slice();
    let b = v.as_slice();
    let r = Vector::from(
        [a[1] * b[2] - a[2] * b[1], a[2] * b[0] - a[0] * b[2], a[0] * b[1] - a[1] * b[0]],
    );
    r
}

} // verus!
