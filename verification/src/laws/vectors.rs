//! Laws of vector addition, subtraction and the cross product.
use crate::cross_product::{cross, cross_req, minor, minor_req};
use crate::field::{
    add_commutes, is_field, lemma_add_then_sub, lemma_mul_left_commutes, lemma_mul_sub,
    lemma_sub_self, lemma_sub_telescopes, lemma_zero_add, mul_commutes,
};
use crate::integral::Integral;
use crate::slices::{dot_prefix, seq_add, seq_add_req, seq_dot, seq_dot_req, seq_sub, seq_sub_req};
use crate::traits::{One, Zero};
use std::ops::{Add, Div, Mul, Sub};
use vstd::prelude::*;
use vstd::std_specs::ops::{AddSpec, MulSpec, SubSpec};

verus! {

/// Adding `v` to `u` and subtracting `v` again restores `u`: where the sum
/// may be evaluated, so may the difference, and it is `u`.
pub proof fn lemma_add_then_sub_restores<K: Integral>(u: Seq<K>, v: Seq<K>)
    requires
        u.len() == v.len(),
        seq_add_req(u, v),
    ensures
        seq_sub_req(seq_add(u, v), v),
        seq_sub(seq_add(u, v), v) == u,
{
    let sum = seq_add(u, v);
    assert forall|i: int|
        #![trigger sum[i].sub_req(v[i])]
        #![trigger sum[i].sub_spec(v[i])]
        0 <= i < u.len() implies sum[i].sub_req(v[i]) && sum[i].sub_spec(v[i]) == u[i] by {
        K::lemma_add(u[i], v[i]);
        K::lemma_sub(sum[i], v[i]);
        K::lemma_value(u[i], u[i]);
        K::lemma_value(sum[i].sub_spec(v[i]), u[i]);
    }
}

/// Over a field, adding `v` to `u` and subtracting `v` again restores `u`.
pub proof fn lemma_add_then_sub_restores_in_field<
    K: Zero + One + Add<Output = K> + Sub<Output = K> + Mul<Output = K> + Div<Output = K>,
>(u: Seq<K>, v: Seq<K>)
    requires
        is_field::<K>(),
        u.len() == v.len(),
    ensures
        seq_sub(seq_add(u, v), v) == u,
{
    assert forall|i: int| 0 <= i < u.len() implies #[trigger] u[i].add_spec(v[i]).sub_spec(v[i])
        == u[i] by {
        lemma_add_then_sub(u[i], v[i]);
    }
}

/// The integer that `a·b − c·d` stands for.
pub proof fn lemma_minor_value<K: Integral>(a: K, b: K, c: K, d: K)
    requires
        minor_req(a, b, c, d),
    ensures
        minor(a, b, c, d).value() == a.value() * b.value() - c.value() * d.value(),
{
    K::lemma_mul(a, b);
    K::lemma_mul(c, d);
    K::lemma_sub(a.mul_spec(b), c.mul_spec(d));
}

/// The integer that a dot product of two sequences of three scalars stands
/// for.
pub proof fn lemma_dot3_value<K: Integral>(u: Seq<K>, v: Seq<K>)
    requires
        u.len() == 3,
        v.len() == 3,
        seq_dot_req(u, v),
    ensures
        seq_dot(u, v).value() == u[0].value() * v[0].value() + u[1].value() * v[1].value()
            + u[2].value() * v[2].value(),
{
    K::lemma_identities(u[0]);
    let sum0 = dot_prefix(u, v, 0);
    let sum1 = dot_prefix(u, v, 1);
    let sum2 = dot_prefix(u, v, 2);
    K::lemma_mul(u[0], v[0]);
    K::lemma_mul(u[1], v[1]);
    K::lemma_mul(u[2], v[2]);
    K::lemma_add(sum0, u[0].mul_spec(v[0]));
    K::lemma_add(sum1, u[1].mul_spec(v[1]));
    K::lemma_add(sum2, u[2].mul_spec(v[2]));
}

/// The cross product of `u` and `v` is orthogonal to both: its dot product
/// with either, where it may be evaluated, is zero.
pub proof fn lemma_cross_orthogonal<K: Integral>(u: Seq<K>, v: Seq<K>)
    requires
        u.len() == 3,
        v.len() == 3,
        cross_req(u, v),
    ensures
        seq_dot_req(u, cross(u, v)) ==> seq_dot(u, cross(u, v)) == K::zero_spec(),
        seq_dot_req(v, cross(u, v)) ==> seq_dot(v, cross(u, v)) == K::zero_spec(),
{
    let c = cross(u, v);
    lemma_minor_value(u[1], v[2], u[2], v[1]);
    lemma_minor_value(u[2], v[0], u[0], v[2]);
    lemma_minor_value(u[0], v[1], u[1], v[0]);
    K::lemma_identities(u[0]);
    let (u0, u1, u2) = (u[0].value(), u[1].value(), u[2].value());
    let (v0, v1, v2) = (v[0].value(), v[1].value(), v[2].value());
    if seq_dot_req(u, c) {
        lemma_dot3_value(u, c);
        assert(u0 * (u1 * v2 - u2 * v1) + u1 * (u2 * v0 - u0 * v2) + u2 * (u0 * v1 - u1 * v0) == 0)
            by (nonlinear_arith);
        K::lemma_value(seq_dot(u, c), K::zero_spec());
    }
    if seq_dot_req(v, c) {
        lemma_dot3_value(v, c);
        assert(v0 * (u1 * v2 - u2 * v1) + v1 * (u2 * v0 - u0 * v2) + v2 * (u0 * v1 - u1 * v0) == 0)
            by (nonlinear_arith);
        K::lemma_value(seq_dot(v, c), K::zero_spec());
    }
}

/// The cross product is anticommutative: each component of `u × v` stands
/// for the negative of the same component of `v × u`.
pub proof fn lemma_cross_anticommutative<K: Integral>(u: Seq<K>, v: Seq<K>)
    requires
        u.len() == 3,
        v.len() == 3,
        cross_req(u, v),
        cross_req(v, u),
    ensures
        forall|i: int|
            0 <= i < 3 ==> (#[trigger] cross(u, v)[i]).value() == -cross(v, u)[i].value(),
{
    lemma_minor_value(u[1], v[2], u[2], v[1]);
    lemma_minor_value(u[2], v[0], u[0], v[2]);
    lemma_minor_value(u[0], v[1], u[1], v[0]);
    lemma_minor_value(v[1], u[2], v[2], u[1]);
    lemma_minor_value(v[2], u[0], v[0], u[2]);
    lemma_minor_value(v[0], u[1], v[1], u[0]);
    let (u0, u1, u2) = (u[0].value(), u[1].value(), u[2].value());
    let (v0, v1, v2) = (v[0].value(), v[1].value(), v[2].value());
    assert(u1 * v2 - u2 * v1 == -(v1 * u2 - v2 * u1)) by (nonlinear_arith);
    assert(u2 * v0 - u0 * v2 == -(v2 * u0 - v0 * u2)) by (nonlinear_arith);
    assert(u0 * v1 - u1 * v0 == -(v0 * u1 - v1 * u0)) by (nonlinear_arith);
}

/// Over a field, `x · (y·z − w·t) = x·(y·z) − x·(w·t)`, the product of a
/// scalar with one component of a cross product.
proof fn lemma_mul_minor<
    K: Zero + One + Add<Output = K> + Sub<Output = K> + Mul<Output = K> + Div<Output = K>,
>(x: K, y: K, z: K, w: K, t: K)
    requires
        is_field::<K>(),
    ensures
        x.mul_spec(minor(y, z, w, t)) == x.mul_spec(y.mul_spec(z)).sub_spec(
            x.mul_spec(w.mul_spec(t)),
        ),
{
    lemma_mul_sub(x, y.mul_spec(z), w.mul_spec(t));
}

/// Over a field, `(a − b) + (c − a) + (b − c) = 0`, summed from the left and
/// onto zero.
proof fn lemma_cycle_of_differences<
    K: Zero + One + Add<Output = K> + Sub<Output = K> + Mul<Output = K> + Div<Output = K>,
>(a: K, b: K, c: K)
    requires
        is_field::<K>(),
    ensures
        K::zero_spec().add_spec(a.sub_spec(b)).add_spec(c.sub_spec(a)).add_spec(b.sub_spec(c))
            == K::zero_spec(),
{
    lemma_zero_add(a.sub_spec(b));
    // (a − b) + (c − a) = (c − a) + (a − b) = c − b
    assert(add_commutes(a.sub_spec(b), c.sub_spec(a)));
    lemma_sub_telescopes(c, a, b);
    // (c − b) + (b − c) = c − c = 0
    lemma_sub_telescopes(c, b, c);
    lemma_sub_self(c);
}

/// Over a field, the cross product of `u` and `v` is orthogonal to both: its
/// dot product with either is zero.
pub proof fn lemma_cross_orthogonal_in_field<
    K: Zero + One + Add<Output = K> + Sub<Output = K> + Mul<Output = K> + Div<Output = K>,
>(u: Seq<K>, v: Seq<K>)
    requires
        is_field::<K>(),
        u.len() == 3,
        v.len() == 3,
    ensures
        seq_dot(u, cross(u, v)) == K::zero_spec(),
        seq_dot(v, cross(u, v)) == K::zero_spec(),
{
    reveal_with_fuel(dot_prefix, 4);
    let c = cross(u, v);
    // u · c = (A − B) + (C − A) + (B − C) with
    // A = u0·(u1·v2), B = u0·(u2·v1), C = u1·(u2·v0)
    lemma_mul_minor(u[0], u[1], v[2], u[2], v[1]);
    lemma_mul_minor(u[1], u[2], v[0], u[0], v[2]);
    lemma_mul_minor(u[2], u[0], v[1], u[1], v[0]);
    lemma_mul_left_commutes(u[1], u[0], v[2]);
    lemma_mul_left_commutes(u[2], u[0], v[1]);
    lemma_mul_left_commutes(u[2], u[1], v[0]);
    lemma_cycle_of_differences(
        u[0].mul_spec(u[1].mul_spec(v[2])),
        u[0].mul_spec(u[2].mul_spec(v[1])),
        u[1].mul_spec(u[2].mul_spec(v[0])),
    );
    // v · c = (P − Q) + (Q − R) + (R − P) with
    // P = v0·(u1·v2), Q = v0·(u2·v1), R = v1·(u0·v2)
    lemma_mul_minor(v[0], u[1], v[2], u[2], v[1]);
    lemma_mul_minor(v[1], u[2], v[0], u[0], v[2]);
    lemma_mul_minor(v[2], u[0], v[1], u[1], v[0]);
    let p = v[0].mul_spec(u[1].mul_spec(v[2]));
    let q = v[0].mul_spec(u[2].mul_spec(v[1]));
    let r = v[1].mul_spec(u[0].mul_spec(v[2]));
    // v1·(u2·v0) = Q
    assert(mul_commutes(u[2], v[0]));
    lemma_mul_left_commutes(v[1], v[0], u[2]);
    assert(mul_commutes(v[1], u[2]));
    // v2·(u0·v1) = R
    assert(mul_commutes(u[0], v[1]));
    lemma_mul_left_commutes(v[2], v[1], u[0]);
    assert(mul_commutes(v[2], u[0]));
    // v2·(u1·v0) = P
    assert(mul_commutes(u[1], v[0]));
    lemma_mul_left_commutes(v[2], v[0], u[1]);
    assert(mul_commutes(v[2], u[1]));
    lemma_zero_add(p.sub_spec(q));
    lemma_sub_telescopes(p, q, r);
    lemma_sub_telescopes(p, r, p);
    lemma_sub_self(p);
}

/// Over a field, the cross product is anticommutative: each component of
/// `u × v` and the same component of `v × u` add up to zero.
pub proof fn lemma_cross_anticommutative_in_field<
    K: Zero + One + Add<Output = K> + Sub<Output = K> + Mul<Output = K> + Div<Output = K>,
>(u: Seq<K>, v: Seq<K>)
    requires
        is_field::<K>(),
        u.len() == 3,
        v.len() == 3,
    ensures
        forall|i: int|
            0 <= i < 3 ==> (#[trigger] cross(u, v)[i]).add_spec(cross(v, u)[i]) == K::zero_spec(),
{
    let c = cross(u, v);
    let d = cross(v, u);
    assert forall|i: int| 0 <= i < 3 implies (#[trigger] c[i]).add_spec(d[i])
        == K::zero_spec() by {
        // c[i] = a·b − x·y and d[i] = y·x − b·a for the matching components
        let (a, b, x, y) = if i == 0 {
            (u[1], v[2], u[2], v[1])
        } else if i == 1 {
            (u[2], v[0], u[0], v[2])
        } else {
            (u[0], v[1], u[1], v[0])
        };
        assert(c[i] == minor(a, b, x, y));
        assert(d[i] == minor(y, x, b, a));
        assert(mul_commutes(y, x));
        assert(mul_commutes(b, a));
        lemma_sub_telescopes(a.mul_spec(b), x.mul_spec(y), a.mul_spec(b));
        lemma_sub_self(a.mul_spec(b));
    }
}

} // verus!
