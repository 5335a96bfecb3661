//! Laws of the determinant.
use crate::field::{
    add_identity, is_field, lemma_mul_zero, lemma_one_mul, lemma_sub_zero, lemma_zero_add,
};
use crate::integral::Integral;
use crate::matrix::determinant::{
    add3, add3_req, cofactor_sign, cofactor_term, cofactor_term_req, det, det2, det2_req, det3,
    det3_minus, det3_plus, det3_req, det4, det4_prefix, det4_req, det_req, mul3, mul3_req,
};
use crate::matrix::{is_grid, without};
use crate::traits::{Negative, One, Zero};
use std::ops::{Add, Div, Mul, Sub};
use vstd::prelude::*;
use vstd::std_specs::ops::{AddSpec, MulSpec};

verus! {

/// The integers that the entries of a grid stand for.
pub open spec fn values<K: Integral>(m: Seq<Seq<K>>) -> Seq<Seq<int>> {
    Seq::new(m.len(), |i: int| Seq::new(m[i].len(), |j: int| m[i][j].value()))
}

/// The determinant of a 2×2 grid of integers.
pub open spec fn int_det2(g: Seq<Seq<int>>) -> int {
    g[0][0] * g[1][1] - g[0][1] * g[1][0]
}

/// The determinant of a 3×3 grid of integers, expanded along the first row.
pub open spec fn int_det3(g: Seq<Seq<int>>) -> int {
    g[0][0] * (g[1][1] * g[2][2] - g[1][2] * g[2][1]) - g[0][1] * (g[1][0] * g[2][2] - g[1][2]
        * g[2][0]) + g[0][2] * (g[1][0] * g[2][1] - g[1][1] * g[2][0])
}

/// The determinant of a 4×4 grid of integers, expanded along the first row.
pub open spec fn int_det4(g: Seq<Seq<int>>) -> int {
    g[0][0] * int_det3(without(g, 0, 0)) - g[0][1] * int_det3(without(g, 0, 1)) + g[0][2]
        * int_det3(without(g, 0, 2)) - g[0][3] * int_det3(without(g, 0, 3))
}

/// Whether every entry of `m` off the diagonal is the additive identity.
pub open spec fn is_diagonal<K: Zero>(m: Seq<Seq<K>>) -> bool {
    forall|i: int, j: int|
        0 <= i < m.len() && 0 <= j < m[i].len() && i != j ==> #[trigger] m[i][j] == K::zero_spec()
}

/// The integer that `(x * y) * z` stands for.
pub proof fn lemma_mul3_value<K: Integral>(x: K, y: K, z: K)
    requires
        mul3_req(x, y, z),
    ensures
        mul3(x, y, z).value() == x.value() * y.value() * z.value(),
{
    K::lemma_mul(x, y);
    K::lemma_mul(x.mul_spec(y), z);
}

/// The integer that `(x + y) + z` stands for.
pub proof fn lemma_add3_value<K: Integral>(x: K, y: K, z: K)
    requires
        add3_req(x, y, z),
    ensures
        add3(x, y, z).value() == x.value() + y.value() + z.value(),
{
    K::lemma_add(x, y);
    K::lemma_add(x.add_spec(y), z);
}

/// The determinant of a 2×2 grid of integral scalars stands for the
/// determinant of the integers that its entries stand for.
pub proof fn lemma_det2_value<K: Integral>(m: Seq<Seq<K>>)
    requires
        is_grid(m, 2, 2),
        det2_req(m),
    ensures
        det2(m).value() == int_det2(values(m)),
{
    K::lemma_mul(m[0][0], m[1][1]);
    K::lemma_mul(m[0][1], m[1][0]);
    K::lemma_sub(m[0][0].mul_spec(m[1][1]), m[0][1].mul_spec(m[1][0]));
}

/// The determinant of a 3×3 grid of integral scalars stands for the
/// determinant of the integers that its entries stand for.
pub proof fn lemma_det3_value<K: Integral>(m: Seq<Seq<K>>)
    requires
        is_grid(m, 3, 3),
        det3_req(m),
    ensures
        det3(m).value() == int_det3(values(m)),
{
    lemma_mul3_value(m[0][0], m[1][1], m[2][2]);
    lemma_mul3_value(m[0][1], m[1][2], m[2][0]);
    lemma_mul3_value(m[0][2], m[1][0], m[2][1]);
    lemma_mul3_value(m[0][2], m[1][1], m[2][0]);
    lemma_mul3_value(m[0][1], m[1][0], m[2][2]);
    lemma_mul3_value(m[0][0], m[1][2], m[2][1]);
    lemma_add3_value(
        mul3(m[0][0], m[1][1], m[2][2]),
        mul3(m[0][1], m[1][2], m[2][0]),
        mul3(m[0][2], m[1][0], m[2][1]),
    );
    lemma_add3_value(
        mul3(m[0][2], m[1][1], m[2][0]),
        mul3(m[0][1], m[1][0], m[2][2]),
        mul3(m[0][0], m[1][2], m[2][1]),
    );
    K::lemma_sub(det3_plus(m), det3_minus(m));
    let g = values(m);
    let (a, b, c) = (g[0][0], g[0][1], g[0][2]);
    let (d, e, f) = (g[1][0], g[1][1], g[1][2]);
    let (p, q, r) = (g[2][0], g[2][1], g[2][2]);
    assert(a * (e * r - f * q) == a * e * r - a * f * q) by (nonlinear_arith);
    assert(b * (d * r - f * p) == b * d * r - b * f * p) by (nonlinear_arith);
    assert(c * (d * q - e * p) == c * d * q - c * e * p) by (nonlinear_arith);
}

/// What [`det4_req`] asks of the term of column `j`.
pub proof fn lemma_det4_req_at<K: Integral + Negative>(m: Seq<Seq<K>>, j: int)
    requires
        det4_req(m),
        0 <= j < 4,
    ensures
        cofactor_term_req(m, j),
        det4_prefix(m, j).add_req(cofactor_term(m, j)),
{
}

/// The integer that the expansion of a 4×4 determinant stands for is the sum
/// of the integers that its four terms stand for.
pub proof fn lemma_det4_sum<K: Integral + Negative>(m: Seq<Seq<K>>)
    requires
        det4_req(m),
    ensures
        det4(m).value() == cofactor_term(m, 0).value() + cofactor_term(m, 1).value()
            + cofactor_term(m, 2).value() + cofactor_term(m, 3).value(),
{
    K::lemma_identities(m[0][0]);
    K::lemma_add(det4_prefix(m, 0), cofactor_term(m, 0));
    K::lemma_add(det4_prefix(m, 1), cofactor_term(m, 1));
    K::lemma_add(det4_prefix(m, 2), cofactor_term(m, 2));
    K::lemma_add(det4_prefix(m, 3), cofactor_term(m, 3));
}

/// The determinant of a 4×4 grid of integral scalars stands for the
/// determinant of the integers that its entries stand for, provided that the
/// negative one of the type stands for −1.
pub proof fn lemma_det4_value<K: Integral + Negative>(m: Seq<Seq<K>>)
    requires
        is_grid(m, 4, 4),
        det4_req(m),
        K::negative_one_spec().value() == -1,
    ensures
        det4(m).value() == int_det4(values(m)),
{
    lemma_det4_sum(m);
    K::lemma_identities(m[0][0]);
    let g = values(m);
    assert forall|j: int| 0 <= j < 4 implies (#[trigger] cofactor_term(m, j)).value()
        == cofactor_sign::<K>(j).value() * g[0][j] * int_det3(without(g, 0, j)) by {
        lemma_det4_req_at(m, j);
        lemma_det3_value(without(m, 0, j));
        lemma_mul3_value(cofactor_sign::<K>(j), m[0][j], det3(without(m, 0, j)));
    }
    let (d0, d1, d2, d3) = (
        int_det3(without(g, 0, 0)),
        int_det3(without(g, 0, 1)),
        int_det3(without(g, 0, 2)),
        int_det3(without(g, 0, 3)),
    );
    assert(cofactor_term(m, 0).value() == g[0][0] * d0) by {
        assert(1 * g[0][0] * d0 == g[0][0] * d0) by (nonlinear_arith);
    }
    assert(cofactor_term(m, 1).value() == -(g[0][1] * d1)) by {
        assert((-1) * g[0][1] * d1 == -(g[0][1] * d1)) by (nonlinear_arith);
    }
    assert(cofactor_term(m, 2).value() == g[0][2] * d2) by {
        assert(1 * g[0][2] * d2 == g[0][2] * d2) by (nonlinear_arith);
    }
    assert(cofactor_term(m, 3).value() == -(g[0][3] * d3)) by {
        assert((-1) * g[0][3] * d3 == -(g[0][3] * d3)) by (nonlinear_arith);
    }
}

/// The determinant of a square grid of integral scalars of dimension 1 to 4
/// stands for the determinant of the integers that its entries stand for,
/// wherever it may be evaluated.
pub proof fn lemma_det_value<K: Integral + Negative>(m: Seq<Seq<K>>, n: nat)
    requires
        1 <= n <= 4,
        is_grid(m, n, n),
        det_req(m, n, n),
        K::negative_one_spec().value() == -1,
    ensures
        n == 1 ==> det(m, n, n).value() == values(m)[0][0],
        n == 2 ==> det(m, n, n).value() == int_det2(values(m)),
        n == 3 ==> det(m, n, n).value() == int_det3(values(m)),
        n == 4 ==> det(m, n, n).value() == int_det4(values(m)),
{
    if n == 2 {
        lemma_det2_value(m);
    } else if n == 3 {
        lemma_det3_value(m);
    } else if n == 4 {
        lemma_det4_value(m);
    }
}

/// The determinant of a 4×4 diagonal grid of integral scalars, wherever it
/// may be evaluated, stands for the product of the integers on its diagonal.
pub proof fn lemma_det_of_diagonal<K: Integral + Negative>(m: Seq<Seq<K>>)
    requires
        is_grid(m, 4, 4),
        is_diagonal(m),
        det_req(m, 4, 4),
    ensures
        det(m, 4, 4).value() == m[0][0].value() * m[1][1].value() * m[2][2].value()
            * m[3][3].value(),
{
    lemma_det4_sum(m);
    K::lemma_identities(m[0][0]);
    let g = values(m);
    assert forall|j: int| 1 <= j < 4 implies (#[trigger] cofactor_term(m, j)).value() == 0 by {
        lemma_det4_req_at(m, j);
        let det_minor = det3(without(m, 0, j));
        lemma_mul3_value(cofactor_sign::<K>(j), m[0][j], det_minor);
        assert(cofactor_sign::<K>(j).value() * 0 * det_minor.value() == 0) by (nonlinear_arith);
    }
    lemma_det4_req_at(m, 0);
    let minor = without(m, 0, 0);
    lemma_det3_value(minor);
    lemma_mul3_value(cofactor_sign::<K>(0), m[0][0], det3(minor));
    let h = without(g, 0, 0);
    let (a, e, r) = (g[1][1], g[2][2], g[3][3]);
    assert(int_det3(h) == a * e * r) by {
        assert(a * (e * r - 0 * 0) - 0 * (0 * r - 0 * 0) + 0 * (0 * 0 - e * 0) == a * e * r)
            by (nonlinear_arith);
    }
    assert(1 * g[0][0] * (a * e * r) == g[0][0] * a * e * r) by (nonlinear_arith);
}

/// Over a field, a product of three factors of which one is zero is zero.
proof fn lemma_mul3_with_zero<
    K: Zero + One + Add<Output = K> + Sub<Output = K> + Mul<Output = K> + Div<Output = K>,
>(x: K, y: K, z: K)
    requires
        is_field::<K>(),
        x == K::zero_spec() || y == K::zero_spec() || z == K::zero_spec(),
    ensures
        mul3(x, y, z) == K::zero_spec(),
{
    lemma_mul_zero(x);
    lemma_mul_zero(y);
    lemma_mul_zero(z);
    lemma_mul_zero(x.mul_spec(y));
}

/// Over a field, the determinant of a 4×4 diagonal grid is the product of
/// the entries on its diagonal: the first times the product of the other
/// three.
pub proof fn lemma_det_of_diagonal_in_field<
    K: Zero + One + Negative + Add<Output = K> + Sub<Output = K> + Mul<Output = K> + Div<
        Output = K,
    >,
>(m: Seq<Seq<K>>)
    requires
        is_field::<K>(),
        is_grid(m, 4, 4),
        is_diagonal(m),
    ensures
        det(m, 4, 4) == m[0][0].mul_spec(m[1][1].mul_spec(m[2][2]).mul_spec(m[3][3])),
{
    reveal_with_fuel(det4_prefix, 5);
    let zero = K::zero_spec();
    // the terms of the columns 1 to 3 have the factor m[0][j] = 0
    assert forall|j: int| 1 <= j < 4 implies #[trigger] cofactor_term(m, j) == zero by {
        assert(m[0][j] == zero);
        lemma_mul3_with_zero(cofactor_sign::<K>(j), m[0][j], det3(without(m, 0, j)));
    }
    // the minor of column 0 is the diagonal grid of the other three entries
    let minor = without(m, 0, 0);
    assert(minor[0] == m[1].remove(0));
    assert(minor[1] == m[2].remove(0));
    assert(minor[2] == m[3].remove(0));
    let (a, e, r) = (m[1][1], m[2][2], m[3][3]);
    assert(minor[0][0] == a && minor[1][1] == e && minor[2][2] == r);
    assert(minor[0][1] == zero && minor[0][2] == zero && minor[1][0] == zero);
    assert(minor[1][2] == zero && minor[2][0] == zero && minor[2][1] == zero);
    let product = a.mul_spec(e).mul_spec(r);
    lemma_mul3_with_zero(minor[0][1], minor[1][2], minor[2][0]);
    lemma_mul3_with_zero(minor[0][2], minor[1][0], minor[2][1]);
    lemma_mul3_with_zero(minor[0][2], minor[1][1], minor[2][0]);
    lemma_mul3_with_zero(minor[0][1], minor[1][0], minor[2][2]);
    lemma_mul3_with_zero(minor[0][0], minor[1][2], minor[2][1]);
    assert(add_identity(product));
    assert(add_identity(zero));
    assert(det3_plus(minor) == product);
    assert(det3_minus(minor) == zero);
    lemma_sub_zero(product);
    assert(det3(minor) == product);
    // the term of column 0 is (1 · m[0][0]) · det(minor)
    lemma_one_mul(m[0][0]);
    let first = cofactor_term(m, 0);
    assert(first == m[0][0].mul_spec(product));
    // ((((0 + first) + 0) + 0) + 0 = first
    lemma_zero_add(first);
    assert(add_identity(first));
}

} // verus!
