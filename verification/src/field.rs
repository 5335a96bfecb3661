//! Scalars that form a field.
//!
//! What the elimination algorithms of this crate compute is an inverse or a
//! rank in the sense of linear algebra only where the scalar arithmetic is
//! exact and keeps to the laws of a field. [`is_field`] states those laws of
//! a scalar type's own arithmetic, and the lemmas of this module draw from
//! them what the proofs about elimination need.
use crate::traits::{One, Zero};
use std::ops::{Add, Div, Mul, Sub};
use vstd::prelude::*;
use vstd::std_specs::ops::{AddSpec, DivSpec, MulSpec, SubSpec};

verus! {

/// `a + b = b + a`.
pub open spec fn add_commutes<K: Add<Output = K>>(a: K, b: K) -> bool {
    a.add_spec(b) == b.add_spec(a)
}

/// `(a + b) + c = a + (b + c)`.
pub open spec fn add_associates<K: Add<Output = K>>(a: K, b: K, c: K) -> bool {
    a.add_spec(b).add_spec(c) == a.add_spec(b.add_spec(c))
}

/// `a + 0 = a`.
pub open spec fn add_identity<K: Zero + Add<Output = K>>(a: K) -> bool {
    a.add_spec(K::zero_spec()) == a
}

/// `(a − b) + b = a`.
pub open spec fn sub_inverts_add<K: Add<Output = K> + Sub<Output = K>>(a: K, b: K) -> bool {
    a.sub_spec(b).add_spec(b) == a
}

/// `a · b = b · a`.
pub open spec fn mul_commutes<K: Mul<Output = K>>(a: K, b: K) -> bool {
    a.mul_spec(b) == b.mul_spec(a)
}

/// `(a · b) · c = a · (b · c)`.
pub open spec fn mul_associates<K: Mul<Output = K>>(a: K, b: K, c: K) -> bool {
    a.mul_spec(b).mul_spec(c) == a.mul_spec(b.mul_spec(c))
}

/// `a · 1 = a`.
pub open spec fn mul_identity<K: One + Mul<Output = K>>(a: K) -> bool {
    a.mul_spec(K::one_spec()) == a
}

/// `(a / b) · b = a` for every `b` other than zero.
pub open spec fn div_inverts_mul<K: Zero + Mul<Output = K> + Div<Output = K>>(a: K, b: K) -> bool {
    b != K::zero_spec() ==> a.div_spec(b).mul_spec(b) == a
}

/// `a · (b + c) = a · b + a · c`.
pub open spec fn distributes<K: Add<Output = K> + Mul<Output = K>>(a: K, b: K, c: K) -> bool {
    a.mul_spec(b.add_spec(c)) == a.mul_spec(b).add_spec(a.mul_spec(c))
}

/// Whether the arithmetic of `K` is that of a field: addition and
/// multiplication are commutative and associative, with zero and one as
/// their identities, which differ; subtraction undoes addition, and division
/// by a value other than zero undoes multiplication; multiplication
/// distributes over addition; and only the zero of the type counts as zero.
pub open spec fn is_field<
    K: Zero + One + Add<Output = K> + Sub<Output = K> + Mul<Output = K> + Div<Output = K>,
>() -> bool {
    &&& forall|a: K, b: K| #[trigger] add_commutes(a, b)
    &&& forall|a: K, b: K, c: K| #[trigger] add_associates(a, b, c)
    &&& forall|a: K| #[trigger] add_identity(a)
    &&& forall|a: K, b: K| #[trigger] sub_inverts_add(a, b)
    &&& forall|a: K, b: K| #[trigger] mul_commutes(a, b)
    &&& forall|a: K, b: K, c: K| #[trigger] mul_associates(a, b, c)
    &&& forall|a: K| #[trigger] mul_identity(a)
    &&& forall|a: K, b: K| #[trigger] div_inverts_mul(a, b)
    &&& forall|a: K, b: K, c: K| #[trigger] distributes(a, b, c)
    &&& forall|a: K| #[trigger] a.is_zero_spec() <==> a == K::zero_spec()
    &&& K::one_spec() != K::zero_spec()
}

/// Addition of one value on the right can be cancelled.
pub proof fn lemma_add_cancel<
    K: Zero + One + Add<Output = K> + Sub<Output = K> + Mul<Output = K> + Div<Output = K>,
>(u: K, v: K, b: K)
    requires
        is_field::<K>(),
        u.add_spec(b) == v.add_spec(b),
    ensures
        u == v,
{
    let zero = K::zero_spec();
    let nb = zero.sub_spec(b);
    // b + (0 − b) = 0
    assert(sub_inverts_add(zero, b));
    assert(add_commutes(nb, b));
    // u = u + 0 = u + (b + nb) = (u + b) + nb, and the same for v
    assert(add_identity(u));
    assert(add_identity(v));
    assert(add_associates(u, b, nb));
    assert(add_associates(v, b, nb));
}

/// `0 + a = a`.
pub proof fn lemma_zero_add<
    K: Zero + One + Add<Output = K> + Sub<Output = K> + Mul<Output = K> + Div<Output = K>,
>(a: K)
    requires
        is_field::<K>(),
    ensures
        K::zero_spec().add_spec(a) == a,
{
    assert(add_identity(a));
    assert(add_commutes(a, K::zero_spec()));
}

/// `a − a = 0`.
pub proof fn lemma_sub_self<
    K: Zero + One + Add<Output = K> + Sub<Output = K> + Mul<Output = K> + Div<Output = K>,
>(a: K)
    requires
        is_field::<K>(),
    ensures
        a.sub_spec(a) == K::zero_spec(),
{
    assert(sub_inverts_add(a, a));
    lemma_zero_add(a);
    lemma_add_cancel(a.sub_spec(a), K::zero_spec(), a);
}

/// `a − 0 = a`.
pub proof fn lemma_sub_zero<
    K: Zero + One + Add<Output = K> + Sub<Output = K> + Mul<Output = K> + Div<Output = K>,
>(a: K)
    requires
        is_field::<K>(),
    ensures
        a.sub_spec(K::zero_spec()) == a,
{
    assert(sub_inverts_add(a, K::zero_spec()));
    assert(add_identity(a.sub_spec(K::zero_spec())));
}

/// `(a + b) − b = a`.
pub proof fn lemma_add_then_sub<
    K: Zero + One + Add<Output = K> + Sub<Output = K> + Mul<Output = K> + Div<Output = K>,
>(a: K, b: K)
    requires
        is_field::<K>(),
    ensures
        a.add_spec(b).sub_spec(b) == a,
{
    assert(sub_inverts_add(a.add_spec(b), b));
    lemma_add_cancel(a.add_spec(b).sub_spec(b), a, b);
}

/// `a · 0 = 0` and `0 · a = 0`.
pub proof fn lemma_mul_zero<
    K: Zero + One + Add<Output = K> + Sub<Output = K> + Mul<Output = K> + Div<Output = K>,
>(a: K)
    requires
        is_field::<K>(),
    ensures
        a.mul_spec(K::zero_spec()) == K::zero_spec(),
        K::zero_spec().mul_spec(a) == K::zero_spec(),
{
    let zero = K::zero_spec();
    let az = a.mul_spec(zero);
    // a·0 + a·0 = a·(0 + 0) = a·0 = 0 + a·0
    assert(distributes(a, zero, zero));
    assert(add_identity(zero));
    lemma_zero_add(az);
    lemma_add_cancel(az, zero, az);
    assert(mul_commutes(a, zero));
}

/// `1 · a = a`.
pub proof fn lemma_one_mul<
    K: Zero + One + Add<Output = K> + Sub<Output = K> + Mul<Output = K> + Div<Output = K>,
>(a: K)
    requires
        is_field::<K>(),
    ensures
        K::one_spec().mul_spec(a) == a,
{
    assert(mul_identity(a));
    assert(mul_commutes(a, K::one_spec()));
}

/// `c · (a − b) = c · a − c · b`.
pub proof fn lemma_mul_sub<
    K: Zero + One + Add<Output = K> + Sub<Output = K> + Mul<Output = K> + Div<Output = K>,
>(c: K, a: K, b: K)
    requires
        is_field::<K>(),
    ensures
        c.mul_spec(a.sub_spec(b)) == c.mul_spec(a).sub_spec(c.mul_spec(b)),
{
    let cb = c.mul_spec(b);
    // c·(a − b) + c·b = c·((a − b) + b) = c·a = (c·a − c·b) + c·b
    assert(distributes(c, a.sub_spec(b), b));
    assert(sub_inverts_add(a, b));
    assert(sub_inverts_add(c.mul_spec(a), cb));
    lemma_add_cancel(c.mul_spec(a.sub_spec(b)), c.mul_spec(a).sub_spec(cb), cb);
}

/// `(a + b) · c = a · c + b · c`.
pub proof fn lemma_add_mul<
    K: Zero + One + Add<Output = K> + Sub<Output = K> + Mul<Output = K> + Div<Output = K>,
>(a: K, b: K, c: K)
    requires
        is_field::<K>(),
    ensures
        a.add_spec(b).mul_spec(c) == a.mul_spec(c).add_spec(b.mul_spec(c)),
{
    assert(distributes(c, a, b));
    assert(mul_commutes(a.add_spec(b), c));
    assert(mul_commutes(a, c));
    assert(mul_commutes(b, c));
}

/// Multiplication by a value other than zero on the right can be cancelled.
pub proof fn lemma_mul_cancel<
    K: Zero + One + Add<Output = K> + Sub<Output = K> + Mul<Output = K> + Div<Output = K>,
>(u: K, v: K, p: K)
    requires
        is_field::<K>(),
        p != K::zero_spec(),
        u.mul_spec(p) == v.mul_spec(p),
    ensures
        u == v,
{
    let r = K::one_spec().div_spec(p);
    // r·p = 1, so p·r = 1
    assert(div_inverts_mul(K::one_spec(), p));
    assert(mul_commutes(r, p));
    // u = u·1 = u·(p·r) = (u·p)·r, and the same for v
    assert(mul_identity(u));
    assert(mul_identity(v));
    assert(mul_associates(u, p, r));
    assert(mul_associates(v, p, r));
}

/// `a / a = 1` for every `a` other than zero.
pub proof fn lemma_div_self<
    K: Zero + One + Add<Output = K> + Sub<Output = K> + Mul<Output = K> + Div<Output = K>,
>(a: K)
    requires
        is_field::<K>(),
        a != K::zero_spec(),
    ensures
        a.div_spec(a) == K::one_spec(),
{
    assert(div_inverts_mul(a, a));
    lemma_one_mul(a);
    lemma_mul_cancel(a.div_spec(a), K::one_spec(), a);
}

/// `0 / p = 0` for every `p` other than zero.
pub proof fn lemma_zero_div<
    K: Zero + One + Add<Output = K> + Sub<Output = K> + Mul<Output = K> + Div<Output = K>,
>(p: K)
    requires
        is_field::<K>(),
        p != K::zero_spec(),
    ensures
        K::zero_spec().div_spec(p) == K::zero_spec(),
{
    assert(div_inverts_mul(K::zero_spec(), p));
    lemma_mul_zero(p);
    lemma_mul_cancel(K::zero_spec().div_spec(p), K::zero_spec(), p);
}

/// `(c · p) · (x / p) = c · x` for every `p` other than zero.
pub proof fn lemma_mul_div_cancel<
    K: Zero + One + Add<Output = K> + Sub<Output = K> + Mul<Output = K> + Div<Output = K>,
>(c: K, p: K, x: K)
    requires
        is_field::<K>(),
        p != K::zero_spec(),
    ensures
        c.mul_spec(p).mul_spec(x.div_spec(p)) == c.mul_spec(x),
{
    let q = x.div_spec(p);
    assert(mul_associates(c, p, q));
    assert(mul_commutes(p, q));
    assert(div_inverts_mul(x, p));
}

/// `y · ((c · x) / (c · y)) = x` wherever `c · y` is not zero.
pub proof fn lemma_div_of_multiples<
    K: Zero + One + Add<Output = K> + Sub<Output = K> + Mul<Output = K> + Div<Output = K>,
>(c: K, x: K, y: K)
    requires
        is_field::<K>(),
        c.mul_spec(y) != K::zero_spec(),
    ensures
        y.mul_spec(c.mul_spec(x).div_spec(c.mul_spec(y))) == x,
{
    let cy = c.mul_spec(y);
    let q = c.mul_spec(x).div_spec(cy);
    // q·(c·y) = c·x
    assert(div_inverts_mul(c.mul_spec(x), cy));
    // c is not zero, for else c·y would be
    lemma_mul_zero(y);
    // (y·q)·c = y·(q·c), q·c·y = c·x ... bring both sides to the form _·c
    assert(mul_commutes(q, cy));
    assert(mul_associates(c, y, q));
    assert(mul_commutes(c, y.mul_spec(q)));
    assert(mul_commutes(c, x));
    lemma_mul_cancel(y.mul_spec(q), x, c);
}

/// `a / 1 = a`.
pub proof fn lemma_div_one<
    K: Zero + One + Add<Output = K> + Sub<Output = K> + Mul<Output = K> + Div<Output = K>,
>(a: K)
    requires
        is_field::<K>(),
    ensures
        a.div_spec(K::one_spec()) == a,
{
    assert(div_inverts_mul(a, K::one_spec()));
    assert(mul_identity(a.div_spec(K::one_spec())));
}

/// `(a − b) + (b − c) = a − c`.
pub proof fn lemma_sub_telescopes<
    K: Zero + One + Add<Output = K> + Sub<Output = K> + Mul<Output = K> + Div<Output = K>,
>(a: K, b: K, c: K)
    requires
        is_field::<K>(),
    ensures
        a.sub_spec(b).add_spec(b.sub_spec(c)) == a.sub_spec(c),
{
    // ((a − b) + (b − c)) + c = (a − b) + ((b − c) + c) = (a − b) + b = a
    assert(add_associates(a.sub_spec(b), b.sub_spec(c), c));
    assert(sub_inverts_add(b, c));
    assert(sub_inverts_add(a, b));
    assert(sub_inverts_add(a, c));
    lemma_add_cancel(a.sub_spec(b).add_spec(b.sub_spec(c)), a.sub_spec(c), c);
}

/// `a · (b · c) = b · (a · c)`.
pub proof fn lemma_mul_left_commutes<
    K: Zero + One + Add<Output = K> + Sub<Output = K> + Mul<Output = K> + Div<Output = K>,
>(a: K, b: K, c: K)
    requires
        is_field::<K>(),
    ensures
        a.mul_spec(b.mul_spec(c)) == b.mul_spec(a.mul_spec(c)),
{
    assert(mul_associates(a, b, c));
    assert(mul_commutes(a, b));
    assert(mul_associates(b, a, c));
}

} // verus!
