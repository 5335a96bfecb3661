//! Arithmetic on rows of scalars.
//!
//! Vectors and the rows of a matrix are both runs of scalars; the functions
//! here are the one place where such runs are added, subtracted, scaled and
//! multiplied into a dot product. The scalar arithmetic comes from the
//! operator traits of `std::ops`; contracts speak of it through the
//! specification functions that `vstd` attaches to those traits: `a.add_req(b)`
//! says that `a + b` may be evaluated (for a machine integer: that it does not
//! overflow), and `a.add_spec(b)` is its value for every type that keeps to
//! its specification (`obeys_add_spec`).
use crate::traits::Zero;
use std::ops::{Add, Div, Mul, Sub};
use vstd::prelude::*;
use vstd::std_specs::ops::{AddSpec, DivSpec, MulSpec, SubSpec};

verus! {

/// Whether every item of `u` may be added to its partner in `v`.
pub open spec fn seq_add_req<K: Add<Output = K>>(u: Seq<K>, v: Seq<K>) -> bool {
    forall|i: int| 0 <= i < u.len() ==> #[trigger] u[i].add_req(v[i])
}

/// The item-wise sum of `u` and `v`.
pub open spec fn seq_add<K: Add<Output = K>>(u: Seq<K>, v: Seq<K>) -> Seq<K> {
    Seq::new(u.len(), |i: int| u[i].add_spec(v[i]))
}

/// The item-wise sum of two rows of one length.
pub(crate) fn add_slices<K: Copy + Add<Output = K>>(u: &[K], v: &[K]) -> (r: Vec<K>)
    requires
        u@.len() == v@.len(),
        seq_add_req(u@, v@),
    ensures
        r@.len() == u@.len(),
        K::obeys_add_spec() ==> r@ == seq_add(u@, v@),
{
    let n = u.len();
    let mut r: Vec<K> = Vec::with_capacity(n);
    let mut i: usize = 0;
    while i < n
        invariant
            i <= n,
            n == u@.len(),
            n == v@.len(),
            r@.len() == i,
            seq_add_req(u@, v@),
            K::obeys_add_spec() ==> forall|j: int|
                0 <= j < i ==> r@[j] == #[trigger] u@[j].add_spec(v@[j]),
        decreases n - i,
    {
        r.push(u[i] + v[i]);
        i += 1;
    }
    r
}

/// Whether from every item of `u` its partner in `v` may be subtracted.
pub open spec fn seq_sub_req<K: Sub<Output = K>>(u: Seq<K>, v: Seq<K>) -> bool {
    forall|i: int| 0 <= i < u.len() ==> #[trigger] u[i].sub_req(v[i])
}

/// The item-wise difference of `u` and `v`.
pub open spec fn seq_sub<K: Sub<Output = K>>(u: Seq<K>, v: Seq<K>) -> Seq<K> {
    Seq::new(u.len(), |i: int| u[i].sub_spec(v[i]))
}

/// The item-wise difference of two rows of one length.
pub(crate) fn sub_slices<K: Copy + Sub<Output = K>>(u: &[K], v: &[K]) -> (r: Vec<K>)
    requires
        u@.len() == v@.len(),
        seq_sub_req(u@, v@),
    ensures
        r@.len() == u@.len(),
        K::obeys_sub_spec() ==> r@ == seq_sub(u@, v@),
{
    let n = u.len();
    let mut r: Vec<K> = Vec::with_capacity(n);
    let mut i: usize = 0;
    while i < n
        invariant
            i <= n,
            n == u@.len(),
            n == v@.len(),
            r@.len() == i,
            seq_sub_req(u@, v@),
            K::obeys_sub_spec() ==> forall|j: int|
                0 <= j < i ==> r@[j] == #[trigger] u@[j].sub_spec(v@[j]),
        decreases n - i,
    {
        r.push(u[i] - v[i]);
        i += 1;
    }
    r
}

/// Whether every item of `u` may be multiplied by `k`.
pub open spec fn seq_scl_req<K: Mul<Output = K>>(u: Seq<K>, k: K) -> bool {
    forall|i: int| 0 <= i < u.len() ==> #[trigger] u[i].mul_req(k)
}

/// `u` with every item multiplied by `k` from the right.
pub open spec fn seq_scl<K: Mul<Output = K>>(u: Seq<K>, k: K) -> Seq<K> {
    Seq::new(u.len(), |i: int| u[i].mul_spec(k))
}

/// The row with every item multiplied by `k`.
pub(crate) fn scl_slice<K: Copy + Mul<Output = K>>(u: &[K], k: K) -> (r: Vec<K>)
    requires
        seq_scl_req(u@, k),
    ensures
        r@.len() == u@.len(),
        K::obeys_mul_spec() ==> r@ == seq_scl(u@, k),
{
    let n = u.len();
    let mut r: Vec<K> = Vec::with_capacity(n);
    let mut i: usize = 0;
    while i < n
        invariant
            i <= n,
            n == u@.len(),
            r@.len() == i,
            seq_scl_req(u@, k),
            K::obeys_mul_spec() ==> forall|j: int|
                0 <= j < i ==> r@[j] == #[trigger] u@[j].mul_spec(k),
        decreases n - i,
    {
        r.push(u[i] * k);
        i += 1;
    }
    r
}

/// Whether every item of `u` may be divided by `k`.
pub open spec fn seq_div_req<K: Div<Output = K>>(u: Seq<K>, k: K) -> bool {
    forall|i: int| 0 <= i < u.len() ==> #[trigger] u[i].div_req(k)
}

/// `u` with every item divided by `k`.
pub open spec fn seq_div<K: Div<Output = K>>(u: Seq<K>, k: K) -> Seq<K> {
    Seq::new(u.len(), |i: int| u[i].div_spec(k))
}

/// The row with every item divided by `k`.
pub(crate) fn div_slice<K: Copy + Div<Output = K>>(u: &[K], k: K) -> (r: Vec<K>)
    requires
        seq_div_req(u@, k),
    ensures
        r@.len() == u@.len(),
        K::obeys_div_spec() ==> r@ == seq_div(u@, k),
{
    let n = u.len();
    let mut r: Vec<K> = Vec::with_capacity(n);
    let mut i: usize = 0;
    while i < n
        invariant
            i <= n,
            n == u@.len(),
            r@.len() == i,
            seq_div_req(u@, k),
            K::obeys_div_spec() ==> forall|j: int|
                0 <= j < i ==> r@[j] == #[trigger] u@[j].div_spec(k),
        decreases n - i,
    {
        r.push(u[i] / k);
        i += 1;
    }
    r
}

/// Whether every item of `u` from index `from` on may be divided by `k`.
pub open spec fn seq_div_from_req<K: Div<Output = K>>(u: Seq<K>, k: K, from: int) -> bool {
    forall|j: int| from <= j < u.len() ==> #[trigger] u[j].div_req(k)
}

/// `u` with every item from index `from` on divided by `k`; the items before
/// `from` are those of `u`.
pub open spec fn seq_div_from<K: Div<Output = K>>(u: Seq<K>, k: K, from: int) -> Seq<K> {
    Seq::new(
        u.len(),
        |j: int|
            if j < from {
                u[j]
            } else {
                u[j].div_spec(k)
            },
    )
}

/// The row with every item from index `from` on divided by `k`.
pub(crate) fn div_slice_from<K: Copy + Div<Output = K>>(u: &[K], k: K, from: usize) -> (r: Vec<K>)
    requires
        seq_div_from_req(u@, k, from as int),
    ensures
        r@.len() == u@.len(),
        K::obeys_div_spec() ==> r@ == seq_div_from(u@, k, from as int),
{
    let n = u.len();
    let mut r: Vec<K> = Vec::with_capacity(n);
    let mut j: usize = 0;
    while j < n
        invariant
            j <= n,
            n == u@.len(),
            r@.len() == j,
            seq_div_from_req(u@, k, from as int),
            K::obeys_div_spec() ==> forall|t: int|
                0 <= t < j ==> #[trigger] r@[t] == seq_div_from(u@, k, from as int)[t],
        decreases n - j,
    {
        if j < from {
            r.push(u[j]);
        } else {
            r.push(u[j] / k);
        }
        j += 1;
    }
    r
}

/// Whether, for every index `j` from `from` on, `k · p[j]` may be evaluated
/// and subtracted from `u[j]`.
pub open spec fn seq_sub_scaled_from_req<K: Sub<Output = K> + Mul<Output = K>>(
    u: Seq<K>,
    k: K,
    p: Seq<K>,
    from: int,
) -> bool {
    forall|j: int|
        from <= j < u.len() ==> #[trigger] k.mul_req(p[j]) && u[j].sub_req(k.mul_spec(p[j]))
}

/// `u` with `k · p[j]` subtracted from every item `u[j]` from index `from`
/// on; the items before `from` are those of `u`.
pub open spec fn seq_sub_scaled_from<K: Sub<Output = K> + Mul<Output = K>>(
    u: Seq<K>,
    k: K,
    p: Seq<K>,
    from: int,
) -> Seq<K> {
    Seq::new(
        u.len(),
        |j: int|
            if j < from {
                u[j]
            } else {
                u[j].sub_spec(k.mul_spec(p[j]))
            },
    )
}

/// The row `u` with `k · p[j]` subtracted from every item from index `from`
/// on.
pub(crate) fn sub_scaled_slice_from<K: Copy + Sub<Output = K> + Mul<Output = K>>(
    u: &[K],
    k: K,
    p: &[K],
    from: usize,
) -> (r: Vec<K>)
    requires
        u@.len() == p@.len(),
        K::obeys_mul_spec(),
        seq_sub_scaled_from_req(u@, k, p@, from as int),
    ensures
        r@.len() == u@.len(),
        K::obeys_sub_spec() ==> r@ == seq_sub_scaled_from(u@, k, p@, from as int),
{
    let n = u.len();
    let mut r: Vec<K> = Vec::with_capacity(n);
    let mut j: usize = 0;
    while j < n
        invariant
            j <= n,
            n == u@.len(),
            n == p@.len(),
            r@.len() == j,
            K::obeys_mul_spec(),
            seq_sub_scaled_from_req(u@, k, p@, from as int),
            K::obeys_sub_spec() ==> forall|t: int|
                0 <= t < j ==> #[trigger] r@[t] == seq_sub_scaled_from(u@, k, p@, from as int)[t],
        decreases n - j,
    {
        if j < from {
            r.push(u[j]);
        } else {
            assert(k.mul_req(p@[j as int]) && u@[j as int].sub_req(k.mul_spec(p@[j as int])));
            r.push(u[j] - k * p[j]);
        }
        j += 1;
    }
    r
}

/// The sum `((0 + u[0]·v[0]) + u[1]·v[1]) + … + u[n-1]·v[n-1]`, accumulated
/// from the left and seeded with the additive identity of `K`.
pub open spec fn dot_prefix<K: Zero + Add<Output = K> + Mul<Output = K>>(
    u: Seq<K>,
    v: Seq<K>,
    n: int,
) -> K
    decreases n,
{
    if n <= 0 {
        K::zero_spec()
    } else {
        dot_prefix(u, v, n - 1).add_spec(u[n - 1].mul_spec(v[n - 1]))
    }
}

/// Whether every product and every partial sum of the dot product of `u` and
/// `v` may be evaluated.
pub open spec fn seq_dot_req<K: Zero + Add<Output = K> + Mul<Output = K>>(
    u: Seq<K>,
    v: Seq<K>,
) -> bool {
    forall|i: int|
        0 <= i < u.len() ==> u[i].mul_req(v[i]) && (#[trigger] dot_prefix(u, v, i)).add_req(
            u[i].mul_spec(v[i]),
        )
}

/// The dot product of `u` and `v`.
pub open spec fn seq_dot<K: Zero + Add<Output = K> + Mul<Output = K>>(u: Seq<K>, v: Seq<K>) -> K {
    dot_prefix(u, v, u.len() as int)
}

/// The dot product of two rows of one length.
pub(crate) fn dot_slices<K: Copy + Zero + Add<Output = K> + Mul<Output = K>>(
    u: &[K],
    v: &[K],
) -> (r: K)
    requires
        u@.len() == v@.len(),
        K::obeys_add_spec(),
        K::obeys_mul_spec(),
        seq_dot_req(u@, v@),
    ensures
        r == seq_dot(u@, v@),
{
    let n = u.len();
    let mut acc = K::zero();
    let mut i: usize = 0;
    while i < n
        invariant
            i <= n,
            n == u@.len(),
            n == v@.len(),
            K::obeys_add_spec(),
            K::obeys_mul_spec(),
            seq_dot_req(u@, v@),
            acc == dot_prefix(u@, v@, i as int),
        decreases n - i,
    {
        acc = acc + (u[i] * v[i]);
        i += 1;
    }
    acc
}

} // verus!
