//! Laws of the inverse.
//!
//! Over a field, what the elimination hands back where it meets no zero
//! pivot is an inverse: the matrix times the result is the identity, and so
//! is the result times the matrix.
//!
//! For the first product, the proof reads each column `x` of the result as
//! the solution of a system of equations. At the end of the elimination the
//! system is `I · x = x`; every step of the elimination can be undone, so `x`
//! solves the system before the step too; and the system before the first
//! step is `M · x = e`, with `e` the matching column of the identity.
//!
//! For the second product, the proof follows the elimination forwards: at
//! every step the second grid times `M` is the first grid, which is the
//! identity at the end.
use crate::field::{
    add_associates, add_commutes, add_identity, distributes, div_inverts_mul, is_field,
    lemma_add_cancel, lemma_add_mul, lemma_div_self, lemma_mul_cancel, lemma_mul_zero,
    lemma_one_mul, lemma_sub_self, lemma_sub_zero, lemma_zero_add, lemma_zero_div, mul_associates,
    mul_commutes, mul_identity, sub_inverts_add,
};
use crate::matrix::{column, is_grid, mat_mat};
use crate::matrix::inverse::{gj_pivot, gj_run, gj_step, identity, pivots_nonzero};
use crate::slices::dot_prefix;
use crate::traits::{One, Zero};
use std::ops::{Add, Div, Mul, Sub};
use vstd::prelude::*;
use vstd::std_specs::ops::{AddSpec, MulSpec};

verus! {

/// `(a + b) + (c + d) = (a + c) + (b + d)`.
proof fn lemma_add_interchange<
    K: Zero + One + Add<Output = K> + Sub<Output = K> + Mul<Output = K> + Div<Output = K>,
>(a: K, b: K, c: K, d: K)
    requires
        is_field::<K>(),
    ensures
        a.add_spec(b).add_spec(c.add_spec(d)) == a.add_spec(c).add_spec(b.add_spec(d)),
{
    assert(add_associates(a, b, c.add_spec(d)));
    assert(add_associates(b, c, d));
    assert(add_commutes(b, c));
    assert(add_associates(c, b, d));
    assert(add_associates(a, c, b.add_spec(d)));
}

/// The dot product is additive in its first operand: if `u` is the sum of
/// `v` and `w` item by item, its dot product with `x` is the sum of theirs.
proof fn lemma_dot_of_sum<
    K: Zero + One + Add<Output = K> + Sub<Output = K> + Mul<Output = K> + Div<Output = K>,
>(u: Seq<K>, v: Seq<K>, w: Seq<K>, x: Seq<K>, n: int)
    requires
        is_field::<K>(),
        0 <= n <= u.len(),
        n <= v.len(),
        n <= w.len(),
        n <= x.len(),
        forall|j: int| 0 <= j < n ==> #[trigger] u[j] == v[j].add_spec(w[j]),
    ensures
        dot_prefix(u, x, n) == dot_prefix(v, x, n).add_spec(dot_prefix(w, x, n)),
    decreases n,
{
    if n == 0 {
        assert(add_identity(K::zero_spec()));
    } else {
        lemma_dot_of_sum(u, v, w, x, n - 1);
        let last = n - 1;
        lemma_add_mul(v[last], w[last], x[last]);
        lemma_add_interchange(
            dot_prefix(v, x, n - 1),
            dot_prefix(w, x, n - 1),
            v[last].mul_spec(x[last]),
            w[last].mul_spec(x[last]),
        );
    }
}

/// The dot product is homogeneous in its first operand: if `u` is `f` times
/// `w` item by item, its dot product with `x` is `f` times that of `w`.
proof fn lemma_dot_of_multiple<
    K: Zero + One + Add<Output = K> + Sub<Output = K> + Mul<Output = K> + Div<Output = K>,
>(u: Seq<K>, f: K, w: Seq<K>, x: Seq<K>, n: int)
    requires
        is_field::<K>(),
        0 <= n <= u.len(),
        n <= w.len(),
        n <= x.len(),
        forall|j: int| 0 <= j < n ==> #[trigger] u[j] == f.mul_spec(w[j]),
    ensures
        dot_prefix(u, x, n) == f.mul_spec(dot_prefix(w, x, n)),
    decreases n,
{
    if n == 0 {
        lemma_mul_zero(f);
    } else {
        lemma_dot_of_multiple(u, f, w, x, n - 1);
        let last = n - 1;
        assert(mul_associates(f, w[last], x[last]));
        assert(distributes(f, dot_prefix(w, x, n - 1), w[last].mul_spec(x[last])));
    }
}

/// The dot product of row `k` of the identity with `x` picks item `k` of
/// `x`, once the product has come past it.
proof fn lemma_dot_of_unit<
    K: Zero + One + Add<Output = K> + Sub<Output = K> + Mul<Output = K> + Div<Output = K>,
>(size: nat, k: int, x: Seq<K>, n: int)
    requires
        is_field::<K>(),
        0 <= k < size,
        0 <= n <= size,
        n <= x.len(),
    ensures
        dot_prefix(identity::<K>(size)[k], x, n) == if k < n {
            x[k]
        } else {
            K::zero_spec()
        },
    decreases n,
{
    if n > 0 {
        lemma_dot_of_unit(size, k, x, n - 1);
        let last = n - 1;
        let unit = identity::<K>(size)[k];
        if last == k {
            lemma_one_mul(x[last]);
            lemma_zero_add(x[last]);
        } else {
            lemma_mul_zero(x[last]);
            assert(add_identity(dot_prefix(unit, x, n - 1)));
        }
    }
}

/// Both grids of the elimination stay square.
proof fn lemma_gj_run_grids<
    K: Zero + One + Add<Output = K> + Sub<Output = K> + Mul<Output = K> + Div<Output = K>,
>(m: Seq<Seq<K>>, n: nat, t: int)
    requires
        is_grid(m, n, n),
        0 <= t <= n,
    ensures
        is_grid(gj_run(m, t).0, n, n),
        is_grid(gj_run(m, t).1, n, n),
    decreases t,
{
    if t > 0 {
        lemma_gj_run_grids(m, n, t - 1);
        // a step divides or rewrites each row item by item, which keeps the
        // length of the row
        let before = gj_run(m, t - 1);
        let pivot = before.0[t - 1][t - 1];
        let factors = column(before.0, t - 1);
        assert(is_grid(gj_step(before.0, t - 1, pivot, factors), n, n));
        assert(is_grid(gj_step(before.1, t - 1, pivot, factors), n, n));
    }
}

/// Whether the first `t` columns of the square grid `a` are those of the
/// identity.
pub open spec fn unit_columns<K: Zero + One>(a: Seq<Seq<K>>, n: nat, t: int) -> bool {
    forall|k: int, c: int|
        0 <= k < n && 0 <= c < t ==> #[trigger] a[k][c] == identity::<K>(n)[k][c]
}

/// Over a field, after `t` steps without a zero pivot the first `t` columns
/// of the first grid are those of the identity.
proof fn lemma_unit_columns<
    K: Zero + One + Add<Output = K> + Sub<Output = K> + Mul<Output = K> + Div<Output = K>,
>(m: Seq<Seq<K>>, n: nat, t: int)
    requires
        is_field::<K>(),
        is_grid(m, n, n),
        0 <= t <= n,
        pivots_nonzero(m, t),
    ensures
        unit_columns(gj_run(m, t).0, n, t),
    decreases t,
{
    if t > 0 {
        let i = t - 1;
        lemma_unit_columns(m, n, i);
        lemma_gj_run_grids(m, n, i);
        let a = gj_run(m, i).0;
        let pivot = a[i][i];
        let factors = column(a, i);
        let next = gj_step(a, i, pivot, factors);
        assert(pivot == gj_pivot(m, i));
        let id = identity::<K>(n);
        assert forall|k: int, c: int| 0 <= k < n && 0 <= c < t implies #[trigger] next[k][c]
            == id[k][c] by {
            if c < i {
                lemma_zero_div(pivot);
                if k != i {
                    lemma_mul_zero(factors[k]);
                    lemma_sub_zero(a[k][c]);
                }
            } else {
                lemma_div_self(pivot);
                if k != i {
                    assert(mul_identity(factors[k]));
                    lemma_sub_self(a[k][i]);
                }
            }
        }
    }
}

/// Whether `x` solves the system of step `t` for column `j`: the dot product
/// of each row of the first grid with `x` is the entry of that row in column
/// `j` of the second grid.
pub open spec fn solves<
    K: Zero + One + Add<Output = K> + Sub<Output = K> + Mul<Output = K> + Div<Output = K>,
>(m: Seq<Seq<K>>, n: nat, t: int, j: int, x: Seq<K>) -> bool {
    forall|k: int|
        0 <= k < n ==> dot_prefix(#[trigger] gj_run(m, t).0[k], x, n as int) == gj_run(
            m,
            t,
        ).1[k][j]
}

/// Over a field, what solves the system after a step with a pivot other than
/// zero solves the system before it.
proof fn lemma_solves_before<
    K: Zero + One + Add<Output = K> + Sub<Output = K> + Mul<Output = K> + Div<Output = K>,
>(m: Seq<Seq<K>>, n: nat, t: int, j: int, x: Seq<K>)
    requires
        is_field::<K>(),
        is_grid(m, n, n),
        0 <= t < n,
        0 <= j < n,
        x.len() == n,
        pivots_nonzero(m, t + 1),
        solves(m, n, t + 1, j, x),
    ensures
        solves(m, n, t, j, x),
{
    lemma_gj_run_grids(m, n, t);
    lemma_gj_run_grids(m, n, t + 1);
    let a = gj_run(m, t).0;
    let b = gj_run(m, t).1;
    let pivot = a[t][t];
    let factors = column(a, t);
    let a_next = gj_step(a, t, pivot, factors);
    let b_next = gj_step(b, t, pivot, factors);
    assert(pivot == gj_pivot(m, t));
    let size = n as int;
    assert forall|k: int| 0 <= k < n implies dot_prefix(#[trigger] a[k], x, size) == b[k][j] by {
        if k == t {
            // row t before the step is the pivot times row t after it
            assert forall|c: int| 0 <= c < size implies #[trigger] a[t][c] == pivot.mul_spec(
                a_next[t][c],
            ) by {
                assert(div_inverts_mul(a[t][c], pivot));
                assert(mul_commutes(a_next[t][c], pivot));
            }
            lemma_dot_of_multiple(a[t], pivot, a_next[t], x, size);
            assert(div_inverts_mul(b[t][j], pivot));
            assert(mul_commutes(b_next[t][j], pivot));
        } else {
            // row k before the step is row k after it plus its factor times
            // row t after it
            let f = factors[k];
            let part = Seq::new(n, |c: int| f.mul_spec(a_next[t][c]));
            assert forall|c: int| 0 <= c < size implies #[trigger] a[k][c] == a_next[k][c].add_spec(
                part[c],
            ) by {
                assert(sub_inverts_add(a[k][c], f.mul_spec(a_next[t][c])));
            }
            lemma_dot_of_sum(a[k], a_next[k], part, x, size);
            lemma_dot_of_multiple(part, f, a_next[t], x, size);
            assert(sub_inverts_add(b[k][j], f.mul_spec(b_next[t][j])));
        }
    }
}

/// Over a field, what solves the system after the last step solves the
/// system of every step before it.
proof fn lemma_solves_from<
    K: Zero + One + Add<Output = K> + Sub<Output = K> + Mul<Output = K> + Div<Output = K>,
>(m: Seq<Seq<K>>, n: nat, t: int, j: int, x: Seq<K>)
    requires
        is_field::<K>(),
        is_grid(m, n, n),
        0 <= t <= n,
        0 <= j < n,
        x.len() == n,
        pivots_nonzero(m, n as int),
        solves(m, n, n as int, j, x),
    ensures
        solves(m, n, t, j, x),
    decreases n - t,
{
    if t < n {
        lemma_solves_from(m, n, t + 1, j, x);
        lemma_solves_before(m, n, t, j, x);
    }
}

/// Over a field, a square matrix times what the elimination hands back for
/// it is the identity, wherever the elimination meets no zero pivot.
pub proof fn lemma_inverse_is_right_inverse<
    K: Zero + One + Add<Output = K> + Sub<Output = K> + Mul<Output = K> + Div<Output = K>,
>(m: Seq<Seq<K>>, n: nat)
    requires
        is_field::<K>(),
        is_grid(m, n, n),
        pivots_nonzero(m, n as int),
    ensures
        is_grid(gj_run(m, n as int).1, n, n),
        mat_mat(m, gj_run(m, n as int).1, n) == identity::<K>(n),
{
    let size = n as int;
    let last = gj_run(m, size);
    let inv = last.1;
    let id = identity::<K>(n);
    lemma_gj_run_grids(m, n, size);
    lemma_unit_columns(m, n, size);
    let product = mat_mat(m, inv, n);
    assert forall|k: int, j: int| 0 <= k < n && 0 <= j < n implies #[trigger] product[k][j]
        == id[k][j] by {
        let x = column(inv, j);
        // at the end the first grid is the identity, whose rows pick the
        // items of x
        assert forall|r: int| 0 <= r < n implies dot_prefix(#[trigger] last.0[r], x, size)
            == inv[r][j] by {
            assert(last.0[r] =~= id[r]);
            lemma_dot_of_unit(n, r, x, size);
        }
        lemma_solves_from(m, n, 0, j, x);
        assert(dot_prefix(gj_run(m, 0).0[k], x, size) == gj_run(m, 0).1[k][j]);
    }
    // entry by entry, and so row by row, the product is the identity
    assert forall|k: int| 0 <= k < n implies #[trigger] product[k] =~= id[k] by {}
}

/// Whether at step `t` the second grid times column `j` of `m` is column `j`
/// of the first grid: the second grid holds the row operations that have
/// made the first grid of `m`.
pub open spec fn tracks<
    K: Zero + One + Add<Output = K> + Sub<Output = K> + Mul<Output = K> + Div<Output = K>,
>(m: Seq<Seq<K>>, n: nat, t: int, j: int) -> bool {
    forall|k: int|
        0 <= k < n ==> dot_prefix(#[trigger] gj_run(m, t).1[k], column(m, j), n as int) == gj_run(
            m,
            t,
        ).0[k][j]
}

/// Over a field, a step with a pivot other than zero keeps the second grid
/// in step with the first.
proof fn lemma_tracks_after<
    K: Zero + One + Add<Output = K> + Sub<Output = K> + Mul<Output = K> + Div<Output = K>,
>(m: Seq<Seq<K>>, n: nat, t: int, j: int)
    requires
        is_field::<K>(),
        is_grid(m, n, n),
        0 <= t < n,
        0 <= j < n,
        pivots_nonzero(m, t + 1),
        tracks(m, n, t, j),
    ensures
        tracks(m, n, t + 1, j),
{
    lemma_gj_run_grids(m, n, t);
    lemma_gj_run_grids(m, n, t + 1);
    let a = gj_run(m, t).0;
    let b = gj_run(m, t).1;
    let pivot = a[t][t];
    let factors = column(a, t);
    let a_next = gj_step(a, t, pivot, factors);
    let b_next = gj_step(b, t, pivot, factors);
    assert(pivot == gj_pivot(m, t));
    let size = n as int;
    let x = column(m, j);
    // row t of the second grid before the step is the pivot times that row
    // after it, and so is its product with x
    assert forall|c: int| 0 <= c < size implies #[trigger] b[t][c] == pivot.mul_spec(
        b_next[t][c],
    ) by {
        assert(div_inverts_mul(b[t][c], pivot));
        assert(mul_commutes(b_next[t][c], pivot));
    }
    lemma_dot_of_multiple(b[t], pivot, b_next[t], x, size);
    let pivot_dot = dot_prefix(b_next[t], x, size);
    assert(pivot_dot == a_next[t][j]) by {
        assert(dot_prefix(b[t], x, size) == a[t][j]);
        assert(div_inverts_mul(a[t][j], pivot));
        assert(mul_commutes(pivot, pivot_dot));
        lemma_mul_cancel(pivot_dot, a_next[t][j], pivot);
    }
    assert forall|k: int| 0 <= k < n implies dot_prefix(#[trigger] b_next[k], x, size)
        == a_next[k][j] by {
        if k != t {
            // row k before the step is row k after it plus its factor times
            // row t after it
            let f = factors[k];
            let part = Seq::new(n, |c: int| f.mul_spec(b_next[t][c]));
            assert forall|c: int| 0 <= c < size implies #[trigger] b[k][c] == b_next[k][c].add_spec(
                part[c],
            ) by {
                assert(sub_inverts_add(b[k][c], f.mul_spec(b_next[t][c])));
            }
            lemma_dot_of_sum(b[k], b_next[k], part, x, size);
            lemma_dot_of_multiple(part, f, b_next[t], x, size);
            assert(dot_prefix(b[k], x, size) == a[k][j]);
            assert(sub_inverts_add(a[k][j], f.mul_spec(a_next[t][j])));
            lemma_add_cancel(
                dot_prefix(b_next[k], x, size),
                a_next[k][j],
                f.mul_spec(a_next[t][j]),
            );
        }
    }
}

/// Over a field, the second grid stays in step with the first through every
/// step without a zero pivot.
proof fn lemma_tracks<
    K: Zero + One + Add<Output = K> + Sub<Output = K> + Mul<Output = K> + Div<Output = K>,
>(m: Seq<Seq<K>>, n: nat, t: int, j: int)
    requires
        is_field::<K>(),
        is_grid(m, n, n),
        0 <= t <= n,
        0 <= j < n,
        pivots_nonzero(m, t),
    ensures
        tracks(m, n, t, j),
    decreases t,
{
    if t == 0 {
        let x = column(m, j);
        assert forall|k: int| 0 <= k < n implies dot_prefix(
            #[trigger] gj_run(m, 0).1[k],
            x,
            n as int,
        ) == gj_run(m, 0).0[k][j] by {
            lemma_dot_of_unit(n, k, x, n as int);
        }
    } else {
        lemma_tracks(m, n, t - 1, j);
        lemma_tracks_after(m, n, t - 1, j);
    }
}

/// Over a field, what the elimination hands back for a square matrix, times
/// that matrix, is the identity, wherever the elimination meets no zero
/// pivot.
pub proof fn lemma_inverse_is_left_inverse<
    K: Zero + One + Add<Output = K> + Sub<Output = K> + Mul<Output = K> + Div<Output = K>,
>(m: Seq<Seq<K>>, n: nat)
    requires
        is_field::<K>(),
        is_grid(m, n, n),
        pivots_nonzero(m, n as int),
    ensures
        mat_mat(gj_run(m, n as int).1, m, n) == identity::<K>(n),
{
    let size = n as int;
    let last = gj_run(m, size);
    let id = identity::<K>(n);
    lemma_gj_run_grids(m, n, size);
    lemma_unit_columns(m, n, size);
    let product = mat_mat(last.1, m, n);
    assert forall|k: int, j: int| 0 <= k < n && 0 <= j < n implies #[trigger] product[k][j]
        == id[k][j] by {
        lemma_tracks(m, n, size, j);
        assert(dot_prefix(last.1[k], column(m, j), size) == last.0[k][j]);
    }
    // entry by entry, and so row by row, the product is the identity
    assert forall|k: int| 0 <= k < n implies #[trigger] product[k] =~= id[k] by {}
}

} // verus!
