//! Laws of the rank.
use crate::field::{
    is_field, lemma_div_of_multiples, lemma_mul_div_cancel, lemma_mul_sub, lemma_mul_zero,
    lemma_sub_self, mul_associates,
};
use crate::matrix::is_grid;
use crate::matrix::rank::{
    first_significant_from, lemma_first_significant_from, rank_run, rank_step, swapped,
};

use crate::traits::{Magnitude, One, Zero};
use std::ops::{Add, Div, Mul, Sub};
use vstd::prelude::*;
use vstd::std_specs::ops::{DivSpec, MulSpec};

verus! {

/// The elimination finds no more pivots than there are columns from the
/// current one on, and no more than there are rows from the cursor on: the
/// rank of a matrix is at most the lesser of its two dimensions.
pub proof fn lemma_rank_bounds<
    K: Sub<Output = K> + Div<Output = K> + Mul<Output = K> + Magnitude,
>(g: Seq<Seq<K>>, rows: nat, row: int, col: int, columns: int)
    requires
        g.len() == rows,
        0 <= row <= rows,
        0 <= col <= columns,
    ensures
        rank_run(g, row, col, columns).1 <= columns - col,
        rank_run(g, row, col, columns).1 <= rows - row,
        rank_run(g, row, col, columns).0.len() == rows,
    decreases columns - col,
{
    if col < columns {
        lemma_first_significant_from(g, col, row);
        match first_significant_from(g, col, row) {
            None => {
                lemma_rank_bounds(g, rows, row, col + 1, columns);
            },
            Some(t) => {
                lemma_rank_bounds(rank_step(g, row, t, col), rows, row + 1, col + 1, columns);
            },
        }
    }
}

/// Whether the tolerance of `K` is exact: only its zero is negligible.
pub open spec fn exact_tolerance<K: Zero + Magnitude>() -> bool {
    forall|a: K| #[trigger] a.is_negligible_spec() <==> a == K::zero_spec()
}

/// Whether every entry of `row` from column `col` on is zero.
pub open spec fn zero_from<K: Zero>(row: Seq<K>, col: int) -> bool {
    forall|j: int| col <= j < row.len() ==> #[trigger] row[j] == K::zero_spec()
}

/// Whether, from column `col` on, every entry of `u` is `c` times the entry
/// of `v` below it.
pub open spec fn multiple_from<K: Mul<Output = K>>(u: Seq<K>, c: K, v: Seq<K>, col: int) -> bool {
    forall|j: int| col <= j < u.len() ==> #[trigger] u[j] == c.mul_spec(v[j])
}

/// Whether, among the rows of `g` from `row` on and with regard to the
/// columns from `col` on, one is zero or one is a multiple of another.
pub open spec fn deficient<K: Zero + Mul<Output = K>>(g: Seq<Seq<K>>, row: int, col: int) -> bool {
    ||| exists|k: int| row <= k < g.len() && zero_from(#[trigger] g[k], col)
    ||| exists|k: int, i: int, c: K|
        row <= k < g.len() && row <= i < g.len() && k != i && #[trigger] multiple_from(
            g[k],
            c,
            g[i],
            col,
        )
}

/// A row that is zero from the pivot column on stays so under the step.
proof fn lemma_step_keeps_zero_row<
    K: Zero + One + Add<Output = K> + Sub<Output = K> + Mul<Output = K> + Div<Output = K>,
>(g: Seq<Seq<K>>, rows: nat, columns: nat, row: int, t: int, col: int, k: int)
    requires
        is_field::<K>(),
        is_grid(g, rows, columns),
        0 <= row <= t < rows,
        0 <= col < columns,
        row < k < rows,
        zero_from(swapped(g, t, row)[k], col),
    ensures
        zero_from(rank_step(g, row, t, col)[k], col),
{
    let s = swapped(g, t, row);
    let next = rank_step(g, row, t, col);
    assert forall|j: int| col <= j < next[k].len() implies #[trigger] next[k][j]
        == K::zero_spec() by {
        let p = s[row][j].div_spec(s[row][col]);
        lemma_mul_zero(p);
        lemma_sub_self(K::zero_spec());
    }
}

/// Two rows below the cursor of which one is a multiple of the other stay so
/// under the step.
proof fn lemma_step_keeps_multiple<
    K: Zero + One + Add<Output = K> + Sub<Output = K> + Mul<Output = K> + Div<Output = K>,
>(g: Seq<Seq<K>>, rows: nat, columns: nat, row: int, t: int, col: int, k: int, i: int, c: K)
    requires
        is_field::<K>(),
        is_grid(g, rows, columns),
        0 <= row <= t < rows,
        0 <= col < columns,
        row < k < rows,
        row < i < rows,
        multiple_from(swapped(g, t, row)[k], c, swapped(g, t, row)[i], col),
    ensures
        multiple_from(rank_step(g, row, t, col)[k], c, rank_step(g, row, t, col)[i], col),
{
    let s = swapped(g, t, row);
    let next = rank_step(g, row, t, col);
    assert forall|j: int| col <= j < next[k].len() implies #[trigger] next[k][j] == c.mul_spec(
        next[i][j],
    ) by {
        let p = s[row][j].div_spec(s[row][col]);
        lemma_mul_sub(c, s[i][j], s[i][col].mul_spec(p));
        assert(mul_associates(c, s[i][col], p));
    }
}

/// A row below the cursor that is a multiple of the pivot row becomes zero
/// under the step.
proof fn lemma_step_clears_multiple_of_pivot<
    K: Zero + One + Add<Output = K> + Sub<Output = K> + Mul<Output = K> + Div<Output = K>,
>(g: Seq<Seq<K>>, rows: nat, columns: nat, row: int, t: int, col: int, k: int, c: K)
    requires
        is_field::<K>(),
        is_grid(g, rows, columns),
        0 <= row <= t < rows,
        0 <= col < columns,
        row < k < rows,
        swapped(g, t, row)[row][col] != K::zero_spec(),
        multiple_from(swapped(g, t, row)[k], c, swapped(g, t, row)[row], col),
    ensures
        zero_from(rank_step(g, row, t, col)[k], col),
{
    let s = swapped(g, t, row);
    let next = rank_step(g, row, t, col);
    assert forall|j: int| col <= j < next[k].len() implies #[trigger] next[k][j]
        == K::zero_spec() by {
        lemma_mul_div_cancel(c, s[row][col], s[row][j]);
        lemma_sub_self(c.mul_spec(s[row][j]));
    }
}

/// A row below the cursor of which the pivot row is a multiple becomes zero
/// under the step.
proof fn lemma_step_clears_base_of_pivot<
    K: Zero + One + Add<Output = K> + Sub<Output = K> + Mul<Output = K> + Div<Output = K>,
>(g: Seq<Seq<K>>, rows: nat, columns: nat, row: int, t: int, col: int, i: int, c: K)
    requires
        is_field::<K>(),
        is_grid(g, rows, columns),
        0 <= row <= t < rows,
        0 <= col < columns,
        row < i < rows,
        swapped(g, t, row)[row][col] != K::zero_spec(),
        multiple_from(swapped(g, t, row)[row], c, swapped(g, t, row)[i], col),
    ensures
        zero_from(rank_step(g, row, t, col)[i], col),
{
    let s = swapped(g, t, row);
    let next = rank_step(g, row, t, col);
    assert forall|j: int| col <= j < next[i].len() implies #[trigger] next[i][j]
        == K::zero_spec() by {
        lemma_div_of_multiples(c, s[i][j], s[i][col]);
        lemma_sub_self(s[i][j]);
    }
}

/// Over a field with an exact tolerance, a step of the elimination on a
/// deficient grid leaves the rows below the new cursor deficient.
proof fn lemma_step_keeps_deficient<
    K: Zero + One + Add<Output = K> + Sub<Output = K> + Mul<Output = K> + Div<Output = K>
        + Magnitude,
>(g: Seq<Seq<K>>, rows: nat, columns: nat, row: int, t: int, col: int)
    requires
        is_field::<K>(),
        exact_tolerance::<K>(),
        is_grid(g, rows, columns),
        0 <= row <= t < rows,
        0 <= col < columns,
        !g[t][col].is_negligible_spec(),
        deficient(g, row, col),
    ensures
        deficient(rank_step(g, row, t, col), row + 1, col + 1),
{
    let next = rank_step(g, row, t, col);
    if exists|k: int| row <= k < g.len() && zero_from(#[trigger] g[k], col) {
        let k = choose|k: int| row <= k < g.len() && zero_from(#[trigger] g[k], col);
        let place = if k == row {
            t
        } else {
            k
        };
        lemma_step_keeps_zero_row(g, rows, columns, row, t, col, place);
    } else {
        let (k, i, c) = choose|k: int, i: int, c: K|
            row <= k < g.len() && row <= i < g.len() && k != i && #[trigger] multiple_from(
                g[k],
                c,
                g[i],
                col,
            );
        let k_place = if k == row {
            t
        } else if k == t {
            row
        } else {
            k
        };
        let i_place = if i == row {
            t
        } else if i == t {
            row
        } else {
            i
        };
        if i == t {
            lemma_step_clears_multiple_of_pivot(g, rows, columns, row, t, col, k_place, c);
        } else if k == t {
            lemma_step_clears_base_of_pivot(g, rows, columns, row, t, col, i_place, c);
        } else {
            lemma_step_keeps_multiple(g, rows, columns, row, t, col, k_place, i_place, c);
            assert(multiple_from(next[k_place], c, next[i_place], col + 1));
        }
    }
}

/// Over a field with an exact tolerance, the elimination on a deficient grid
/// finds fewer pivots than there are rows from the cursor on.
pub proof fn lemma_rank_of_deficient<
    K: Zero + One + Add<Output = K> + Sub<Output = K> + Mul<Output = K> + Div<Output = K>
        + Magnitude,
>(g: Seq<Seq<K>>, rows: nat, columns: nat, row: int, col: int)
    requires
        is_field::<K>(),
        exact_tolerance::<K>(),
        is_grid(g, rows, columns),
        0 <= row <= rows,
        0 <= col <= columns,
        deficient(g, row, col),
    ensures
        rank_run(g, row, col, columns as int).1 < rows - row,
    decreases columns - col,
{
    if col < columns {
        lemma_first_significant_from(g, col, row);
        match first_significant_from(g, col, row) {
            None => {
                assert(deficient(g, row, col + 1)) by {
                    if exists|k: int| row <= k < g.len() && zero_from(#[trigger] g[k], col) {
                    } else {
                        let (k, i, c) = choose|k: int, i: int, c: K|
                            row <= k < g.len() && row <= i < g.len() && k != i
                                && #[trigger] multiple_from(g[k], c, g[i], col);
                        assert(multiple_from(g[k], c, g[i], col + 1));
                    }
                }
                lemma_rank_of_deficient(g, rows, columns, row, col + 1);
            },
            Some(t) => {
                lemma_step_keeps_deficient(g, rows, columns, row, t, col);
                lemma_rank_of_deficient(
                    rank_step(g, row, t, col),
                    rows,
                    columns,
                    row + 1,
                    col + 1,
                );
            },
        }
    }
}

/// Over a field with an exact tolerance, the rank of a matrix in which one
/// row is a scalar multiple of another is less than the number of its rows.
pub proof fn lemma_rank_of_proportional_rows<
    K: Zero + One + Add<Output = K> + Sub<Output = K> + Mul<Output = K> + Div<Output = K>
        + Magnitude,
>(m: Seq<Seq<K>>, rows: nat, columns: nat, k: int, i: int, c: K)
    requires
        is_field::<K>(),
        exact_tolerance::<K>(),
        is_grid(m, rows, columns),
        0 <= k < rows,
        0 <= i < rows,
        k != i,
        forall|j: int| 0 <= j < columns ==> #[trigger] m[k][j] == c.mul_spec(m[i][j]),
    ensures
        rank_run(m, 0, 0, columns as int).1 < rows,
{
    assert(multiple_from(m[k], c, m[i], 0));
    lemma_rank_of_deficient(m, rows, columns, 0, 0);
}

} // verus!
