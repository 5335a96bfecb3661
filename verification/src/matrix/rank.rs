//! The rank of a matrix by elimination with a numerical tolerance.
//!
//! The elimination walks the columns from left to right and keeps a cursor on
//! the next row without a pivot. In each column it looks, from the cursor
//! down, for the first entry that is not negligible
//! ([`Magnitude::is_negligible`]). Where it finds one, it brings its row up
//! to the cursor, divides that row by the entry, clears the column below it
//! and counts one more pivot; where it finds none, it goes on to the next
//! column. Only the entries from the current column to the right are
//! rewritten, and the rows above the cursor are left alone.
use crate::matrix::{is_store, rows_of, Matrix};
use crate::slices::{
    div_slice_from, seq_div_from, seq_div_from_req, seq_sub_scaled_from, seq_sub_scaled_from_req,
    sub_scaled_slice_from,
};
use crate::traits::Magnitude;
use std::ops::{Div, Mul, Sub};
use vstd::prelude::*;
use vstd::std_specs::ops::{DivSpec, MulSpec, SubSpec};

verus! {

/// `swap` of slices exchanges the items at `a` and `b`, which must both be
/// in range: std panics on an index out of bounds. With `a == b` nothing
/// changes.
pub assume_specification<U>[ <[U]>::swap ](s: &mut [U], a: usize, b: usize)
    requires
        a < old(s)@.len(),
        b < old(s)@.len(),
    ensures
        final(s)@ == old(s)@.update(a as int, old(s)@[b as int]).update(
            b as int,
            old(s)@[a as int],
        ),
;

/// The index of the first row of `g` at or after `from` whose entry in column
/// `col` is not negligible.
pub open spec fn first_significant_from<K: Magnitude>(
    g: Seq<Seq<K>>,
    col: int,
    from: int,
) -> Option<int>
    decreases g.len() - from,
{
    if from < 0 || from >= g.len() {
        None
    } else if !g[from][col].is_negligible_spec() {
        Some(from)
    } else {
        first_significant_from(g, col, from + 1)
    }
}

/// What [`first_significant_from`] finds is a row in range whose entry in
/// column `col` is not negligible and before which, from `from` on, every
/// such entry is negligible; it finds nothing only where every such entry
/// from `from` on is negligible.
pub proof fn lemma_first_significant_from<K: Magnitude>(g: Seq<Seq<K>>, col: int, from: int)
    requires
        0 <= from,
    ensures
        match first_significant_from(g, col, from) {
            Some(t) => {
                &&& from <= t < g.len()
                &&& !g[t][col].is_negligible_spec()
                &&& forall|i: int| from <= i < t ==> (#[trigger] g[i])[col].is_negligible_spec()
            },
            None => forall|i: int|
                from <= i < g.len() ==> (#[trigger] g[i])[col].is_negligible_spec(),
        },
    decreases g.len() - from,
{
    if from < g.len() && g[from][col].is_negligible_spec() {
        lemma_first_significant_from(g, col, from + 1);
    }
}

/// `g` with the rows `a` and `b` exchanged.
pub open spec fn swapped<K>(g: Seq<Seq<K>>, a: int, b: int) -> Seq<Seq<K>> {
    g.update(a, g[b]).update(b, g[a])
}

/// Whether the step of [`rank_step`] may be evaluated.
pub open spec fn rank_step_req<K: Sub<Output = K> + Div<Output = K> + Mul<Output = K>>(
    g: Seq<Seq<K>>,
    row: int,
    t: int,
    col: int,
) -> bool {
    let s = swapped(g, t, row);
    let pivot_row = seq_div_from(s[row], s[row][col], col);
    &&& seq_div_from_req(s[row], s[row][col], col)
    &&& forall|i: int|
        row < i < s.len() ==> seq_sub_scaled_from_req(#[trigger] s[i], s[i][col], pivot_row, col)
}

/// One step of the elimination with the cursor on row `row`, the pivot found
/// in row `t` and column `col`: the rows `row` and `t` change places; from
/// column `col` on, the row now at `row` is divided by its entry in column
/// `col`, and from every row below it the new row `row` is subtracted, scaled
/// by that row's entry in column `col`.
pub open spec fn rank_step<K: Sub<Output = K> + Div<Output = K> + Mul<Output = K>>(
    g: Seq<Seq<K>>,
    row: int,
    t: int,
    col: int,
) -> Seq<Seq<K>> {
    let s = swapped(g, t, row);
    let pivot_row = seq_div_from(s[row], s[row][col], col);
    Seq::new(
        s.len(),
        |i: int|
            if i < row {
                s[i]
            } else if i == row {
                pivot_row
            } else {
                seq_sub_scaled_from(s[i], s[i][col], pivot_row, col)
            },
    )
}

/// Whether the elimination on `g` may be evaluated from column `col` on, with
/// the cursor on row `row`.
pub open spec fn rank_run_req<
    K: Sub<Output = K> + Div<Output = K> + Mul<Output = K> + Magnitude,
>(g: Seq<Seq<K>>, row: int, col: int, columns: int) -> bool
    decreases columns - col,
{
    if col < 0 || col >= columns {
        true
    } else {
        match first_significant_from(g, col, row) {
            None => rank_run_req(g, row, col + 1, columns),
            Some(t) => rank_step_req(g, row, t, col) && rank_run_req(
                rank_step(g, row, t, col),
                row + 1,
                col + 1,
                columns,
            ),
        }
    }
}

/// What the elimination on `g` ends with when it goes on from column `col`
/// with the cursor on row `row`: the grid that it leaves, and the number of
/// pivots that it still finds.
pub open spec fn rank_run<K: Sub<Output = K> + Div<Output = K> + Mul<Output = K> + Magnitude>(
    g: Seq<Seq<K>>,
    row: int,
    col: int,
    columns: int,
) -> (Seq<Seq<K>>, nat)
    decreases columns - col,
{
    if col < 0 || col >= columns {
        (g, 0)
    } else {
        match first_significant_from(g, col, row) {
            None => rank_run(g, row, col + 1, columns),
            Some(t) => {
                let rest = rank_run(rank_step(g, row, t, col), row + 1, col + 1, columns);
                (rest.0, rest.1 + 1)
            },
        }
    }
}

/// The index of the first row of `g` at or after `from` whose entry in column
/// `col` is not negligible.
fn first_significant<K: Magnitude>(g: &Vec<Vec<K>>, col: usize, from: usize) -> (r: Option<usize>)
    requires
        forall|i: int| 0 <= i < g@.len() ==> col < (#[trigger] g@[i])@.len(),
    ensures
        match r {
            Some(t) => first_significant_from(rows_of(g@), col as int, from as int) == Some(
                t as int,
            ),
            None => first_significant_from(rows_of(g@), col as int, from as int) is None,
        },
{
    let n = g.len();
    let mut t: usize = from;
    while t < n
        invariant
            from <= t,
            n == g@.len(),
            forall|i: int| 0 <= i < g@.len() ==> col < (#[trigger] g@[i])@.len(),
            first_significant_from(rows_of(g@), col as int, t as int) == first_significant_from(
                rows_of(g@),
                col as int,
                from as int,
            ),
        decreases n - t,
    {
        if !g[t][col].is_negligible() {
            return Some(t);
        }
        t += 1;
    }
    None
}

/// Applies the step of [`rank_step`] to a row store.
fn pivot_on<K>(g: &mut Vec<Vec<K>>, row: usize, t: usize, col: usize) where
    K: Copy + Sub<Output = K> + Div<Output = K> + Mul<Output = K>,

    requires
        row <= t < old(g)@.len(),
        col < old(g)@[row as int]@.len(),
        forall|i: int|
            0 <= i < old(g)@.len() ==> (#[trigger] old(g)@[i])@.len() == old(
                g,
            )@[row as int]@.len(),
        K::obeys_sub_spec(),
        K::obeys_div_spec(),
        K::obeys_mul_spec(),
        rank_step_req(rows_of(old(g)@), row as int, t as int, col as int),
    ensures
        final(g)@.len() == old(g)@.len(),
        forall|i: int|
            0 <= i < old(g)@.len() ==> (#[trigger] final(g)@[i])@.len() == old(
                g,
            )@[row as int]@.len(),
        rows_of(final(g)@) == rank_step(rows_of(old(g)@), row as int, t as int, col as int),
{
    let n = g.len();
    let ghost before = rows_of(g@);
    let ghost width = g@[row as int]@.len();
    let ghost s = swapped(before, t as int, row as int);
    let ghost after = rank_step(before, row as int, t as int, col as int);
    if t != row {
        g.as_mut_slice().swap(t, row);
    }
    let pivot = g[row][col];
    let pivot_row = div_slice_from(g[row].as_slice(), pivot, col);
    g[row] = pivot_row;
    let mut i: usize = row + 1;
    while i < n
        invariant
            row < i <= n,
            col < width,
            n == g@.len(),
            n == s.len(),
            forall|a: int| 0 <= a < n ==> (#[trigger] g@[a])@.len() == width,
            forall|a: int| 0 <= a < n ==> (#[trigger] s[a]).len() == width,
            K::obeys_sub_spec(),
            K::obeys_div_spec(),
            K::obeys_mul_spec(),
            s == swapped(before, t as int, row as int),
            rank_step_req(before, row as int, t as int, col as int),
            after == rank_step(before, row as int, t as int, col as int),
            g@[row as int]@ == seq_div_from(s[row as int], s[row as int][col as int], col as int),
            forall|a: int| 0 <= a < row ==> (#[trigger] g@[a])@ == s[a],
            forall|a: int| i <= a < n ==> (#[trigger] g@[a])@ == s[a],
            forall|a: int| row < a < i ==> (#[trigger] g@[a])@ == after[a],
        decreases n - i,
    {
        let factor = g[i][col];
        let new_row = sub_scaled_slice_from(g[i].as_slice(), factor, g[row].as_slice(), col);
        g[i] = new_row;
        i += 1;
    }
}

impl<K> Matrix<K> where
    K: Copy + Sub<Output = K> + Div<Output = K> + Mul<Output = K> + Magnitude,
 {
    /// The rank of the matrix: the number of pivots that the elimination
    /// finds.
    ///
    /// The elimination is carried out on the matrix itself, which is left as
    /// [`rank_run`] says; a caller who needs the matrix afterwards clones it
    /// first.
    pub fn rank(&mut self) -> (rank: usize)
        requires
            old(self).wf(),
            K::obeys_sub_spec(),
            K::obeys_div_spec(),
            K::obeys_mul_spec(),
            rank_run_req(old(self)@, 0, 0, old(self).columns() as int),
        ensures
            final(self).wf(),
            final(self).rows() == old(self).rows(),
            final(self).columns() == old(self).columns(),
            final(self)@ == rank_run(old(self)@, 0, 0, old(self).columns() as int).0,
            rank == rank_run(old(self)@, 0, 0, old(self).columns() as int).1,
    {
        proof {
            self.lemma_store();
        }
        let ghost start = self@;
        let rows = self.rows;
        let columns = self.columns;
        let mut rank: usize = 0;
        let mut row: usize = 0;
        let mut col: usize = 0;
        while col < columns
            invariant
                col <= columns,
                row == rank,
                row <= col,
                row <= rows,
                self.rows == rows,
                self.columns == columns,
                is_store(self.data@, rows as nat, columns as nat),
                K::obeys_sub_spec(),
                K::obeys_div_spec(),
                K::obeys_mul_spec(),
                rank_run_req(rows_of(self.data@), row as int, col as int, columns as int),
                rank_run(rows_of(self.data@), row as int, col as int, columns as int).0 == rank_run(
                    start,
                    0,
                    0,
                    columns as int,
                ).0,
                rank + rank_run(rows_of(self.data@), row as int, col as int, columns as int).1
                    == rank_run(start, 0, 0, columns as int).1,
            decreases columns - col,
        {
            match first_significant(&self.data, col, row) {
                Some(pivot_row) => {
                    proof {
                        lemma_first_significant_from(rows_of(self.data@), col as int, row as int);
                    }
                    pivot_on(&mut self.data, row, pivot_row, col);
                    rank += 1;
                    row += 1;
                },
                None => {},
            }
            col += 1;
        }
        rank
    }
}

} // verus!
