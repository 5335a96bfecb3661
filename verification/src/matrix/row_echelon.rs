//! Reduction to reduced row echelon form.
//!
//! The reduction walks the rows from the first to the last. In row `r` it
//! takes as pivot the first entry that is not zero, looking no further left
//! than column `r`; it divides the row by the pivot and clears the pivot
//! column in every other row, above and below. It does not choose among
//! pivots by size, and it stops for good at the first row in which it finds
//! none.
use crate::matrix::{copy_rows, is_store, rows_of, Matrix};
use crate::slices::{
    add_slices, div_slice, scl_slice, seq_add, seq_add_req, seq_div, seq_div_req, seq_scl,
    seq_scl_req,
};
use crate::traits::Zero;
use std::ops::{Add, Div, Mul, Neg};
use vstd::prelude::*;
use vstd::std_specs::ops::{AddSpec, DivSpec, MulSpec, NegSpec};

verus! {

/// The index of the first entry of `row` at or after `from` that is not zero.
pub open spec fn first_nonzero_from<K: Zero>(row: Seq<K>, from: int) -> Option<int>
    decreases row.len() - from,
{
    if from < 0 || from >= row.len() {
        None
    } else if !row[from].is_zero_spec() {
        Some(from)
    } else {
        first_nonzero_from(row, from + 1)
    }
}

/// What [`first_nonzero_from`] finds is an index in range whose entry is not
/// zero and before which, from `from` on, every entry is zero; it finds
/// nothing only where every entry from `from` on is zero.
pub proof fn lemma_first_nonzero_from<K: Zero>(row: Seq<K>, from: int)
    requires
        0 <= from,
    ensures
        match first_nonzero_from(row, from) {
            Some(j) => {
                &&& from <= j < row.len()
                &&& !row[j].is_zero_spec()
                &&& forall|t: int| from <= t < j ==> (#[trigger] row[t]).is_zero_spec()
            },
            None => forall|t: int| from <= t < row.len() ==> (#[trigger] row[t]).is_zero_spec(),
        },
    decreases row.len() - from,
{
    if from < row.len() && row[from].is_zero_spec() {
        lemma_first_nonzero_from(row, from + 1);
    }
}

/// Whether in the step of [`re_step`] row `k` is left as it is: it is the
/// pivot row's own place, or its entry in the pivot column is zero already.
pub open spec fn re_keeps<K: Zero>(g: Seq<Seq<K>>, r: int, p: int, k: int) -> bool {
    k == r || g[k][p].is_zero_spec()
}

/// Whether the step of [`re_step`] may be evaluated.
pub open spec fn re_step_req<
    K: Zero + Div<Output = K> + Mul<Output = K> + Neg<Output = K> + Add<Output = K>,
>(g: Seq<Seq<K>>, r: int, p: int) -> bool {
    &&& seq_div_req(g[r], g[r][p])
    &&& forall|k: int|
        0 <= k < g.len() && !re_keeps(g, r, p, k) ==> {
            let factor = (#[trigger] g[k])[p];
            let pivot_row = seq_div(g[r], g[r][p]);
            &&& factor.neg_req()
            &&& seq_scl_req(pivot_row, factor.neg_spec())
            &&& seq_add_req(g[k], seq_scl(pivot_row, factor.neg_spec()))
        }
}

/// One step of the reduction with the pivot at `(r, p)`: row `r` is divided
/// by the pivot, and to every other row whose entry in column `p` is not zero
/// the new row `r` is added, scaled by the negated entry.
pub open spec fn re_step<
    K: Zero + Div<Output = K> + Mul<Output = K> + Neg<Output = K> + Add<Output = K>,
>(g: Seq<Seq<K>>, r: int, p: int) -> Seq<Seq<K>> {
    let pivot_row = seq_div(g[r], g[r][p]);
    Seq::new(
        g.len(),
        |k: int|
            if k == r {
                pivot_row
            } else if g[k][p].is_zero_spec() {
                g[k]
            } else {
                seq_add(g[k], seq_scl(pivot_row, g[k][p].neg_spec()))
            },
    )
}

/// Whether the reduction of `g` from row `r` on may be evaluated.
pub open spec fn re_run_req<
    K: Zero + Div<Output = K> + Mul<Output = K> + Neg<Output = K> + Add<Output = K>,
>(g: Seq<Seq<K>>, r: int) -> bool
    decreases g.len() - r,
{
    if r < 0 || r >= g.len() {
        true
    } else {
        match first_nonzero_from(g[r], r) {
            None => true,
            Some(p) => re_step_req(g, r, p) && re_run_req(re_step(g, r, p), r + 1),
        }
    }
}

/// The grid that the reduction of `g` from row `r` on ends with: `g` itself
/// if there is no row `r` or no pivot in it, and else what the reduction from
/// row `r + 1` on makes of the step for row `r`.
pub open spec fn re_run<
    K: Zero + Div<Output = K> + Mul<Output = K> + Neg<Output = K> + Add<Output = K>,
>(g: Seq<Seq<K>>, r: int) -> Seq<Seq<K>>
    decreases g.len() - r,
{
    if r < 0 || r >= g.len() {
        g
    } else {
        match first_nonzero_from(g[r], r) {
            None => g,
            Some(p) => re_run(re_step(g, r, p), r + 1),
        }
    }
}

/// The index of the first entry of `row` at or after `from` that is not zero.
fn first_nonzero<K: Zero>(row: &[K], from: usize) -> (r: Option<usize>)
    ensures
        match r {
            Some(j) => first_nonzero_from(row@, from as int) == Some(j as int),
            None => first_nonzero_from(row@, from as int) is None,
        },
{
    let n = row.len();
    let mut j: usize = from;
    while j < n
        invariant
            from <= j,
            n == row@.len(),
            first_nonzero_from(row@, j as int) == first_nonzero_from(row@, from as int),
        decreases n - j,
    {
        if !row[j].is_zero() {
            return Some(j);
        }
        j += 1;
    }
    None
}

/// Applies the step of [`re_step`] to a row store.
fn reduce_with<K>(g: &mut Vec<Vec<K>>, r: usize, p: usize) where
    K: Copy + Zero + Div<Output = K> + Mul<Output = K> + Neg<Output = K> + Add<Output = K>,

    requires
        r < old(g)@.len(),
        p < old(g)@[r as int]@.len(),
        forall|k: int|
            0 <= k < old(g)@.len() ==> (#[trigger] old(g)@[k])@.len() == old(g)@[r as int]@.len(),
        K::obeys_div_spec(),
        K::obeys_mul_spec(),
        K::obeys_neg_spec(),
        K::obeys_add_spec(),
        re_step_req(rows_of(old(g)@), r as int, p as int),
    ensures
        final(g)@.len() == old(g)@.len(),
        forall|k: int|
            0 <= k < old(g)@.len() ==> (#[trigger] final(g)@[k])@.len() == old(
                g,
            )@[r as int]@.len(),
        rows_of(final(g)@) == re_step(rows_of(old(g)@), r as int, p as int),
{
    let n = g.len();
    let ghost before = rows_of(g@);
    let ghost after = re_step(before, r as int, p as int);
    let ghost width = g@[r as int]@.len();
    let pivot = g[r][p];
    let pivot_row = div_slice(g[r].as_slice(), pivot);
    let mut k: usize = 0;
    while k < n
        invariant
            k <= n,
            r < n,
            p < width,
            n == g@.len(),
            n == before.len(),
            width == before[r as int].len(),
            forall|t: int| 0 <= t < n ==> (#[trigger] g@[t])@.len() == width,
            K::obeys_div_spec(),
            K::obeys_mul_spec(),
            K::obeys_neg_spec(),
            K::obeys_add_spec(),
            re_step_req(before, r as int, p as int),
            after == re_step(before, r as int, p as int),
            pivot_row@ == seq_div(before[r as int], before[r as int][p as int]),
            forall|t: int| k <= t < n ==> (#[trigger] g@[t])@ == before[t],
            forall|t: int| 0 <= t < k ==> (#[trigger] g@[t])@ == after[t],
        decreases n - k,
    {
        if k == r {
            g[k] = vstd::slice::slice_to_vec(pivot_row.as_slice());
        } else {
            let factor = g[k][p];
            if !factor.is_zero() {
                let scaled = scl_slice(pivot_row.as_slice(), factor.neg());
                let row = add_slices(g[k].as_slice(), scaled.as_slice());
                g[k] = row;
            }
        }
        k += 1;
    }
}

impl<K> Matrix<K> where
    K: Copy + Zero + Mul<Output = K> + Div<Output = K> + Neg<Output = K> + Add<Output = K>,
 {
    /// The reduced row echelon form of the matrix, as [`re_run`] defines it
    /// from the first row on.
    pub fn row_echelon(&self) -> (r: Self)
        requires
            self.wf(),
            K::obeys_div_spec(),
            K::obeys_mul_spec(),
            K::obeys_neg_spec(),
            K::obeys_add_spec(),
            re_run_req(self@, 0),
        ensures
            r.wf(),
            r.rows() == self.rows(),
            r.columns() == self.columns(),
            r@ == re_run(self@, 0),
    {
        let mut rows = copy_rows(&self.data);
        proof {
            crate::matrix::lemma_store_is_grid(rows@, self.rows as nat, self.columns as nat);
        }
        let mut row: usize = 0;
        while row < self.rows
            invariant
                row <= self.rows,
                is_store(rows@, self.rows as nat, self.columns as nat),
                K::obeys_div_spec(),
                K::obeys_mul_spec(),
                K::obeys_neg_spec(),
                K::obeys_add_spec(),
                re_run_req(rows_of(rows@), row as int),
                re_run(rows_of(rows@), row as int) == re_run(self@, 0),
            ensures
                is_store(rows@, self.rows as nat, self.columns as nat),
                rows_of(rows@) == re_run(self@, 0),
            decreases self.rows - row,
        {
            match first_nonzero(rows[row].as_slice(), row) {
                Some(pivot_idx) => {
                    proof {
                        lemma_first_nonzero_from(rows@[row as int]@, row as int);
                    }
                    reduce_with(&mut rows, row, pivot_idx);
                },
                None => {
                    break ;
                },
            }
            row += 1;
        }
        Self { rows: self.rows, columns: self.columns, data: rows }
    }
}

} // verus!
