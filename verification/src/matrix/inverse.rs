//! Matrix inversion by Gauss–Jordan elimination.
//!
//! The elimination works on two square grids, the matrix itself and the
//! identity, and applies the same row operations to both. It takes the
//! diagonal entry of each row as its pivot and never exchanges rows, so it
//! gives up on a zero pivot even where an exchange of rows would have found
//! an inverse.
use crate::errors::MatrixInverseError;
use crate::matrix::{column, copy_rows, is_store, rows_of, Matrix};
use crate::slices::{
    div_slice_from, seq_div_from, seq_div_from_req, seq_sub_scaled_from, seq_sub_scaled_from_req,
    sub_scaled_slice_from,
};
use crate::traits::{One, Zero};
use std::ops::{Add, Div, Mul, Sub};
use vstd::prelude::*;
use vstd::std_specs::ops::{DivSpec, MulSpec, SubSpec};

verus! {

/// The `n × n` identity grid: the multiplicative identity on the diagonal,
/// the additive identity everywhere else.
pub open spec fn identity<K: Zero + One>(n: nat) -> Seq<Seq<K>> {
    Seq::new(
        n,
        |i: int|
            Seq::new(
                n,
                |j: int|
                    if i == j {
                        K::one_spec()
                    } else {
                        K::zero_spec()
                    },
            ),
    )
}

/// Whether the step of [`gj_step`] may be evaluated.
pub open spec fn gj_step_req<K: Div<Output = K> + Sub<Output = K> + Mul<Output = K>>(
    g: Seq<Seq<K>>,
    i: int,
    pivot: K,
    factors: Seq<K>,
) -> bool {
    &&& seq_div_from_req(g[i], pivot, 0)
    &&& forall|k: int|
        0 <= k < g.len() && k != i ==> seq_sub_scaled_from_req(
            #[trigger] g[k],
            factors[k],
            seq_div_from(g[i], pivot, 0),
            0,
        )
}

/// One step of the elimination on the grid `g`: row `i` is divided by
/// `pivot`, and from every other row `k` the new row `i` is subtracted
/// `factors[k]` times.
pub open spec fn gj_step<K: Div<Output = K> + Sub<Output = K> + Mul<Output = K>>(
    g: Seq<Seq<K>>,
    i: int,
    pivot: K,
    factors: Seq<K>,
) -> Seq<Seq<K>> {
    Seq::new(
        g.len(),
        |k: int|
            if k == i {
                seq_div_from(g[i], pivot, 0)
            } else {
                seq_sub_scaled_from(g[k], factors[k], seq_div_from(g[i], pivot, 0), 0)
            },
    )
}

/// The two grids of the elimination on `m` after the steps for the rows
/// `0..i`: first what has become of `m`, then what has become of the
/// identity. Step `t` takes its pivot from the diagonal of the first grid
/// and its factors from column `t` of the first grid.
pub open spec fn gj_run<K: Zero + One + Div<Output = K> + Sub<Output = K> + Mul<Output = K>>(
    m: Seq<Seq<K>>,
    i: int,
) -> (Seq<Seq<K>>, Seq<Seq<K>>)
    decreases i,
{
    if i <= 0 {
        (m, identity::<K>(m.len()))
    } else {
        let before = gj_run(m, i - 1);
        let pivot = before.0[i - 1][i - 1];
        let factors = column(before.0, i - 1);
        (gj_step(before.0, i - 1, pivot, factors), gj_step(before.1, i - 1, pivot, factors))
    }
}

/// The pivot of step `i` of the elimination on `m`.
pub open spec fn gj_pivot<K: Zero + One + Div<Output = K> + Sub<Output = K> + Mul<Output = K>>(
    m: Seq<Seq<K>>,
    i: int,
) -> K {
    gj_run(m, i).0[i][i]
}

/// Whether none of the pivots of the steps `0..n` of the elimination on `m`
/// is zero.
pub open spec fn pivots_nonzero<
    K: Zero + One + Div<Output = K> + Sub<Output = K> + Mul<Output = K>,
>(m: Seq<Seq<K>>, n: int) -> bool {
    forall|t: int| 0 <= t < n ==> !(#[trigger] gj_pivot(m, t)).is_zero_spec()
}

/// Whether every step that the elimination on `m` reaches may be evaluated
/// on both grids. A step is reached if no pivot up to and including its own
/// is zero.
pub open spec fn inverse_req<K: Zero + One + Div<Output = K> + Sub<Output = K> + Mul<Output = K>>(
    m: Seq<Seq<K>>,
) -> bool {
    forall|i: int|
        0 <= i < m.len() && pivots_nonzero(m, i + 1) ==> {
            let at = #[trigger] gj_run(m, i);
            &&& gj_step_req(at.0, i, gj_pivot(m, i), column(at.0, i))
            &&& gj_step_req(at.1, i, gj_pivot(m, i), column(at.0, i))
        }
}

/// The row store of the `n × n` identity.
fn identity_rows<K: Copy + Zero + One>(n: usize) -> (r: Vec<Vec<K>>)
    ensures
        is_store(r@, n as nat, n as nat),
        rows_of(r@) == identity::<K>(n as nat),
{
    let mut r: Vec<Vec<K>> = Vec::with_capacity(n);
    let mut i: usize = 0;
    while i < n
        invariant
            i <= n,
            r@.len() == i,
            forall|a: int| 0 <= a < i ==> (#[trigger] r@[a])@ == identity::<K>(n as nat)[a],
        decreases n - i,
    {
        let mut row: Vec<K> = Vec::with_capacity(n);
        let mut j: usize = 0;
        while j < n
            invariant
                i < n,
                j <= n,
                row@.len() == j,
                forall|b: int|
                    0 <= b < j ==> #[trigger] row@[b] == if i as int == b {
                        K::one_spec()
                    } else {
                        K::zero_spec()
                    },
            decreases n - j,
        {
            if i == j {
                row.push(K::one());
            } else {
                row.push(K::zero());
            }
            j += 1;
        }
        r.push(row);
        i += 1;
    }
    r
}

/// Applies one step of the elimination to the row store `g`: divides row `i`
/// by `pivot` and subtracts the new row `i` from every other row `k`,
/// `factors[k]` times.
fn eliminate<K: Copy + Div<Output = K> + Sub<Output = K> + Mul<Output = K>>(
    g: &mut Vec<Vec<K>>,
    i: usize,
    pivot: K,
    factors: &Vec<K>,
)
    requires
        is_store(old(g)@, old(g)@.len(), old(g)@.len()),
        i < old(g)@.len(),
        factors@.len() == old(g)@.len(),
        K::obeys_div_spec(),
        K::obeys_sub_spec(),
        K::obeys_mul_spec(),
        gj_step_req(rows_of(old(g)@), i as int, pivot, factors@),
    ensures
        is_store(final(g)@, old(g)@.len(), old(g)@.len()),
        rows_of(final(g)@) == gj_step(rows_of(old(g)@), i as int, pivot, factors@),
{
    let n = g.len();
    let ghost before = rows_of(g@);
    let ghost after = gj_step(before, i as int, pivot, factors@);
    let ghost scaled = seq_div_from(before[i as int], pivot, 0);
    let p = div_slice_from(g[i].as_slice(), pivot, 0);
    let mut k: usize = 0;
    while k < n
        invariant
            k <= n,
            i < n,
            n == g@.len(),
            n == before.len(),
            factors@.len() == n,
            is_store(g@, n as nat, n as nat),
            K::obeys_div_spec(),
            K::obeys_sub_spec(),
            K::obeys_mul_spec(),
            gj_step_req(before, i as int, pivot, factors@),
            after == gj_step(before, i as int, pivot, factors@),
            scaled == seq_div_from(before[i as int], pivot, 0),
            p@ == scaled,
            p@.len() == n,
            forall|t: int| k <= t < n ==> (#[trigger] g@[t])@ == before[t],
            forall|t: int| 0 <= t < k ==> (#[trigger] g@[t])@ == after[t],
        decreases n - k,
    {
        if k == i {
            g[k] = vstd::slice::slice_to_vec(p.as_slice());
        } else {
            let row = sub_scaled_slice_from(g[k].as_slice(), factors[k], p.as_slice(), 0);
            g[k] = row;
        }
        k += 1;
    }
}

/// Column `i` of a square row store.
fn column_of<K: Copy>(g: &Vec<Vec<K>>, i: usize) -> (c: Vec<K>)
    requires
        is_store(g@, g@.len(), g@.len()),
        i < g@.len(),
    ensures
        c@ == column(rows_of(g@), i as int),
{
    let n = g.len();
    let mut c: Vec<K> = Vec::with_capacity(n);
    let mut k: usize = 0;
    while k < n
        invariant
            k <= n,
            i < n,
            n == g@.len(),
            is_store(g@, n as nat, n as nat),
            c@.len() == k,
            forall|t: int| 0 <= t < k ==> c@[t] == (#[trigger] g@[t])@[i as int],
        decreases n - k,
    {
        c.push(g[k][i]);
        k += 1;
    }
    c
}

impl<K> Matrix<K> where
    K: Copy + Zero + One + Add<Output = K> + Sub<Output = K> + Div<Output = K> + Mul<Output = K>,
 {
    /// The inverse of the matrix by Gauss–Jordan elimination without
    /// exchange of rows.
    ///
    /// A matrix that is not square is refused with its dimensions. A square
    /// matrix is reported as singular exactly if the elimination meets a zero
    /// pivot on the diagonal. Otherwise the result is the second grid of
    /// [`gj_run`] after the last step.
    pub fn inverse(&self) -> (r: Result<Self, MatrixInverseError>)
        requires
            self.wf(),
            self.is_square() ==> {
                &&& K::obeys_div_spec()
                &&& K::obeys_sub_spec()
                &&& K::obeys_mul_spec()
                &&& inverse_req(self@)
            },
        ensures
            !self.is_square() ==> r == Err::<Self, MatrixInverseError>(
                MatrixInverseError::NotSquare { rows: self.rows(), columns: self.columns() },
            ),
            self.is_square() && !pivots_nonzero(self@, self.rows() as int) ==> r == Err::<
                Self,
                MatrixInverseError,
            >(MatrixInverseError::Singular),
            self.is_square() && pivots_nonzero(self@, self.rows() as int) ==> {
                &&& r is Ok
                &&& r->Ok_0.wf()
                &&& r->Ok_0.rows() == self.rows()
                &&& r->Ok_0.columns() == self.rows()
                &&& r->Ok_0@ == gj_run(self@, self.rows() as int).1
            },
    {
        if self.rows != self.columns {
            return Err(MatrixInverseError::NotSquare { rows: self.rows, columns: self.columns });
        }
        let n = self.rows;
        let mut a = copy_rows(&self.data);
        let mut inv = identity_rows::<K>(n);
        proof {
            crate::matrix::lemma_store_is_grid(a@, n as nat, n as nat);
        }
        let mut i: usize = 0;
        while i < n
            invariant
                i <= n,
                n == self.rows(),
                self.is_square(),
                self@.len() == n,
                is_store(a@, n as nat, n as nat),
                is_store(inv@, n as nat, n as nat),
                K::obeys_div_spec(),
                K::obeys_sub_spec(),
                K::obeys_mul_spec(),
                inverse_req(self@),
                pivots_nonzero(self@, i as int),
                rows_of(a@) == gj_run(self@, i as int).0,
                rows_of(inv@) == gj_run(self@, i as int).1,
            decreases n - i,
        {
            let pivot = a[i][i];
            if pivot.is_zero() {
                return Err(MatrixInverseError::Singular);
            }
            let factors = column_of(&a, i);
            eliminate(&mut a, i, pivot, &factors);
            eliminate(&mut inv, i, pivot, &factors);
            i += 1;
        }
        Ok(Self { rows: n, columns: n, data: inv })
    }
}

} // verus!
