//! Rectangular matrices over a scalar type.
//!
//! A [`Matrix`] is modelled by the sequence of its rows (`m@`), each the
//! sequence of its entries, together with its two dimensions; a well-formed
//! matrix ([`Matrix::wf`]) holds `rows()` rows of `columns()` entries each.
//! Every operation here asks for well-formed operands and hands back
//! well-formed results.
use crate::errors::MatrixShapeError;
use crate::slices::{
    add_slices, dot_prefix, dot_slices, scl_slice, seq_add, seq_add_req, seq_dot, seq_dot_req,
    seq_scl, seq_scl_req, seq_sub, seq_sub_req, sub_slices,
};
use crate::traits::{Conjugate, Zero};
use crate::vector::{vec_from_array, Vector};
use std::ops::{Add, Index, IndexMut, Mul, Sub};
use vstd::prelude::*;
use vstd::std_specs::{convert::FromSpecImpl, iter::IteratorSpec};
use vstd::std_specs::ops::{AddSpec, AddSpecImpl, MulSpec, MulSpecImpl, SubSpec, SubSpecImpl};

pub mod determinant;
pub mod inverse;
pub mod rank;
pub mod row_echelon;

verus! {

/// Whether `m` holds `rows` rows of `columns` entries each.
pub open spec fn is_grid<K>(m: Seq<Seq<K>>, rows: nat, columns: nat) -> bool {
    m.len() == rows && forall|i: int| 0 <= i < m.len() ==> (#[trigger] m[i]).len() == columns
}

/// The rows of `data`, each as the sequence of its entries.
pub open spec fn rows_of<K>(data: Seq<Vec<K>>) -> Seq<Seq<K>> {
    Seq::new(data.len(), |i: int| data[i]@)
}

/// Whether a row store holds `rows` rows of `columns` entries each.
pub open spec fn is_store<K>(data: Seq<Vec<K>>, rows: nat, columns: nat) -> bool {
    data.len() == rows && forall|i: int|
        0 <= i < data.len() ==> (#[trigger] data[i])@.len() == columns
}

/// A row store is well-formed exactly if its rows form a grid.
pub proof fn lemma_store_is_grid<K>(data: Seq<Vec<K>>, rows: nat, columns: nat)
    ensures
        is_store(data, rows, columns) <==> is_grid(rows_of(data), rows, columns),
{
    if is_store(data, rows, columns) {
    }
    if is_grid(rows_of(data), rows, columns) {
        assert forall|i: int| 0 <= i < data.len() implies (#[trigger] data[i])@.len()
            == columns by {
            assert(rows_of(data)[i].len() == columns);
        }
    }
}

/// Whether every row of `vs` has the length of the first one.
pub open spec fn same_lengths<K>(vs: Seq<Seq<K>>) -> bool {
    forall|k: int| 0 <= k < vs.len() ==> (#[trigger] vs[k]).len() == vs[0].len()
}

/// Whether `k` is the index of the first row of `vs` whose length is not
/// that of `vs[0]`.
pub open spec fn first_mismatch<K>(vs: Seq<Seq<K>>, k: int) -> bool {
    &&& 0 <= k < vs.len()
    &&& vs[k].len() != vs[0].len()
    &&& forall|t: int| 0 <= t < k ==> (#[trigger] vs[t]).len() == vs[0].len()
}

/// Column `j` of `m`, from the first row to the last.
pub open spec fn column<K>(m: Seq<Seq<K>>, j: int) -> Seq<K> {
    Seq::new(m.len(), |i: int| m[i][j])
}

/// The transpose of a grid of `columns` columns: row `j` of the result is
/// column `j` of `m`.
pub open spec fn transposed<K>(m: Seq<Seq<K>>, columns: nat) -> Seq<Seq<K>> {
    Seq::new(columns, |j: int| column(m, j))
}

/// The conjugate transpose of a grid of `columns` columns: the entry at
/// `(j, i)` is the conjugate of the entry of `m` at `(i, j)`.
pub open spec fn conjugate_transposed<K: Conjugate>(m: Seq<Seq<K>>, columns: nat) -> Seq<Seq<K>> {
    Seq::new(columns, |j: int| Seq::new(m.len(), |i: int| m[i][j].conjugate_spec()))
}

/// Whether every entry of a grid is a clone of the additive identity.
pub open spec fn zero_filled<K: Zero + Clone>(m: Seq<Seq<K>>) -> bool {
    forall|i: int, j: int|
        0 <= i < m.len() && 0 <= j < m[i].len() ==> cloned(K::zero_spec(), #[trigger] m[i][j])
}

/// Whether every entry of `a` may be added to its partner in `b`.
pub open spec fn grid_add_req<K: Add<Output = K>>(a: Seq<Seq<K>>, b: Seq<Seq<K>>) -> bool {
    forall|i: int| 0 <= i < a.len() ==> #[trigger] seq_add_req(a[i], b[i])
}

/// The entry-wise sum of `a` and `b`.
pub open spec fn grid_add<K: Add<Output = K>>(a: Seq<Seq<K>>, b: Seq<Seq<K>>) -> Seq<Seq<K>> {
    Seq::new(a.len(), |i: int| seq_add(a[i], b[i]))
}

/// Whether from every entry of `a` its partner in `b` may be subtracted.
pub open spec fn grid_sub_req<K: Sub<Output = K>>(a: Seq<Seq<K>>, b: Seq<Seq<K>>) -> bool {
    forall|i: int| 0 <= i < a.len() ==> #[trigger] seq_sub_req(a[i], b[i])
}

/// The entry-wise difference of `a` and `b`.
pub open spec fn grid_sub<K: Sub<Output = K>>(a: Seq<Seq<K>>, b: Seq<Seq<K>>) -> Seq<Seq<K>> {
    Seq::new(a.len(), |i: int| seq_sub(a[i], b[i]))
}

/// Whether every entry of `a` may be multiplied by `k`.
pub open spec fn grid_scl_req<K: Mul<Output = K>>(a: Seq<Seq<K>>, k: K) -> bool {
    forall|i: int| 0 <= i < a.len() ==> #[trigger] seq_scl_req(a[i], k)
}

/// `a` with every entry multiplied by `k` from the right.
pub open spec fn grid_scl<K: Mul<Output = K>>(a: Seq<Seq<K>>, k: K) -> Seq<Seq<K>> {
    Seq::new(a.len(), |i: int| seq_scl(a[i], k))
}

/// Whether the dot product of every row of `m` with `v` may be evaluated.
pub open spec fn mat_vec_req<K: Zero + Add<Output = K> + Mul<Output = K>>(
    m: Seq<Seq<K>>,
    v: Seq<K>,
) -> bool {
    forall|i: int| 0 <= i < m.len() ==> #[trigger] seq_dot_req(m[i], v)
}

/// The product of the grid `m` and the column vector `v`: item `i` is the
/// dot product of row `i` of `m` with `v`.
pub open spec fn mat_vec<K: Zero + Add<Output = K> + Mul<Output = K>>(
    m: Seq<Seq<K>>,
    v: Seq<K>,
) -> Seq<K> {
    Seq::new(m.len(), |i: int| seq_dot(m[i], v))
}

/// Whether the dot product of every row of `a` with every one of the
/// `columns` columns of `b` may be evaluated.
pub open spec fn mat_mat_req<K: Zero + Add<Output = K> + Mul<Output = K>>(
    a: Seq<Seq<K>>,
    b: Seq<Seq<K>>,
    columns: nat,
) -> bool {
    forall|i: int, j: int|
        0 <= i < a.len() && 0 <= j < columns ==> #[trigger] seq_dot_req(a[i], column(b, j))
}

/// The product of the grids `a` and `b`, where `b` has `columns` columns: the
/// entry at `(i, j)` is the dot product of row `i` of `a` with column `j` of
/// `b`.
pub open spec fn mat_mat<K: Zero + Add<Output = K> + Mul<Output = K>>(
    a: Seq<Seq<K>>,
    b: Seq<Seq<K>>,
    columns: nat,
) -> Seq<Seq<K>> {
    Seq::new(a.len(), |i: int| Seq::new(columns, |j: int| seq_dot(a[i], column(b, j))))
}

/// The sum of the first `n` diagonal entries of `m`, accumulated from the
/// left and seeded with the additive identity.
pub open spec fn diag_prefix<K: Zero + Add<Output = K>>(m: Seq<Seq<K>>, n: int) -> K
    decreases n,
{
    if n <= 0 {
        K::zero_spec()
    } else {
        diag_prefix(m, n - 1).add_spec(m[n - 1][n - 1])
    }
}

/// Whether every partial sum of the trace of `m` may be evaluated.
pub open spec fn trace_req<K: Zero + Add<Output = K>>(m: Seq<Seq<K>>) -> bool {
    forall|i: int| 0 <= i < m.len() ==> (#[trigger] diag_prefix(m, i)).add_req(m[i][i])
}

/// The number of indices below `i` other than `removed`.
pub open spec fn kept_below(i: int, removed: int) -> int {
    if i <= removed {
        i
    } else {
        i - 1
    }
}

/// The place that item `a` of a sequence without its item `removed` had
/// before the removal.
pub open spec fn place_before(a: int, removed: int) -> int {
    if a < removed {
        a
    } else {
        a + 1
    }
}

/// `m` without row `r` and, in each row that is left, without entry `c`.
pub open spec fn without<K>(m: Seq<Seq<K>>, r: int, c: int) -> Seq<Seq<K>> {
    m.remove(r).map_values(|row: Seq<K>| row.remove(c))
}

/// A `rows × columns` grid of scalars, held row by row.
#[derive(Debug, PartialEq, Clone)]
pub struct Matrix<K> {
    rows: usize,
    columns: usize,
    data: Vec<Vec<K>>,
}

impl<K> View for Matrix<K> {
    type V = Seq<Seq<K>>;

    closed spec fn view(&self) -> Seq<Seq<K>> {
        rows_of(self.data@)
    }
}

/// A copy of a row store, row by row.
pub(crate) fn copy_rows<K: Copy>(data: &Vec<Vec<K>>) -> (r: Vec<Vec<K>>)
    ensures
        rows_of(r@) == rows_of(data@),
{
    let n = data.len();
    let mut r: Vec<Vec<K>> = Vec::with_capacity(n);
    let mut i: usize = 0;
    while i < n
        invariant
            i <= n,
            n == data@.len(),
            r@.len() == i,
            forall|k: int| 0 <= k < i ==> (#[trigger] r@[k])@ == data@[k]@,
        decreases n - i,
    {
        r.push(vstd::slice::slice_to_vec(data[i].as_slice()));
        i += 1;
    }
    r
}

impl<K> Matrix<K> {
    /// The number of rows, as contracts speak of it.
    pub closed spec fn spec_rows(&self) -> usize {
        self.rows
    }

    /// The number of columns, as contracts speak of it.
    pub closed spec fn spec_columns(&self) -> usize {
        self.columns
    }

    /// Whether the matrix is square, as contracts speak of it.
    pub open spec fn spec_is_square(&self) -> bool {
        self.rows() == self.columns()
    }

    /// Well-formedness: the matrix holds `rows()` rows of `columns()` entries
    /// each.
    pub open spec fn wf(&self) -> bool {
        is_grid(self@, self.rows() as nat, self.columns() as nat)
    }

    /// A matrix is well-formed exactly if its row store is.
    proof fn lemma_store(&self)
        ensures
            self.wf() <==> is_store(self.data@, self.rows as nat, self.columns as nat),
            self@ == rows_of(self.data@),
            self.rows() == self.rows,
            self.columns() == self.columns,
    {
        lemma_store_is_grid(self.data@, self.rows as nat, self.columns as nat);
    }

    /// The numbers of rows and of columns.
    pub fn shape(&self) -> (s: (usize, usize))
        ensures
            s == (self.rows(), self.columns()),
    {
        (self.rows, self.columns)
    }

    /// The number of rows.
    #[verifier::when_used_as_spec(spec_rows)]
    pub fn rows(&self) -> (n: usize)
        ensures
            n == self.rows(),
    {
        self.rows
    }

    /// The number of columns.
    #[verifier::when_used_as_spec(spec_columns)]
    pub fn columns(&self) -> (n: usize)
        ensures
            n == self.columns(),
    {
        self.columns
    }

    /// Whether the matrix has as many rows as columns.
    #[verifier::when_used_as_spec(spec_is_square)]
    pub fn is_square(&self) -> (b: bool)
        ensures
            b == self.is_square(),
    {
        self.rows == self.columns
    }

    /// An iterator over the rows, from the first to the last.
    pub fn iter(&self) -> (it: std::slice::Iter<'_, Vec<K>>)
        ensures
            rows_of(vstd::std_specs::slice::into_iter_elts(it)) == self@,
    {
        self.data.as_slice().iter()
    }

    /// An iterator that hands out the rows from the first to the last, each
    /// for writing, and leaves in the matrix what was written. The dimensions
    /// stay, but a row may be left with another length: the matrix is
    /// well-formed afterwards only if the caller has kept it so.
    pub fn iter_mut(&mut self) -> (it: std::slice::IterMut<'_, Vec<K>>)
        ensures
            it.remaining().len() == old(self)@.len(),
            forall|i: int|
                0 <= i < old(self)@.len() ==> (*(#[trigger] it.remaining()[i]))@ == old(self)@[i],
            final(self)@.len() == old(self)@.len(),
            forall|i: int|
                #![trigger it.remaining()[i]]
                0 <= i < old(self)@.len() ==> final(self)@[i] == (*final(it.remaining()[i]))@,
            final(self).rows() == old(self).rows(),
            final(self).columns() == old(self).columns(),
    {
        self.data.as_mut_slice().iter_mut()
    }

    /// The rows as a slice.
    pub fn as_slice(&self) -> (s: &[Vec<K>])
        ensures
            rows_of(s@) == self@,
    {
        self.data.as_slice()
    }

    /// Gives up the matrix for its rows.
    pub fn into_inner(self) -> (data: Vec<Vec<K>>)
        ensures
            rows_of(data@) == self@,
    {
        self.data
    }
}

impl<K> Matrix<K> {
    /// The matrix whose rows are `rows`, which must all have the length of
    /// the first one; a matrix without rows has no columns either.
    ///
    /// Rows of unequal length are refused: the error names the first row
    /// whose length is not that of the first row, and both lengths.
    pub fn from_rows(rows: Vec<Vec<K>>) -> (r: Result<Self, MatrixShapeError>)
        ensures
            same_lengths(rows_of(rows@)) ==> {
                &&& r is Ok
                &&& r->Ok_0.wf()
                &&& r->Ok_0.rows() == rows@.len()
                &&& r->Ok_0.columns() == if rows@.len() == 0 {
                    0
                } else {
                    rows@[0]@.len()
                }
                &&& r->Ok_0@ == rows_of(rows@)
            },
            !same_lengths(rows_of(rows@)) ==> r is Err && exists|k: int|
                first_mismatch(rows_of(rows@), k) && r->Err_0 == (MatrixShapeError::RaggedRows {
                    row: k as usize,
                    expected_len: rows@[0]@.len() as usize,
                    found_len: (#[trigger] rows@[k])@.len() as usize,
                }),
    {
        let ghost grid = rows_of(rows@);
        let n = rows.len();
        if n == 0 {
            return Ok(Self { rows: 0, columns: 0, data: rows });
        }
        let columns = rows[0].len();
        let mut k: usize = 0;
        while k < n
            invariant
                k <= n,
                0 < n,
                n == rows@.len(),
                grid == rows_of(rows@),
                columns == grid[0].len(),
                forall|t: int| 0 <= t < k ==> (#[trigger] grid[t]).len() == columns,
            decreases n - k,
        {
            if rows[k].len() != columns {
                assert(first_mismatch(grid, k as int));
                return Err(
                    MatrixShapeError::RaggedRows {
                        row: k,
                        expected_len: columns,
                        found_len: rows[k].len(),
                    },
                );
            }
            k += 1;
        }
        let m = Self { rows: n, columns, data: rows };
        proof {
            m.lemma_store();
        }
        Ok(m)
    }
}

impl<K, const R: usize, const C: usize> From<[[K; C]; R]> for Matrix<K> {
    /// The `R × C` matrix whose rows are the items of `arr`.
    fn from(arr: [[K; C]; R]) -> (m: Self)
        ensures
            m.wf(),
            m.rows() == R,
            m.columns() == C,
            forall|i: int| 0 <= i < R ==> (#[trigger] m@[i]) == arr@[i]@,
    {
        let rows: Vec<[K; C]> = vec_from_array(arr);
        let mut data: Vec<Vec<K>> = Vec::with_capacity(R);
        for row in it: rows.into_iter()
            invariant
                it.seq() == arr@,
                data@.len() == it.index(),
                forall|i: int| 0 <= i < data@.len() ==> (#[trigger] data@[i])@ == arr@[i]@,
        {
            data.push(vec_from_array(row));
        }
        Self { rows: R, columns: C, data }
    }
}

/// To code that is generic over `From` nothing is promised: what the
/// conversion gives is stated on `from` itself.
impl<K, const R: usize, const C: usize> FromSpecImpl<[[K; C]; R]> for Matrix<K> {
    open spec fn obeys_from_spec() -> bool {
        false
    }

    open spec fn from_spec(arr: [[K; C]; R]) -> Self {
        arbitrary()
    }
}

impl<K> Matrix<K> where K: Copy {
    /// The transpose: the matrix whose row `j` is column `j` of this one.
    pub fn transpose(&self) -> (r: Self)
        requires
            self.wf(),
        ensures
            r.wf(),
            r.rows() == self.columns(),
            r.columns() == self.rows(),
            r@ == transposed(self@, self.columns() as nat),
    {
        proof {
            self.lemma_store();
        }
        let mut data: Vec<Vec<K>> = Vec::with_capacity(self.columns);
        let mut j: usize = 0;
        while j < self.columns
            invariant
                is_store(self.data@, self.rows as nat, self.columns as nat),
                self@ == rows_of(self.data@),
                j <= self.columns,
                forall|c: int| 0 <= c < j ==> (#[trigger] data@[c])@.len() == self.rows,
                data@.len() == j,
                forall|c: int| 0 <= c < j ==> (#[trigger] data@[c])@ == column(self@, c),
            decreases self.columns - j,
        {
            let mut col: Vec<K> = Vec::with_capacity(self.rows);
            let mut i: usize = 0;
            while i < self.rows
                invariant
                    is_store(self.data@, self.rows as nat, self.columns as nat),
                    self@ == rows_of(self.data@),
                    j < self.columns,
                    i <= self.rows,
                    col@.len() == i,
                    forall|k: int| 0 <= k < i ==> col@[k] == (#[trigger] self@[k])[j as int],
                decreases self.rows - i,
            {
                col.push(self.data[i][j]);
                i += 1;
            }
            data.push(col);
            j += 1;
        }
        Self { rows: self.columns, columns: self.rows, data }
    }
}

impl<K> Matrix<K> where K: Copy + Conjugate {
    /// The conjugate transpose: the transpose with every entry conjugated.
    pub fn conjugate_transpose(&self) -> (r: Self)
        requires
            self.wf(),
        ensures
            r.wf(),
            r.rows() == self.columns(),
            r.columns() == self.rows(),
            r@ == conjugate_transposed(self@, self.columns() as nat),
    {
        proof {
            self.lemma_store();
        }
        let mut data: Vec<Vec<K>> = Vec::with_capacity(self.columns);
        let mut j: usize = 0;
        while j < self.columns
            invariant
                is_store(self.data@, self.rows as nat, self.columns as nat),
                self@ == rows_of(self.data@),
                j <= self.columns,
                forall|c: int| 0 <= c < j ==> (#[trigger] data@[c])@.len() == self.rows,
                data@.len() == j,
                forall|c: int|
                    0 <= c < j ==> (#[trigger] data@[c])@ == Seq::new(
                        self@.len(),
                        |i: int| self@[i][c].conjugate_spec(),
                    ),
            decreases self.columns - j,
        {
            let mut col: Vec<K> = Vec::with_capacity(self.rows);
            let mut i: usize = 0;
            while i < self.rows
                invariant
                    is_store(self.data@, self.rows as nat, self.columns as nat),
                    self@ == rows_of(self.data@),
                    j < self.columns,
                    i <= self.rows,
                    col@.len() == i,
                    forall|k: int|
                        0 <= k < i ==> col@[k] == (#[trigger] self@[k])[j as int].conjugate_spec(),
                decreases self.rows - i,
            {
                col.push(self.data[i][j].conjugate());
                i += 1;
            }
            data.push(col);
            j += 1;
        }
        Self { rows: self.columns, columns: self.rows, data }
    }
}

impl<K> Matrix<K> where K: Zero + Clone {
    /// The `rows × columns` matrix whose every entry is a clone of the
    /// additive identity.
    pub fn zeros(rows: usize, columns: usize) -> (m: Self)
        ensures
            m.wf(),
            m.rows() == rows,
            m.columns() == columns,
            zero_filled(m@),
    {
        let mut data: Vec<Vec<K>> = Vec::with_capacity(rows);
        let mut i: usize = 0;
        while i < rows
            invariant
                i <= rows,
                data@.len() == i,
                forall|r: int| 0 <= r < i ==> (#[trigger] data@[r])@.len() == columns,
                forall|r: int, c: int|
                    0 <= r < i && 0 <= c < columns ==> cloned(
                        K::zero_spec(),
                        #[trigger] data@[r]@[c],
                    ),
            decreases rows - i,
        {
            data.push(vec![K::zero(); columns]);
            i += 1;
        }
        Self { rows, columns, data }
    }
}

/// The entry-wise sum of two row stores of one shape.
fn add_grids<K: Copy + Add<Output = K>>(a: &Vec<Vec<K>>, b: &Vec<Vec<K>>) -> (r: Vec<Vec<K>>)
    requires
        a@.len() == b@.len(),
        forall|i: int| 0 <= i < a@.len() ==> (#[trigger] a@[i])@.len() == b@[i]@.len(),
        grid_add_req(rows_of(a@), rows_of(b@)),
    ensures
        r@.len() == a@.len(),
        forall|i: int| 0 <= i < a@.len() ==> (#[trigger] r@[i])@.len() == a@[i]@.len(),
        K::obeys_add_spec() ==> rows_of(r@) == grid_add(rows_of(a@), rows_of(b@)),
{
    let n = a.len();
    let mut r: Vec<Vec<K>> = Vec::with_capacity(n);
    let mut i: usize = 0;
    while i < n
        invariant
            i <= n,
            n == a@.len(),
            n == b@.len(),
            r@.len() == i,
            forall|k: int| 0 <= k < a@.len() ==> (#[trigger] a@[k])@.len() == b@[k]@.len(),
            grid_add_req(rows_of(a@), rows_of(b@)),
            forall|k: int| 0 <= k < i ==> (#[trigger] r@[k])@.len() == a@[k]@.len(),
            K::obeys_add_spec() ==> forall|k: int|
                0 <= k < i ==> (#[trigger] r@[k])@ == seq_add(a@[k]@, b@[k]@),
        decreases n - i,
    {
        assert(seq_add_req(rows_of(a@)[i as int], rows_of(b@)[i as int]));
        r.push(add_slices(a[i].as_slice(), b[i].as_slice()));
        i += 1;
    }
    r
}

/// The entry-wise difference of two row stores of one shape.
fn sub_grids<K: Copy + Sub<Output = K>>(a: &Vec<Vec<K>>, b: &Vec<Vec<K>>) -> (r: Vec<Vec<K>>)
    requires
        a@.len() == b@.len(),
        forall|i: int| 0 <= i < a@.len() ==> (#[trigger] a@[i])@.len() == b@[i]@.len(),
        grid_sub_req(rows_of(a@), rows_of(b@)),
    ensures
        r@.len() == a@.len(),
        forall|i: int| 0 <= i < a@.len() ==> (#[trigger] r@[i])@.len() == a@[i]@.len(),
        K::obeys_sub_spec() ==> rows_of(r@) == grid_sub(rows_of(a@), rows_of(b@)),
{
    let n = a.len();
    let mut r: Vec<Vec<K>> = Vec::with_capacity(n);
    let mut i: usize = 0;
    while i < n
        invariant
            i <= n,
            n == a@.len(),
            n == b@.len(),
            r@.len() == i,
            forall|k: int| 0 <= k < a@.len() ==> (#[trigger] a@[k])@.len() == b@[k]@.len(),
            grid_sub_req(rows_of(a@), rows_of(b@)),
            forall|k: int| 0 <= k < i ==> (#[trigger] r@[k])@.len() == a@[k]@.len(),
            K::obeys_sub_spec() ==> forall|k: int|
                0 <= k < i ==> (#[trigger] r@[k])@ == seq_sub(a@[k]@, b@[k]@),
        decreases n - i,
    {
        assert(seq_sub_req(rows_of(a@)[i as int], rows_of(b@)[i as int]));
        r.push(sub_slices(a[i].as_slice(), b[i].as_slice()));
        i += 1;
    }
    r
}

/// A row store with every entry multiplied by `k`.
fn scl_grid<K: Copy + Mul<Output = K>>(a: &Vec<Vec<K>>, k: K) -> (r: Vec<Vec<K>>)
    requires
        grid_scl_req(rows_of(a@), k),
    ensures
        r@.len() == a@.len(),
        forall|i: int| 0 <= i < a@.len() ==> (#[trigger] r@[i])@.len() == a@[i]@.len(),
        K::obeys_mul_spec() ==> rows_of(r@) == grid_scl(rows_of(a@), k),
{
    let n = a.len();
    let mut r: Vec<Vec<K>> = Vec::with_capacity(n);
    let mut i: usize = 0;
    while i < n
        invariant
            i <= n,
            n == a@.len(),
            r@.len() == i,
            grid_scl_req(rows_of(a@), k),
            forall|j: int| 0 <= j < i ==> (#[trigger] r@[j])@.len() == a@[j]@.len(),
            K::obeys_mul_spec() ==> forall|j: int|
                0 <= j < i ==> (#[trigger] r@[j])@ == seq_scl(a@[j]@, k),
        decreases n - i,
    {
        assert(seq_scl_req(rows_of(a@)[i as int], k));
        r.push(scl_slice(a[i].as_slice(), k));
        i += 1;
    }
    r
}

impl<K> Matrix<K> where K: Copy + Add<Output = K> {
    /// Adds `other` to the matrix, entry by entry.
    pub fn add(&mut self, other: &Self)
        requires
            old(self).wf(),
            other.wf(),
            old(self).rows() == other.rows(),
            old(self).columns() == other.columns(),
            grid_add_req(old(self)@, other@),
        ensures
            final(self).wf(),
            final(self).rows() == old(self).rows(),
            final(self).columns() == old(self).columns(),
            K::obeys_add_spec() ==> final(self)@ == grid_add(old(self)@, other@),
    {
        proof {
            self.lemma_store();
            other.lemma_store();
        }
        self.data = add_grids(&self.data, &other.data);
    }

    /// The entry-wise sum of the matrix and `other`.
    pub fn add_new(&self, other: &Self) -> (r: Self)
        requires
            self.wf(),
            other.wf(),
            self.rows() == other.rows(),
            self.columns() == other.columns(),
            grid_add_req(self@, other@),
        ensures
            r.wf(),
            r.rows() == self.rows(),
            r.columns() == self.columns(),
            K::obeys_add_spec() ==> r@ == grid_add(self@, other@),
    {
        proof {
            self.lemma_store();
            other.lemma_store();
        }
        Self {
            rows: self.rows,
            columns: self.columns,
            data: add_grids(&self.data, &other.data),
        }
    }
}

impl<K> Matrix<K> where K: Copy + Sub<Output = K> {
    /// Subtracts `other` from the matrix, entry by entry.
    pub fn sub(&mut self, other: &Self)
        requires
            old(self).wf(),
            other.wf(),
            old(self).rows() == other.rows(),
            old(self).columns() == other.columns(),
            grid_sub_req(old(self)@, other@),
        ensures
            final(self).wf(),
            final(self).rows() == old(self).rows(),
            final(self).columns() == old(self).columns(),
            K::obeys_sub_spec() ==> final(self)@ == grid_sub(old(self)@, other@),
    {
        proof {
            self.lemma_store();
            other.lemma_store();
        }
        self.data = sub_grids(&self.data, &other.data);
    }

    /// The entry-wise difference of the matrix and `other`.
    pub fn sub_new(&self, other: &Self) -> (r: Self)
        requires
            self.wf(),
            other.wf(),
            self.rows() == other.rows(),
            self.columns() == other.columns(),
            grid_sub_req(self@, other@),
        ensures
            r.wf(),
            r.rows() == self.rows(),
            r.columns() == self.columns(),
            K::obeys_sub_spec() ==> r@ == grid_sub(self@, other@),
    {
        proof {
            self.lemma_store();
            other.lemma_store();
        }
        Self {
            rows: self.rows,
            columns: self.columns,
            data: sub_grids(&self.data, &other.data),
        }
    }
}

impl<K> Matrix<K> where K: Copy + Mul<Output = K> {
    /// Multiplies every entry by `scalar`.
    pub fn scl(&mut self, scalar: K)
        requires
            old(self).wf(),
            grid_scl_req(old(self)@, scalar),
        ensures
            final(self).wf(),
            final(self).rows() == old(self).rows(),
            final(self).columns() == old(self).columns(),
            K::obeys_mul_spec() ==> final(self)@ == grid_scl(old(self)@, scalar),
    {
        proof {
            self.lemma_store();
        }
        self.data = scl_grid(&self.data, scalar);
    }

    /// The matrix with every entry multiplied by `scalar`.
    pub fn scl_new(&self, scalar: K) -> (r: Self)
        requires
            self.wf(),
            grid_scl_req(self@, scalar),
        ensures
            r.wf(),
            r.rows() == self.rows(),
            r.columns() == self.columns(),
            K::obeys_mul_spec() ==> r@ == grid_scl(self@, scalar),
    {
        proof {
            self.lemma_store();
        }
        Self { rows: self.rows, columns: self.columns, data: scl_grid(&self.data, scalar) }
    }
}

impl<K> Add for Matrix<K> where K: Copy + Add<Output = K> {
    type Output = Self;

    /// `a + b` is `a.add_new(&b)`.
    fn add(self, other: Self) -> (r: Self)
        ensures
            r.wf(),
            r.rows() == self.rows(),
            r.columns() == self.columns(),
            K::obeys_add_spec() ==> r@ == grid_add(self@, other@),
    {
        self.add_new(&other)
    }
}

/// When the operator may be used. What it gives is stated on the operator
/// itself; to code that is generic over the operator trait nothing more is
/// promised.
impl<K> AddSpecImpl for Matrix<K> where K: Copy + Add<Output = K> {
    open spec fn obeys_add_spec() -> bool {
        false
    }

    open spec fn add_req(self, other: Self) -> bool {
        &&& self.wf()
        &&& other.wf()
        &&& self.rows() == other.rows()
        &&& self.columns() == other.columns()
        &&& grid_add_req(self@, other@)
    }

    open spec fn add_spec(self, other: Self) -> Self {
        arbitrary()
    }
}

impl<K> Sub for Matrix<K> where K: Copy + Sub<Output = K> {
    type Output = Self;

    /// `a - b` is `a.sub_new(&b)`.
    fn sub(self, other: Self) -> (r: Self)
        ensures
            r.wf(),
            r.rows() == self.rows(),
            r.columns() == self.columns(),
            K::obeys_sub_spec() ==> r@ == grid_sub(self@, other@),
    {
        self.sub_new(&other)
    }
}

/// When the operator may be used. What it gives is stated on the operator
/// itself; to code that is generic over the operator trait nothing more is
/// promised.
impl<K> SubSpecImpl for Matrix<K> where K: Copy + Sub<Output = K> {
    open spec fn obeys_sub_spec() -> bool {
        false
    }

    open spec fn sub_req(self, other: Self) -> bool {
        &&& self.wf()
        &&& other.wf()
        &&& self.rows() == other.rows()
        &&& self.columns() == other.columns()
        &&& grid_sub_req(self@, other@)
    }

    open spec fn sub_spec(self, other: Self) -> Self {
        arbitrary()
    }
}

impl<K> Mul<K> for Matrix<K> where K: Copy + Mul<Output = K> {
    type Output = Self;

    /// `a * k` is `a.scl_new(k)`.
    fn mul(self, scalar: K) -> (r: Self)
        ensures
            r.wf(),
            r.rows() == self.rows(),
            r.columns() == self.columns(),
            K::obeys_mul_spec() ==> r@ == grid_scl(self@, scalar),
    {
        self.scl_new(scalar)
    }
}

/// When the operator may be used. What it gives is stated on the operator
/// itself; to code that is generic over the operator trait nothing more is
/// promised.
impl<K> MulSpecImpl<K> for Matrix<K> where K: Copy + Mul<Output = K> {
    open spec fn obeys_mul_spec() -> bool {
        false
    }

    open spec fn mul_req(self, scalar: K) -> bool {
        self.wf() && grid_scl_req(self@, scalar)
    }

    open spec fn mul_spec(self, scalar: K) -> Self {
        arbitrary()
    }
}

impl<K> Index<usize> for Matrix<K> {
    type Output = [K];

    /// `m[i]` is row `i`.
    fn index(&self, index: usize) -> (r: &[K])
        ensures
            r@ == self@[index as int],
    {
        self.data[index].as_slice()
    }
}

/// An index may be used if it is in range.
impl<K> vstd::std_specs::core::IndexSpecImpl<usize> for Matrix<K> {
    open spec fn index_req(&self, index: &usize) -> bool {
        *index < self@.len()
    }
}

impl<K> IndexMut<usize> for Matrix<K> {
    /// `m[i]` for writing, as in `m[i][j] = x`, for a row `i` in range: the
    /// slice that is handed out holds that row, and the matrix is left with
    /// what is written through it in that row, with every other row as it
    /// was and with its dimensions unchanged.
    fn index_mut(&mut self, index: usize) -> (r: &mut [K])
        requires
            index < old(self)@.len(),
        ensures
            r@ == old(self)@[index as int],
            final(self)@ == old(self)@.update(index as int, final(r)@),
            final(self).rows() == old(self).rows(),
            final(self).columns() == old(self).columns(),
    {
        self.data[index].as_mut_slice()
    }
}

impl<K> Matrix<K> where K: Copy + Zero + Add<Output = K> + Mul<Output = K> {
    /// The product of the matrix and the column vector `vec`: item `i` of the
    /// result is the dot product of row `i` with `vec`.
    pub fn mul_vec(&self, vec: &Vector<K>) -> (r: Vector<K>)
        requires
            self.wf(),
            vec@.len() == self.columns(),
            K::obeys_add_spec(),
            K::obeys_mul_spec(),
            mat_vec_req(self@, vec@),
        ensures
            r@ == mat_vec(self@, vec@),
    {
        proof {
            self.lemma_store();
        }
        let mut result: Vec<K> = Vec::with_capacity(self.rows);
        let mut i: usize = 0;
        while i < self.rows
            invariant
                is_store(self.data@, self.rows as nat, self.columns as nat),
                self@ == rows_of(self.data@),
                vec@.len() == self.columns,
                K::obeys_add_spec(),
                K::obeys_mul_spec(),
                mat_vec_req(self@, vec@),
                i <= self.rows,
                result@.len() == i,
                forall|k: int| 0 <= k < i ==> result@[k] == seq_dot(#[trigger] self@[k], vec@),
            decreases self.rows - i,
        {
            assert(seq_dot_req(self@[i as int], vec@));
            result.push(dot_slices(self.data[i].as_slice(), vec.as_slice()));
            i += 1;
        }
        Vector::from(result)
    }

    /// The product of the matrix and `other`: the entry at `(i, j)` is the
    /// dot product of row `i` of the matrix with column `j` of `other`.
    pub fn mul_mat(&self, other: &Self) -> (r: Self)
        requires
            self.wf(),
            other.wf(),
            self.columns() == other.rows(),
            K::obeys_add_spec(),
            K::obeys_mul_spec(),
            mat_mat_req(self@, other@, other.columns() as nat),
        ensures
            r.wf(),
            r.rows() == self.rows(),
            r.columns() == other.columns(),
            r@ == mat_mat(self@, other@, other.columns() as nat),
    {
        proof {
            self.lemma_store();
            other.lemma_store();
        }
        let mut data: Vec<Vec<K>> = Vec::with_capacity(self.rows);
        let mut i: usize = 0;
        while i < self.rows
            invariant
                is_store(self.data@, self.rows as nat, self.columns as nat),
                is_store(other.data@, other.rows as nat, other.columns as nat),
                self@ == rows_of(self.data@),
                other@ == rows_of(other.data@),
                other.columns() == other.columns,
                self.columns == other.rows,
                K::obeys_add_spec(),
                K::obeys_mul_spec(),
                mat_mat_req(self@, other@, other.columns() as nat),
                i <= self.rows,
                data@.len() == i,
                forall|a: int|
                    0 <= a < i ==> (#[trigger] data@[a])@ == Seq::new(
                        other.columns() as nat,
                        |j: int| seq_dot(self@[a], column(other@, j)),
                    ),
            decreases self.rows - i,
        {
            let mut row: Vec<K> = Vec::with_capacity(other.columns);
            let mut j: usize = 0;
            while j < other.columns
                invariant
                    is_store(self.data@, self.rows as nat, self.columns as nat),
                    is_store(other.data@, other.rows as nat, other.columns as nat),
                    self@ == rows_of(self.data@),
                    other@ == rows_of(other.data@),
                    other.columns() == other.columns,
                    self.columns == other.rows,
                    K::obeys_add_spec(),
                    K::obeys_mul_spec(),
                    mat_mat_req(self@, other@, other.columns() as nat),
                    i < self.rows,
                    j <= other.columns,
                    row@.len() == j,
                    forall|b: int|
                        0 <= b < j ==> row@[b] == seq_dot(
                            self@[i as int],
                            #[trigger] column(other@, b),
                        ),
                decreases other.columns - j,
            {
                let ghost u = self@[i as int];
                let ghost v = column(other@, j as int);
                let mut sum = K::zero();
                let mut k: usize = 0;
                while k < self.columns
                    invariant
                        is_store(self.data@, self.rows as nat, self.columns as nat),
                        is_store(other.data@, other.rows as nat, other.columns as nat),
                        self@ == rows_of(self.data@),
                        other@ == rows_of(other.data@),
                        self.columns == other.rows,
                        K::obeys_add_spec(),
                        K::obeys_mul_spec(),
                        i < self.rows,
                        j < other.columns,
                        k <= self.columns,
                        u == self@[i as int],
                        v == column(other@, j as int),
                        seq_dot_req(u, v),
                        sum == dot_prefix(u, v, k as int),
                    decreases self.columns - k,
                {
                    sum = sum + (self.data[i][k] * other.data[k][j]);
                    k += 1;
                }
                row.push(sum);
                j += 1;
            }
            data.push(row);
            i += 1;
        }
        Self { rows: self.rows, columns: other.columns, data }
    }
}

impl<K> Matrix<K> where K: Copy + Zero + Add<Output = K> {
    /// The trace: the sum of the diagonal entries of a square matrix, and the
    /// additive identity for any other.
    pub fn trace(&self) -> (t: K)
        requires
            self.wf(),
            self.is_square() ==> K::obeys_add_spec() && trace_req(self@),
        ensures
            t == if self.is_square() {
                diag_prefix(self@, self.rows() as int)
            } else {
                K::zero_spec()
            },
    {
        proof {
            self.lemma_store();
        }
        if !self.is_square() {
            return K::zero();
        }
        let mut acc = K::zero();
        let mut i: usize = 0;
        while i < self.rows
            invariant
                is_store(self.data@, self.rows as nat, self.columns as nat),
                self@ == rows_of(self.data@),
                self.rows == self.columns,
                K::obeys_add_spec(),
                trace_req(self@),
                i <= self.rows,
                acc == diag_prefix(self@, i as int),
            decreases self.rows - i,
        {
            acc = acc + self.data[i][i];
            i += 1;
        }
        acc
    }
}

impl<K> Matrix<K> where K: Copy {
    /// The matrix without row `remove_row` and column `remove_col`.
    pub fn sub_matrix(&self, remove_row: usize, remove_col: usize) -> (r: Self)
        requires
            self.wf(),
            remove_row < self.rows(),
            remove_col < self.columns(),
        ensures
            r.wf(),
            r.rows() == self.rows() - 1,
            r.columns() == self.columns() - 1,
            r@ == without(self@, remove_row as int, remove_col as int),
    {
        proof {
            self.lemma_store();
        }
        let mut data: Vec<Vec<K>> = Vec::with_capacity(self.rows - 1);
        let mut i: usize = 0;
        while i < self.rows
            invariant
                is_store(self.data@, self.rows as nat, self.columns as nat),
                self@ == rows_of(self.data@),
                remove_row < self.rows,
                remove_col < self.columns,
                i <= self.rows,
                data@.len() == kept_below(i as int, remove_row as int),
                forall|a: int|
                    0 <= a < data@.len() ==> (#[trigger] data@[a])@ == self@[place_before(
                        a,
                        remove_row as int,
                    )].remove(remove_col as int),
            decreases self.rows - i,
        {
            if i != remove_row {
                let mut new_row: Vec<K> = Vec::with_capacity(self.columns - 1);
                let mut j: usize = 0;
                while j < self.columns
                    invariant
                        is_store(self.data@, self.rows as nat, self.columns as nat),
                        self@ == rows_of(self.data@),
                        remove_col < self.columns,
                        i < self.rows,
                        j <= self.columns,
                        new_row@.len() == kept_below(j as int, remove_col as int),
                        forall|b: int|
                            0 <= b < new_row@.len() ==> #[trigger] new_row@[b]
                                == self@[i as int][place_before(b, remove_col as int)],
                    decreases self.columns - j,
                {
                    if j != remove_col {
                        new_row.push(self.data[i][j]);
                    }
                    j += 1;
                }
                data.push(new_row);
            }
            i += 1;
        }
        Self { rows: self.rows - 1, columns: self.columns - 1, data }
    }
}

} // verus!
