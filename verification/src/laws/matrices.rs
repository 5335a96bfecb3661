//! Laws of the transpose.
use crate::matrix::{is_grid, transposed};
use vstd::prelude::*;

verus! {

/// The transpose of a `rows × columns` grid is a `columns × rows` grid, and
/// its transpose is the grid itself.
pub proof fn lemma_transpose_twice<K>(m: Seq<Seq<K>>, rows: nat, columns: nat)
    requires
        is_grid(m, rows, columns),
    ensures
        is_grid(transposed(m, columns), columns, rows),
        transposed(transposed(m, columns), rows) == m,
{
    let t = transposed(m, columns);
    let back = transposed(t, rows);
    // entry by entry, and so row by row, the second transpose is the grid
    assert forall|i: int| 0 <= i < back.len() implies #[trigger] back[i] =~= m[i] by {}
}

} // verus!
