//! Laws of the reduction to row echelon form.
use crate::field::{is_field, lemma_div_one};
use crate::integral::Integral;
use crate::matrix::inverse::identity;
use crate::matrix::row_echelon::{first_nonzero_from, re_run, re_run_req, re_step, re_step_req};
use crate::slices::seq_div;
use crate::traits::{One, Zero};
use std::ops::{Add, Div, Mul, Neg, Sub};
use vstd::prelude::*;
use vstd::std_specs::ops::DivSpec;

verus! {

/// The step of the reduction for row `r` of an identity grid, with the pivot
/// on the diagonal, may be evaluated and leaves the grid as it is.
pub proof fn lemma_step_on_identity<K: Integral + Neg<Output = K>>(n: nat, r: int)
    requires
        0 <= r < n,
    ensures
        first_nonzero_from(identity::<K>(n)[r], r) == Some(r),
        re_step_req(identity::<K>(n), r, r),
        re_step(identity::<K>(n), r, r) == identity::<K>(n),
{
    let id = identity::<K>(n);
    let one = K::one_spec();
    K::lemma_identities(one);
    K::lemma_identities(K::zero_spec());
    assert forall|j: int|
        #![trigger id[r][j].div_req(one)]
        #![trigger id[r][j].div_spec(one)]
        0 <= j < n implies id[r][j].div_req(one) && id[r][j].div_spec(one) == id[r][j] by {
        K::lemma_div_by_one(id[r][j]);
    }
    assert(seq_div(id[r], one) =~= id[r]);
}

/// The reduction of an identity grid from any row on may be evaluated and
/// gives the identity back.
pub proof fn lemma_reduce_identity_from<K: Integral + Neg<Output = K>>(n: nat, r: int)
    requires
        0 <= r,
    ensures
        re_run_req(identity::<K>(n), r),
        re_run(identity::<K>(n), r) == identity::<K>(n),
    decreases n - r,
{
    if r < n {
        lemma_step_on_identity::<K>(n, r);
        lemma_reduce_identity_from::<K>(n, r + 1);
    }
}

/// The reduced row echelon form of an identity matrix of any dimension is
/// that identity matrix.
pub proof fn lemma_row_echelon_of_identity<K: Integral + Neg<Output = K>>(n: nat)
    ensures
        re_run_req(identity::<K>(n), 0),
        re_run(identity::<K>(n), 0) == identity::<K>(n),
{
    lemma_reduce_identity_from::<K>(n, 0);
}

/// Over a field, the step of the reduction for row `r` of an identity grid
/// finds its pivot on the diagonal and leaves the grid as it is.
pub proof fn lemma_step_on_identity_in_field<
    K: Zero + One + Add<Output = K> + Sub<Output = K> + Mul<Output = K> + Div<Output = K> + Neg<
        Output = K,
    >,
>(n: nat, r: int)
    requires
        is_field::<K>(),
        0 <= r < n,
    ensures
        first_nonzero_from(identity::<K>(n)[r], r) == Some(r),
        re_step(identity::<K>(n), r, r) == identity::<K>(n),
{
    let id = identity::<K>(n);
    let one = K::one_spec();
    assert(!one.is_zero_spec());
    assert(K::zero_spec().is_zero_spec());
    assert forall|j: int| 0 <= j < n implies #[trigger] id[r][j].div_spec(one) == id[r][j] by {
        lemma_div_one(id[r][j]);
    }
    assert(seq_div(id[r], one) =~= id[r]);
}

/// Over a field, the reduced row echelon form of an identity grid, taken up
/// from any row, is that identity grid.
pub proof fn lemma_row_echelon_of_identity_in_field<
    K: Zero + One + Add<Output = K> + Sub<Output = K> + Mul<Output = K> + Div<Output = K> + Neg<
        Output = K,
    >,
>(n: nat, r: int)
    requires
        is_field::<K>(),
        0 <= r,
    ensures
        re_run(identity::<K>(n), r) == identity::<K>(n),
    decreases n - r,
{
    if r < n {
        lemma_step_on_identity_in_field::<K>(n, r);
        lemma_row_echelon_of_identity_in_field::<K>(n, r + 1);
    }
}

} // verus!
