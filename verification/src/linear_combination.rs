//! Linear combinations of vectors.
use crate::errors::LinearCombinationError;
use crate::matrix::{column, first_mismatch, same_lengths};
use crate::slices::{dot_prefix, seq_dot, seq_dot_req};
use crate::traits::Zero;
use crate::vector::Vector;
use std::ops::{Add, Mul};
use vstd::prelude::*;
use vstd::std_specs::ops::{AddSpec, MulSpec};

verus! {

/// The vectors of `vs`, each as the sequence of its components.
pub open spec fn views_of<K>(vs: Seq<Vector<K>>) -> Seq<Seq<K>> {
    Seq::new(vs.len(), |k: int| vs[k]@)
}

/// Whether every component of the combination of [`combination`] may be
/// evaluated.
pub open spec fn combination_req<K: Zero + Add<Output = K> + Mul<Output = K>>(
    vs: Seq<Seq<K>>,
    cs: Seq<K>,
) -> bool {
    vs.len() > 0 ==> forall|i: int|
        0 <= i < vs[0].len() ==> seq_dot_req(#[trigger] column(vs, i), cs)
}

/// The linear combination `Σ cs[k] · vs[k]` of vectors of one length:
/// component `i` is the sum of the products `vs[k][i] · cs[k]`, accumulated
/// over `k` from the left and seeded with the additive identity. The
/// combination of no vectors is the empty vector.
pub open spec fn combination<K: Zero + Add<Output = K> + Mul<Output = K>>(
    vs: Seq<Seq<K>>,
    cs: Seq<K>,
) -> Seq<K> {
    if vs.len() == 0 {
        Seq::empty()
    } else {
        Seq::new(vs[0].len(), |i: int| seq_dot(column(vs, i), cs))
    }
}

/// The linear combination of `vectors` with `coefficients`.
///
/// Vectors that do not all have the length of the first one are refused: the
/// error names that length and the length of the first vector that differs.
pub fn linear_combination<K, const N: usize>(vectors: [Vector<K>; N], coefficients: [K; N]) -> (r:
    Result<Vector<K>, LinearCombinationError>) where
    K: Copy + Zero + Add<Output = K> + Mul<Output = K>,

    requires
        same_lengths(views_of(vectors@)) ==> {
            &&& K::obeys_add_spec()
            &&& K::obeys_mul_spec()
            &&& combination_req(views_of(vectors@), coefficients@)
        },
    ensures
        same_lengths(views_of(vectors@)) ==> r is Ok && r->Ok_0@ == combination(
            views_of(vectors@),
            coefficients@,
        ),
        !same_lengths(views_of(vectors@)) ==> r is Err && exists|k: int|
            first_mismatch(views_of(vectors@), k) && r->Err_0
                == (LinearCombinationError::VectorsDimensionMismatch {
                expected_len: vectors@[0]@.len() as usize,
                founded_len: (#[trigger] vectors@[k])@.len() as usize,
            }),
{
    let ghost vs = views_of(vectors@);
    if N == 0 {
        return Ok(Vector::from(Vec::new()));
    }
    let len = vectors[0].len();
    let mut k: usize = 0;
    while k < N
        invariant
            k <= N,
            0 < N,
            vs == views_of(vectors@),
            vs.len() == N,
            len == vs[0].len(),
            forall|t: int| 0 <= t < k ==> (#[trigger] vs[t]).len() == len,
        decreases N - k,
    {
        if vectors[k].len() != len {
            assert(first_mismatch(vs, k as int));
            return Err(
                LinearCombinationError::VectorsDimensionMismatch {
                    expected_len: len,
                    founded_len: vectors[k].len(),
                },
            );
        }
        k += 1;
    }
    let mut result: Vec<K> = Vec::with_capacity(len);
    let mut i: usize = 0;
    while i < len
        invariant
            i <= len,
            result@.len() == i,
            forall|t: int| 0 <= t < i ==> #[trigger] result@[t] == K::zero_spec(),
        decreases len - i,
    {
        result.push(K::zero());
        i += 1;
    }
    let mut k: usize = 0;
    while k < N
        invariant
            k <= N,
            vs == views_of(vectors@),
            vs.len() == N,
            coefficients@.len() == N,
            len == vs[0].len(),
            same_lengths(vs),
            K::obeys_add_spec(),
            K::obeys_mul_spec(),
            combination_req(vs, coefficients@),
            result@.len() == len,
            forall|t: int|
                0 <= t < len ==> #[trigger] result@[t] == dot_prefix(
                    column(vs, t),
                    coefficients@,
                    k as int,
                ),
        decreases N - k,
    {
        assert(vs[k as int] == vectors@[k as int]@);
        let coefficient = coefficients[k];
        let items = vectors[k].as_slice();
        let ghost before = result@;
        let mut i: usize = 0;
        while i < len
            invariant
                i <= len,
                k < N,
                vs == views_of(vectors@),
                vs.len() == N,
                coefficients@.len() == N,
                len == vs[0].len(),
                same_lengths(vs),
                K::obeys_add_spec(),
                K::obeys_mul_spec(),
                combination_req(vs, coefficients@),
                items@ == vs[k as int],
                items@.len() == len,
                coefficient == coefficients@[k as int],
                result@.len() == len,
                forall|t: int|
                    0 <= t < len ==> #[trigger] before[t] == dot_prefix(
                        column(vs, t),
                        coefficients@,
                        k as int,
                    ),
                forall|t: int| i <= t < len ==> result@[t] == before[t],
                forall|t: int|
                    0 <= t < i ==> #[trigger] result@[t] == dot_prefix(
                        column(vs, t),
                        coefficients@,
                        k + 1,
                    ),
            decreases len - i,
        {
            let ghost col = column(vs, i as int);
            assert(before[i as int] == dot_prefix(col, coefficients@, k as int));
            result[i] = result[i] + (items[i] * coefficient);
            i += 1;
        }
        k += 1;
    }
    Ok(Vector::from(result))
}

} // verus!
