//! The determinant of small square matrices.
//!
//! The determinant is defined by closed formulas for the dimensions 1, 2 and
//! 3 and by cofactor expansion along the first row for dimension 4. That is
//! where the definition ends: for every other shape, square or not, the
//! determinant of this crate is the additive identity.
use crate::matrix::{is_store, rows_of, without, Matrix};
use crate::traits::{Negative, One, Zero};
use std::ops::{Add, Mul, Sub};
use vstd::prelude::*;
use vstd::std_specs::ops::{AddSpec, MulSpec, SubSpec};

verus! {

/// Whether `x * y * z` may be evaluated from the left.
pub open spec fn mul3_req<K: Mul<Output = K>>(x: K, y: K, z: K) -> bool {
    x.mul_req(y) && x.mul_spec(y).mul_req(z)
}

/// The product `(x * y) * z`.
pub open spec fn mul3<K: Mul<Output = K>>(x: K, y: K, z: K) -> K {
    x.mul_spec(y).mul_spec(z)
}

/// Whether `x + y + z` may be evaluated from the left.
pub open spec fn add3_req<K: Add<Output = K>>(x: K, y: K, z: K) -> bool {
    x.add_req(y) && x.add_spec(y).add_req(z)
}

/// The sum `(x + y) + z`.
pub open spec fn add3<K: Add<Output = K>>(x: K, y: K, z: K) -> K {
    x.add_spec(y).add_spec(z)
}

/// Whether the formula of [`det2`] may be evaluated on `m`.
pub open spec fn det2_req<K: Sub<Output = K> + Mul<Output = K>>(m: Seq<Seq<K>>) -> bool {
    &&& m[0][0].mul_req(m[1][1])
    &&& m[0][1].mul_req(m[1][0])
    &&& m[0][0].mul_spec(m[1][1]).sub_req(m[0][1].mul_spec(m[1][0]))
}

/// The determinant of a 2×2 grid: `ad − bc`.
pub open spec fn det2<K: Sub<Output = K> + Mul<Output = K>>(m: Seq<Seq<K>>) -> K {
    m[0][0].mul_spec(m[1][1]).sub_spec(m[0][1].mul_spec(m[1][0]))
}

/// The sum of the three products of the rule of Sarrus that run down to the
/// right.
pub open spec fn det3_plus<K: Add<Output = K> + Mul<Output = K>>(m: Seq<Seq<K>>) -> K {
    add3(
        mul3(m[0][0], m[1][1], m[2][2]),
        mul3(m[0][1], m[1][2], m[2][0]),
        mul3(m[0][2], m[1][0], m[2][1]),
    )
}

/// The sum of the three products of the rule of Sarrus that run down to the
/// left.
pub open spec fn det3_minus<K: Add<Output = K> + Mul<Output = K>>(m: Seq<Seq<K>>) -> K {
    add3(
        mul3(m[0][2], m[1][1], m[2][0]),
        mul3(m[0][1], m[1][0], m[2][2]),
        mul3(m[0][0], m[1][2], m[2][1]),
    )
}

/// Whether the formula of [`det3`] may be evaluated on `m`.
pub open spec fn det3_req<K: Add<Output = K> + Sub<Output = K> + Mul<Output = K>>(
    m: Seq<Seq<K>>,
) -> bool {
    &&& mul3_req(m[0][0], m[1][1], m[2][2])
    &&& mul3_req(m[0][1], m[1][2], m[2][0])
    &&& mul3_req(m[0][2], m[1][0], m[2][1])
    &&& mul3_req(m[0][2], m[1][1], m[2][0])
    &&& mul3_req(m[0][1], m[1][0], m[2][2])
    &&& mul3_req(m[0][0], m[1][2], m[2][1])
    &&& add3_req(
        mul3(m[0][0], m[1][1], m[2][2]),
        mul3(m[0][1], m[1][2], m[2][0]),
        mul3(m[0][2], m[1][0], m[2][1]),
    )
    &&& add3_req(
        mul3(m[0][2], m[1][1], m[2][0]),
        mul3(m[0][1], m[1][0], m[2][2]),
        mul3(m[0][0], m[1][2], m[2][1]),
    )
    &&& det3_plus(m).sub_req(det3_minus(m))
}

/// The determinant of a 3×3 grid by the six products of the rule of Sarrus.
pub open spec fn det3<K: Add<Output = K> + Sub<Output = K> + Mul<Output = K>>(
    m: Seq<Seq<K>>,
) -> K {
    det3_plus(m).sub_spec(det3_minus(m))
}

/// The sign of the cofactor of column `j` of the first row: the
/// multiplicative identity for an even `j`, its additive inverse for an odd
/// one.
pub open spec fn cofactor_sign<K: One + Negative>(j: int) -> K {
    if j % 2 == 0 {
        K::one_spec()
    } else {
        K::negative_one_spec()
    }
}

/// Whether the term of [`cofactor_term`] may be evaluated.
pub open spec fn cofactor_term_req<
    K: Add<Output = K> + Sub<Output = K> + Mul<Output = K> + One + Negative,
>(m: Seq<Seq<K>>, j: int) -> bool {
    &&& det3_req(without(m, 0, j))
    &&& mul3_req(cofactor_sign::<K>(j), m[0][j], det3(without(m, 0, j)))
}

/// The term of column `j` in the expansion of a 4×4 determinant along the
/// first row: `(sign · m[0][j]) · det(minor(0, j))`.
pub open spec fn cofactor_term<
    K: Add<Output = K> + Sub<Output = K> + Mul<Output = K> + One + Negative,
>(m: Seq<Seq<K>>, j: int) -> K {
    mul3(cofactor_sign::<K>(j), m[0][j], det3(without(m, 0, j)))
}

/// The sum of the first `n` cofactor terms of the first row, accumulated
/// from the left and seeded with the additive identity.
pub open spec fn det4_prefix<
    K: Add<Output = K> + Sub<Output = K> + Mul<Output = K> + Zero + One + Negative,
>(m: Seq<Seq<K>>, n: int) -> K
    decreases n,
{
    if n <= 0 {
        K::zero_spec()
    } else {
        det4_prefix(m, n - 1).add_spec(cofactor_term(m, n - 1))
    }
}

/// Whether the expansion of [`det4`] may be evaluated on `m`.
pub open spec fn det4_req<
    K: Add<Output = K> + Sub<Output = K> + Mul<Output = K> + Zero + One + Negative,
>(m: Seq<Seq<K>>) -> bool {
    forall|j: int|
        0 <= j < 4 ==> cofactor_term_req(m, j) && (#[trigger] det4_prefix(m, j)).add_req(
            cofactor_term(m, j),
        )
}

/// The determinant of a 4×4 grid by cofactor expansion along the first row.
pub open spec fn det4<
    K: Add<Output = K> + Sub<Output = K> + Mul<Output = K> + Zero + One + Negative,
>(m: Seq<Seq<K>>) -> K {
    det4_prefix(m, 4)
}

/// Whether the determinant of a `rows × columns` grid may be evaluated.
pub open spec fn det_req<
    K: Add<Output = K> + Sub<Output = K> + Mul<Output = K> + Zero + One + Negative,
>(m: Seq<Seq<K>>, rows: nat, columns: nat) -> bool {
    rows == columns ==> {
        &&& rows == 2 ==> det2_req(m)
        &&& rows == 3 ==> det3_req(m)
        &&& rows == 4 ==> det4_req(m)
    }
}

/// The determinant of a `rows × columns` grid: by formula for the square
/// grids of dimension 1 to 4, the additive identity for every other grid.
pub open spec fn det<
    K: Add<Output = K> + Sub<Output = K> + Mul<Output = K> + Zero + One + Negative,
>(m: Seq<Seq<K>>, rows: nat, columns: nat) -> K {
    if rows != columns {
        K::zero_spec()
    } else if rows == 1 {
        m[0][0]
    } else if rows == 2 {
        det2(m)
    } else if rows == 3 {
        det3(m)
    } else if rows == 4 {
        det4(m)
    } else {
        K::zero_spec()
    }
}

impl<K> Matrix<K> where
    K: Copy + Add<Output = K> + Sub<Output = K> + Mul<Output = K> + Zero + One + Negative,
 {
    /// The determinant of the matrix, as [`det`] defines it.
    pub fn determinant(&self) -> (d: K)
        requires
            self.wf(),
            self.is_square() && 2 <= self.rows() <= 4 ==> {
                &&& K::obeys_add_spec()
                &&& K::obeys_sub_spec()
                &&& K::obeys_mul_spec()
                &&& det_req(self@, self.rows() as nat, self.columns() as nat)
            },
        ensures
            d == det(self@, self.rows() as nat, self.columns() as nat),
        decreases self.rows(),
    {
        proof {
            self.lemma_store();
        }
        if self.rows != self.columns {
            return K::zero();
        }
        if self.rows == 1 {
            self.data[0][0]
        } else if self.rows == 2 {
            (self.data[0][0] * self.data[1][1]) - (self.data[0][1] * self.data[1][0])
        } else if self.rows == 3 {
            let a = self.data[0][0] * self.data[1][1] * self.data[2][2];
            let b = self.data[0][1] * self.data[1][2] * self.data[2][0];
            let c = self.data[0][2] * self.data[1][0] * self.data[2][1];
            let d = self.data[0][2] * self.data[1][1] * self.data[2][0];
            let e = self.data[0][1] * self.data[1][0] * self.data[2][2];
            let f = self.data[0][0] * self.data[1][2] * self.data[2][1];
            (a + b + c) - (d + e + f)
        } else if self.rows == 4 {
            let mut acc = K::zero();
            let mut col: usize = 0;
            while col < 4
                invariant
                    self.wf(),
                    is_store(self.data@, 4, 4),
                    self@ == rows_of(self.data@),
                    self.rows() == 4,
                    self.columns() == 4,
                    K::obeys_add_spec(),
                    K::obeys_sub_spec(),
                    K::obeys_mul_spec(),
                    det4_req(self@),
                    col <= 4,
                    acc == det4_prefix(self@, col as int),
                decreases 4 - col,
            {
                let minor = self.sub_matrix(0, col);
                let sign = if col % 2 == 0 {
                    K::one()
                } else {
                    K::negative_one()
                };
                acc = acc + sign * self.data[0][col] * minor.determinant();
                col += 1;
            }
            acc
        } else {
            K::zero()
        }
    }
}

} // verus!
