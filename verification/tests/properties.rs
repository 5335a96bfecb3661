use linear_algebra::display::{format_grid, format_row};
use linear_algebra::types::Scalar;
use linear_algebra::{
    cross_product, linear_combination, LinearCombinationError, Matrix, MatrixInverseError,
    MatrixShapeError, Vector,
};
use linear_algebra::traits::{Conjugate, Magnitude, Negative, One, Zero};

/// A floating-point scalar for the tests: the library's capability traits
/// cannot be implemented for `f32` and `f64` from outside the library. The
/// `*_spec` items are the traits' specification functions, which an
/// implementation outside the verifier writes as ordinary functions.
#[allow(dead_code)]
#[derive(Debug, Clone, Copy, PartialEq, PartialOrd, Default)]
struct Real<F>(F);

#[allow(dead_code)]
fn reals<F, const N: usize>(items: [F; N]) -> [Real<F>; N] {
    items.map(Real)
}

#[allow(dead_code)]
fn real_rows<F, const R: usize, const C: usize>(rows: [[F; C]; R]) -> [[Real<F>; C]; R] {
    rows.map(|row| row.map(Real))
}

impl<F: std::ops::Add<Output = F>> std::ops::Add for Real<F> {
    type Output = Real<F>;

    fn add(self, other: Real<F>) -> Real<F> {
        Real(self.0 + other.0)
    }
}

impl<F: std::ops::Sub<Output = F>> std::ops::Sub for Real<F> {
    type Output = Real<F>;

    fn sub(self, other: Real<F>) -> Real<F> {
        Real(self.0 - other.0)
    }
}

impl<F: std::ops::Mul<Output = F>> std::ops::Mul for Real<F> {
    type Output = Real<F>;

    fn mul(self, other: Real<F>) -> Real<F> {
        Real(self.0 * other.0)
    }
}

impl<F: std::ops::Div<Output = F>> std::ops::Div for Real<F> {
    type Output = Real<F>;

    fn div(self, other: Real<F>) -> Real<F> {
        Real(self.0 / other.0)
    }
}

impl<F: std::ops::Neg<Output = F>> std::ops::Neg for Real<F> {
    type Output = Real<F>;

    fn neg(self) -> Real<F> {
        Real(-self.0)
    }
}

impl<F: std::ops::Sub<Output = F>> std::ops::Sub<F> for Real<F> {
    type Output = F;

    fn sub(self, other: F) -> F {
        self.0 - other
    }
}

impl std::ops::Sub<&Real<f32>> for &f32 {
    type Output = f32;

    fn sub(self, other: &Real<f32>) -> f32 {
        *self - other.0
    }
}

impl<F: std::fmt::Display> std::fmt::Display for Real<F> {
    fn fmt(&self, f: &mut std::fmt::Formatter<'_>) -> std::fmt::Result {
        self.0.fmt(f)
    }
}

impl<F: PartialEq> PartialEq<F> for Real<F> {
    fn eq(&self, other: &F) -> bool {
        self.0 == *other
    }
}

#[allow(dead_code)]
impl Real<f32> {
    fn abs(self) -> f32 {
        self.0.abs()
    }
}

#[allow(dead_code)]
impl Real<f64> {
    fn abs(self) -> f64 {
        self.0.abs()
    }
}

impl<F: Default + PartialEq> Zero for Real<F> {
    fn zero() -> Self {
        Real(F::default())
    }

    fn is_zero(&self) -> bool {
        self.0 == F::default()
    }

    fn zero_spec() -> Self {
        Self::zero()
    }

    fn is_zero_spec(&self) -> bool {
        self.is_zero()
    }
}

impl<F: From<u8>> One for Real<F> {
    fn one() -> Self {
        Real(F::from(1u8))
    }

    fn one_spec() -> Self {
        Self::one()
    }
}

impl<F: From<u8> + std::ops::Neg<Output = F>> Negative for Real<F> {
    fn negative_one() -> Self {
        Real(-F::from(1u8))
    }

    fn negative_one_spec() -> Self {
        Self::negative_one()
    }
}

impl<F: Copy + Into<f64>> Magnitude for Real<F> {
    type Output = f32;

    fn magnitude(&self) -> f32 {
        let wide: f64 = self.0.into();
        (wide as f32).abs()
    }

    fn is_negligible(&self) -> bool {
        self.magnitude() < 1e-10
    }

    fn magnitude_spec(&self) -> f32 {
        self.magnitude()
    }

    fn is_negligible_spec(&self) -> bool {
        self.is_negligible()
    }
}

impl<F: Copy> Conjugate for Real<F> {
    fn conjugate(&self) -> Self {
        *self
    }

    fn conjugate_spec(&self) -> Self {
        *self
    }
}

fn identity_i64<const N: usize>() -> Matrix<i64> {
    let mut rows = [[0i64; N]; N];
    for (i, row) in rows.iter_mut().enumerate() {
        row[i] = 1;
    }
    Matrix::from(rows)
}

fn identity_real<const N: usize>() -> Matrix<Real<f64>> {
    let mut rows = [[0.0f64; N]; N];
    for (i, row) in rows.iter_mut().enumerate() {
        row[i] = 1.0;
    }
    Matrix::from(real_rows(rows))
}

fn assert_is_identity(product: &Matrix<Real<f64>>, n: usize) {
    assert_eq!(product.shape(), (n, n));
    for i in 0..n {
        for j in 0..n {
            let expected = if i == j { 1.0 } else { 0.0 };
            assert!((product[i][j] - expected).abs() < 1e-4);
        }
    }
}

#[test]
fn add_then_sub_restores_the_vector() {
    let u = Vector::from([7i64, -3, 0, 1_000_000]);
    let v = Vector::from([-9i64, 12, 5, 999]);
    let mut w = u.clone();
    w.add_inline(&v);
    assert_eq!(w.to_vec(), vec![-2, 9, 5, 1_000_999]);
    w.sub(&v);
    assert_eq!(w, u);
    assert_eq!(u.add_new(&v).sub_new(&v), u);
}

#[test]
fn add_then_sub_restores_the_matrix() {
    let a = Matrix::from([[1i32, -2], [30, 4], [5, -60]]);
    let b = Matrix::from([[9i32, 8], [-7, 6], [5, 4]]);
    let mut c = a.clone();
    c.add(&b);
    assert_eq!(c, Matrix::from([[10, 6], [23, 10], [10, -56]]));
    c.sub(&b);
    assert_eq!(c, a);
}

#[test]
fn inverse_times_matrix_is_the_identity() {
    let m = Matrix::from(real_rows([[4.0_f64, 7.0], [2.0, 6.0]]));
    let inv = m.inverse().unwrap();
    assert!((inv[0][0] - 0.6).abs() < 1e-12);
    assert!((inv[0][1] - (-0.7)).abs() < 1e-12);
    assert!((inv[1][0] - (-0.2)).abs() < 1e-12);
    assert!((inv[1][1] - 0.4).abs() < 1e-12);
    assert_is_identity(&m.mul_mat(&inv), 2);
    assert_is_identity(&inv.mul_mat(&m), 2);

    let m = Matrix::from(real_rows([[2.0, -1.0, 0.0], [-1.0, 2.0, -1.0], [0.0, -1.0, 2.0]]));
    let inv = m.inverse().unwrap();
    assert_is_identity(&m.mul_mat(&inv), 3);

    let m = Matrix::from(real_rows([
        [5.0, 1.0, 0.0, 2.0],
        [1.0, 4.0, 1.0, 0.0],
        [0.0, 1.0, 3.0, 1.0],
        [2.0, 0.0, 1.0, 6.0],
    ]));
    let inv = m.inverse().unwrap();
    assert_is_identity(&m.mul_mat(&inv), 4);
}

#[test]
fn inverse_of_an_integer_matrix_with_unit_pivots() {
    let m = Matrix::from([[1i64, 2], [0, 1]]);
    let inv = m.inverse().unwrap();
    assert_eq!(inv, Matrix::from([[1, -2], [0, 1]]));
    assert_eq!(m.mul_mat(&inv), identity_i64::<2>());
}

#[test]
fn inverse_gives_up_on_a_zero_pivot_without_exchanging_rows() {
    let m = Matrix::from(real_rows([[0.0, 1.0], [1.0, 0.0]]));
    assert_eq!(m.determinant(), -1.0);
    assert_eq!(m.inverse(), Err(MatrixInverseError::Singular));
}

#[test]
fn inverse_reports_the_shape_of_a_matrix_that_is_not_square() {
    let m = Matrix::from([[1i32, 2, 3], [4, 5, 6]]);
    assert_eq!(
        m.inverse(),
        Err(MatrixInverseError::NotSquare {
            rows: 2,
            columns: 3
        })
    );
    let m = Matrix::from([[1i32], [4], [5]]);
    assert_eq!(
        m.inverse(),
        Err(MatrixInverseError::NotSquare {
            rows: 3,
            columns: 1
        })
    );
}

#[test]
fn inverse_reports_a_singular_matrix() {
    let m = Matrix::from([[1i32, 2], [2, 4]]);
    assert_eq!(m.inverse(), Err(MatrixInverseError::Singular));
    let m = Matrix::from([[0i32]]);
    assert_eq!(m.inverse(), Err(MatrixInverseError::Singular));
}

#[test]
fn inverse_of_the_empty_matrix_is_empty() {
    let m: Matrix<i32> = Matrix::zeros(0, 0);
    let inv = m.inverse().unwrap();
    assert_eq!(inv.shape(), (0, 0));
}

#[test]
fn cross_product_is_orthogonal_to_both_operands() {
    let u = Vector::from([3i64, -5, 8]);
    let v = Vector::from([-2i64, 7, 11]);
    let c = cross_product(&u, &v);
    assert_eq!(c.to_vec(), vec![-111, -49, 11]);
    assert_eq!(u.dot(&c), 0);
    assert_eq!(v.dot(&c), 0);
}

#[test]
fn cross_product_is_anticommutative() {
    let u = Vector::from([3i64, -5, 8]);
    let v = Vector::from([-2i64, 7, 11]);
    let c = cross_product(&u, &v);
    let d = cross_product(&v, &u);
    for i in 0..3 {
        assert_eq!(c[i], -d[i]);
    }
}

#[test]
fn cross_product_of_axes() {
    let x = Vector::from([1i32, 0, 0]);
    let y = Vector::from([0i32, 1, 0]);
    let z = Vector::from([0i32, 0, 1]);
    assert_eq!(cross_product(&x, &y), z);
    assert_eq!(cross_product(&y, &z), x);
    assert_eq!(cross_product(&z, &x), y);
}

#[test]
fn cross_product_copies_the_first_operand_of_other_lengths() {
    let u = Vector::from([1i32, 2, 3]);
    let v = Vector::from([4i32, 5]);
    assert_eq!(cross_product(&u, &v), u);
    assert_eq!(cross_product(&v, &u), v);
    let empty: Vector<i32> = Vector::from([]);
    assert_eq!(cross_product(&empty, &u), empty);
}

#[test]
fn row_echelon_of_an_identity_is_that_identity() {
    assert_eq!(identity_i64::<1>().row_echelon(), identity_i64::<1>());
    assert_eq!(identity_i64::<2>().row_echelon(), identity_i64::<2>());
    assert_eq!(identity_i64::<3>().row_echelon(), identity_i64::<3>());
    assert_eq!(identity_i64::<5>().row_echelon(), identity_i64::<5>());
    assert_eq!(identity_real::<4>().row_echelon(), identity_real::<4>());
    let empty: Matrix<i64> = Matrix::zeros(0, 0);
    assert_eq!(empty.row_echelon(), empty);
}

#[test]
fn row_echelon_divides_the_pivot_row_and_clears_the_column() {
    let m = Matrix::from([[2i32, 4], [1, 3]]);
    assert_eq!(m.row_echelon(), Matrix::from([[1, 0], [0, 1]]));
    let m = Matrix::from(real_rows([[4.0, 2.0], [2.0, 1.0]]));
    assert_eq!(m.row_echelon(), Matrix::from(real_rows([[1.0, 0.5], [0.0, 0.0]])));
    let m = Matrix::from([[1i32, 2, 3], [0, 1, 4]]);
    assert_eq!(m.row_echelon(), Matrix::from([[1, 0, -5], [0, 1, 4]]));
}

#[test]
fn row_echelon_stops_at_the_first_row_without_a_pivot() {
    let m = Matrix::from([[0i32, 0], [1, 1]]);
    assert_eq!(m.row_echelon(), m);
    let m = Matrix::from([[1i32, 0, 0], [0, 0, 0], [0, 0, 5]]);
    assert_eq!(m.row_echelon(), m);
}

#[test]
fn row_echelon_looks_no_further_left_than_the_diagonal() {
    let m = Matrix::from([[1i32, 0], [1, 0]]);
    assert_eq!(m.row_echelon(), Matrix::from([[1, 0], [0, 0]]));
    let m = Matrix::from([[0i32, 3], [7, 0]]);
    assert_eq!(m.row_echelon(), Matrix::from([[0, 1], [7, 0]]));
}

#[test]
fn determinant_of_a_diagonal_matrix_is_the_product_of_the_diagonal() {
    let m = Matrix::from([[2i64, 0, 0, 0], [0, 3, 0, 0], [0, 0, 4, 0], [0, 0, 0, 5]]);
    assert_eq!(m.determinant(), 120);
    let m = Matrix::from([[-7i64, 0, 0, 0], [0, 11, 0, 0], [0, 0, 13, 0], [0, 0, 0, -1]]);
    assert_eq!(m.determinant(), 1001);
    let m = Matrix::from([[9i64, 0, 0, 0], [0, 0, 0, 0], [0, 0, 4, 0], [0, 0, 0, 5]]);
    assert_eq!(m.determinant(), 0);
    let m = Matrix::from(real_rows([
        [0.5, 0.0, 0.0, 0.0],
        [0.0, 4.0, 0.0, 0.0],
        [0.0, 0.0, -2.0, 0.0],
        [0.0, 0.0, 0.0, 8.0],
    ]));
    assert_eq!(m.determinant(), -32.0);
}

#[test]
fn determinant_by_each_formula() {
    assert_eq!(Matrix::from([[-9i32]]).determinant(), -9);
    assert_eq!(Matrix::from([[3i32, 8], [4, 6]]).determinant(), -14);
    assert_eq!(
        Matrix::from([[6i32, 1, 1], [4, -2, 5], [2, 8, 7]]).determinant(),
        -306
    );
    assert_eq!(
        Matrix::from([[1i32, 0, 2, -1], [3, 0, 0, 5], [2, 1, 4, -3], [1, 0, 5, 0]]).determinant(),
        30
    );
}

#[test]
fn determinant_is_zero_outside_its_dimensions() {
    let empty: Matrix<i32> = Matrix::zeros(0, 0);
    assert_eq!(empty.determinant(), 0);
    assert_eq!(Matrix::from([[1i32, 2]]).determinant(), 0);
    assert_eq!(identity_i64::<5>().determinant(), 0);
    assert_eq!(identity_i64::<6>().determinant(), 0);
}

#[test]
fn rank_of_proportional_rows_is_less_than_the_row_count() {
    let mut m = Matrix::from([[1i32, 2], [2, 4]]);
    assert_eq!(m.rank(), 1);
    let mut m = Matrix::from(real_rows([[1.5, 2.5, 3.5], [3.0, 5.0, 7.0], [1.0, 0.0, 0.0]]));
    assert!(m.rank() < 3);
    let mut m = Matrix::from(real_rows([[2.0, 1.0], [0.0, 0.0], [-6.0, -3.0]]));
    assert_eq!(m.rank(), 1);
    let mut m = Matrix::from(real_rows([
        [1.0, 2.0, 3.0, 4.0],
        [0.0, 1.0, 0.0, 1.0],
        [-0.5, -1.0, -1.5, -2.0],
        [0.0, 0.0, 1.0, 1.0],
    ]));
    assert_eq!(m.rank(), 3);
}

#[test]
fn rank_brings_the_pivot_row_up() {
    let mut m = Matrix::from([[0i32, 1], [1, 0]]);
    assert_eq!(m.rank(), 2);
    assert_eq!(m, Matrix::from([[1, 0], [0, 1]]));
    let mut m = Matrix::from([[0i32, 0, 3], [0, 0, 0], [0, 5, 1]]);
    assert_eq!(m.rank(), 2);
    assert_eq!(m, Matrix::from([[0, 1, 0], [0, 0, 1], [0, 0, 0]]));
}

#[test]
fn rank_rewrites_the_matrix_from_the_pivot_column_on() {
    let mut m = Matrix::from([[2i32, 4], [1, 3]]);
    assert_eq!(m.rank(), 2);
    assert_eq!(m, Matrix::from([[1, 2], [0, 1]]));
    let mut m = Matrix::from([[0i32, 2, 4], [0, 1, 5]]);
    assert_eq!(m.rank(), 2);
    assert_eq!(m, Matrix::from([[0, 1, 2], [0, 0, 1]]));
}

#[test]
fn rank_of_matrices_without_rows_or_columns() {
    let mut m: Matrix<i32> = Matrix::zeros(0, 3);
    assert_eq!(m.rank(), 0);
    let mut m: Matrix<i32> = Matrix::zeros(3, 0);
    assert_eq!(m.rank(), 0);
    assert_eq!(m.shape(), (3, 0));
}

#[test]
fn rank_treats_a_magnitude_under_the_tolerance_as_zero() {
    let mut m = Matrix::from(real_rows([[9e-11, 1.0], [0.0, 0.0]]));
    assert_eq!(m.rank(), 1);
    let mut m = Matrix::from(real_rows([[2e-10, 1.0], [0.0, 0.0]]));
    assert_eq!(m.rank(), 1);
    let mut m = Matrix::from(real_rows([[2e-10, 1.0], [0.0, 1.0]]));
    assert_eq!(m.rank(), 2);
    let mut m = Matrix::from(real_rows([[9e-11, 1.0], [0.0, 1.0]]));
    assert_eq!(m.rank(), 1);
}

#[test]
fn mul_vec_takes_the_dot_product_of_each_row() {
    let m = Matrix::from([[2i32, 3], [4, 5]]);
    let v = Vector::from([1i32, 2]);
    assert_eq!(m.mul_vec(&v).to_vec(), vec![8, 14]);
    let m = Matrix::from([[1i32, 2, 3], [4, 5, 6]]);
    let v = Vector::from([1i32, 0, -1]);
    assert_eq!(m.mul_vec(&v).to_vec(), vec![-2, -2]);
    let m: Matrix<i32> = Matrix::zeros(2, 0);
    let v: Vector<i32> = Vector::from([]);
    assert_eq!(m.mul_vec(&v).to_vec(), vec![0, 0]);
}

#[test]
fn mul_mat_of_rectangular_matrices() {
    let a = Matrix::from([[1i32, 2, 3], [4, 5, 6]]);
    let b = Matrix::from([[7i32, 8], [9, 10], [11, 12]]);
    assert_eq!(a.mul_mat(&b), Matrix::from([[58, 64], [139, 154]]));
    assert_eq!(
        b.mul_mat(&a),
        Matrix::from([[39, 54, 69], [49, 68, 87], [59, 82, 105]])
    );
}

#[test]
fn trace_sums_the_diagonal() {
    assert_eq!(Matrix::from([[4i32, 9], [7, -6]]).trace(), -2);
    assert_eq!(Matrix::from([[4i32, 9, 1], [7, -6, 1]]).trace(), 0);
    let empty: Matrix<i32> = Matrix::zeros(0, 0);
    assert_eq!(empty.trace(), 0);
}

#[test]
fn transpose_of_matrices_without_rows_or_columns() {
    let m: Matrix<i32> = Matrix::zeros(0, 3);
    let t = m.transpose();
    assert_eq!(t.shape(), (3, 0));
    assert_eq!(t.transpose(), m);
    assert_eq!(m.conjugate_transpose(), t);
}

#[test]
fn sub_matrix_removes_one_row_and_one_column() {
    let m = Matrix::from([[1i32, 2, 3], [4, 5, 6]]);
    assert_eq!(m.sub_matrix(0, 1), Matrix::from([[4, 6]]));
    assert_eq!(m.sub_matrix(1, 2), Matrix::from([[1, 2]]));
    let single = Matrix::from([[7i32]]);
    assert_eq!(single.sub_matrix(0, 0).shape(), (0, 0));
}

#[test]
fn zeros_are_filled_with_zero() {
    let v: Vector<i64> = Vector::zeros(4);
    assert_eq!(v.to_vec(), vec![0, 0, 0, 0]);
    let v: Vector<f64> = Vector::zeros(2);
    assert_eq!(v.to_vec(), vec![0.0, 0.0]);
    let empty: Vector<u8> = Vector::zeros(0);
    assert!(empty.is_empty());
    let m: Matrix<u16> = Matrix::zeros(2, 3);
    assert_eq!(m, Matrix::from([[0, 0, 0], [0, 0, 0]]));
}

#[test]
fn dot_product_of_integers() {
    let u = Vector::from([1i32, -2, 3]);
    let v = Vector::from([4i32, 5, -6]);
    assert_eq!(u.dot(&v), -24);
    let empty: Vector<i32> = Vector::from([]);
    assert_eq!(empty.dot(&empty), 0);
}

#[test]
fn scaling_multiplies_every_entry() {
    let mut v = Vector::from([1u8, 2, 3]);
    v.scl(5);
    assert_eq!(v.to_vec(), vec![5, 10, 15]);
    assert_eq!((v * 2).to_vec(), vec![10, 20, 30]);
    let m = Matrix::from([[1i16, -2], [3, -4]]);
    assert_eq!(m.scl_new(-3), Matrix::from([[-3, 6], [-9, 12]]));
}

#[test]
fn linear_combination_names_both_lengths() {
    let vectors = [
        Vector::from(vec![1i32, 2, 3, 4]),
        Vector::from(vec![1i32, 2, 3, 4]),
        Vector::from(vec![1i32]),
        Vector::from(vec![1i32, 2]),
    ];
    assert_eq!(
        linear_combination(vectors, [1, 1, 1, 1]),
        Err(LinearCombinationError::VectorsDimensionMismatch {
            expected_len: 4,
            founded_len: 1
        })
    );
}

#[test]
fn linear_combination_of_no_vectors_is_empty() {
    let vectors: [Vector<i32>; 0] = [];
    let combined = linear_combination(vectors, []).unwrap();
    assert!(combined.is_empty());
}

#[test]
fn linear_combination_sums_the_scaled_vectors() {
    let vectors = [Vector::from([1i32, 2]), Vector::from([-3i32, 5]), Vector::from([7i32, 0])];
    let combined = linear_combination(vectors, [2, -1, 3]).unwrap();
    assert_eq!(combined.to_vec(), vec![26, -1]);
}

#[test]
fn vectors_keep_the_order_of_their_source() {
    assert_eq!(Vector::from([3i32, 1, 2]).to_vec(), vec![3, 1, 2]);
    assert_eq!(Vector::from(vec![3i32, 1, 2]).into_inner(), vec![3, 1, 2]);
    let items = [9i32, 8];
    assert_eq!(Vector::from(&items[..]).as_slice(), &[9, 8]);
    let rows = Matrix::from([[3i32, 1], [2, 0]]).into_inner();
    assert_eq!(rows, vec![vec![3, 1], vec![2, 0]]);
}

#[test]
fn writing_through_a_mutable_slice_writes_to_the_vector() {
    let mut v = Vector::from([1i32, 2, 3]);
    v.as_mut_slice()[1] = 20;
    v[2] = 30;
    for item in v.iter_mut() {
        *item += 1;
    }
    assert_eq!(v.to_vec(), vec![2, 21, 31]);
    assert_eq!(v.iter().copied().sum::<i32>(), 54);
}

#[test]
fn errors_are_written_as_sentences() {
    let error = LinearCombinationError::VectorsDimensionMismatch {
        expected_len: 3,
        founded_len: 12,
    };
    assert_eq!(
        error.to_string(),
        "Os vetores possuem tamanhos diferentes: esperado 3, encontrado 12"
    );
    let error = MatrixInverseError::NotSquare {
        rows: 2,
        columns: 30,
    };
    assert_eq!(
        error.to_string(),
        "Matriz deve ser quadrada para calcular a inversa: encontrada 2x30"
    );
    assert_eq!(
        MatrixInverseError::Singular.to_string(),
        "Matriz é singular (determinante zero) e não possui inversa"
    );
}

#[test]
fn rows_are_written_between_brackets() {
    let cells = vec!["a".to_string(), "bc".to_string(), String::new()];
    assert_eq!(format_row(&cells), "[a, bc, ]");
    assert_eq!(format_row(&Vec::new()), "[]");
    assert_eq!(format_row(&vec!["x".to_string()]), "[x]");
}

#[test]
fn grids_are_aligned_by_column() {
    let cells = vec![
        vec!["1".to_string(), "-20".to_string()],
        vec!["300".to_string(), "4".to_string()],
    ];
    assert_eq!(format_grid(&cells, 2), "[  1, -20]\n[300,   4]");
    assert_eq!(format_grid(&Vec::new(), 3), "");
    assert_eq!(format_grid(&vec![Vec::new(), Vec::new()], 0), "[]\n[]");
}

#[test]
fn column_widths_count_bytes_and_padding_counts_characters() {
    let cells = vec![vec!["é".to_string()], vec!["a".to_string()]];
    assert_eq!(format_grid(&cells, 1), "[ é]\n[ a]");
    let cells = vec![vec!["éé".to_string()], vec!["abc".to_string()]];
    assert_eq!(format_grid(&cells, 1), "[  éé]\n[ abc]");
}

#[test]
fn matrices_without_rows_are_written_as_nothing() {
    let m: Matrix<i32> = Matrix::zeros(0, 2);
    assert_eq!(m.to_string(), "");
    let m: Matrix<i32> = Matrix::zeros(2, 0);
    assert_eq!(m.to_string(), "[]\n[]");
}

#[test]
fn integers_have_the_scalar_capabilities() {
    fn is_scalar<T: Scalar>(_: T) {}
    is_scalar(1i8);
    is_scalar(1u64);
    is_scalar(1.5f64);
    assert!(0u8.is_zero());
    assert!(!(-1i16).is_zero());
    assert_eq!(i32::zero(), 0);
    assert_eq!(u32::one(), 1);
    assert_eq!(i64::negative_one(), -1);
    assert_eq!(i8::MIN.magnitude(), 128u8);
    assert_eq!((-5i32).magnitude(), 5u32);
    assert_eq!(i64::MIN.magnitude(), 1u64 << 63);
    assert_eq!(7u16.magnitude(), 7u16);
    assert!(0i64.is_negligible());
    assert!(!1u8.is_negligible());
    assert!(!(-1i8).is_negligible());
    assert_eq!((-3i32).conjugate(), -3);
    assert_eq!(9u64.conjugate(), 9);
}

#[test]
fn rows_of_one_length_make_a_matrix() {
    let m = Matrix::from_rows(vec![vec![1i32, 2, 3], vec![4, 5, 6]]).unwrap();
    assert_eq!(m, Matrix::from([[1, 2, 3], [4, 5, 6]]));
    let m = Matrix::<i32>::from_rows(Vec::new()).unwrap();
    assert_eq!(m.shape(), (0, 0));
    let m = Matrix::<i32>::from_rows(vec![Vec::new(), Vec::new()]).unwrap();
    assert_eq!(m.shape(), (2, 0));
}

#[test]
fn ragged_rows_are_refused() {
    let rows = vec![vec![1i32, 2], vec![3, 4], vec![5], vec![6, 7, 8]];
    let error = Matrix::from_rows(rows).unwrap_err();
    assert_eq!(
        error,
        MatrixShapeError::RaggedRows {
            row: 2,
            expected_len: 2,
            found_len: 1
        }
    );
    assert_eq!(
        error.to_string(),
        "As linhas possuem tamanhos diferentes: linha 2, esperado 2, encontrado 1"
    );
    let rows = vec![Vec::new(), vec![1u8]];
    assert_eq!(
        Matrix::from_rows(rows),
        Err(MatrixShapeError::RaggedRows {
            row: 1,
            expected_len: 0,
            found_len: 1
        })
    );
}
