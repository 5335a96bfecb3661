use linear_algebra::{Vector, cross_product};
use linear_algebra::traits::{Conjugate, Magnitude, Negative, One, Zero};

/// A floating-point scalar for the tests: the library's capability traits
/// cannot be implemented for `f32` and `f64` from outside the library. The
/// `*_spec` items are the traits' specification functions, which an
/// implementation outside the verifier writes as ordinary functions.
#[allow(dead_code)]
#[derive(Debug, Clone, Copy, PartialEq, PartialOrd, Default)]
struct Real<F>(F);

#[allow(dead_code)]
fn reals<F, const N: usize>(items: [F; N]) -> [Real<F>; N] {
    items.map(Real)
}

#[allow(dead_code)]
fn real_rows<F, const R: usize, const C: usize>(rows: [[F; C]; R]) -> [[Real<F>; C]; R] {
    rows.map(|row| row.map(Real))
}

impl<F: std::ops::Add<Output = F>> std::ops::Add for Real<F> {
    type Output = Real<F>;

    fn add(self, other: Real<F>) -> Real<F> {
        Real(self.0 + other.0)
    }
}

impl<F: std::ops::Sub<Output = F>> std::ops::Sub for Real<F> {
    type Output = Real<F>;

    fn sub(self, other: Real<F>) -> Real<F> {
        Real(self.0 - other.0)
    }
}

impl<F: std::ops::Mul<Output = F>> std::ops::Mul for Real<F> {
    type Output = Real<F>;

    fn mul(self, other: Real<F>) -> Real<F> {
        Real(self.0 * other.0)
    }
}

impl<F: std::ops::Div<Output = F>> std::ops::Div for Real<F> {
    type Output = Real<F>;

    fn div(self, other: Real<F>) -> Real<F> {
        Real(self.0 / other.0)
    }
}

impl<F: std::ops::Neg<Output = F>> std::ops::Neg for Real<F> {
    type Output = Real<F>;

    fn neg(self) -> Real<F> {
        Real(-self.0)
    }
}

impl<F: std::ops::Sub<Output = F>> std::ops::Sub<F> for Real<F> {
    type Output = F;

    fn sub(self, other: F) -> F {
        self.0 - other
    }
}

impl std::ops::Sub<&Real<f32>> for &f32 {
    type Output = f32;

    fn sub(self, other: &Real<f32>) -> f32 {
        *self - other.0
    }
}

impl<F: std::fmt::Display> std::fmt::Display for Real<F> {
    fn fmt(&self, f: &mut std::fmt::Formatter<'_>) -> std::fmt::Result {
        self.0.fmt(f)
    }
}

impl<F: PartialEq> PartialEq<F> for Real<F> {
    fn eq(&self, other: &F) -> bool {
        self.0 == *other
    }
}

#[allow(dead_code)]
impl Real<f32> {
    fn abs(self) -> f32 {
        self.0.abs()
    }
}

#[allow(dead_code)]
impl Real<f64> {
    fn abs(self) -> f64 {
        self.0.abs()
    }
}

impl<F: Default + PartialEq> Zero for Real<F> {
    fn zero() -> Self {
        Real(F::default())
    }

    fn is_zero(&self) -> bool {
        self.0 == F::default()
    }

    fn zero_spec() -> Self {
        Self::zero()
    }

    fn is_zero_spec(&self) -> bool {
        self.is_zero()
    }
}

impl<F: From<u8>> One for Real<F> {
    fn one() -> Self {
        Real(F::from(1u8))
    }

    fn one_spec() -> Self {
        Self::one()
    }
}

impl<F: From<u8> + std::ops::Neg<Output = F>> Negative for Real<F> {
    fn negative_one() -> Self {
        Real(-F::from(1u8))
    }

    fn negative_one_spec() -> Self {
        Self::negative_one()
    }
}

impl<F: Copy + Into<f64>> Magnitude for Real<F> {
    type Output = f32;

    fn magnitude(&self) -> f32 {
        let wide: f64 = self.0.into();
        (wide as f32).abs()
    }

    fn is_negligible(&self) -> bool {
        self.magnitude() < 1e-10
    }

    fn magnitude_spec(&self) -> f32 {
        self.magnitude()
    }

    fn is_negligible_spec(&self) -> bool {
        self.is_negligible()
    }
}

impl<F: Copy> Conjugate for Real<F> {
    fn conjugate(&self) -> Self {
        *self
    }

    fn conjugate_spec(&self) -> Self {
        *self
    }
}

#[test]
fn test_cross_product_basic() {
    let u = Vector::from([1, 0, 0]);
    let v = Vector::from([0, 1, 0]);

    let result = cross_product(&u, &v);

    assert_eq!(result[0], 0);
    assert_eq!(result[1], 0);
    assert_eq!(result[2], 1);
}

#[test]
fn test_cross_product_reverse() {
    let u = Vector::from([0, 1, 0]);
    let v = Vector::from([1, 0, 0]);

    let result = cross_product(&u, &v);

    assert_eq!(result[0], 0);
    assert_eq!(result[1], 0);
    assert_eq!(result[2], -1);
}

#[test]
fn test_cross_product_same_vectors() {
    let u = Vector::from([1, 2, 3]);
    let v = Vector::from([1, 2, 3]);

    let result = cross_product(&u, &v);

    assert_eq!(result[0], 0);
    assert_eq!(result[1], 0);
    assert_eq!(result[2], 0);
}

#[test]
fn test_cross_product_general_case() {
    let u = Vector::from([1, 2, 3]);
    let v = Vector::from([4, 5, 6]);

    let result = cross_product(&u, &v);

    assert_eq!(result[0], -3);
    assert_eq!(result[1], 6);
    assert_eq!(result[2], -3);
}

#[test]
fn test_cross_product_floats() {
    let u = Vector::from([1.0, 2.0, 3.0]);
    let v = Vector::from([2.0, 3.0, 4.0]);

    let result = cross_product(&u, &v);

    assert_eq!(result[0], -1.0);
    assert_eq!(result[1], 2.0);
    assert_eq!(result[2], -1.0);
}

#[test]
fn test_cross_product_invalid_dimensions() {
    let u = Vector::from([1, 2]);
    let v = Vector::from([3, 4, 5]);

    let result = cross_product(&u, &v);

    assert_eq!(result[0], 1);
    assert_eq!(result[1], 2);
    assert_eq!(result.len(), 2);
}

#[test]
fn test_cross_product_4d_vectors() {
    let u = Vector::from([1, 2, 3, 4]);
    let v = Vector::from([5, 6, 7, 8]);

    let result = cross_product(&u, &v);

    assert_eq!(result[0], 1);
    assert_eq!(result[1], 2);
    assert_eq!(result[2], 3);
    assert_eq!(result[3], 4);
    assert_eq!(result.len(), 4);
}

#[test]
fn test_cross_product_orthogonality() {
    let u = Vector::from(reals([1.0, 2.0, 3.0]));
    let v = Vector::from(reals([4.0, 5.0, 6.0]));

    let result = cross_product(&u, &v);

    assert_eq!(u.dot(&result), 0.0);
    assert_eq!(v.dot(&result), 0.0);
}

#[test]
fn test_cross_product_anticommutative() {
    let u = Vector::from([1, 2, 3]);
    let v = Vector::from([4, 5, 6]);

    let result1 = cross_product(&u, &v);
    let result2 = cross_product(&v, &u);

    assert_eq!(result1[0], -result2[0]);
    assert_eq!(result1[1], -result2[1]);
    assert_eq!(result1[2], -result2[2]);
}
