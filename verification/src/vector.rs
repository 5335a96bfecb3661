//! Fixed-length vectors over a scalar type.
//!
//! A [`Vector`] is modelled by the sequence of its components (`v@`).
use crate::slices::{
    add_slices, dot_slices, scl_slice, seq_add, seq_add_req, seq_dot, seq_dot_req, seq_scl,
    seq_scl_req, seq_sub, seq_sub_req, sub_slices,
};
use crate::traits::Zero;
use std::ops::{Add, Index, IndexMut, Mul, Sub};
use vstd::prelude::*;
use vstd::std_specs::{convert::FromSpecImpl, iter::IteratorSpec};
use vstd::std_specs::ops::{AddSpec, AddSpecImpl, MulSpec, MulSpecImpl, SubSpec, SubSpecImpl};

verus! {

/// The iterator of `<[T]>::iter_mut`, which hands out the items of a slice.
#[verifier::external_type_specification]
#[verifier::external_body]
#[verifier::reject_recursive_types(T)]
pub struct ExIterMut<'a, T: 'a>(std::slice::IterMut<'a, T>);

/// `iter_mut` of slices returns an iterator that hands out the items in their order,
/// each for writing; the slice keeps its length and is left with what was written.
pub assume_specification<'a, U>[ <[U]>::iter_mut ](s: &'a mut [U]) -> (it: std::slice::IterMut<
    'a,
    U,
>)
    ensures
        it.remaining().len() == old(s)@.len() && final(s)@.len() == old(s)@.len(),
        forall|i: int| 0 <= i < old(s)@.len() ==> *(#[trigger] it.remaining()[i]) == old(s)@[i],
        forall|i: int|
            #![trigger it.remaining()[i]]
            0 <= i < old(s)@.len() ==> final(s)@[i] == *final(it.remaining()[i]),
;

/// Whether `s` holds nothing but clones of one default value of `K`.
pub open spec fn default_filled<K: Default + Clone>(s: Seq<K>) -> bool {
    exists|d: K|
        call_ensures(K::default, (), d) && forall|i: int|
            0 <= i < s.len() ==> cloned(d, #[trigger] s[i])
}

/// An ordered sequence of scalars whose length is fixed when it is made.
#[derive(Debug, Clone, PartialEq)]
pub struct Vector<K> {
    data: Vec<K>,
}

impl<K> View for Vector<K> {
    type V = Seq<K>;

    closed spec fn view(&self) -> Seq<K> {
        self.data@
    }
}

impl<K> Vector<K> {
    /// The number of components.
    pub fn len(&self) -> (n: usize)
        ensures
            n == self@.len(),
    {
        self.data.len()
    }

    /// Whether the vector has no component.
    pub fn is_empty(&self) -> (b: bool)
        ensures
            b <==> self@.len() == 0,
    {
        self.data.len() == 0
    }

    /// An iterator over the components, from the first to the last.
    pub fn iter(&self) -> (it: std::slice::Iter<'_, K>)
        ensures
            vstd::std_specs::slice::into_iter_elts(it) == self@,
    {
        self.data.as_slice().iter()
    }

    /// An iterator that hands out the components from the first to the last,
    /// each for writing, and leaves in the vector what was written.
    pub fn iter_mut(&mut self) -> (it: std::slice::IterMut<'_, K>)
        ensures
            it.remaining().len() == old(self)@.len(),
            forall|i: int|
                0 <= i < old(self)@.len() ==> *(#[trigger] it.remaining()[i]) == old(self)@[i],
            final(self)@.len() == old(self)@.len(),
            forall|i: int|
                #![trigger it.remaining()[i]]
                0 <= i < old(self)@.len() ==> final(self)@[i] == *final(it.remaining()[i]),
    {
        self.data.as_mut_slice().iter_mut()
    }

    /// The components as a slice.
    pub fn as_slice(&self) -> (s: &[K])
        ensures
            s@ == self@,
    {
        self.data.as_slice()
    }

    /// The components as a mutable slice: what is written through it is
    /// written to the vector.
    pub fn as_mut_slice(&mut self) -> (s: &mut [K])
        ensures
            s@ == old(self)@,
            final(self)@ == final(s)@,
    {
        self.data.as_mut_slice()
    }

    /// Gives up the vector for its components.
    pub fn into_inner(self) -> (data: Vec<K>)
        ensures
            data@ == self@,
    {
        self.data
    }
}

/// `Vec::from` on an array: the vector holds the items of the array in their
/// order.
#[verifier::external_body]
pub(crate) fn vec_from_array<K, const N: usize>(arr: [K; N]) -> (v: Vec<K>)
    ensures
        v@ == arr@,
{
    Vec::from(arr)
}

impl<K, const N: usize> From<[K; N]> for Vector<K> {
    /// The vector of the items of `arr`.
    fn from(arr: [K; N]) -> (v: Self)
        ensures
            v@ == arr@,
    {
        Self { data: vec_from_array(arr) }
    }
}

/// To code that is generic over `From` nothing is promised: what the
/// conversion gives is stated on `from` itself.
impl<K, const N: usize> FromSpecImpl<[K; N]> for Vector<K> {
    open spec fn obeys_from_spec() -> bool {
        false
    }

    open spec fn from_spec(arr: [K; N]) -> Self {
        arbitrary()
    }
}

impl<K> From<&[K]> for Vector<K> where K: Copy {
    /// The vector of the items of `data`.
    fn from(data: &[K]) -> (v: Self)
        ensures
            v@ == data@,
    {
        Self { data: vstd::slice::slice_to_vec(data) }
    }
}

/// To code that is generic over `From` nothing is promised: what the
/// conversion gives is stated on `from` itself.
impl<K> FromSpecImpl<&[K]> for Vector<K> where K: Copy {
    open spec fn obeys_from_spec() -> bool {
        false
    }

    open spec fn from_spec(data: &[K]) -> Self {
        arbitrary()
    }
}

impl<K> From<Vec<K>> for Vector<K> {
    /// The vector that owns `data`.
    fn from(data: Vec<K>) -> (v: Self)
        ensures
            v@ == data@,
    {
        Self { data }
    }
}

/// To code that is generic over `From` nothing is promised: what the
/// conversion gives is stated on `from` itself.
impl<K> FromSpecImpl<Vec<K>> for Vector<K> {
    open spec fn obeys_from_spec() -> bool {
        false
    }

    open spec fn from_spec(data: Vec<K>) -> Self {
        arbitrary()
    }
}

impl<K> Vector<K> where K: Default + Clone {
    /// A vector of `len` components, each a clone of the default value of
    /// `K` (zero, for the number types).
    pub fn zeros(len: usize) -> (v: Self)
        ensures
            v@.len() == len,
            default_filled(v@),
    {
        let d = K::default();
        let data = vec![d; len];
        Self { data }
    }
}

impl<K> Vector<K> where K: Copy + Add<Output = K> {
    /// Adds `other` to the vector, component by component.
    pub fn add_inline(&mut self, other: &Self)
        requires
            old(self)@.len() == other@.len(),
            seq_add_req(old(self)@, other@),
        ensures
            final(self)@.len() == old(self)@.len(),
            K::obeys_add_spec() ==> final(self)@ == seq_add(old(self)@, other@),
    {
        self.data = add_slices(self.data.as_slice(), other.data.as_slice());
    }

    /// The component-wise sum of the vector and `other`.
    pub fn add_new(&self, other: &Self) -> (r: Self)
        requires
            self@.len() == other@.len(),
            seq_add_req(self@, other@),
        ensures
            r@.len() == self@.len(),
            K::obeys_add_spec() ==> r@ == seq_add(self@, other@),
    {
        Self { data: add_slices(self.data.as_slice(), other.data.as_slice()) }
    }
}

impl<K> Vector<K> where K: Copy + Sub<Output = K> {
    /// Subtracts `other` from the vector, component by component.
    pub fn sub(&mut self, other: &Self)
        requires
            old(self)@.len() == other@.len(),
            seq_sub_req(old(self)@, other@),
        ensures
            final(self)@.len() == old(self)@.len(),
            K::obeys_sub_spec() ==> final(self)@ == seq_sub(old(self)@, other@),
    {
        self.data = sub_slices(self.data.as_slice(), other.data.as_slice());
    }

    /// The component-wise difference of the vector and `other`.
    pub fn sub_new(&self, other: &Self) -> (r: Self)
        requires
            self@.len() == other@.len(),
            seq_sub_req(self@, other@),
        ensures
            r@.len() == self@.len(),
            K::obeys_sub_spec() ==> r@ == seq_sub(self@, other@),
    {
        Self { data: sub_slices(self.data.as_slice(), other.data.as_slice()) }
    }
}

impl<K> Vector<K> where K: Copy + Mul<Output = K> {
    /// Multiplies every component by `scalar`.
    pub fn scl(&mut self, scalar: K)
        requires
            seq_scl_req(old(self)@, scalar),
        ensures
            final(self)@.len() == old(self)@.len(),
            K::obeys_mul_spec() ==> final(self)@ == seq_scl(old(self)@, scalar),
    {
        self.data = scl_slice(self.data.as_slice(), scalar);
    }

    /// The vector with every component multiplied by `scalar`.
    pub fn scl_new(&self, scalar: K) -> (r: Self)
        requires
            seq_scl_req(self@, scalar),
        ensures
            r@.len() == self@.len(),
            K::obeys_mul_spec() ==> r@ == seq_scl(self@, scalar),
    {
        Self { data: scl_slice(self.data.as_slice(), scalar) }
    }
}

impl<K> Add for Vector<K> where K: Copy + Add<Output = K> {
    type Output = Self;

    /// `u + v` is `u.add_new(&v)`.
    fn add(self, other: Self) -> (r: Self)
        ensures
            r@.len() == self@.len(),
            K::obeys_add_spec() ==> r@ == seq_add(self@, other@),
    {
        self.add_new(&other)
    }
}

/// When the operator may be used. What it gives is stated on the operator
/// itself; to code that is generic over the operator trait nothing more is
/// promised.
impl<K> AddSpecImpl for Vector<K> where K: Copy + Add<Output = K> {
    open spec fn obeys_add_spec() -> bool {
        false
    }

    open spec fn add_req(self, other: Self) -> bool {
        self@.len() == other@.len() && seq_add_req(self@, other@)
    }

    open spec fn add_spec(self, other: Self) -> Self {
        arbitrary()
    }
}

impl<K> Sub for Vector<K> where K: Copy + Sub<Output = K> {
    type Output = Self;

    /// `u - v` is `u.sub_new(&v)`.
    fn sub(self, other: Self) -> (r: Self)
        ensures
            r@.len() == self@.len(),
            K::obeys_sub_spec() ==> r@ == seq_sub(self@, other@),
    {
        self.sub_new(&other)
    }
}

/// When the operator may be used. What it gives is stated on the operator
/// itself; to code that is generic over the operator trait nothing more is
/// promised.
impl<K> SubSpecImpl for Vector<K> where K: Copy + Sub<Output = K> {
    open spec fn obeys_sub_spec() -> bool {
        false
    }

    open spec fn sub_req(self, other: Self) -> bool {
        self@.len() == other@.len() && seq_sub_req(self@, other@)
    }

    open spec fn sub_spec(self, other: Self) -> Self {
        arbitrary()
    }
}

impl<K> Mul<K> for Vector<K> where K: Copy + Mul<Output = K> {
    type Output = Self;

    /// `u * k` is `u.scl_new(k)`.
    fn mul(self, scalar: K) -> (r: Self)
        ensures
            r@.len() == self@.len(),
            K::obeys_mul_spec() ==> r@ == seq_scl(self@, scalar),
    {
        self.scl_new(scalar)
    }
}

/// When the operator may be used. What it gives is stated on the operator
/// itself; to code that is generic over the operator trait nothing more is
/// promised.
impl<K> MulSpecImpl<K> for Vector<K> where K: Copy + Mul<Output = K> {
    open spec fn obeys_mul_spec() -> bool {
        false
    }

    open spec fn mul_req(self, scalar: K) -> bool {
        seq_scl_req(self@, scalar)
    }

    open spec fn mul_spec(self, scalar: K) -> Self {
        arbitrary()
    }
}

impl<K> Index<usize> for Vector<K> {
    type Output = K;

    /// `v[i]` is the component at `i`.
    fn index(&self, index: usize) -> (r: &K)
        ensures
            *r == self@[index as int],
    {
        &self.data[index]
    }
}

/// An index may be used if it is in range.
impl<K> vstd::std_specs::core::IndexSpecImpl<usize> for Vector<K> {
    open spec fn index_req(&self, index: &usize) -> bool {
        *index < self@.len()
    }
}

impl<K> IndexMut<usize> for Vector<K> {
    /// `v[i] = x` writes the component at `i`, which must be in range: the
    /// reference that is handed out holds that component, and the vector is
    /// left with what is written through it in that place and with every
    /// other component as it was.
    fn index_mut(&mut self, index: usize) -> (r: &mut K)
        requires
            index < old(self)@.len(),
        ensures
            *r == old(self)@[index as int],
            final(self)@ == old(self)@.update(index as int, *final(r)),
    {
        &mut self.data[index]
    }
}

impl<K> Vector<K> where K: Copy + Zero + Add<Output = K> + Mul<Output = K> {
    /// The dot product with `v`: the products of the paired components,
    /// summed from the left onto the additive identity.
    pub fn dot(&self, v: &Self) -> (r: K)
        requires
            self@.len() == v@.len(),
            K::obeys_add_spec(),
            K::obeys_mul_spec(),
            seq_dot_req(self@, v@),
        ensures
            r == seq_dot(self@, v@),
    {
        dot_slices(self.data.as_slice(), v.data.as_slice())
    }
}

impl<K> Vector<K> where K: Copy {
    /// A copy of the components.
    pub fn to_vec(&self) -> (data: Vec<K>)
        ensures
            data@ == self@,
    {
        vstd::slice::slice_to_vec(self.data.as_slice())
    }
}

} // verus!
