//! Laws of the integral scalars.
use crate::integral::Integral;
use vstd::prelude::*;
use vstd::std_specs::ops::{AddSpec, MulSpec};

verus! {

/// The zero of an integral type is its additive identity: adding it on
/// either side may always be evaluated and changes nothing.
pub proof fn lemma_zero_is_additive_identity<K: Integral>(a: K)
    ensures
        a.add_req(K::zero_spec()),
        K::zero_spec().add_req(a),
        a.add_spec(K::zero_spec()) == a,
        K::zero_spec().add_spec(a) == a,
{
    let zero = K::zero_spec();
    K::lemma_identities(a);
    K::lemma_value(a, a);
    K::lemma_add(a, zero);
    K::lemma_add(zero, a);
    K::lemma_value(a.add_spec(zero), a);
    K::lemma_value(zero.add_spec(a), a);
}

/// The one of an integral type is its multiplicative identity: multiplying
/// by it on either side may always be evaluated and changes nothing.
pub proof fn lemma_one_is_multiplicative_identity<K: Integral>(a: K)
    ensures
        a.mul_req(K::one_spec()),
        K::one_spec().mul_req(a),
        a.mul_spec(K::one_spec()) == a,
        K::one_spec().mul_spec(a) == a,
{
    let one = K::one_spec();
    K::lemma_identities(a);
    K::lemma_value(a, a);
    K::lemma_mul(a, one);
    K::lemma_mul(one, a);
    K::lemma_value(a.mul_spec(one), a);
    K::lemma_value(one.mul_spec(a), a);
}

} // verus!
