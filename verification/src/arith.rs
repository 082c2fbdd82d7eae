//! Scalars and the arithmetic unit that computes with them.
//!
//! The simulator works on double-precision numbers. A number is held as its
//! IEEE-754 binary64 encoding, and the five operations the simulator needs are
//! evaluated by an [`Arithmetic`] unit that the caller supplies. Contracts speak
//! of a unit's results through the relations below: `is_sum(k, a, b, r)` says
//! that `r` is a result of adding `a` and `b` on the unit `k`.
use vstd::prelude::*;

verus! {

/// A double-precision number, held as its IEEE-754 binary64 encoding.
///
/// Two scalars are equal when their encodings are: `+0.0` and `-0.0` differ,
/// and a NaN equals itself.
#[derive(Clone, Copy, Debug, PartialEq, Eq, Structural)]
pub struct Scalar {
    pub bits: u64,
}

/// The encoding of `+0.0`.
pub const ZERO_BITS: u64 = 0x0000_0000_0000_0000u64;

impl Scalar {
    /// The number `+0.0`.
    pub open spec fn zero() -> Scalar {
        Scalar { bits: ZERO_BITS }
    }
}

/// The arithmetic unit: addition, subtraction, multiplication, division and
/// square root on encoded numbers. Every operation accepts every operand.
pub trait Arithmetic {
    fn add(&self, a: Scalar, b: Scalar) -> Scalar;

    fn sub(&self, a: Scalar, b: Scalar) -> Scalar;

    fn mul(&self, a: Scalar, b: Scalar) -> Scalar;

    fn div(&self, a: Scalar, b: Scalar) -> Scalar;

    fn sqrt(&self, a: Scalar) -> Scalar;
}

/// `r` is a result of `a + b` on `k`.
#[verifier::inline]
pub open spec fn is_sum<K: Arithmetic>(k: &K, a: Scalar, b: Scalar, r: Scalar) -> bool {
    call_ensures(K::add, (k, a, b), r)
}

/// `r` is a result of `a - b` on `k`.
#[verifier::inline]
pub open spec fn is_difference<K: Arithmetic>(k: &K, a: Scalar, b: Scalar, r: Scalar) -> bool {
    call_ensures(K::sub, (k, a, b), r)
}

/// `r` is a result of `a * b` on `k`.
#[verifier::inline]
pub open spec fn is_product<K: Arithmetic>(k: &K, a: Scalar, b: Scalar, r: Scalar) -> bool {
    call_ensures(K::mul, (k, a, b), r)
}

/// `r` is a result of `a / b` on `k`.
#[verifier::inline]
pub open spec fn is_quotient<K: Arithmetic>(k: &K, a: Scalar, b: Scalar, r: Scalar) -> bool {
    call_ensures(K::div, (k, a, b), r)
}

/// `r` is a result of the square root of `a` on `k`.
#[verifier::inline]
pub open spec fn is_root<K: Arithmetic>(k: &K, a: Scalar, r: Scalar) -> bool {
    call_ensures(K::sqrt, (k, a), r)
}

/// The unit `k` is a function of its operands: no operation has two results.
pub open spec fn is_functional<K: Arithmetic>(k: &K) -> bool {
    &&& forall|a: Scalar, b: Scalar, r: Scalar, s: Scalar|
        #![trigger is_sum(k, a, b, r), is_sum(k, a, b, s)]
        is_sum(k, a, b, r) && is_sum(k, a, b, s) ==> r == s
    &&& forall|a: Scalar, b: Scalar, r: Scalar, s: Scalar|
        #![trigger is_difference(k, a, b, r), is_difference(k, a, b, s)]
        is_difference(k, a, b, r) && is_difference(k, a, b, s) ==> r == s
    &&& forall|a: Scalar, b: Scalar, r: Scalar, s: Scalar|
        #![trigger is_product(k, a, b, r), is_product(k, a, b, s)]
        is_product(k, a, b, r) && is_product(k, a, b, s) ==> r == s
    &&& forall|a: Scalar, b: Scalar, r: Scalar, s: Scalar|
        #![trigger is_quotient(k, a, b, r), is_quotient(k, a, b, s)]
        is_quotient(k, a, b, r) && is_quotient(k, a, b, s) ==> r == s
    &&& forall|a: Scalar, r: Scalar, s: Scalar|
        #![trigger is_root(k, a, r), is_root(k, a, s)]
        is_root(k, a, r) && is_root(k, a, s) ==> r == s
}

} // verus!
