//! Two-dimensional vectors over encoded double-precision numbers.
use crate::arith::{
    is_difference, is_product, is_quotient, is_root, is_sum, Arithmetic, Scalar, ZERO_BITS,
};
use vstd::prelude::*;

verus! {

/// An ordered pair `(x, y)`. Every operation returns a new value.
#[derive(Clone, Copy, Debug, PartialEq, Eq, Structural)]
pub struct Vec2 {
    pub x: Scalar,
    pub y: Scalar,
}

/// `r` is a componentwise sum `a + b` on `k`.
pub open spec fn is_vec_sum<K: Arithmetic>(k: &K, a: Vec2, b: Vec2, r: Vec2) -> bool {
    is_sum(k, a.x, b.x, r.x) && is_sum(k, a.y, b.y, r.y)
}

/// `r` is a componentwise difference `a - b` on `k`.
pub open spec fn is_vec_difference<K: Arithmetic>(k: &K, a: Vec2, b: Vec2, r: Vec2) -> bool {
    is_difference(k, a.x, b.x, r.x) && is_difference(k, a.y, b.y, r.y)
}

/// `r` is `v` with both components multiplied by `s` on `k`.
pub open spec fn is_scaled<K: Arithmetic>(k: &K, v: Vec2, s: Scalar, r: Vec2) -> bool {
    is_product(k, v.x, s, r.x) && is_product(k, v.y, s, r.y)
}

/// `r` is `v` with both components divided by `s` on `k`.
pub open spec fn is_divided<K: Arithmetic>(k: &K, v: Vec2, s: Scalar, r: Vec2) -> bool {
    is_quotient(k, v.x, s, r.x) && is_quotient(k, v.y, s, r.y)
}

/// `m` is a Euclidean norm of `v` on `k`: a square root of `x * x + y * y`.
pub open spec fn is_magnitude<K: Arithmetic>(k: &K, v: Vec2, m: Scalar) -> bool {
    exists|xx: Scalar, yy: Scalar, s: Scalar|
        is_product(k, v.x, v.x, xx) && is_product(k, v.y, v.y, yy) && #[trigger] is_sum(
            k,
            xx,
            yy,
            s,
        ) && is_root(k, s, m)
}

/// `u` is `v` divided by a magnitude of `v` on `k`.
pub open spec fn is_unit<K: Arithmetic>(k: &K, v: Vec2, u: Vec2) -> bool {
    exists|m: Scalar| #[trigger] is_magnitude(k, v, m) && is_divided(k, v, m, u)
}

/// `r` is a result of adding up the first `n` vectors of `vs` from the left,
/// starting from the first one: `((vs[0] + vs[1]) + ...) + vs[n - 1]`.
pub open spec fn is_running_total<K: Arithmetic>(k: &K, vs: Seq<Vec2>, n: nat, r: Vec2) -> bool
    decreases n,
{
    if n == 0 {
        false
    } else if n == 1 {
        r == vs[0]
    } else {
        exists|p: Vec2|
            is_running_total(k, vs, (n - 1) as nat, p) && #[trigger] is_vec_sum(
                k,
                p,
                vs[n - 1],
                r,
            )
    }
}

/// `r` is a total of `vs` on `k`: the zero vector for the empty sequence, else
/// the vectors added up from the left.
pub open spec fn is_total<K: Arithmetic>(k: &K, vs: Seq<Vec2>, r: Vec2) -> bool {
    if vs.len() == 0 {
        r == Vec2::zero()
    } else {
        is_running_total(k, vs, vs.len(), r)
    }
}

impl Vec2 {
    /// The zero vector `(+0.0, +0.0)`.
    pub open spec fn zero() -> Vec2 {
        Vec2 { x: Scalar::zero(), y: Scalar::zero() }
    }

    /// The vector with the components `x` and `y`.
    pub fn new(x: Scalar, y: Scalar) -> (v: Vec2)
        ensures
            v == (Vec2 { x, y }),
    {
        Vec2 { x, y }
    }

    /// The componentwise sum `self + rhs`.
    pub fn add<K: Arithmetic>(&self, rhs: &Vec2, k: &K) -> (r: Vec2)
        ensures
            is_vec_sum(k, *self, *rhs, r),
    {
        Vec2 { x: k.add(self.x, rhs.x), y: k.add(self.y, rhs.y) }
    }

    /// The componentwise difference `self - rhs`.
    pub fn sub<K: Arithmetic>(&self, rhs: &Vec2, k: &K) -> (r: Vec2)
        ensures
            is_vec_difference(k, *self, *rhs, r),
    {
        Vec2 { x: k.sub(self.x, rhs.x), y: k.sub(self.y, rhs.y) }
    }

    /// Both components multiplied by `s`.
    pub fn scale<K: Arithmetic>(&self, s: Scalar, k: &K) -> (r: Vec2)
        ensures
            is_scaled(k, *self, s, r),
    {
        Vec2 { x: k.mul(self.x, s), y: k.mul(self.y, s) }
    }

    /// Both components divided by `s`. A zero divisor is not treated
    /// specially: the unit's quotients come back as they are.
    pub fn divide<K: Arithmetic>(&self, s: Scalar, k: &K) -> (r: Vec2)
        ensures
            is_divided(k, *self, s, r),
    {
        Vec2 { x: k.div(self.x, s), y: k.div(self.y, s) }
    }

    /// The Euclidean norm `sqrt(x * x + y * y)`.
    pub fn magnitude<K: Arithmetic>(&self, k: &K) -> (m: Scalar)
        ensures
            is_magnitude(k, *self, m),
    {
        let xx = k.mul(self.x, self.x);
        let yy = k.mul(self.y, self.y);
        let s = k.add(xx, yy);
        k.sqrt(s)
    }

    /// The vector divided by its own magnitude. Nothing is done about a
    /// magnitude of zero: the quotients are whatever the unit gives.
    pub fn unit<K: Arithmetic>(&self, k: &K) -> (u: Vec2)
        ensures
            is_unit(k, *self, u),
    {
        let m = self.magnitude(k);
        self.divide(m, k)
    }

    /// The total of `vs`: the zero vector when `vs` is empty, else its vectors
    /// added up from the left, starting from the first.
    pub fn sum<K: Arithmetic>(vs: &Vec<Vec2>, k: &K) -> (r: Vec2)
        ensures
            is_total(k, vs@, r),
    {
        if vs.len() == 0 {
            return Vec2 { x: Scalar { bits: ZERO_BITS }, y: Scalar { bits: ZERO_BITS } };
        }
        let mut acc = vs[0];
        let mut n: usize = 1;
        while n < vs.len()
            invariant
                1 <= n <= vs.len(),
                is_running_total(k, vs@, n as nat, acc),
            decreases vs.len() - n,
        {
            let next = acc.add(&vs[n], k);
            assert(is_running_total(k, vs@, (n + 1) as nat, next)) by {
                assert(is_running_total(k, vs@, ((n + 1) as nat - 1) as nat, acc));
                assert(is_vec_sum(k, acc, vs@[(n + 1) as nat - 1], next));
            }
            acc = next;
            n = n + 1;
        }
        acc
    }
}

} // verus!
