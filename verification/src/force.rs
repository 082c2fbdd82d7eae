//! Newtonian attraction between point masses, and the net force on one body.
use crate::arith::{is_product, is_quotient, Arithmetic, Scalar};
use crate::geom::{is_magnitude, is_scaled, is_total, is_unit, is_vec_difference, Vec2};
use crate::Entity;
use vstd::prelude::*;

verus! {

/// The encoding of the gravitational constant `6.67430e-11`.
pub const G_BITS: u64 = 0x3DD2_589E_FFED_8ACCu64;

/// The gravitational constant `G = 6.67430e-11`.
pub open spec fn gravitational_constant() -> Scalar {
    Scalar { bits: G_BITS }
}

/// `s` is a result of `((G * m1) * m2) / (d * d)` on `k`: the strength of the
/// pull between masses `m1` and `m2` at distance `d`.
pub open spec fn is_force_magnitude<K: Arithmetic>(
    k: &K,
    m1: Scalar,
    m2: Scalar,
    d: Scalar,
    s: Scalar,
) -> bool {
    exists|gm: Scalar, gmm: Scalar, dd: Scalar|
        is_product(k, gravitational_constant(), m1, gm) && #[trigger] is_product(k, gm, m2, gmm)
            && is_product(k, d, d, dd) && #[trigger] is_quotient(k, gmm, dd, s)
}

/// `f` is a force that `from` exerts on `on`, computed on `k`: with `r` the
/// position of `from` less that of `on` and `d` a magnitude of `r`, it is a unit
/// vector of `r` scaled by a force magnitude of the two masses at distance `d`.
pub open spec fn is_attraction<K: Arithmetic>(k: &K, on: Entity, from: Entity, f: Vec2) -> bool {
    exists|r: Vec2, d: Scalar, s: Scalar, u: Vec2|
        is_vec_difference(k, from.position_m, on.position_m, r) && #[trigger] is_magnitude(k, r, d)
            && #[trigger] is_force_magnitude(k, on.mass_kg, from.mass_kg, d, s)
            && #[trigger] is_unit(k, r, u) && is_scaled(k, u, s, f)
}

/// The place in `bodies` of the `t`-th body other than body `i`, the others
/// taken in their order.
pub open spec fn other_index(i: int, t: int) -> int {
    if t < i {
        t
    } else {
        t + 1
    }
}

/// `pulls` holds, in order, one attraction on body `i` from each other body.
/// A body is left out by its place in `bodies`, not by its value: a second body
/// with the same mass, position and velocity still pulls.
pub open spec fn are_attractions<K: Arithmetic>(
    k: &K,
    bodies: Seq<Entity>,
    i: int,
    pulls: Seq<Vec2>,
) -> bool {
    &&& pulls.len() == bodies.len() - 1
    &&& forall|t: int|
        0 <= t < pulls.len() ==> is_attraction(
            k,
            bodies[i],
            bodies[other_index(i, t)],
            #[trigger] pulls[t],
        )
}

/// `f` is a net force on body `i`: a total of the attractions from all other
/// bodies.
pub open spec fn is_net_force<K: Arithmetic>(k: &K, bodies: Seq<Entity>, i: int, f: Vec2) -> bool {
    exists|pulls: Seq<Vec2>| #[trigger] are_attractions(k, bodies, i, pulls) && is_total(k, pulls, f)
}

/// The strength of the pull between two masses at distance `d`:
/// `G * m1 * m2 / d²`, multiplied from the left.
pub fn force_magnitude<K: Arithmetic>(m1: Scalar, m2: Scalar, d: Scalar, k: &K) -> (s: Scalar)
    ensures
        is_force_magnitude(k, m1, m2, d, s),
{
    let gm = k.mul(Scalar { bits: G_BITS }, m1);
    let gmm = k.mul(gm, m2);
    let dd = k.mul(d, d);
    k.div(gmm, dd)
}

/// The force that `from` exerts on `on`. It points from `on` towards `from`.
pub fn attraction<K: Arithmetic>(on: &Entity, from: &Entity, k: &K) -> (f: Vec2)
    ensures
        is_attraction(k, *on, *from, f),
{
    let r = from.position_m.sub(&on.position_m, k);
    let d = r.magnitude(k);
    let s = force_magnitude(on.mass_kg, from.mass_kg, d, k);
    let u = r.unit(k);
    u.scale(s, k)
}

/// The net force on body `i`: the attractions from the other bodies, taken in
/// their order and added up. With no other body it is the zero vector.
pub fn net_force<K: Arithmetic>(bodies: &Vec<Entity>, i: usize, k: &K) -> (f: Vec2)
    requires
        i < bodies.len(),
    ensures
        is_net_force(k, bodies@, i as int, f),
{
    let mut pulls: Vec<Vec2> = Vec::new();
    let mut j: usize = 0;
    while j < bodies.len()
        invariant
            i < bodies.len(),
            j <= bodies.len(),
            pulls.len() == if j <= i {
                j as int
            } else {
                j - 1
            },
            forall|t: int|
                0 <= t < pulls.len() ==> is_attraction(
                    k,
                    bodies@[i as int],
                    bodies@[other_index(i as int, t)],
                    #[trigger] pulls@[t],
                ),
        decreases bodies.len() - j,
    {
        if j != i {
            let pull = attraction(&bodies[i], &bodies[j], k);
            pulls.push(pull);
        }
        j = j + 1;
    }
    let f = Vec2::sum(&pulls, k);
    assert(are_attractions(k, bodies@, i as int, pulls@));
    f
}

} // verus!
