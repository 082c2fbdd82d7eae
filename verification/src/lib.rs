//! A discrete-time gravitational N-body simulator.
//!
//! A [`State`] holds point masses with their positions and velocities.
//! [`step_naive`] computes the pairwise Newtonian forces and advances every
//! body by one fixed time step, velocity first and position from the new
//! velocity.
//!
//! Numbers are double-precision and are held encoded ([`arith::Scalar`]). The
//! arithmetic on them is done by a unit that the caller passes in
//! ([`arith::Arithmetic`]); what is proved here holds on every such unit.
use crate::arith::{is_sum, Arithmetic, Scalar};
use crate::force::{is_net_force, net_force};
use crate::geom::{is_divided, is_scaled, is_vec_sum, Vec2};
use vstd::prelude::*;

pub mod arith;
pub mod force;
pub mod geom;
pub mod gravity;
pub mod laws;

verus! {

/// A point mass with position and velocity.
#[derive(Clone, Copy, Debug, PartialEq, Eq, Structural)]
pub struct Entity {
    pub mass_kg: Scalar,
    pub position_m: Vec2,
    pub velocity_ms: Vec2,
}

/// All bodies at one instant, with the simulation clock and the step size.
#[derive(Debug, PartialEq, Eq)]
pub struct State {
    pub step_s: Scalar,
    pub time_s: Scalar,
    pub entities: Vec<Entity>,
}

/// What a [`State`] holds: the step size, the clock and the bodies in order.
pub struct Snapshot {
    pub step_s: Scalar,
    pub time_s: Scalar,
    pub entities: Seq<Entity>,
}

impl View for State {
    type V = Snapshot;

    open spec fn view(&self) -> Snapshot {
        Snapshot { step_s: self.step_s, time_s: self.time_s, entities: self.entities@ }
    }
}

impl Clone for State {
    /// A copy with the same step size, clock and bodies.
    fn clone(&self) -> (copy: State)
        ensures
            copy@ == self@,
    {
        let entities = self.entities.clone();
        assert(entities@ =~= self.entities@);
        State { step_s: self.step_s, time_s: self.time_s, entities }
    }
}

/// `after` is `body` one step of length `h` later under the force `f`: the mass
/// is kept, the velocity grows by `(f / mass) * h`, and the position grows by
/// the new velocity times `h`.
pub open spec fn is_advanced<K: Arithmetic>(
    k: &K,
    body: Entity,
    f: Vec2,
    h: Scalar,
    after: Entity,
) -> bool {
    &&& after.mass_kg == body.mass_kg
    &&& exists|a: Vec2, dv: Vec2, dp: Vec2|
        is_divided(k, f, body.mass_kg, a) && #[trigger] is_scaled(k, a, h, dv) && is_vec_sum(
            k,
            body.velocity_ms,
            dv,
            after.velocity_ms,
        ) && #[trigger] is_scaled(k, after.velocity_ms, h, dp) && is_vec_sum(
            k,
            body.position_m,
            dp,
            after.position_m,
        )
}

/// `after` is body `i` of `s` one step later: advanced under a net force on it.
pub open spec fn is_moved<K: Arithmetic>(k: &K, s: Snapshot, i: int, after: Entity) -> bool {
    exists|f: Vec2| #[trigger]
        is_net_force(k, s.entities, i, f) && is_advanced(k, s.entities[i], f, s.step_s, after)
}

/// `next` is `s` one step later: the step size is carried over, the clock has
/// grown by it, and body `i` of `next` is body `i` of `s` moved.
pub open spec fn is_step<K: Arithmetic>(k: &K, s: Snapshot, next: Snapshot) -> bool {
    &&& next.step_s == s.step_s
    &&& is_sum(k, s.time_s, s.step_s, next.time_s)
    &&& next.entities.len() == s.entities.len()
    &&& forall|i: int|
        0 <= i < s.entities.len() ==> is_moved(k, s, i, #[trigger] next.entities[i])
}

/// Advances one body by one step of length `h` under the force `f`.
pub fn advance<K: Arithmetic>(body: &Entity, f: &Vec2, h: Scalar, k: &K) -> (after: Entity)
    ensures
        is_advanced(k, *body, *f, h, after),
{
    let a = f.divide(body.mass_kg, k);
    let dv = a.scale(h, k);
    let velocity = body.velocity_ms.add(&dv, k);
    let dp = velocity.scale(h, k);
    let position = body.position_m.add(&dp, k);
    let after = Entity { mass_kg: body.mass_kg, position_m: position, velocity_ms: velocity };
    assert(is_scaled(k, a, h, dv) && is_scaled(k, after.velocity_ms, h, dp));
    after
}

/// Advances all bodies by one step of `state.step_s` seconds and returns the
/// new snapshot; `state` is left as it is.
///
/// The net force on every body is taken from the positions in `state`. Each
/// body then gets its new velocity, and its new position from that velocity.
/// Bodies keep their places and masses, the step size is carried over, and the
/// clock grows by the step size. Nothing is done about bodies in the same
/// place or about masses that are zero or negative: what the unit returns for
/// them flows into the result.
pub fn step_naive<K: Arithmetic>(state: &State, k: &K) -> (next: State)
    ensures
        is_step(k, state@, next@),
{
    let n: usize = state.entities.len();
    let mut forces: Vec<Vec2> = Vec::new();
    let mut i: usize = 0;
    while i < n
        invariant
            n == state.entities.len(),
            i <= n,
            forces.len() == i,
            forall|t: int|
                0 <= t < i ==> is_net_force(k, state.entities@, t, #[trigger] forces@[t]),
        decreases n - i,
    {
        let f = net_force(&state.entities, i, k);
        forces.push(f);
        i = i + 1;
    }
    let mut entities: Vec<Entity> = Vec::new();
    let mut i: usize = 0;
    while i < n
        invariant
            n == state.entities.len(),
            i <= n,
            forces.len() == n,
            entities.len() == i,
            forall|t: int|
                0 <= t < n ==> is_net_force(k, state.entities@, t, #[trigger] forces@[t]),
            forall|t: int| 0 <= t < i ==> is_moved(k, state@, t, #[trigger] entities@[t]),
        decreases n - i,
    {
        let after = advance(&state.entities[i], &forces[i], state.step_s, k);
        assert(is_net_force(k, state@.entities, i as int, forces@[i as int]));
        entities.push(after);
        i = i + 1;
    }
    let time_s = k.add(state.time_s, state.step_s);
    State { step_s: state.step_s, time_s, entities }
}

} // verus!
