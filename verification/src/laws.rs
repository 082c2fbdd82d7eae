//! What holds of every step, on every arithmetic unit.
use crate::arith::{
    is_functional, is_product, is_quotient, is_root, is_sum, Arithmetic, Scalar,
};
use crate::force::{
    are_attractions, gravitational_constant, is_attraction, is_force_magnitude, is_net_force,
    other_index,
};
use crate::geom::{
    is_divided, is_magnitude, is_running_total, is_scaled, is_total, is_unit, is_vec_difference,
    is_vec_sum, Vec2,
};
use crate::{is_advanced, is_moved, is_step, Entity, Snapshot};
use vstd::prelude::*;

verus! {

/// `t` is a result of adding the step `h` to the clock `n` times over, starting
/// from `t0`: `((t0 + h) + h) + ... + h`.
pub open spec fn is_clock_after<K: Arithmetic>(k: &K, t0: Scalar, h: Scalar, n: nat, t: Scalar) -> bool
    decreases n,
{
    if n == 0 {
        t == t0
    } else {
        exists|p: Scalar| is_clock_after(k, t0, h, (n - 1) as nat, p) && #[trigger] is_sum(k, p, h, t)
    }
}

/// Each snapshot of `trace` but the first is the one before it, one step later.
pub open spec fn is_run<K: Arithmetic>(k: &K, trace: Seq<Snapshot>) -> bool {
    &&& trace.len() >= 1
    &&& forall|i: int| 0 <= i < trace.len() - 1 ==> is_step(k, trace[i], #[trigger] trace[i + 1])
}

/// The place among the others of body `i` that body `j` takes, for `j` other
/// than `i`.
pub open spec fn place_among_others(i: int, j: int) -> int {
    if j < i {
        j
    } else {
        j - 1
    }
}

/// The bodies that pull on body `i` of `n` are all bodies but `i` itself, each
/// once and in their order: whether a body pulls depends on its place alone.
pub proof fn lemma_others_are_all_but_self(i: int, n: int)
    requires
        0 <= i < n,
    ensures
        forall|t: int|
            0 <= t < n - 1 ==> 0 <= #[trigger] other_index(i, t) < n && other_index(i, t) != i,
        forall|t: int, u: int|
            0 <= t < u < n - 1 ==> #[trigger] other_index(i, t) < #[trigger] other_index(i, u),
        forall|j: int|
            0 <= j < n && j != i ==> 0 <= #[trigger] place_among_others(i, j) < n - 1
                && other_index(i, place_among_others(i, j)) == j,
{
}

/// A body that is alone feels no force: the net force on the only body of a
/// system is the zero vector.
pub proof fn lemma_lone_body_feels_no_force<K: Arithmetic>(k: &K, bodies: Seq<Entity>, f: Vec2)
    requires
        bodies.len() == 1,
        is_net_force(k, bodies, 0, f),
    ensures
        f == Vec2::zero(),
{
    let pulls = choose|pulls: Seq<Vec2>|
        #[trigger] are_attractions(k, bodies, 0, pulls) && is_total(k, pulls, f);
    assert(pulls.len() == 0);
}

/// A step of a system of one body keeps that one body and its mass, carries the
/// step size over, advances the clock by the step size, and moves the body
/// under the zero force.
pub proof fn lemma_step_of_lone_body<K: Arithmetic>(k: &K, s: Snapshot, next: Snapshot)
    requires
        s.entities.len() == 1,
        is_step(k, s, next),
    ensures
        next.entities.len() == 1,
        next.step_s == s.step_s,
        is_sum(k, s.time_s, s.step_s, next.time_s),
        next.entities[0].mass_kg == s.entities[0].mass_kg,
        is_advanced(k, s.entities[0], Vec2::zero(), s.step_s, next.entities[0]),
{
    assert(is_moved(k, s, 0, next.entities[0]));
    let f = choose|f: Vec2| #[trigger]
        is_net_force(k, s.entities, 0, f) && is_advanced(
            k,
            s.entities[0],
            f,
            s.step_s,
            next.entities[0],
        );
    lemma_lone_body_feels_no_force(k, s.entities, f);
}

/// A lone body keeps its velocity wherever the unit lets a zero force vanish:
/// where zero divided by the body's mass is zero, zero times the step size is
/// zero, and adding zero to a component of the velocity gives that component.
/// Its position then grows by its velocity times the step size.
pub proof fn lemma_lone_body_keeps_velocity<K: Arithmetic>(k: &K, s: Snapshot, next: Snapshot)
    requires
        s.entities.len() == 1,
        is_step(k, s, next),
        forall|q: Scalar|
            is_quotient(k, Scalar::zero(), s.entities[0].mass_kg, q) ==> q == Scalar::zero(),
        forall|q: Scalar| is_product(k, Scalar::zero(), s.step_s, q) ==> q == Scalar::zero(),
        forall|q: Scalar|
            is_sum(k, s.entities[0].velocity_ms.x, Scalar::zero(), q) ==> q
                == s.entities[0].velocity_ms.x,
        forall|q: Scalar|
            is_sum(k, s.entities[0].velocity_ms.y, Scalar::zero(), q) ==> q
                == s.entities[0].velocity_ms.y,
    ensures
        next.entities[0].velocity_ms == s.entities[0].velocity_ms,
        exists|dp: Vec2| #[trigger]
            is_scaled(k, s.entities[0].velocity_ms, s.step_s, dp) && is_vec_sum(
                k,
                s.entities[0].position_m,
                dp,
                next.entities[0].position_m,
            ),
{
    lemma_step_of_lone_body(k, s, next);
    let body = s.entities[0];
    let after = next.entities[0];
    let (a, dv, dp) = choose|a: Vec2, dv: Vec2, dp: Vec2|
        is_divided(k, Vec2::zero(), body.mass_kg, a) && #[trigger] is_scaled(k, a, s.step_s, dv)
            && is_vec_sum(k, body.velocity_ms, dv, after.velocity_ms) && #[trigger] is_scaled(
            k,
            after.velocity_ms,
            s.step_s,
            dp,
        ) && is_vec_sum(k, body.position_m, dp, after.position_m);
    assert(a.x == Scalar::zero() && a.y == Scalar::zero());
    assert(dv.x == Scalar::zero() && dv.y == Scalar::zero());
    assert(after.velocity_ms.x == body.velocity_ms.x && after.velocity_ms.y == body.velocity_ms.y);
    assert(is_scaled(k, body.velocity_ms, s.step_s, dp));
}

/// A step keeps the bodies: as many come out as went in, in the same order,
/// each with its mass, and the step size is carried over.
pub proof fn lemma_step_keeps_bodies<K: Arithmetic>(k: &K, s: Snapshot, next: Snapshot)
    requires
        is_step(k, s, next),
    ensures
        next.entities.len() == s.entities.len(),
        next.step_s == s.step_s,
        forall|i: int|
            0 <= i < s.entities.len() ==> (#[trigger] next.entities[i]).mass_kg
                == s.entities[i].mass_kg,
{
    assert forall|i: int| 0 <= i < s.entities.len() implies (#[trigger] next.entities[i]).mass_kg
        == s.entities[i].mass_kg by {
        assert(is_moved(k, s, i, next.entities[i]));
    }
}

/// After any number of steps the step size and the number of bodies are those
/// of the start, and the clock is the start's clock with the step size added
/// once for each step.
pub proof fn lemma_clock_after_steps<K: Arithmetic>(k: &K, trace: Seq<Snapshot>)
    requires
        is_run(k, trace),
    ensures
        trace.last().step_s == trace[0].step_s,
        trace.last().entities.len() == trace[0].entities.len(),
        is_clock_after(
            k,
            trace[0].time_s,
            trace[0].step_s,
            (trace.len() - 1) as nat,
            trace.last().time_s,
        ),
    decreases trace.len(),
{
    if trace.len() > 1 {
        let steps = trace.len() - 1;
        let before = trace.drop_last();
        assert forall|i: int| 0 <= i < before.len() - 1 implies is_step(
            k,
            before[i],
            #[trigger] before[i + 1],
        ) by {
            assert(is_step(k, trace[i], trace[i + 1]));
        }
        lemma_clock_after_steps(k, before);
        assert(before.last() == trace[steps - 1]);
        assert(before[0] == trace[0]);
        assert(is_step(k, trace[steps - 1], trace[(steps - 1) + 1]));
        assert(is_clock_after(
            k,
            trace[0].time_s,
            trace[0].step_s,
            (steps - 1) as nat,
            before.last().time_s,
        ));
        assert(is_sum(k, before.last().time_s, trace[0].step_s, trace.last().time_s));
    }
}

proof fn lemma_magnitude_is_determined<K: Arithmetic>(k: &K, v: Vec2, m1: Scalar, m2: Scalar)
    requires
        is_functional(k),
        is_magnitude(k, v, m1),
        is_magnitude(k, v, m2),
    ensures
        m1 == m2,
{
    let (xx1, yy1, s1) = choose|xx: Scalar, yy: Scalar, s: Scalar|
        is_product(k, v.x, v.x, xx) && is_product(k, v.y, v.y, yy) && #[trigger] is_sum(
            k,
            xx,
            yy,
            s,
        ) && is_root(k, s, m1);
    let (xx2, yy2, s2) = choose|xx: Scalar, yy: Scalar, s: Scalar|
        is_product(k, v.x, v.x, xx) && is_product(k, v.y, v.y, yy) && #[trigger] is_sum(
            k,
            xx,
            yy,
            s,
        ) && is_root(k, s, m2);
    assert(xx1 == xx2);
    assert(yy1 == yy2);
    assert(s1 == s2);
}

proof fn lemma_unit_is_determined<K: Arithmetic>(k: &K, v: Vec2, u1: Vec2, u2: Vec2)
    requires
        is_functional(k),
        is_unit(k, v, u1),
        is_unit(k, v, u2),
    ensures
        u1 == u2,
{
    let m1 = choose|m: Scalar| #[trigger] is_magnitude(k, v, m) && is_divided(k, v, m, u1);
    let m2 = choose|m: Scalar| #[trigger] is_magnitude(k, v, m) && is_divided(k, v, m, u2);
    lemma_magnitude_is_determined(k, v, m1, m2);
}

proof fn lemma_force_magnitude_is_determined<K: Arithmetic>(
    k: &K,
    m1: Scalar,
    m2: Scalar,
    d: Scalar,
    s1: Scalar,
    s2: Scalar,
)
    requires
        is_functional(k),
        is_force_magnitude(k, m1, m2, d, s1),
        is_force_magnitude(k, m1, m2, d, s2),
    ensures
        s1 == s2,
{
    let (gm1, gmm1, dd1) = choose|gm: Scalar, gmm: Scalar, dd: Scalar|
        is_product(k, gravitational_constant(), m1, gm) && #[trigger] is_product(k, gm, m2, gmm)
            && is_product(k, d, d, dd) && #[trigger] is_quotient(k, gmm, dd, s1);
    let (gm2, gmm2, dd2) = choose|gm: Scalar, gmm: Scalar, dd: Scalar|
        is_product(k, gravitational_constant(), m1, gm) && #[trigger] is_product(k, gm, m2, gmm)
            && is_product(k, d, d, dd) && #[trigger] is_quotient(k, gmm, dd, s2);
    assert(gm1 == gm2);
    assert(gmm1 == gmm2);
    assert(dd1 == dd2);
}

proof fn lemma_attraction_is_determined<K: Arithmetic>(
    k: &K,
    on: Entity,
    from: Entity,
    f1: Vec2,
    f2: Vec2,
)
    requires
        is_functional(k),
        is_attraction(k, on, from, f1),
        is_attraction(k, on, from, f2),
    ensures
        f1 == f2,
{
    let (r1, d1, s1, u1) = choose|r: Vec2, d: Scalar, s: Scalar, u: Vec2|
        is_vec_difference(k, from.position_m, on.position_m, r) && #[trigger] is_magnitude(k, r, d)
            && #[trigger] is_force_magnitude(k, on.mass_kg, from.mass_kg, d, s)
            && #[trigger] is_unit(k, r, u) && is_scaled(k, u, s, f1);
    let (r2, d2, s2, u2) = choose|r: Vec2, d: Scalar, s: Scalar, u: Vec2|
        is_vec_difference(k, from.position_m, on.position_m, r) && #[trigger] is_magnitude(k, r, d)
            && #[trigger] is_force_magnitude(k, on.mass_kg, from.mass_kg, d, s)
            && #[trigger] is_unit(k, r, u) && is_scaled(k, u, s, f2);
    assert(r1.x == r2.x && r1.y == r2.y);
    lemma_magnitude_is_determined(k, r1, d1, d2);
    lemma_force_magnitude_is_determined(k, on.mass_kg, from.mass_kg, d1, s1, s2);
    lemma_unit_is_determined(k, r1, u1, u2);
    assert(f1.x == f2.x && f1.y == f2.y);
}

proof fn lemma_running_total_is_determined<K: Arithmetic>(
    k: &K,
    vs: Seq<Vec2>,
    n: nat,
    r1: Vec2,
    r2: Vec2,
)
    requires
        is_functional(k),
        is_running_total(k, vs, n, r1),
        is_running_total(k, vs, n, r2),
    ensures
        r1 == r2,
    decreases n,
{
    if n > 1 {
        let pa = choose|p: Vec2|
            is_running_total(k, vs, (n - 1) as nat, p) && #[trigger] is_vec_sum(
                k,
                p,
                vs[n - 1],
                r1,
            );
        let pb = choose|p: Vec2|
            is_running_total(k, vs, (n - 1) as nat, p) && #[trigger] is_vec_sum(
                k,
                p,
                vs[n - 1],
                r2,
            );
        lemma_running_total_is_determined(k, vs, (n - 1) as nat, pa, pb);
        assert(r1.x == r2.x && r1.y == r2.y);
    }
}

proof fn lemma_net_force_is_determined<K: Arithmetic>(
    k: &K,
    bodies: Seq<Entity>,
    i: int,
    f1: Vec2,
    f2: Vec2,
)
    requires
        is_functional(k),
        is_net_force(k, bodies, i, f1),
        is_net_force(k, bodies, i, f2),
    ensures
        f1 == f2,
{
    let pulls1 = choose|pulls: Seq<Vec2>|
        #[trigger] are_attractions(k, bodies, i, pulls) && is_total(k, pulls, f1);
    let pulls2 = choose|pulls: Seq<Vec2>|
        #[trigger] are_attractions(k, bodies, i, pulls) && is_total(k, pulls, f2);
    assert forall|t: int| 0 <= t < pulls1.len() implies pulls1[t] == pulls2[t] by {
        lemma_attraction_is_determined(
            k,
            bodies[i],
            bodies[other_index(i, t)],
            pulls1[t],
            pulls2[t],
        );
    }
    assert(pulls1 =~= pulls2);
    if pulls1.len() > 0 {
        lemma_running_total_is_determined(k, pulls1, pulls1.len(), f1, f2);
    }
}

proof fn lemma_advance_is_determined<K: Arithmetic>(
    k: &K,
    body: Entity,
    f: Vec2,
    h: Scalar,
    e1: Entity,
    e2: Entity,
)
    requires
        is_functional(k),
        is_advanced(k, body, f, h, e1),
        is_advanced(k, body, f, h, e2),
    ensures
        e1 == e2,
{
    let (a1, dv1, dp1) = choose|a: Vec2, dv: Vec2, dp: Vec2|
        is_divided(k, f, body.mass_kg, a) && #[trigger] is_scaled(k, a, h, dv) && is_vec_sum(
            k,
            body.velocity_ms,
            dv,
            e1.velocity_ms,
        ) && #[trigger] is_scaled(k, e1.velocity_ms, h, dp) && is_vec_sum(
            k,
            body.position_m,
            dp,
            e1.position_m,
        );
    let (a2, dv2, dp2) = choose|a: Vec2, dv: Vec2, dp: Vec2|
        is_divided(k, f, body.mass_kg, a) && #[trigger] is_scaled(k, a, h, dv) && is_vec_sum(
            k,
            body.velocity_ms,
            dv,
            e2.velocity_ms,
        ) && #[trigger] is_scaled(k, e2.velocity_ms, h, dp) && is_vec_sum(
            k,
            body.position_m,
            dp,
            e2.position_m,
        );
    assert(a1.x == a2.x && a1.y == a2.y);
    assert(dv1.x == dv2.x && dv1.y == dv2.y);
    assert(e1.velocity_ms.x == e2.velocity_ms.x && e1.velocity_ms.y == e2.velocity_ms.y);
    assert(dp1.x == dp2.x && dp1.y == dp2.y);
    assert(e1.position_m.x == e2.position_m.x && e1.position_m.y == e2.position_m.y);
}

/// On a unit that is a function of its operands a snapshot has one successor:
/// two steps from the same snapshot agree in every field.
pub proof fn lemma_step_is_determined<K: Arithmetic>(k: &K, s: Snapshot, a: Snapshot, b: Snapshot)
    requires
        is_functional(k),
        is_step(k, s, a),
        is_step(k, s, b),
    ensures
        a == b,
{
    assert forall|i: int| 0 <= i < a.entities.len() implies a.entities[i] == b.entities[i] by {
        assert(is_moved(k, s, i, a.entities[i]));
        assert(is_moved(k, s, i, b.entities[i]));
        let f1 = choose|f: Vec2| #[trigger]
            is_net_force(k, s.entities, i, f) && is_advanced(
                k,
                s.entities[i],
                f,
                s.step_s,
                a.entities[i],
            );
        let f2 = choose|f: Vec2| #[trigger]
            is_net_force(k, s.entities, i, f) && is_advanced(
                k,
                s.entities[i],
                f,
                s.step_s,
                b.entities[i],
            );
        lemma_net_force_is_determined(k, s.entities, i, f1, f2);
        lemma_advance_is_determined(k, s.entities[i], f1, s.step_s, a.entities[i], b.entities[i]);
    }
    assert(a.entities =~= b.entities);
}

} // verus!
