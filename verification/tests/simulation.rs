use gravity_sim::arith::{Arithmetic, Scalar};
use gravity_sim::force::{attraction, force_magnitude, net_force, G_BITS};
use gravity_sim::geom::Vec2;
use gravity_sim::gravity::{new, setup, DEFAULT_STEP_BITS};
use gravity_sim::{advance, step_naive, Entity, State};

struct Ieee;

impl Arithmetic for Ieee {
    fn add(&self, a: Scalar, b: Scalar) -> Scalar {
        num(val(a) + val(b))
    }

    fn sub(&self, a: Scalar, b: Scalar) -> Scalar {
        num(val(a) - val(b))
    }

    fn mul(&self, a: Scalar, b: Scalar) -> Scalar {
        num(val(a) * val(b))
    }

    fn div(&self, a: Scalar, b: Scalar) -> Scalar {
        num(val(a) / val(b))
    }

    fn sqrt(&self, a: Scalar) -> Scalar {
        num(val(a).sqrt())
    }
}

const G: f64 = 6.67430e-11;

fn num(x: f64) -> Scalar {
    Scalar { bits: x.to_bits() }
}

fn val(s: Scalar) -> f64 {
    f64::from_bits(s.bits)
}

fn vec2(x: f64, y: f64) -> Vec2 {
    Vec2::new(num(x), num(y))
}

fn xy(v: Vec2) -> (f64, f64) {
    (val(v.x), val(v.y))
}

fn body(mass: f64, position: (f64, f64), velocity: (f64, f64)) -> Entity {
    Entity {
        mass_kg: num(mass),
        position_m: vec2(position.0, position.1),
        velocity_ms: vec2(velocity.0, velocity.1),
    }
}

fn state(step: f64, time: f64, entities: Vec<Entity>) -> State {
    State { step_s: num(step), time_s: num(time), entities }
}

fn close(actual: f64, expected: f64) -> bool {
    (actual - expected).abs() <= expected.abs() * 1.0e-12
}

#[test]
fn constants_encode_their_values() {
    assert_eq!(G_BITS, G.to_bits());
    assert_eq!(DEFAULT_STEP_BITS, 10.0f64.to_bits());
}

#[test]
fn force_magnitude_follows_the_inverse_square_law() {
    let s = force_magnitude(num(2.0), num(3.0), num(4.0), &Ieee);
    assert_eq!(val(s), ((G * 2.0) * 3.0) / (4.0 * 4.0));
    assert!(close(val(s), 2.502862500e-11));
}

#[test]
fn attraction_points_towards_the_other_body() {
    let a = body(2.0, (1.0, 1.0), (0.0, 0.0));
    let b = body(3.0, (4.0, 5.0), (9.0, 9.0));
    let f = attraction(&a, &b, &Ieee);
    let strength = ((G * 2.0) * 3.0) / (5.0 * 5.0);
    assert_eq!(xy(f), ((3.0 / 5.0) * strength, (4.0 / 5.0) * strength));
    let g = attraction(&b, &a, &Ieee);
    let back = ((G * 3.0) * 2.0) / (5.0 * 5.0);
    assert_eq!(xy(g), ((-3.0 / 5.0) * back, (-4.0 / 5.0) * back));
}

#[test]
fn two_unit_masses_pull_each_other_equally_and_oppositely() {
    let a = body(1.0, (0.0, 0.0), (0.0, 0.0));
    let b = body(1.0, (10.0, 0.0), (0.0, 0.0));
    let on_a = attraction(&a, &b, &Ieee);
    let on_b = attraction(&b, &a, &Ieee);
    assert_eq!(val(on_a.x), G / 100.0);
    assert_eq!(val(on_b.x), -(G / 100.0));
    assert_eq!(val(on_a.x), -val(on_b.x));
    assert_eq!(val(on_a.y), 0.0);
    assert_eq!(val(on_b.y), 0.0);
    assert_eq!(val(on_a.magnitude(&Ieee)), val(on_b.magnitude(&Ieee)));
    let bodies = vec![a, b];
    assert_eq!(net_force(&bodies, 0, &Ieee), on_a);
    assert_eq!(net_force(&bodies, 1, &Ieee), on_b);
}

#[test]
fn net_force_on_a_lone_body_is_the_zero_vector() {
    let bodies = vec![body(5.0, (3.0, -4.0), (1.0, 2.0))];
    let f = net_force(&bodies, 0, &Ieee);
    assert_eq!(f, vec2(0.0, 0.0));
}

#[test]
fn net_force_adds_the_other_bodies_in_order() {
    let bodies = vec![
        body(1.0e10, (0.0, 0.0), (0.0, 0.0)),
        body(2.0e10, (3.0, 4.0), (0.0, 0.0)),
        body(3.0e10, (-6.0, 8.0), (0.0, 0.0)),
        body(4.0e10, (1.0, -1.0), (0.0, 0.0)),
    ];
    for i in 0..4 {
        let mut expected: Option<Vec2> = None;
        for j in 0..4 {
            if j != i {
                let pull = attraction(&bodies[i], &bodies[j], &Ieee);
                expected = Some(match expected {
                    None => pull,
                    Some(acc) => acc.add(&pull, &Ieee),
                });
            }
        }
        assert_eq!(Some(net_force(&bodies, i, &Ieee)), expected);
    }
    let f = net_force(&bodies, 0, &Ieee);
    assert!(val(f.x).is_finite() && val(f.x) != 0.0);
}

#[test]
fn advance_updates_velocity_first_and_position_from_it() {
    let b = body(2.0, (1.0, 2.0), (3.0, 4.0));
    let after = advance(&b, &vec2(8.0, -4.0), num(0.5), &Ieee);
    assert_eq!(val(after.mass_kg), 2.0);
    assert_eq!(xy(after.velocity_ms), (3.0 + (8.0 / 2.0) * 0.5, 4.0 + (-4.0 / 2.0) * 0.5));
    assert_eq!(xy(after.velocity_ms), (5.0, 3.0));
    assert_eq!(xy(after.position_m), (1.0 + 5.0 * 0.5, 2.0 + 3.0 * 0.5));
    assert_eq!(xy(after.position_m), (3.5, 3.5));
}

#[test]
fn lone_body_at_rest_stays_at_rest() {
    let s = state(10.0, 0.0, vec![body(1.0, (0.0, 0.0), (0.0, 0.0))]);
    let next = step_naive(&s, &Ieee);
    assert_eq!(val(next.time_s), 10.0);
    assert_eq!(val(next.step_s), 10.0);
    assert_eq!(next.entities.len(), 1);
    assert_eq!(val(next.entities[0].mass_kg), 1.0);
    assert_eq!(xy(next.entities[0].position_m), (0.0, 0.0));
    assert_eq!(xy(next.entities[0].velocity_ms), (0.0, 0.0));
}

#[test]
fn lone_body_keeps_its_velocity_and_drifts() {
    let s = state(2.0, 5.0, vec![body(7.0, (1.0, -1.0), (3.0, 0.5))]);
    let next = step_naive(&s, &Ieee);
    assert_eq!(val(next.time_s), 7.0);
    assert_eq!(next.entities.len(), 1);
    assert_eq!(xy(next.entities[0].velocity_ms), (3.0, 0.5));
    assert_eq!(xy(next.entities[0].position_m), (7.0, 0.0));
}

#[test]
fn light_body_falls_towards_a_heavy_one() {
    let mass_a = 5.972e24;
    let a = body(mass_a, (0.0, 0.0), (0.0, 0.0));
    let b = body(100.0, (1.0e7, 0.0), (0.0, 0.0));
    let s = state(1.0, 0.0, vec![a, b]);
    let next = step_naive(&s, &Ieee);
    assert_eq!(next.entities.len(), 2);
    assert_eq!(val(next.time_s), 1.0);
    let vx = val(next.entities[1].velocity_ms.x);
    let expected = -(G * mass_a / (1.0e7 * 1.0e7)) * 1.0;
    assert!(close(vx, expected));
    assert!(close(vx, -3.98589196));
    assert_eq!(val(next.entities[1].velocity_ms.y), 0.0);
    assert_eq!(val(next.entities[1].position_m.x), 1.0e7 + vx * 1.0);
    assert_eq!(val(next.entities[1].position_m.y), 0.0);
    let ax = val(next.entities[0].velocity_ms.x);
    assert!(close(ax, G * 100.0 / (1.0e7 * 1.0e7)));
    assert_eq!(val(next.entities[0].position_m.x), ax);
    assert_eq!(val(next.entities[0].mass_kg), mass_a);
    assert_eq!(val(next.entities[1].mass_kg), 100.0);
}

#[test]
fn step_uses_the_step_size_of_the_state() {
    let a = body(5.972e24, (0.0, 0.0), (0.0, 0.0));
    let b = body(100.0, (1.0e7, 0.0), (0.0, 0.0));
    let short = step_naive(&state(1.0, 0.0, vec![a, b]), &Ieee);
    let long = step_naive(&state(4.0, 0.0, vec![a, b]), &Ieee);
    let v1 = val(short.entities[1].velocity_ms.x);
    let v4 = val(long.entities[1].velocity_ms.x);
    assert_eq!(v4, v1 * 4.0);
    assert_eq!(val(long.entities[1].position_m.x), 1.0e7 + v4 * 4.0);
    assert_eq!(val(long.time_s), 4.0);
}

#[test]
fn coincident_bodies_turn_to_nan() {
    let a = body(1.0, (2.0, 3.0), (0.0, 0.0));
    let b = body(1.0, (2.0, 3.0), (0.0, 0.0));
    let next = step_naive(&state(10.0, 0.0, vec![a, b]), &Ieee);
    assert_eq!(next.entities.len(), 2);
    for e in next.entities.iter() {
        assert!(val(e.position_m.x).is_nan());
        assert!(val(e.position_m.y).is_nan());
        assert!(val(e.velocity_ms.x).is_nan());
        assert!(val(e.velocity_ms.y).is_nan());
        assert_eq!(val(e.mass_kg), 1.0);
    }
    assert_eq!(val(next.time_s), 10.0);
}

#[test]
fn massless_lone_body_loses_its_velocity_to_nan() {
    let s = state(1.0, 0.0, vec![body(0.0, (1.0, 2.0), (3.0, 4.0))]);
    let next = step_naive(&s, &Ieee);
    assert_eq!(val(next.entities[0].mass_kg), 0.0);
    assert!(val(next.entities[0].velocity_ms.x).is_nan());
    assert!(val(next.entities[0].velocity_ms.y).is_nan());
    assert!(val(next.entities[0].position_m.x).is_nan());
    assert!(val(next.entities[0].position_m.y).is_nan());
    assert_eq!(val(next.time_s), 1.0);
}

#[test]
fn negative_mass_is_taken_as_it_is() {
    let a = body(-2.0, (0.0, 0.0), (0.0, 0.0));
    let b = body(3.0, (0.0, 2.0), (0.0, 0.0));
    let pull = attraction(&a, &b, &Ieee);
    let strength = ((G * -2.0) * 3.0) / (2.0 * 2.0);
    assert!(strength < 0.0);
    assert_eq!(xy(pull), (0.0 * strength, 1.0 * strength));
    let next = step_naive(&state(2.0, 0.0, vec![a, b]), &Ieee);
    assert_eq!(val(next.entities[0].mass_kg), -2.0);
    let vy = 0.0 + (strength / -2.0) * 2.0;
    assert_eq!(val(next.entities[0].velocity_ms.y), vy);
    assert!(vy > 0.0);
    assert_eq!(val(next.entities[0].position_m.y), 0.0 + vy * 2.0);
    let back = ((G * 3.0) * -2.0) / (2.0 * 2.0);
    let wy = 0.0 + ((-1.0 * back) / 3.0) * 2.0;
    assert_eq!(val(next.entities[1].velocity_ms.y), wy);
    assert!(wy > 0.0);
    assert_eq!(val(next.entities[1].position_m.y), 2.0 + wy * 2.0);
}

#[test]
fn step_keeps_the_bodies_in_order() {
    let masses = [3.0, 1.0, 4.0, 1.0, 5.0];
    let mut entities = Vec::new();
    for (i, m) in masses.iter().enumerate() {
        entities.push(body(*m, (i as f64 * 100.0, 0.0), (0.0, 1.0)));
    }
    let next = step_naive(&state(0.25, 1.0, entities), &Ieee);
    assert_eq!(next.entities.len(), 5);
    for (i, m) in masses.iter().enumerate() {
        assert_eq!(val(next.entities[i].mass_kg), *m);
        assert!((val(next.entities[i].position_m.x) - i as f64 * 100.0).abs() < 1.0e-6);
        assert!(close(val(next.entities[i].position_m.y), 0.25));
    }
    assert_eq!(val(next.step_s), 0.25);
}

#[test]
fn step_of_no_bodies_only_advances_the_clock() {
    let next = step_naive(&state(10.0, 2.5, Vec::new()), &Ieee);
    assert_eq!(next, state(10.0, 12.5, Vec::new()));
}

#[test]
fn step_leaves_its_input_alone() {
    let s = state(1.0, 0.0, vec![body(1.0, (0.0, 0.0), (1.0, 1.0)), body(1.0, (5.0, 0.0), (0.0, 0.0))]);
    let before = s.clone();
    let _ = step_naive(&s, &Ieee);
    assert_eq!(s, before);
}

#[test]
fn clock_grows_by_repeated_addition() {
    let mut s = state(0.1, 0.3, vec![body(1.0, (0.0, 0.0), (0.0, 0.0))]);
    let mut expected = 0.3f64;
    for _ in 0..7 {
        s = step_naive(&s, &Ieee);
        expected = expected + 0.1;
        assert_eq!(val(s.time_s), expected);
        assert_eq!(val(s.step_s), 0.1);
    }
    assert_eq!(val(s.time_s), 0.9999999999999999);
    let mut t = state(10.0, 0.0, Vec::new());
    for _ in 0..5 {
        t = step_naive(&t, &Ieee);
    }
    assert_eq!(val(t.time_s), 50.0);
}

#[test]
fn same_input_gives_the_same_step() {
    let s = state(
        3.0,
        0.0,
        vec![
            body(1.0e12, (0.0, 0.0), (0.0, 0.0)),
            body(2.0e12, (30.0, 40.0), (1.0, 0.0)),
            body(3.0e12, (-5.0, 12.0), (0.0, -1.0)),
        ],
    );
    assert_eq!(step_naive(&s, &Ieee), step_naive(&s, &Ieee));
}

#[test]
fn clone_copies_every_field() {
    let s = state(1.5, 2.5, vec![body(1.0, (2.0, 3.0), (4.0, 5.0)), body(6.0, (7.0, 8.0), (9.0, 0.0))]);
    let c = s.clone();
    assert_eq!(c, s);
    assert_eq!(c.entities.len(), 2);
    assert_eq!(xy(c.entities[1].position_m), (7.0, 8.0));
}

#[test]
fn fresh_simulation_has_ten_second_steps_and_no_bodies() {
    let app = new();
    assert_eq!(val(app.state.step_s), 10.0);
    assert_eq!(val(app.state.time_s), 0.0);
    assert!(app.state.entities.is_empty());
}

#[test]
fn setup_replaces_the_held_snapshot() {
    let mut app = new();
    let body_in = state(2.0, 4.0, vec![body(-1.0, (0.0, 0.0), (0.0, 0.0)), body(0.0, (0.0, 0.0), (1.0, 1.0))]);
    let held = setup(&mut app, body_in.clone());
    assert_eq!(held, body_in);
    assert_eq!(app.state, body_in);
    let again = setup(&mut app, state(1.0, 0.0, Vec::new()));
    assert_eq!(again, state(1.0, 0.0, Vec::new()));
    assert_eq!(app.state, again);
}

#[test]
fn stepping_the_held_snapshot_installs_and_returns_it() {
    let mut app = new();
    let start = state(1.0, 0.0, vec![body(5.972e24, (0.0, 0.0), (0.0, 0.0)), body(100.0, (1.0e7, 0.0), (0.0, 0.0))]);
    setup(&mut app, start.clone());
    let held = gravity_sim::gravity::step_naive(&mut app, &Ieee);
    assert_eq!(held, step_naive(&start, &Ieee));
    assert_eq!(app.state, held);
    let second = gravity_sim::gravity::step_naive(&mut app, &Ieee);
    assert_eq!(second, step_naive(&held, &Ieee));
    assert_eq!(val(app.state.time_s), 2.0);
}

#[test]
fn stepping_a_fresh_simulation_advances_the_clock_by_ten() {
    let mut app = new();
    let held = gravity_sim::gravity::step_naive(&mut app, &Ieee);
    assert_eq!(val(held.time_s), 10.0);
    assert_eq!(val(held.step_s), 10.0);
    assert!(held.entities.is_empty());
}
