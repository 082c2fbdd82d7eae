//! The simulation that a serving shell holds: one snapshot, replaced as a whole.
//!
//! The shell owns the only [`GravityApp`] and admits one operation at a time on
//! it. Each operation installs a new snapshot and hands back a copy of it.
use crate::arith::{Arithmetic, Scalar, ZERO_BITS};
use crate::{is_step, Snapshot, State};
use vstd::prelude::*;

verus! {

/// The encoding of `10.0`, the step size in seconds of a fresh simulation.
pub const DEFAULT_STEP_BITS: u64 = 0x4024_0000_0000_0000u64;

/// The snapshot of a fresh simulation: steps of ten seconds, the clock at zero,
/// no bodies.
pub open spec fn initial_snapshot() -> Snapshot {
    Snapshot {
        step_s: Scalar { bits: DEFAULT_STEP_BITS },
        time_s: Scalar { bits: ZERO_BITS },
        entities: Seq::empty(),
    }
}

/// The held simulation.
pub struct GravityApp {
    pub state: State,
}

/// A fresh simulation.
pub fn new() -> (app: GravityApp)
    ensures
        app.state@ == initial_snapshot(),
{
    GravityApp {
        state: State {
            step_s: Scalar { bits: DEFAULT_STEP_BITS },
            time_s: Scalar { bits: ZERO_BITS },
            entities: Vec::new(),
        },
    }
}

/// Replaces the held snapshot with `body` as it is, and returns the snapshot
/// now held. Nothing about `body` is checked.
pub fn setup(app: &mut GravityApp, body: State) -> (held: State)
    ensures
        final(app).state@ == body@,
        held@ == body@,
{
    app.state = body;
    app.state.clone()
}

/// Advances the held snapshot by one step, and returns the snapshot now held.
pub fn step_naive<K: Arithmetic>(app: &mut GravityApp, k: &K) -> (held: State)
    ensures
        is_step(k, old(app).state@, final(app).state@),
        held@ == final(app).state@,
{
    let next = crate::step_naive(&app.state, k);
    app.state = next;
    app.state.clone()
}

} // verus!
