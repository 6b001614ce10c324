//! Laws of the engine: properties that hold of every tick, stated and
//! proved over the spec transitions `engine_next` and `vertex_next`.
//!
//! Two further laws live elsewhere: the bounded-score invariant is the
//! `engine_wf` clause in the ensures of `RhythmEngine::update`, and the
//! tether bound is an ensures of `RhythmEngine::step_physics`.

use vstd::prelude::*;
use crate::engine::ACTIVITY_GATE;
use crate::engine::EngineModel;
use crate::engine::GamePhase;
use crate::engine::PERFECT_HARMONY;
use crate::engine::POOR_HARMONY;
use crate::engine::STABILITY_WINDOW;
use crate::engine::engine_next;
use crate::engine::next_harmony;
use crate::engine::next_magnitude;
use crate::engine::phase_rank;
use crate::filter::filter_next;
use crate::fixed::fdiv;
use crate::fixed::lemma_fmul_zero;
use crate::physics::ParamsModel;
use crate::physics::V3Model;
use crate::physics::VertexModel;
use crate::physics::vertex_next;
use vstd::arithmetic::div_mod::lemma_div_of0;

verus! {

/// The task phase only moves forward: no tick lowers its rank, a turned
/// piece can only stay turned or finish, and the finished phase is terminal.
pub proof fn lemma_phase_only_forward(e: EngineModel, x: int, y: int, z: int, dt: int, target: int)
    ensures
        phase_rank(engine_next(e, x, y, z, dt, target).game_phase) >= phase_rank(e.game_phase),
        e.game_phase == GamePhase::Turned ==> (engine_next(e, x, y, z, dt, target).game_phase
            == GamePhase::Turned || engine_next(e, x, y, z, dt, target).game_phase
            == GamePhase::Finished),
        e.game_phase == GamePhase::Finished ==> engine_next(e, x, y, z, dt, target).game_phase
            == GamePhase::Finished,
{
}

/// Combo discipline: weak motion or poor harmony resets the combo to zero,
/// and the combo only grows, by one, on a tick of perfect harmony whose
/// stability time passes the window, which also restarts the timer.
pub proof fn lemma_combo_discipline(e: EngineModel, x: int, y: int, z: int, dt: int, target: int)
    requires
        e.combo_count >= 0,
    ensures
        ({
            let post = engine_next(e, x, y, z, dt, target);
            let mag = next_magnitude(e, x, y, z);
            let harmony = next_harmony(e, x, y, z, dt, target);
            &&& mag <= ACTIVITY_GATE as int ==> post.combo_count == 0
            &&& (mag > ACTIVITY_GATE as int && harmony < POOR_HARMONY as int) ==> post.combo_count
                == 0
            &&& post.combo_count > e.combo_count ==> {
                &&& mag > ACTIVITY_GATE as int
                &&& harmony > PERFECT_HARMONY as int
                &&& e.stability_timer + dt > STABILITY_WINDOW as int
                &&& post.combo_count == e.combo_count + 1
                &&& post.stability_timer == 0
            }
        }),
{
}

/// A vertex at rest with zero velocity, zero gravity influence and zero
/// acceleration is a fixed point of the physics tick: no force arises, so
/// position and velocity are unchanged.
pub proof fn lemma_rest_vertex_fixed(
    v: VertexModel,
    p: ParamsModel,
    g: V3Model,
    dt: int,
    d_factor: int,
)
    requires
        v.position == v.original_pos,
        v.velocity == (V3Model { x: 0, y: 0, z: 0 }),
        p.gravity_influence == 0,
        p.mass >= 1,
    ensures
        vertex_next(v, p, g, V3Model { x: 0, y: 0, z: 0 }, dt, d_factor) == v,
{
    lemma_fmul_zero(g.x);
    lemma_fmul_zero(g.y);
    lemma_fmul_zero(g.z);
    lemma_fmul_zero(p.mass);
    lemma_fmul_zero(p.stiffness);
    assert(fdiv(0, p.mass) == 0) by {
        lemma_div_of0(p.mass);
    }
    lemma_fmul_zero(dt);
    lemma_fmul_zero(d_factor);
}

/// Under any constant measurement, the three filters of a tick each move
/// their estimate toward it; this is restated here at the engine level for
/// the first axis and holds alike for the others.
pub proof fn lemma_engine_filter_tracks(e: EngineModel, m: int)
    requires
        e.kf_x.p >= 0,
    ensures
        crate::fixed::absi(filter_next(e.kf_x, m).x - m) <= crate::fixed::absi(e.kf_x.x - m),
{
    crate::filter::lemma_filter_moves_toward_measurement(e.kf_x, m);
}

} // verus!
