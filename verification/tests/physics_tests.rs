// Vertex-deformer behavior and the fixed-point primitives it rests on.
// All quantities are fixed-point millionths: 1_000_000 stands for 1.0.

use takoyaki_native::PhysicsParams;
use takoyaki_native::RhythmEngine;
use takoyaki_native::Vec3;
use takoyaki_native::VertexState;
use takoyaki_native::fixed::clamp_i64;
use takoyaki_native::fixed::isqrt;
use takoyaki_native::fixed::mul_div_trunc;
use takoyaki_native::physics::compute_fp_pow;

fn v3(x: i64, y: i64, z: i64) -> Vec3 {
    Vec3 { x, y, z }
}

fn dist_sq(v: &VertexState) -> i128 {
    let dx = (v.position.x - v.original_pos.x) as i128;
    let dy = (v.position.y - v.original_pos.y) as i128;
    let dz = (v.position.z - v.original_pos.z) as i128;
    dx * dx + dy * dy + dz * dz
}

#[test]
fn isqrt_exact_values() {
    assert_eq!(isqrt(0), 0);
    assert_eq!(isqrt(1), 1);
    assert_eq!(isqrt(144), 12);
    assert_eq!(isqrt(145), 12);
    assert_eq!(isqrt(168), 12);
    assert_eq!(isqrt(169), 13);
    assert_eq!(isqrt(25_000_000_000_000), 5_000_000);
    assert_eq!(isqrt(u128::from(u64::MAX) * u128::from(u64::MAX)), u64::MAX);
}

#[test]
fn mul_div_truncates_toward_zero() {
    assert_eq!(mul_div_trunc(7, 1, 2), 3);
    assert_eq!(mul_div_trunc(-7, 1, 2), -3);
    assert_eq!(mul_div_trunc(7, -1, 2), -3);
    assert_eq!(mul_div_trunc(-7, -1, 2), 3);
    assert_eq!(mul_div_trunc(1_500_000, 2_000_000, 1_000_000), 3_000_000);
    assert_eq!(clamp_i64(5, 0, 3), 3);
    assert_eq!(clamp_i64(-5, 0, 3), 0);
    assert_eq!(clamp_i64(2, 0, 3), 2);
}

#[test]
fn fp_pow_exact_values() {
    // 0.5 ^ 2 == 0.25 exactly.
    assert_eq!(compute_fp_pow(500_000, 2_000_000), 250_000);
    // 0.5 ^ 2.5: whole square times the linear fractional factor 0.75.
    assert_eq!(compute_fp_pow(500_000, 2_500_000), 187_500);
    // Anything to the zeroth power is one.
    assert_eq!(compute_fp_pow(123_456, 0), 1_000_000);
    // One to any power is one.
    assert_eq!(compute_fp_pow(1_000_000, 96_000_000), 1_000_000);
}

#[test]
fn rest_vertex_is_unchanged() {
    // Zero gravity influence, zero acceleration, at rest with no velocity:
    // one tick is the identity.
    let e = RhythmEngine::new();
    let rest = v3(500_000, -250_000, 125_000);
    let mut states = vec![VertexState { position: rest, velocity: v3(0, 0, 0), original_pos: rest }];
    let params = PhysicsParams {
        stiffness: 800_000,
        damping: 100_000,
        mass: 2_000_000,
        gravity_influence: 0,
    };
    e.step_physics(&mut states, &params, &v3(0, -9_810_000, 0), &v3(0, 0, 0), 16_000);
    assert_eq!(states[0].position, rest);
    assert_eq!(states[0].velocity, v3(0, 0, 0));
}

#[test]
fn spring_pulls_toward_rest() {
    // Unit stiffness and mass, no damping: a vertex displaced by 0.1 gains
    // velocity -0.0016 over dt = 0.016 and moves back by 25 millionths.
    let e = RhythmEngine::new();
    let mut states = vec![VertexState {
        position: v3(100_000, 0, 0),
        velocity: v3(0, 0, 0),
        original_pos: v3(0, 0, 0),
    }];
    let params =
        PhysicsParams { stiffness: 1_000_000, damping: 0, mass: 1_000_000, gravity_influence: 0 };
    e.step_physics(&mut states, &params, &v3(0, 0, 0), &v3(0, 0, 0), 16_000);
    assert_eq!(states[0].velocity, v3(-1_600, 0, 0));
    assert_eq!(states[0].position, v3(99_975, 0, 0));
}

#[test]
fn damping_scales_velocity() {
    // Damping 0.5 at dt = 0.016: the exponent is 0.96, so the factor is
    // 1 - 0.96 * 0.5 = 0.52 under the linear fractional rule.
    let e = RhythmEngine::new();
    let mut states = vec![VertexState {
        position: v3(0, 0, 0),
        velocity: v3(1_000_000, 0, 0),
        original_pos: v3(0, 0, 0),
    }];
    let params =
        PhysicsParams { stiffness: 0, damping: 500_000, mass: 1_000_000, gravity_influence: 0 };
    e.step_physics(&mut states, &params, &v3(0, 0, 0), &v3(0, 0, 0), 16_000);
    assert_eq!(states[0].velocity, v3(520_000, 0, 0));
    assert_eq!(states[0].position, v3(8_320, 0, 0));
}

#[test]
fn gravity_accelerates_vertex() {
    // Unit gravity influence and mass at dt = 0.1: velocity picks up
    // g * dt and the position integrates it.
    let e = RhythmEngine::new();
    let mut states = vec![VertexState {
        position: v3(0, 0, 0),
        velocity: v3(0, 0, 0),
        original_pos: v3(0, 0, 0),
    }];
    let params =
        PhysicsParams { stiffness: 0, damping: 0, mass: 1_000_000, gravity_influence: 1_000_000 };
    e.step_physics(&mut states, &params, &v3(0, -9_810_000, 0), &v3(0, 0, 0), 100_000);
    assert_eq!(states[0].velocity, v3(0, -981_000, 0));
    assert_eq!(states[0].position, v3(0, -98_100, 0));
}

#[test]
fn tether_clamps_straight_displacement() {
    // A vertex a full unit from rest with no forces is pulled straight back
    // to the tether radius 0.3.
    let e = RhythmEngine::new();
    let mut states = vec![VertexState {
        position: v3(1_000_000, 0, 0),
        velocity: v3(0, 0, 0),
        original_pos: v3(0, 0, 0),
    }];
    let params =
        PhysicsParams { stiffness: 0, damping: 0, mass: 1_000_000, gravity_influence: 0 };
    e.step_physics(&mut states, &params, &v3(0, 0, 0), &v3(0, 0, 0), 16_000);
    assert_eq!(states[0].position, v3(300_000, 0, 0));
}

#[test]
fn tether_clamps_diagonal_displacement() {
    // A 3-4-5 displacement of length 0.5 lands exactly on the radius, and
    // the velocity keeps only a tenth of itself on contact.
    let e = RhythmEngine::new();
    let mut states = vec![VertexState {
        position: v3(400_000, 300_000, 0),
        velocity: v3(0, 0, 0),
        original_pos: v3(0, 0, 0),
    }];
    let params =
        PhysicsParams { stiffness: 0, damping: 0, mass: 1_000_000, gravity_influence: 0 };
    e.step_physics(&mut states, &params, &v3(0, 0, 0), &v3(0, 0, 0), 16_000);
    assert_eq!(states[0].position, v3(240_000, 180_000, 0));
    assert_eq!(dist_sq(&states[0]), 90_000_000_000);
}

#[test]
fn tether_holds_under_violent_forces() {
    // Whatever the forces, after a tick every vertex sits within the tether
    // radius (plus rounding margin) of its rest position.
    let e = RhythmEngine::new();
    let rest = v3(1_000_000, 2_000_000, -3_000_000);
    let mut states = vec![
        VertexState { position: rest, velocity: v3(0, 0, 0), original_pos: rest },
        VertexState {
            position: v3(rest.x + 250_000, rest.y, rest.z),
            velocity: v3(1_000_000_000_000, -1_000_000_000_000, 500_000_000_000),
            original_pos: rest,
        },
    ];
    let params = PhysicsParams {
        stiffness: 1_000_000_000,
        damping: 0,
        mass: 1,
        gravity_influence: 1_000_000_000,
    };
    let gravity = v3(1_000_000_000, -1_000_000_000, 1_000_000_000);
    let accel = v3(-1_000_000_000, 1_000_000_000, -1_000_000_000);
    e.step_physics(&mut states, &params, &gravity, &accel, 1_000_000);
    for v in &states {
        assert!(dist_sq(v) <= 90_000_600_000, "tether violated: {}", dist_sq(v));
    }
}

#[test]
fn velocity_loses_ninety_percent_on_contact() {
    // Fly outward fast enough to hit the tether: the surviving velocity is
    // a tenth of the integrated one.
    let e = RhythmEngine::new();
    let mut states = vec![VertexState {
        position: v3(0, 0, 0),
        velocity: v3(50_000_000, 0, 0),
        original_pos: v3(0, 0, 0),
    }];
    let params =
        PhysicsParams { stiffness: 0, damping: 0, mass: 1_000_000, gravity_influence: 0 };
    // dt = 0.016: the vertex would travel 0.8, beyond the 0.3 tether.
    e.step_physics(&mut states, &params, &v3(0, 0, 0), &v3(0, 0, 0), 16_000);
    assert_eq!(states[0].position, v3(300_000, 0, 0));
    assert_eq!(states[0].velocity, v3(5_000_000, 0, 0));
}

#[test]
fn buffer_length_and_order_preserved() {
    let e = RhythmEngine::new();
    let mut states: Vec<VertexState> = (0..5)
        .map(|i| {
            let rest = v3(i * 1_000_000, 0, 0);
            VertexState { position: rest, velocity: v3(0, 0, 0), original_pos: rest }
        })
        .collect();
    let params =
        PhysicsParams { stiffness: 500_000, damping: 200_000, mass: 1_000_000, gravity_influence: 0 };
    e.step_physics(&mut states, &params, &v3(0, 0, 0), &v3(0, 0, 0), 16_000);
    assert_eq!(states.len(), 5);
    for (i, v) in states.iter().enumerate() {
        assert_eq!(v.original_pos, v3(i as i64 * 1_000_000, 0, 0));
        assert_eq!(v.position, v.original_pos);
    }
}
