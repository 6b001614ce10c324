// Control-engine behavior: filtering, PID terms, scoring, combo and phase.
// All quantities are fixed-point millionths: 1_000_000 stands for 1.0.

use takoyaki_native::GamePhase;
use takoyaki_native::KalmanFilter;
use takoyaki_native::RhythmEngine;

/// An engine whose filters already sit exactly on the sample (3, 4, 0), so
/// a constant (3, 4, 0) input keeps the magnitude at exactly 5.0.
fn converged_engine() -> RhythmEngine {
    RhythmEngine {
        kf_x: KalmanFilter { q: 10_000, r: 100_000, x: 3_000_000, p: 27_000, k: 0 },
        kf_y: KalmanFilter { q: 10_000, r: 100_000, x: 4_000_000, p: 27_000, k: 0 },
        kf_z: KalmanFilter { q: 10_000, r: 100_000, x: 0, p: 27_000, k: 0 },
        last_error: 0,
        integral: 0,
        mastery: 0,
        shaping_progress: 1_000_000,
        batter_level: 0,
        game_phase: GamePhase::Raw,
        combo_count: 0,
        stability_timer: 0,
        p_term: 0,
        i_term: 0,
        d_term: 0,
    }
}

#[test]
fn filter_first_update_exact() {
    let mut kf = KalmanFilter::new(0);
    let est = kf.update(3_000_000);
    // p grows to 1.01, gain = 1.01 / 1.11 truncated, estimate moves by it.
    assert_eq!(kf.k, 909_909);
    assert_eq!(est, 2_729_727);
    assert_eq!(kf.x, 2_729_727);
    assert_eq!(kf.p, 90_991);
}

#[test]
fn filter_converges_to_constant_input() {
    let mut kf = KalmanFilter::new(0);
    let mut prev_gap: i64 = 3_000_000;
    for _ in 0..50 {
        let est = kf.update(3_000_000);
        let gap = (3_000_000 - est).abs();
        assert!(gap <= prev_gap, "estimate moved away from the measurement");
        prev_gap = gap;
    }
    assert!(prev_gap < 100, "estimate did not converge: gap {prev_gap}");
}

#[test]
fn first_tick_exact_pid_terms() {
    let mut e = RhythmEngine::new();
    let mag = e.update(0, 0, 0, 100_000, 1_000_000);
    assert_eq!(mag, 0);
    assert_eq!(e.last_error, 1_000_000);
    assert_eq!(e.integral, 100_000);
    assert_eq!(e.p_term, 1_500_000);
    assert_eq!(e.i_term, 50_000);
    assert_eq!(e.d_term, 2_000_000);
    // Weak motion: idle penalties, batter fills independently.
    assert_eq!(e.mastery, 0);
    assert_eq!(e.shaping_progress, 1_000_000);
    assert_eq!(e.combo_count, 0);
    assert_eq!(e.batter_level, 50_000);
    assert_eq!(e.game_phase, GamePhase::Raw);
}

#[test]
fn zero_input_scenario() {
    // Fifty ticks of silence at dt = 0.1 s, target 1.0: magnitude stays 0,
    // mastery and combo stay 0; the batter fills at 0.05 per tick, so the
    // phase leaves Raw for Cooking at the twentieth tick and goes no further.
    let mut e = RhythmEngine::new();
    for tick in 1..=50 {
        let mag = e.update(0, 0, 0, 100_000, 1_000_000);
        assert_eq!(mag, 0);
        assert_eq!(e.mastery, 0);
        assert_eq!(e.combo_count, 0);
        if tick < 20 {
            assert_eq!(e.game_phase, GamePhase::Raw);
            assert_eq!(e.batter_level, 50_000 * tick);
        } else {
            assert_eq!(e.game_phase, GamePhase::Cooking);
        }
    }
}

#[test]
fn steady_motion_scenario() {
    // Constant (3, 4, 0) at dt = 0.016 s against target 5.0: the magnitude
    // converges to the target, harmony settles above the perfect threshold,
    // mastery climbs toward 1, shaping progress strictly decreases, and
    // combos accumulate.
    let mut e = RhythmEngine::new();
    let mut prev_shaping: i64 = 1_000_000;
    let mut last_mag: i64 = 0;
    for tick in 1..=200 {
        last_mag = e.update(3_000_000, 4_000_000, 0, 16_000, 5_000_000);
        assert!(0 <= e.mastery && e.mastery <= 1_000_000);
        assert!(0 <= e.shaping_progress && e.shaping_progress <= 1_000_000);
        if tick > 20 {
            assert!(
                e.shaping_progress < prev_shaping,
                "shaping progress did not strictly decrease at tick {tick}"
            );
        }
        prev_shaping = e.shaping_progress;
    }
    assert!((last_mag - 5_000_000).abs() < 1_000, "magnitude {last_mag} far from target");
    assert!(e.mastery > 900_000, "mastery {} did not climb", e.mastery);
    assert!(e.combo_count >= 3, "combo {} did not accumulate", e.combo_count);
}

#[test]
fn combo_needs_half_second_of_perfection() {
    // With the filters on target the error is 0, harmony is exactly 1, and
    // the stability timer alone decides the combo: at dt = 0.3 s it passes
    // the 0.5 s window on every second tick.
    let mut e = converged_engine();
    let expected_combos = [0, 1, 1, 2];
    let expected_timers = [300_000, 0, 300_000, 0];
    for i in 0..4 {
        let mag = e.update(3_000_000, 4_000_000, 0, 300_000, 5_000_000);
        assert_eq!(mag, 5_000_000);
        assert_eq!(e.last_error, 0);
        assert_eq!(e.combo_count, expected_combos[i]);
        assert_eq!(e.stability_timer, expected_timers[i]);
    }
}

#[test]
fn combo_resets_on_weak_motion() {
    let mut e = converged_engine();
    for _ in 0..4 {
        e.update(3_000_000, 4_000_000, 0, 300_000, 5_000_000);
    }
    assert!(e.combo_count > 0);
    // Silence: the filtered magnitude stays above zero for a while, but one
    // idle-gate tick is enough once it falls under 2.0; drive it there.
    for _ in 0..40 {
        e.update(0, 0, 0, 100_000, 5_000_000);
    }
    assert_eq!(e.combo_count, 0);
    assert_eq!(e.mastery, 0);
}

#[test]
fn combo_resets_on_poor_harmony() {
    let mut e = converged_engine();
    for _ in 0..4 {
        e.update(3_000_000, 4_000_000, 0, 300_000, 5_000_000);
    }
    assert!(e.combo_count > 0);
    // A sudden violent swing: strong magnitude but a control output far
    // beyond the target, so harmony collapses below 0.5.
    e.update(30_000_000, 0, 0, 16_000, 5_000_000);
    assert_eq!(e.combo_count, 0);
    assert_eq!(e.stability_timer, 0);
}

#[test]
fn full_phase_lifecycle() {
    // Perfect one-second ticks walk the phase machine all the way forward:
    // batter fills in two ticks, shaping falls by the mastery-boosted
    // pressure, and the phase crosses Cooking, Turned and Finished at the
    // documented thresholds, never stepping back.
    let mut e = converged_engine();
    let expected_shaping = [
        912_500, 787_500, 662_500, 537_500, 412_500, 287_500, 162_500, 37_500, 0, 0,
    ];
    let expected_phases = [
        GamePhase::Raw,
        GamePhase::Cooking,
        GamePhase::Cooking,
        GamePhase::Cooking,
        GamePhase::Turned,
        GamePhase::Turned,
        GamePhase::Turned,
        GamePhase::Turned,
        GamePhase::Finished,
        GamePhase::Finished,
    ];
    for i in 0..10 {
        e.update(3_000_000, 4_000_000, 0, 1_000_000, 5_000_000);
        assert_eq!(e.shaping_progress, expected_shaping[i], "shaping at tick {}", i + 1);
        assert_eq!(e.game_phase, expected_phases[i], "phase at tick {}", i + 1);
    }
}

#[test]
fn phase_never_regresses_when_idle() {
    // Reach Cooking, then idle: shaping progress regresses upward past the
    // turn threshold again, but the phase stays where it was.
    let mut e = converged_engine();
    for _ in 0..5 {
        e.update(3_000_000, 4_000_000, 0, 1_000_000, 5_000_000);
    }
    assert_eq!(e.game_phase, GamePhase::Turned);
    for _ in 0..100 {
        e.update(0, 0, 0, 100_000, 5_000_000);
        assert_eq!(e.game_phase, GamePhase::Turned);
    }
}

#[test]
fn scores_stay_bounded_under_wild_input() {
    let mut e = RhythmEngine::new();
    let samples: [(i64, i64, i64); 5] = [
        (1_000_000_000_000, -1_000_000_000_000, 999_999_999_999),
        (0, 0, 0),
        (-5_000_000, 4_000_000, -3_000_000),
        (1_000_000_000, 1_000_000_000, 1_000_000_000),
        (7, -13, 42),
    ];
    for round in 0..40 {
        let (x, y, z) = samples[round % samples.len()];
        e.update(x, y, z, 1_000_000, 1);
        assert!(0 <= e.mastery && e.mastery <= 1_000_000);
        assert!(0 <= e.shaping_progress && e.shaping_progress <= 1_000_000);
        assert!(0 <= e.batter_level && e.batter_level <= 1_000_000);
        assert!(e.combo_count >= 0);
        assert!(0 <= e.stability_timer && e.stability_timer <= 500_000);
    }
}
