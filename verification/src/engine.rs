//! The control engine: one tick of motion scoring.
//!
//! `RhythmEngine::update` filters a raw three-axis sample, fuses the filtered
//! axes into a motion magnitude, runs a PID-style computation against a
//! target magnitude, and drives the bounded mastery and shaping-progress
//! accumulators and the forward-only task phase. The whole tick is pinned by
//! the spec transition `engine_next`.

use vstd::prelude::*;
use vstd::arithmetic::div_mod::lemma_div_is_ordered;
use vstd::arithmetic::div_mod::lemma_div_multiples_vanish;
use vstd::arithmetic::div_mod::lemma_div_nonincreasing;
use vstd::arithmetic::div_mod::lemma_div_pos_is_pos;
use vstd::arithmetic::mul::lemma_mul_inequality;
use vstd::arithmetic::mul::lemma_mul_nonnegative;
use crate::filter::FilterModel;
use crate::filter::IN_MAX;
use crate::filter::KalmanFilter;
use crate::filter::P_INIT;
use crate::filter::filter_next;
use crate::filter::filter_wf;
use crate::fixed::SCALE;
use crate::fixed::absi;
use crate::fixed::clamp_i64;
use crate::fixed::clampi;
use crate::fixed::fmul;
use crate::fixed::is_sqrt_floor;
use crate::fixed::lemma_fmul_bound;
use crate::fixed::lemma_fmul_nonneg;
use crate::fixed::lemma_sdiv_abs;
use crate::fixed::maxi;
use crate::fixed::mini;
use crate::fixed::mul_div_trunc;
use crate::fixed::sdiv;
use crate::fixed::sqrt_floor;

verus! {

/// Proportional control coefficient (the real value 1.5).
pub const KP: i64 = 1_500_000;

/// Integral control coefficient (the real value 0.5).
pub const KI: i64 = 500_000;

/// Derivative control coefficient (the real value 0.2).
pub const KD: i64 = 200_000;

/// Magnitude below which motion is too weak to score (the real value 2.0).
pub const ACTIVITY_GATE: i64 = 2_000_000;

/// Harmony above which motion counts as perfect (the real value 0.85).
pub const PERFECT_HARMONY: i64 = 850_000;

/// Harmony below which the combo is lost (the real value 0.5).
pub const POOR_HARMONY: i64 = 500_000;

/// Sustained perfect time that earns one combo (the real value 0.5 s).
pub const STABILITY_WINDOW: i64 = 500_000;

/// Mastery gained per second of perfect motion (the real value 0.5).
pub const MASTERY_GAIN_RATE: i64 = 500_000;

/// Mastery lost per second of imperfect motion (the real value 0.2).
pub const MASTERY_DRIFT_RATE: i64 = 200_000;

/// Pressure bonus per unit of mastery (the real value 1.5).
pub const MASTERY_PRESSURE_BONUS: i64 = 1_500_000;

/// Shaping progress consumed per second of unit pressure (the real 0.05).
pub const SHAPING_SPEED: i64 = 50_000;

/// Shaping progress regained per idle second (the real value 0.02).
pub const IDLE_REGRESS_RATE: i64 = 20_000;

/// Batter level gained per second in the raw phase (the real value 0.5).
pub const BATTER_FILL_RATE: i64 = 500_000;

/// Shaping progress below which the piece is turned (the real value 0.5).
pub const TURN_THRESHOLD: i64 = 500_000;

/// Largest admissible target magnitude, a machine limit.
pub const TARGET_MAX: i64 = 1_000_000_000_000;

/// Largest admissible time delta (the real value 1 s), a machine limit.
pub const DT_MAX: i64 = 1_000_000;

/// Saturation bound of the integral accumulator, a machine limit.
pub const INTEGRAL_CAP: i64 = 1_000_000_000_000_000;

/// Bound on the magnitude of one tick's control error.
pub const ERROR_CAP: i64 = 3_000_000_000_000;

/// Saturation bound of the combo counter.
pub const COMBO_CAP: i32 = 0x7fff_ffff;

/// The discrete stage of the shaping task, ordered and forward-only.
#[derive(Clone, Copy, PartialEq, Eq, Structural, Debug)]
pub enum GamePhase {
    Raw,
    Cooking,
    Turned,
    Finished,
}

/// Position of a phase in the forward order.
pub open spec fn phase_rank(p: GamePhase) -> int {
    match p {
        GamePhase::Raw => 0,
        GamePhase::Cooking => 1,
        GamePhase::Turned => 2,
        GamePhase::Finished => 3,
    }
}

/// The control engine for one gameplay session.
pub struct RhythmEngine {
    /// Noise filter of the first axis.
    pub kf_x: KalmanFilter,
    /// Noise filter of the second axis.
    pub kf_y: KalmanFilter,
    /// Noise filter of the third axis.
    pub kf_z: KalmanFilter,
    /// Control error of the previous tick.
    pub last_error: i64,
    /// Saturating integral of the control error over time.
    pub integral: i64,
    /// Bounded skill score in `[0, SCALE]`.
    pub mastery: i64,
    /// Bounded task-completion counter in `[0, SCALE]`; counts down.
    pub shaping_progress: i64,
    /// Bounded fill level in `[0, SCALE]` driving the first transition.
    pub batter_level: i64,
    /// Current task phase.
    pub game_phase: GamePhase,
    /// Consecutive sustained perfect intervals.
    pub combo_count: i32,
    /// Time of sustained perfect motion toward the next combo.
    pub stability_timer: i64,
    /// Proportional term of the last tick.
    pub p_term: i64,
    /// Integral term of the last tick.
    pub i_term: i64,
    /// Derivative term of the last tick.
    pub d_term: i64,
}

/// The mathematical state of a `RhythmEngine`.
pub ghost struct EngineModel {
    pub kf_x: FilterModel,
    pub kf_y: FilterModel,
    pub kf_z: FilterModel,
    pub last_error: int,
    pub integral: int,
    pub mastery: int,
    pub shaping_progress: int,
    pub batter_level: int,
    pub game_phase: GamePhase,
    pub combo_count: int,
    pub stability_timer: int,
    pub p_term: int,
    pub i_term: int,
    pub d_term: int,
}

impl View for RhythmEngine {
    type V = EngineModel;

    open spec fn view(&self) -> EngineModel {
        EngineModel {
            kf_x: self.kf_x@,
            kf_y: self.kf_y@,
            kf_z: self.kf_z@,
            last_error: self.last_error as int,
            integral: self.integral as int,
            mastery: self.mastery as int,
            shaping_progress: self.shaping_progress as int,
            batter_level: self.batter_level as int,
            game_phase: self.game_phase,
            combo_count: self.combo_count as int,
            stability_timer: self.stability_timer as int,
            p_term: self.p_term as int,
            i_term: self.i_term as int,
            d_term: self.d_term as int,
        }
    }
}

/// Invariant of the engine state: filters well formed, accumulators inside
/// their saturation bounds, scores clamped to `[0, 1]`, timers in range.
pub open spec fn engine_wf(e: EngineModel) -> bool {
    &&& filter_wf(e.kf_x)
    &&& filter_wf(e.kf_y)
    &&& filter_wf(e.kf_z)
    &&& absi(e.last_error) <= ERROR_CAP as int
    &&& absi(e.integral) <= INTEGRAL_CAP as int
    &&& 0 <= e.mastery <= SCALE as int
    &&& 0 <= e.shaping_progress <= SCALE as int
    &&& 0 <= e.batter_level <= SCALE as int
    &&& 0 <= e.combo_count <= COMBO_CAP as int
    &&& 0 <= e.stability_timer <= STABILITY_WINDOW as int
}

/// The state of a freshly created engine.
pub open spec fn engine_init() -> EngineModel {
    EngineModel {
        kf_x: FilterModel { x: 0, p: P_INIT as int, k: 0 },
        kf_y: FilterModel { x: 0, p: P_INIT as int, k: 0 },
        kf_z: FilterModel { x: 0, p: P_INIT as int, k: 0 },
        last_error: 0,
        integral: 0,
        mastery: 0,
        shaping_progress: SCALE as int,
        batter_level: 0,
        game_phase: GamePhase::Raw,
        combo_count: 0,
        stability_timer: 0,
        p_term: 0,
        i_term: 0,
        d_term: 0,
    }
}

/// The motion magnitude one tick derives from sample `(x, y, z)`: the
/// rounded-down length of the filtered sample.
pub open spec fn next_magnitude(e: EngineModel, x: int, y: int, z: int) -> int {
    let fx = filter_next(e.kf_x, x).x;
    let fy = filter_next(e.kf_y, y).x;
    let fz = filter_next(e.kf_z, z).x;
    sqrt_floor(fx * fx + fy * fy + fz * fz)
}

/// The integral accumulator after one tick, saturating at `INTEGRAL_CAP`.
pub open spec fn next_integral(e: EngineModel, x: int, y: int, z: int, dt: int, target: int) -> int {
    let error = target - next_magnitude(e, x, y, z);
    clampi(e.integral + fmul(error, dt), -(INTEGRAL_CAP as int), INTEGRAL_CAP as int)
}

/// The control output of one tick: the sum of the proportional, integral and
/// derivative terms.
pub open spec fn next_output(e: EngineModel, x: int, y: int, z: int, dt: int, target: int) -> int {
    let error = target - next_magnitude(e, x, y, z);
    let der = sdiv((error - e.last_error) * (SCALE as int), dt);
    fmul(KP as int, error) + fmul(KI as int, next_integral(e, x, y, z, dt, target)) + fmul(
        KD as int,
        der,
    )
}

/// How closely the control output tracks zero error, normalized by the
/// target: 1 for a silent controller, 0 once the output reaches the target.
pub open spec fn harmony_of(output: int, target: int) -> int {
    clampi((SCALE as int) - sdiv(absi(output) * (SCALE as int), target), 0, SCALE as int)
}

/// The harmony one tick computes from its control output.
pub open spec fn next_harmony(e: EngineModel, x: int, y: int, z: int, dt: int, target: int) -> int {
    harmony_of(next_output(e, x, y, z, dt, target), target)
}

/// The combo counter incremented, saturating at `COMBO_CAP`.
pub open spec fn combo_bump(c: int) -> int {
    if c < COMBO_CAP as int {
        c + 1
    } else {
        c
    }
}

/// One full tick of the engine on sample `(x, y, z)`, time delta `dt` and
/// target magnitude `target`.
pub open spec fn engine_next(e: EngineModel, x: int, y: int, z: int, dt: int, target: int) -> EngineModel {
    let s = SCALE as int;
    let mag = next_magnitude(e, x, y, z);
    let error = target - mag;
    let integral = next_integral(e, x, y, z, dt, target);
    let der = sdiv((error - e.last_error) * s, dt);
    let p_term = fmul(KP as int, error);
    let i_term = fmul(KI as int, integral);
    let d_term = fmul(KD as int, der);
    let active = mag > ACTIVITY_GATE as int;
    let harmony = harmony_of(p_term + i_term + d_term, target);
    let perfect = harmony > PERFECT_HARMONY as int;
    let grown = e.stability_timer + dt;
    let mastery = if active {
        if perfect {
            mini(e.mastery + fmul(dt, MASTERY_GAIN_RATE as int), s)
        } else {
            maxi(e.mastery - fmul(dt, MASTERY_DRIFT_RATE as int), 0)
        }
    } else {
        maxi(e.mastery - dt, 0)
    };
    let combo_count = if active {
        if perfect {
            if grown > STABILITY_WINDOW as int {
                combo_bump(e.combo_count)
            } else {
                e.combo_count
            }
        } else if harmony < POOR_HARMONY as int {
            0
        } else {
            e.combo_count
        }
    } else {
        0
    };
    let stability_timer = if active {
        if perfect {
            if grown > STABILITY_WINDOW as int {
                0
            } else {
                grown
            }
        } else {
            0
        }
    } else {
        e.stability_timer
    };
    let shaping_progress = if active {
        let pressure = fmul(harmony, s + fmul(mastery, MASTERY_PRESSURE_BONUS as int));
        maxi(e.shaping_progress - fmul(fmul(pressure, SHAPING_SPEED as int), dt), 0)
    } else {
        mini(e.shaping_progress + fmul(dt, IDLE_REGRESS_RATE as int), s)
    };
    let batter_level = if e.game_phase is Raw {
        mini(e.batter_level + fmul(dt, BATTER_FILL_RATE as int), s)
    } else {
        e.batter_level
    };
    let game_phase = match e.game_phase {
        GamePhase::Raw => if batter_level >= s {
            GamePhase::Cooking
        } else {
            GamePhase::Raw
        },
        GamePhase::Cooking => if shaping_progress < TURN_THRESHOLD as int {
            GamePhase::Turned
        } else {
            GamePhase::Cooking
        },
        GamePhase::Turned => if shaping_progress <= 0 {
            GamePhase::Finished
        } else {
            GamePhase::Turned
        },
        GamePhase::Finished => GamePhase::Finished,
    };
    EngineModel {
        kf_x: filter_next(e.kf_x, x),
        kf_y: filter_next(e.kf_y, y),
        kf_z: filter_next(e.kf_z, z),
        last_error: error,
        integral,
        mastery,
        shaping_progress,
        batter_level,
        game_phase,
        combo_count,
        stability_timer,
        p_term,
        i_term,
        d_term,
    }
}

impl RhythmEngine {
    /// Invariant of an engine value.
    pub open spec fn wf(&self) -> bool {
        &&& self.kf_x.wf()
        &&& self.kf_y.wf()
        &&& self.kf_z.wf()
        &&& engine_wf(self@)
    }

    /// A fresh engine: zeroed scores, full shaping progress, raw phase.
    pub fn new() -> (e: RhythmEngine)
        ensures
            e.wf(),
            e@ == engine_init(),
    {
        RhythmEngine {
            kf_x: KalmanFilter::new(0),
            kf_y: KalmanFilter::new(0),
            kf_z: KalmanFilter::new(0),
            last_error: 0,
            integral: 0,
            mastery: 0,
            shaping_progress: SCALE,
            batter_level: 0,
            game_phase: GamePhase::Raw,
            combo_count: 0,
            stability_timer: 0,
            p_term: 0,
            i_term: 0,
            d_term: 0,
        }
    }

    /// One control-loop tick: filters the sample, scores the motion, and
    /// advances phase state. Returns the fused motion magnitude.
    #[verifier::rlimit(100)]
    pub fn update(&mut self, x: i64, y: i64, z: i64, dt: i64, target: i64) -> (mag: i64)
        requires
            old(self).wf(),
            -IN_MAX <= x <= IN_MAX,
            -IN_MAX <= y <= IN_MAX,
            -IN_MAX <= z <= IN_MAX,
            1 <= dt <= DT_MAX,
            1 <= target <= TARGET_MAX,
        ensures
            final(self).wf(),
            final(self)@ == engine_next(old(self)@, x as int, y as int, z as int, dt as int, target as int),
            mag as int == next_magnitude(old(self)@, x as int, y as int, z as int),
            phase_rank(final(self)@.game_phase) >= phase_rank(old(self)@.game_phase),
    {
        let ghost s = SCALE as int;
        let fx = self.kf_x.update(x);
        let fy = self.kf_y.update(y);
        let fz = self.kf_z.update(z);
        proof {
            assert((fx as int) * (fx as int) <= 1_000_000_000_000_000_000_000_000
                && (fx as int) * (fx as int) >= 0) by (nonlinear_arith)
                requires
                    -1_000_000_000_000 <= fx <= 1_000_000_000_000,
            ;
            assert((fy as int) * (fy as int) <= 1_000_000_000_000_000_000_000_000
                && (fy as int) * (fy as int) >= 0) by (nonlinear_arith)
                requires
                    -1_000_000_000_000 <= fy <= 1_000_000_000_000,
            ;
            assert((fz as int) * (fz as int) <= 1_000_000_000_000_000_000_000_000
                && (fz as int) * (fz as int) >= 0) by (nonlinear_arith)
                requires
                    -1_000_000_000_000 <= fz <= 1_000_000_000_000,
            ;
        }
        let sumsq: i128 = (fx as i128) * (fx as i128) + (fy as i128) * (fy as i128) + (fz as i128)
            * (fz as i128);
        proof {
            assert(sumsq >= 0);
        }
        let mag_u = crate::fixed::isqrt(sumsq as u128);
        proof {
            assert(sumsq as u128 as int == sumsq as int);
            assert(mag_u as int <= 2_000_000_000_000) by (nonlinear_arith)
                requires
                    0 <= mag_u as int,
                    (mag_u as int) * (mag_u as int) <= 3_000_000_000_000_000_000_000_000,
            ;
        }
        let mag = mag_u as i64;
        proof {
            assert(mag as int == next_magnitude(old(self)@, x as int, y as int, z as int));
        }
        let error = target - mag;
        proof {
            lemma_fmul_bound(error as int, dt as int, ERROR_CAP as int, DT_MAX as int);
        }
        let di = mul_div_trunc(error, dt, SCALE);
        let integral = clamp_i64(self.integral + di, -INTEGRAL_CAP, INTEGRAL_CAP);
        let diff = error - self.last_error;
        proof {
            lemma_sdiv_abs((diff as int) * s, dt as int);
            lemma_div_nonincreasing(absi((diff as int) * s), dt as int);
            crate::fixed::lemma_abs_mul(diff as int, s);
        }
        let der = mul_div_trunc(diff, SCALE, dt);
        proof {
            lemma_fmul_bound(KP as int, error as int, KP as int, ERROR_CAP as int);
            lemma_fmul_bound(KI as int, integral as int, KI as int, INTEGRAL_CAP as int);
            lemma_fmul_bound(KD as int, der as int, KD as int, 6_000_000_000_000_000_000);
        }
        self.p_term = mul_div_trunc(KP, error, SCALE);
        self.i_term = mul_div_trunc(KI, integral, SCALE);
        self.d_term = mul_div_trunc(KD, der, SCALE);
        self.integral = integral;
        self.last_error = error;
        let output = self.p_term + self.i_term + self.d_term;
        if mag > ACTIVITY_GATE {
            let absout = if output >= 0 {
                output
            } else {
                -output
            };
            let harmony = if absout >= target {
                proof {
                    lemma_mul_inequality(target as int, absout as int, s);
                    lemma_div_is_ordered((target as int) * s, (absout as int) * s, target as int);
                    lemma_div_multiples_vanish(s, target as int);
                    lemma_mul_nonnegative(absout as int, s);
                    lemma_sdiv_abs((absout as int) * s, target as int);
                    assert(harmony_of(output as int, target as int) == 0);
                }
                0
            } else {
                proof {
                    lemma_mul_inequality(absout as int, target as int, s);
                    lemma_div_is_ordered((absout as int) * s, (target as int) * s, target as int);
                    lemma_div_multiples_vanish(s, target as int);
                    lemma_mul_nonnegative(absout as int, s);
                    lemma_div_pos_is_pos((absout as int) * s, target as int);
                    lemma_sdiv_abs((absout as int) * s, target as int);
                }
                SCALE - mul_div_trunc(absout, SCALE, target)
            };
            proof {
                assert(harmony as int == next_harmony(old(self)@, x as int, y as int, z as int, dt as int, target as int));
            }
            if harmony > PERFECT_HARMONY {
                self.stability_timer = self.stability_timer + dt;
                if self.stability_timer > STABILITY_WINDOW {
                    if self.combo_count < COMBO_CAP {
                        self.combo_count = self.combo_count + 1;
                    }
                    self.stability_timer = 0;
                }
                proof {
                    lemma_fmul_bound(dt as int, MASTERY_GAIN_RATE as int, DT_MAX as int, MASTERY_GAIN_RATE as int);
                    lemma_fmul_nonneg(dt as int, MASTERY_GAIN_RATE as int);
                }
                let gain = mul_div_trunc(dt, MASTERY_GAIN_RATE, SCALE);
                let grown_mastery = self.mastery + gain;
                self.mastery = if grown_mastery > SCALE {
                    SCALE
                } else {
                    grown_mastery
                };
            } else {
                self.stability_timer = 0;
                if harmony < POOR_HARMONY {
                    self.combo_count = 0;
                }
                proof {
                    lemma_fmul_bound(dt as int, MASTERY_DRIFT_RATE as int, DT_MAX as int, MASTERY_DRIFT_RATE as int);
                    lemma_fmul_nonneg(dt as int, MASTERY_DRIFT_RATE as int);
                }
                let drift = mul_div_trunc(dt, MASTERY_DRIFT_RATE, SCALE);
                let sunk = self.mastery - drift;
                self.mastery = if sunk < 0 {
                    0
                } else {
                    sunk
                };
            }
            proof {
                lemma_fmul_bound(self.mastery as int, MASTERY_PRESSURE_BONUS as int, SCALE as int, MASTERY_PRESSURE_BONUS as int);
                lemma_fmul_nonneg(self.mastery as int, MASTERY_PRESSURE_BONUS as int);
            }
            let bonus = mul_div_trunc(self.mastery, MASTERY_PRESSURE_BONUS, SCALE);
            proof {
                lemma_fmul_bound(harmony as int, s + bonus as int, SCALE as int, 2_500_000);
                lemma_fmul_nonneg(harmony as int, s + bonus as int);
            }
            let pressure = mul_div_trunc(harmony, SCALE + bonus, SCALE);
            proof {
                lemma_fmul_bound(pressure as int, SHAPING_SPEED as int, 2_500_000, SHAPING_SPEED as int);
                lemma_fmul_nonneg(pressure as int, SHAPING_SPEED as int);
            }
            let speed = mul_div_trunc(pressure, SHAPING_SPEED, SCALE);
            proof {
                lemma_fmul_bound(speed as int, dt as int, 125_000, DT_MAX as int);
                lemma_fmul_nonneg(speed as int, dt as int);
            }
            let dec = mul_div_trunc(speed, dt, SCALE);
            let lowered = self.shaping_progress - dec;
            self.shaping_progress = if lowered < 0 {
                0
            } else {
                lowered
            };
        } else {
            self.combo_count = 0;
            let sunk = self.mastery - dt;
            self.mastery = if sunk < 0 {
                0
            } else {
                sunk
            };
            proof {
                lemma_fmul_bound(dt as int, IDLE_REGRESS_RATE as int, DT_MAX as int, IDLE_REGRESS_RATE as int);
                lemma_fmul_nonneg(dt as int, IDLE_REGRESS_RATE as int);
            }
            let inc = mul_div_trunc(dt, IDLE_REGRESS_RATE, SCALE);
            let raised = self.shaping_progress + inc;
            self.shaping_progress = if raised > SCALE {
                SCALE
            } else {
                raised
            };
        }
        match self.game_phase {
            GamePhase::Raw => {
                proof {
                    lemma_fmul_bound(dt as int, BATTER_FILL_RATE as int, DT_MAX as int, BATTER_FILL_RATE as int);
                    lemma_fmul_nonneg(dt as int, BATTER_FILL_RATE as int);
                }
                let fill = mul_div_trunc(dt, BATTER_FILL_RATE, SCALE);
                let filled = self.batter_level + fill;
                self.batter_level = if filled > SCALE {
                    SCALE
                } else {
                    filled
                };
                if self.batter_level >= SCALE {
                    self.game_phase = GamePhase::Cooking;
                }
            },
            GamePhase::Cooking => {
                if self.shaping_progress < TURN_THRESHOLD {
                    self.game_phase = GamePhase::Turned;
                }
            },
            GamePhase::Turned => {
                if self.shaping_progress <= 0 {
                    self.game_phase = GamePhase::Finished;
                }
            },
            GamePhase::Finished => {},
        }
        proof {
            assert(self@ == engine_next(old(self)@, x as int, y as int, z as int, dt as int, target as int));
        }
        mag
    }
}

} // verus!
