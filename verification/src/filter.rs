//! Per-axis noise filtering.
//!
//! `KalmanFilter` is a single-variable recursive estimator with fixed noise
//! parameters. Each update blends the new measurement into the estimate by a
//! gain derived from the running error covariance, so the estimate converges
//! toward the true signal while damping high-frequency noise.

use vstd::prelude::*;
use vstd::arithmetic::div_mod::lemma_div_is_ordered;
use vstd::arithmetic::div_mod::lemma_div_is_ordered_by_denominator;
use vstd::arithmetic::div_mod::lemma_div_multiples_vanish;
use vstd::arithmetic::div_mod::lemma_div_pos_is_pos;
use vstd::arithmetic::div_mod::lemma_fundamental_div_mod;
use vstd::arithmetic::div_mod::lemma_remainder;
use vstd::arithmetic::mul::lemma_mul_inequality;
use vstd::arithmetic::mul::lemma_mul_nonnegative;
use crate::fixed::SCALE;
use crate::fixed::absi;
use crate::fixed::fmul;
use crate::fixed::lemma_fmul_bound;
use crate::fixed::lemma_fmul_scale_between;
use crate::fixed::lemma_sdiv_abs;
use crate::fixed::mul_div_trunc;
use crate::fixed::sdiv;

verus! {

/// Process noise of the estimator (the real value 0.01).
pub const Q_NOISE: i64 = 10_000;

/// Measurement noise of the estimator (the real value 0.1).
pub const R_NOISE: i64 = 100_000;

/// Initial error covariance (the real value 1.0).
pub const P_INIT: i64 = 1_000_000;

/// Largest admissible magnitude of a raw axis sample (the real value one
/// million), a machine limit that keeps every intermediate product in range.
pub const IN_MAX: i64 = 1_000_000_000_000;

/// A single-variable recursive noise estimator (one per spatial axis).
pub struct KalmanFilter {
    /// Process noise; always `Q_NOISE`.
    pub q: i64,
    /// Measurement noise; always `R_NOISE`.
    pub r: i64,
    /// Current estimate of the signal.
    pub x: i64,
    /// Error covariance of the estimate.
    pub p: i64,
    /// Gain applied by the most recent update.
    pub k: i64,
}

/// The mathematical state of a `KalmanFilter`.
pub ghost struct FilterModel {
    pub x: int,
    pub p: int,
    pub k: int,
}

impl View for KalmanFilter {
    type V = FilterModel;

    open spec fn view(&self) -> FilterModel {
        FilterModel { x: self.x as int, p: self.p as int, k: self.k as int }
    }
}

/// Invariant of a filter: the covariance stays nonnegative and below one
/// unit, the gain stays in `[0, 1]`, and the estimate stays in sample range.
pub open spec fn filter_wf(f: FilterModel) -> bool {
    &&& 0 <= f.p <= SCALE as int
    &&& 0 <= f.k <= SCALE as int
    &&& absi(f.x) <= IN_MAX as int
}

/// The gain the next update derives from covariance `p`.
pub open spec fn next_gain(p: int) -> int {
    sdiv((p + Q_NOISE as int) * (SCALE as int), p + Q_NOISE as int + R_NOISE as int)
}

/// One update of the estimator on measurement `m`: the covariance grows by
/// the process noise, the gain is its share against the measurement noise,
/// the estimate moves toward `m` by that gain, and the covariance shrinks.
pub open spec fn filter_next(f: FilterModel, m: int) -> FilterModel {
    let p1 = f.p + Q_NOISE as int;
    let k = next_gain(f.p);
    FilterModel { x: f.x + fmul(k, m - f.x), p: fmul(p1, SCALE as int - k), k: k }
}

/// A nonnegative covariance yields a gain in `[0, 1]`.
pub proof fn lemma_next_gain_range(p: int)
    requires
        p >= 0,
    ensures
        0 <= next_gain(p) <= SCALE as int,
{
    let s = SCALE as int;
    let p1 = p + Q_NOISE as int;
    let d = p1 + R_NOISE as int;
    lemma_mul_nonnegative(p1, s);
    lemma_div_pos_is_pos(p1 * s, d);
    lemma_mul_inequality(p1, d, s);
    lemma_div_is_ordered(p1 * s, d * s, d);
    lemma_div_multiples_vanish(s, d);
    assert(d * s / d == s);
}

/// The updated covariance stays in `[0, 1]`: writing the division of the
/// gain out by its remainder shows the new covariance is at most the
/// measurement noise plus a rounding unit.
pub proof fn lemma_filter_next_wf(f: FilterModel, m: int)
    requires
        filter_wf(f),
        absi(m) <= IN_MAX as int,
    ensures
        filter_wf(filter_next(f, m)),
{
    let s = SCALE as int;
    let p1 = f.p + Q_NOISE as int;
    let d = p1 + R_NOISE as int;
    let k = next_gain(f.p);
    lemma_next_gain_range(f.p);
    // The estimate lands between its old value and the measurement.
    lemma_fmul_scale_between(k, m - f.x);
    // p1 * (s - k) == k * R_NOISE + rem, where rem is the division remainder.
    lemma_div_pos_is_pos(p1 * s, d);
    lemma_remainder(p1 * s, d);
    let rem = p1 * s - (p1 * s / d) * d;
    assert(p1 * (s - k) == k * (R_NOISE as int) + rem) by (nonlinear_arith)
        requires
            k == (p1 * s) / d,
            rem == p1 * s - (p1 * s / d) * d,
            d == p1 + R_NOISE as int,
    ;
    lemma_mul_inequality(k, s, R_NOISE as int);
    assert(k * (R_NOISE as int) + rem <= s * (R_NOISE as int) + d);
    lemma_mul_nonnegative(p1, s - k);
    lemma_div_pos_is_pos(p1 * (s - k), s);
    lemma_div_is_ordered(p1 * (s - k), s * (R_NOISE as int) + d, s);
    assert(filter_next(f, m).p == p1 * (s - k) / s) by {
        lemma_sdiv_abs(p1 * (s - k), s);
    }
    assert((s * (R_NOISE as int) + d) / s <= s);
}

/// Each update moves the estimate no farther from the measurement, the
/// one-step form of the steady-state convergence of the filter: under a
/// constant input the estimate approaches it and never overshoots.
pub proof fn lemma_filter_moves_toward_measurement(f: FilterModel, m: int)
    requires
        f.p >= 0,
    ensures
        absi(filter_next(f, m).x - m) <= absi(f.x - m),
        (filter_next(f, m).x - m) * (f.x - m) >= 0,
{
    let k = next_gain(f.p);
    lemma_next_gain_range(f.p);
    lemma_fmul_scale_between(k, m - f.x);
    let adj = fmul(k, m - f.x);
    let x1 = filter_next(f, m).x;
    assert(x1 == f.x + adj);
    if f.x <= m {
        lemma_mul_nonnegative(m - x1, m - f.x);
        assert((x1 - m) * (f.x - m) == (m - x1) * (m - f.x)) by (nonlinear_arith);
    } else {
        lemma_mul_nonnegative(x1 - m, f.x - m);
    }
}

impl KalmanFilter {
    /// Invariant tying the noise parameters to their constants.
    pub open spec fn wf(&self) -> bool {
        &&& self.q == Q_NOISE
        &&& self.r == R_NOISE
        &&& filter_wf(self@)
    }

    /// A fresh filter around initial estimate `init_x`.
    pub fn new(init_x: i64) -> (f: KalmanFilter)
        requires
            -IN_MAX <= init_x <= IN_MAX,
        ensures
            f.wf(),
            f@ == (FilterModel { x: init_x as int, p: P_INIT as int, k: 0 }),
    {
        KalmanFilter { q: Q_NOISE, r: R_NOISE, x: init_x, p: P_INIT, k: 0 }
    }

    /// One estimator step on measurement `m`; returns the updated estimate.
    pub fn update(&mut self, m: i64) -> (est: i64)
        requires
            old(self).wf(),
            -IN_MAX <= m <= IN_MAX,
        ensures
            final(self).wf(),
            final(self)@ == filter_next(old(self)@, m as int),
            est == final(self).x,
    {
        proof {
            lemma_next_gain_range(self.p as int);
            lemma_filter_next_wf(self@, m as int);
        }
        let p1 = self.p + self.q;
        let k = mul_div_trunc(p1, SCALE, p1 + self.r);
        let diff = m - self.x;
        proof {
            lemma_fmul_bound(k as int, diff as int, SCALE as int, 2 * IN_MAX as int);
            lemma_fmul_scale_between(k as int, diff as int);
            lemma_fmul_bound(p1 as int, SCALE as int - k as int, (SCALE + Q_NOISE) as int, SCALE as int);
        }
        let adj = mul_div_trunc(k, diff, SCALE);
        self.x = self.x + adj;
        let p2 = mul_div_trunc(p1, SCALE - k, SCALE);
        self.p = p2;
        self.k = k;
        self.x
    }
}

} // verus!
