//! Fixed-point scalar arithmetic.
//!
//! Every quantity of the simulation is an `i64` counted in millionths:
//! `SCALE` stands for the real value 1.0. Products and quotients truncate
//! toward zero, exactly as Rust's `/` does on signed integers, and the spec
//! functions here (`fmul`, `fdiv`, `sdiv`) say so over `int`.

use vstd::prelude::*;
use vstd::arithmetic::div_mod::lemma_div_is_ordered;
use vstd::arithmetic::div_mod::lemma_div_multiples_vanish;
use vstd::arithmetic::div_mod::lemma_div_pos_is_pos;
use vstd::arithmetic::mul::lemma_mul_inequality;
use vstd::arithmetic::mul::lemma_mul_nonnegative;
use vstd::arithmetic::mul::lemma_mul_upper_bound;

verus! {

/// One whole unit of the fixed-point scale (the real value 1.0).
pub const SCALE: i64 = 1_000_000;

/// Magnitude of an integer.
pub open spec fn absi(a: int) -> int {
    if a >= 0 {
        a
    } else {
        -a
    }
}

/// Division truncating toward zero, for a positive divisor: what Rust's `/`
/// computes on signed integers, written over Verus's euclidean `/`.
pub open spec fn sdiv(a: int, b: int) -> int {
    if a >= 0 {
        a / b
    } else {
        -((-a) / b)
    }
}

/// Product of two fixed-point values, truncated toward zero.
pub open spec fn fmul(a: int, b: int) -> int {
    sdiv(a * b, SCALE as int)
}

/// Quotient of two fixed-point values, truncated toward zero.
pub open spec fn fdiv(a: int, b: int) -> int {
    sdiv(a * (SCALE as int), b)
}

/// The smaller of two integers.
pub open spec fn mini(a: int, b: int) -> int {
    if a < b {
        a
    } else {
        b
    }
}

/// The larger of two integers.
pub open spec fn maxi(a: int, b: int) -> int {
    if a > b {
        a
    } else {
        b
    }
}

/// `v` forced into `[lo, hi]`.
pub open spec fn clampi(v: int, lo: int, hi: int) -> int {
    if v < lo {
        lo
    } else if v > hi {
        hi
    } else {
        v
    }
}

/// The magnitude of a product is the product of the magnitudes.
pub proof fn lemma_abs_mul(a: int, b: int)
    ensures
        absi(a * b) == absi(a) * absi(b),
{
    if a >= 0 && b >= 0 {
        lemma_mul_nonnegative(a, b);
    } else if a < 0 && b < 0 {
        assert(a * b == (-a) * (-b)) by (nonlinear_arith);
        lemma_mul_nonnegative(-a, -b);
    } else if a >= 0 {
        assert(a * (-b) == -(a * b)) by (nonlinear_arith);
        lemma_mul_nonnegative(a, -b);
    } else {
        assert((-a) * b == -(a * b)) by (nonlinear_arith);
        lemma_mul_nonnegative(-a, b);
    }
}

/// Truncating division has the magnitude of the euclidean quotient of the
/// magnitudes, and keeps the sign of the dividend.
pub proof fn lemma_sdiv_abs(a: int, d: int)
    requires
        d >= 1,
    ensures
        absi(sdiv(a, d)) == absi(a) / d,
        a >= 0 ==> sdiv(a, d) == absi(a) / d,
        a < 0 ==> sdiv(a, d) == -(absi(a) / d),
{
    if a >= 0 {
        lemma_div_pos_is_pos(a, d);
    } else {
        lemma_div_pos_is_pos(-a, d);
    }
}

/// A bound on both factors bounds a truncated fixed-point product.
pub proof fn lemma_fmul_bound(a: int, b: int, ba: int, bb: int)
    requires
        absi(a) <= ba,
        absi(b) <= bb,
    ensures
        absi(fmul(a, b)) <= ba * bb / (SCALE as int),
{
    lemma_abs_mul(a, b);
    assert(absi(a) * absi(b) <= ba * bb) by {
        lemma_mul_upper_bound(absi(a), ba, absi(b), bb);
    }
    lemma_sdiv_abs(a * b, SCALE as int);
    lemma_div_is_ordered(absi(a * b), ba * bb, SCALE as int);
}

/// Scaling by a factor in `[0, 1]` keeps a value between zero and itself.
pub proof fn lemma_fmul_scale_between(k: int, d: int)
    requires
        0 <= k <= SCALE as int,
    ensures
        d >= 0 ==> 0 <= fmul(k, d) <= d,
        d < 0 ==> d <= fmul(k, d) <= 0,
{
    let s = SCALE as int;
    if d >= 0 {
        lemma_mul_nonnegative(k, d);
        lemma_div_pos_is_pos(k * d, s);
        lemma_mul_inequality(k, s, d);
        lemma_div_is_ordered(k * d, s * d, s);
        lemma_div_multiples_vanish(d, s);
        assert(s * d / s == d);
    } else {
        lemma_mul_nonnegative(k, -d);
        lemma_div_pos_is_pos(k * (-d), s);
        lemma_mul_inequality(k, s, -d);
        lemma_div_is_ordered(k * (-d), s * (-d), s);
        lemma_div_multiples_vanish(-d, s);
        assert(k * d == -(k * (-d))) by (nonlinear_arith);
    }
}

/// Fixed-point products do not depend on the order of the factors.
pub proof fn lemma_fmul_comm(a: int, b: int)
    ensures
        fmul(a, b) == fmul(b, a),
{
    assert(a * b == b * a);
}

/// A product of nonnegative factors is nonnegative.
pub proof fn lemma_fmul_nonneg(a: int, b: int)
    requires
        a >= 0,
        b >= 0,
    ensures
        fmul(a, b) >= 0,
{
    lemma_mul_nonnegative(a, b);
    lemma_div_pos_is_pos(a * b, SCALE as int);
}

/// A zero factor gives a zero product.
pub proof fn lemma_fmul_zero(a: int)
    ensures
        fmul(0, a) == 0,
        fmul(a, 0) == 0,
{
    let s = SCALE as int;
    assert(0 as int / s == 0) by {
        lemma_div_pos_is_pos(0, s);
        lemma_div_is_ordered(0, 0, s);
    }
}

/// Truncating `a * b / d` for a positive divisor, carried out in 128 bits so
/// that no intermediate product can overflow.
pub fn mul_div_trunc(a: i64, b: i64, d: i64) -> (r: i64)
    requires
        d >= 1,
        -0x7fff_ffff_ffff_ffff <= sdiv(a * b, d as int) <= 0x7fff_ffff_ffff_ffff,
    ensures
        r as int == sdiv(a * b, d as int),
{
    let neg: bool = (a < 0) != (b < 0);
    let am: u128 = if a >= 0 {
        a as u128
    } else {
        (-(a as i128)) as u128
    };
    let bm: u128 = if b >= 0 {
        b as u128
    } else {
        (-(b as i128)) as u128
    };
    proof {
        assert(am == absi(a as int));
        assert(bm == absi(b as int));
        lemma_abs_mul(a as int, b as int);
        lemma_mul_upper_bound(am as int, 0x8000_0000_0000_0000, bm as int, 0x8000_0000_0000_0000);
    }
    let q: u128 = (am * bm) / (d as u128);
    proof {
        assert(q == absi((a as int) * (b as int)) / (d as int));
        lemma_sdiv_abs((a as int) * (b as int), d as int);
        assert(q <= 0x7fff_ffff_ffff_ffff);
    }
    if neg {
        proof {
            if (a as int) * (b as int) >= 0 {
                assert((a as int) * (b as int) == 0) by (nonlinear_arith)
                    requires
                        (a as int) * (b as int) >= 0,
                        (a < 0 && b >= 0) || (a >= 0 && b < 0),
                ;
            }
        }
        -(q as i64)
    } else {
        proof {
            assert((a as int) * (b as int) >= 0) by (nonlinear_arith)
                requires
                    (a >= 0 && b >= 0) || (a < 0 && b < 0),
            ;
        }
        q as i64
    }
}

/// `v` forced into `[lo, hi]`.
pub fn clamp_i64(v: i64, lo: i64, hi: i64) -> (r: i64)
    requires
        lo <= hi,
    ensures
        r as int == clampi(v as int, lo as int, hi as int),
{
    if v < lo {
        lo
    } else if v > hi {
        hi
    } else {
        v
    }
}

/// `r` is the integer square root of `n`, rounded down.
pub open spec fn is_sqrt_floor(n: int, r: int) -> bool {
    0 <= r && r * r <= n && n < (r + 1) * (r + 1)
}

/// The integer square root of `n`, rounded down.
pub open spec fn sqrt_floor(n: int) -> int {
    choose|r: int| is_sqrt_floor(n, r)
}

/// Every natural number has a rounded-down square root.
pub proof fn lemma_sqrt_floor_exists(n: int)
    requires
        n >= 0,
    ensures
        is_sqrt_floor(n, sqrt_floor(n)),
    decreases n,
{
    if n == 0 {
        assert(is_sqrt_floor(0, 0));
    } else {
        lemma_sqrt_floor_exists(n - 1);
        let r = sqrt_floor(n - 1);
        if n < (r + 1) * (r + 1) {
            assert(is_sqrt_floor(n, r));
        } else {
            assert(n == (r + 1) * (r + 1));
            assert(n < (r + 2) * (r + 2)) by (nonlinear_arith)
                requires
                    n == (r + 1) * (r + 1),
                    r >= 0,
            ;
            assert(is_sqrt_floor(n, r + 1));
        }
    }
}

/// The rounded-down square root is unique.
pub proof fn lemma_sqrt_floor_unique(n: int, r: int)
    requires
        is_sqrt_floor(n, r),
    ensures
        r == sqrt_floor(n),
{
    lemma_mul_nonnegative(r, r);
    lemma_sqrt_floor_exists(n);
    let s = sqrt_floor(n);
    if r < s {
        assert((r + 1) * (r + 1) <= s * s) by (nonlinear_arith)
            requires
                0 <= r,
                r < s,
        ;
    } else if r > s {
        assert((s + 1) * (s + 1) <= r * r) by (nonlinear_arith)
            requires
                0 <= s,
                s < r,
        ;
    }
}

/// Integer square root, rounded down, by bisection.
pub fn isqrt(n: u128) -> (r: u64)
    ensures
        r as int == sqrt_floor(n as int),
        is_sqrt_floor(n as int, r as int),
{
    let mut lo: u128 = 0;
    let mut hi: u128 = 18446744073709551616;
    proof {
        assert((hi as int) * (hi as int) > n as int) by (nonlinear_arith)
            requires
                hi == 18446744073709551616,
                n <= 0xffff_ffff_ffff_ffff_ffff_ffff_ffff_ffff,
        ;
    }
    while hi - lo > 1
        invariant
            lo < hi <= 18446744073709551616,
            (lo as int) * (lo as int) <= n as int,
            (n as int) < (hi as int) * (hi as int),
        decreases hi - lo,
    {
        let mid: u128 = lo + (hi - lo) / 2;
        proof {
            assert(lo < mid < hi);
            assert((mid as int) * (mid as int) < 0x1_0000_0000_0000_0000_0000_0000_0000_0000)
                by (nonlinear_arith)
                requires
                    mid < 18446744073709551616,
            ;
        }
        if mid * mid <= n {
            lo = mid;
        } else {
            hi = mid;
        }
    }
    proof {
        assert(hi - lo == 1);
        assert(is_sqrt_floor(n as int, lo as int));
        lemma_sqrt_floor_unique(n as int, lo as int);
    }
    lo as u64
}

} // verus!
