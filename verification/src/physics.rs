//! The vertex deformer: a stateless spring-damper integrator.
//!
//! `RhythmEngine::step_physics` advances every vertex of a buffer one tick:
//! a spring force pulls it toward its rest position, gravity and device
//! acceleration push it, velocity is integrated, damped by a frame-rate
//! normalized factor, and the position is finally clamped to a tether of
//! fixed radius around the rest position, with a strong velocity loss on
//! contact.

use vstd::prelude::*;
use vstd::arithmetic::div_mod::lemma_div_is_ordered;
use vstd::arithmetic::div_mod::lemma_div_multiples_vanish;
use vstd::arithmetic::div_mod::lemma_div_nonincreasing;
use vstd::arithmetic::div_mod::lemma_mod_division_less_than_divisor;
use vstd::arithmetic::div_mod::lemma_remainder_lower;
use vstd::arithmetic::mul::lemma_mul_inequality;
use vstd::arithmetic::mul::lemma_mul_nonnegative;
use crate::engine::DT_MAX;
use crate::engine::RhythmEngine;
use crate::fixed::SCALE;
use crate::fixed::absi;
use crate::fixed::fdiv;
use crate::fixed::fmul;
use crate::fixed::isqrt;
use crate::fixed::lemma_abs_mul;
use crate::fixed::lemma_fmul_bound;
use crate::fixed::lemma_fmul_comm;
use crate::fixed::lemma_fmul_scale_between;
use crate::fixed::lemma_sdiv_abs;
use crate::fixed::mul_div_trunc;
use crate::fixed::sdiv;
use crate::fixed::sqrt_floor;

verus! {

/// Largest admissible magnitude of a position or force-field coordinate
/// (the real value 1000), a machine limit.
pub const COORD_MAX: i64 = 1_000_000_000;

/// Largest admissible magnitude of a velocity coordinate (the real value
/// one million), a machine limit.
pub const VEL_MAX: i64 = 1_000_000_000_000;

/// Largest admissible magnitude of a physics parameter (the real value
/// 1000), a machine limit.
pub const PARAM_MAX: i64 = 1_000_000_000;

/// Radius of the tether around a vertex's rest position (the real 0.3).
pub const TETHER_RADIUS: i64 = 300_000;

/// Squared tether radius, at the squared scale (the real value 0.09).
pub const TETHER_RADIUS_SQ: i64 = 90_000_000_000;

/// Rounding slack of the squared distance after a clamp: the clamped vertex
/// sits within `TETHER_RADIUS_SQ + TETHER_SQ_MARGIN` of its rest position.
pub const TETHER_SQ_MARGIN: i64 = 600_000;

/// Velocity kept on tether contact (the real value 0.1).
pub const VELOCITY_LOSS: i64 = 100_000;

/// Frames per second the damping exponent is normalized to.
pub const FPS_NORM: i64 = 60;

/// Largest admissible damping exponent (the real value 100).
pub const POW_EXP_MAX: i64 = 100_000_000;

/// A three-component vector of fixed-point coordinates.
#[derive(Clone, Copy, PartialEq, Eq, Structural, Debug)]
pub struct Vec3 {
    pub x: i64,
    pub y: i64,
    pub z: i64,
}

/// One vertex of the deformed mesh: its moving position and velocity, and
/// the fixed rest position that anchors its spring.
#[derive(Clone, Copy, PartialEq, Eq, Structural, Debug)]
pub struct VertexState {
    pub position: Vec3,
    pub velocity: Vec3,
    pub original_pos: Vec3,
}

/// Spring-damper configuration supplied per call.
#[derive(Clone, Copy, PartialEq, Eq, Structural, Debug)]
pub struct PhysicsParams {
    pub stiffness: i64,
    pub damping: i64,
    pub mass: i64,
    pub gravity_influence: i64,
}

/// The mathematical value of a `Vec3`.
pub ghost struct V3Model {
    pub x: int,
    pub y: int,
    pub z: int,
}

/// The mathematical state of a `VertexState`.
pub ghost struct VertexModel {
    pub position: V3Model,
    pub velocity: V3Model,
    pub original_pos: V3Model,
}

/// The mathematical value of a `PhysicsParams`.
pub ghost struct ParamsModel {
    pub stiffness: int,
    pub damping: int,
    pub mass: int,
    pub gravity_influence: int,
}

impl View for Vec3 {
    type V = V3Model;

    open spec fn view(&self) -> V3Model {
        V3Model { x: self.x as int, y: self.y as int, z: self.z as int }
    }
}

impl View for VertexState {
    type V = VertexModel;

    open spec fn view(&self) -> VertexModel {
        VertexModel { position: self.position@, velocity: self.velocity@, original_pos: self.original_pos@ }
    }
}

impl View for PhysicsParams {
    type V = ParamsModel;

    open spec fn view(&self) -> ParamsModel {
        ParamsModel {
            stiffness: self.stiffness as int,
            damping: self.damping as int,
            mass: self.mass as int,
            gravity_influence: self.gravity_influence as int,
        }
    }
}

/// Every coordinate of `v` within `bound`.
pub open spec fn v3_in(v: V3Model, bound: int) -> bool {
    &&& absi(v.x) <= bound
    &&& absi(v.y) <= bound
    &&& absi(v.z) <= bound
}

/// Admissible vertex: positions in coordinate range, velocity in range.
pub open spec fn vertex_in(v: VertexModel) -> bool {
    &&& v3_in(v.position, COORD_MAX as int)
    &&& v3_in(v.original_pos, COORD_MAX as int)
    &&& v3_in(v.velocity, VEL_MAX as int)
}

/// Admissible parameters: bounded stiffness and gravity influence, a
/// strictly positive mass, and damping in `[0, 1)`.
pub open spec fn params_ok(p: ParamsModel) -> bool {
    &&& absi(p.stiffness) <= PARAM_MAX as int
    &&& 1 <= p.mass <= PARAM_MAX as int
    &&& 0 <= p.damping < SCALE as int
    &&& absi(p.gravity_influence) <= PARAM_MAX as int
}

/// `base` raised to the whole power `n`, at fixed-point scale.
pub open spec fn fp_pow_int(base: int, n: nat) -> int
    decreases n,
{
    if n == 0 {
        SCALE as int
    } else {
        fmul(base, fp_pow_int(base, (n - 1) as nat))
    }
}

/// `base` in `[0, 1]` raised to the fixed-point exponent `e`: the whole part
/// of `e` by repeated multiplication, the fractional part by the first-order
/// approximation `1 - frac * (1 - base)`.
pub open spec fn fp_pow(base: int, e: int) -> int {
    let whole = (e / (SCALE as int)) as nat;
    let frac = e % (SCALE as int);
    fmul(fp_pow_int(base, whole), (SCALE as int) - fmul(frac, (SCALE as int) - base))
}

/// The damping factor one physics tick applies to velocity.
pub open spec fn damp_factor(damping: int, dt: int) -> int {
    fp_pow((SCALE as int) - damping, (FPS_NORM as int) * dt)
}

/// The force on one axis: spring toward rest plus external push.
pub open spec fn axis_force(d: int, g: int, a: int, p: ParamsModel) -> int {
    fmul(g, p.gravity_influence) - fmul(a, p.mass) - fmul(d, p.stiffness)
}

/// The velocity of one axis after force integration and damping.
pub open spec fn axis_velocity(v: int, f: int, mass: int, dt: int, d_factor: int) -> int {
    fmul(v + fmul(fdiv(f, mass), dt), d_factor)
}

/// The position of one axis after velocity integration.
pub open spec fn axis_position(pos: int, vel: int, dt: int) -> int {
    pos + fmul(vel, dt)
}

/// Squared distance of a vertex from its rest position.
pub open spec fn dist_sq_from_rest(v: VertexModel) -> int {
    let dx = v.position.x - v.original_pos.x;
    let dy = v.position.y - v.original_pos.y;
    let dz = v.position.z - v.original_pos.z;
    dx * dx + dy * dy + dz * dz
}

/// One physics tick of a single vertex.
pub open spec fn vertex_next(
    v: VertexModel,
    p: ParamsModel,
    g: V3Model,
    a: V3Model,
    dt: int,
    d_factor: int,
) -> VertexModel {
    let fx = axis_force(v.position.x - v.original_pos.x, g.x, a.x, p);
    let fy = axis_force(v.position.y - v.original_pos.y, g.y, a.y, p);
    let fz = axis_force(v.position.z - v.original_pos.z, g.z, a.z, p);
    let vx = axis_velocity(v.velocity.x, fx, p.mass, dt, d_factor);
    let vy = axis_velocity(v.velocity.y, fy, p.mass, dt, d_factor);
    let vz = axis_velocity(v.velocity.z, fz, p.mass, dt, d_factor);
    let px = axis_position(v.position.x, vx, dt);
    let py = axis_position(v.position.y, vy, dt);
    let pz = axis_position(v.position.z, vz, dt);
    let cdx = px - v.original_pos.x;
    let cdy = py - v.original_pos.y;
    let cdz = pz - v.original_pos.z;
    let dsq = cdx * cdx + cdy * cdy + cdz * cdz;
    if dsq > TETHER_RADIUS_SQ as int {
        let dist = sqrt_floor(dsq);
        VertexModel {
            position: V3Model {
                x: v.original_pos.x + sdiv(cdx * (TETHER_RADIUS as int), dist),
                y: v.original_pos.y + sdiv(cdy * (TETHER_RADIUS as int), dist),
                z: v.original_pos.z + sdiv(cdz * (TETHER_RADIUS as int), dist),
            },
            velocity: V3Model {
                x: fmul(vx, VELOCITY_LOSS as int),
                y: fmul(vy, VELOCITY_LOSS as int),
                z: fmul(vz, VELOCITY_LOSS as int),
            },
            original_pos: v.original_pos,
        }
    } else {
        VertexModel {
            position: V3Model { x: px, y: py, z: pz },
            velocity: V3Model { x: vx, y: vy, z: vz },
            original_pos: v.original_pos,
        }
    }
}

/// A base in `[0, 1]` keeps every whole power in `[0, 1]`.
pub proof fn lemma_fp_pow_int_range(base: int, n: nat)
    requires
        0 <= base <= SCALE as int,
    ensures
        0 <= fp_pow_int(base, n) <= SCALE as int,
    decreases n,
{
    if n != 0 {
        lemma_fp_pow_int_range(base, (n - 1) as nat);
        lemma_fmul_scale_between(base, fp_pow_int(base, (n - 1) as nat));
    }
}

/// A base in `[0, 1]` and a nonnegative exponent keep the power in `[0, 1]`.
pub proof fn lemma_fp_pow_range(base: int, e: int)
    requires
        0 <= base <= SCALE as int,
        0 <= e,
    ensures
        0 <= fp_pow(base, e) <= SCALE as int,
{
    let s = SCALE as int;
    let whole = (e / s) as nat;
    let frac = e % s;
    lemma_mod_division_less_than_divisor(e, s);
    lemma_fp_pow_int_range(base, whole);
    lemma_fmul_scale_between(frac, s - base);
    lemma_fmul_scale_between(fp_pow_int(base, whole), s - fmul(frac, s - base));
}

/// `base` in `[0, 1]` raised to the fixed-point exponent `e`, executable.
pub fn compute_fp_pow(base: i64, e: i64) -> (r: i64)
    requires
        0 <= base <= SCALE,
        0 <= e <= POW_EXP_MAX,
    ensures
        r as int == fp_pow(base as int, e as int),
        0 <= r <= SCALE,
{
    proof {
        lemma_fp_pow_range(base as int, e as int);
        lemma_mod_division_less_than_divisor(e as int, SCALE as int);
        lemma_div_is_ordered(e as int, POW_EXP_MAX as int, SCALE as int);
    }
    let eu = e as u64;
    let su = SCALE as u64;
    let whole = eu / su;
    let frac = (eu % su) as i64;
    proof {
        assert(whole as int == (e as int) / (SCALE as int));
        assert(frac as int == (e as int) % (SCALE as int));
    }
    let mut acc: i64 = SCALE;
    let mut i: u64 = 0;
    while i < whole
        invariant
            0 <= base <= SCALE,
            i <= whole,
            whole <= 100,
            0 <= acc <= SCALE,
            acc as int == fp_pow_int(base as int, i as nat),
        decreases whole - i,
    {
        proof {
            lemma_fmul_scale_between(base as int, acc as int);
        }
        acc = mul_div_trunc(base, acc, SCALE);
        i = i + 1;
        proof {
            assert(acc as int == fp_pow_int(base as int, i as nat));
        }
    }
    proof {
        lemma_fmul_scale_between(frac as int, (SCALE - base) as int);
    }
    let ft = SCALE - mul_div_trunc(frac, SCALE - base, SCALE);
    proof {
        lemma_fmul_scale_between(acc as int, ft as int);
    }
    mul_div_trunc(acc, ft, SCALE)
}

/// A clamped axis offset keeps its share of the tether radius: its product
/// with the distance stays below the axis offset times the radius, and its
/// magnitude stays below the radius.
proof fn lemma_clamp_axis(c: int, dist: int)
    requires
        1 <= dist,
        absi(c) <= dist,
    ensures
        absi(sdiv(c * (TETHER_RADIUS as int), dist)) <= TETHER_RADIUS as int,
        sdiv(c * (TETHER_RADIUS as int), dist) * sdiv(c * (TETHER_RADIUS as int), dist) * (dist
            * dist) <= (c * c) * ((TETHER_RADIUS as int) * (TETHER_RADIUS as int)),
{
    let r = TETHER_RADIUS as int;
    let n = sdiv(c * r, dist);
    lemma_abs_mul(c, r);
    lemma_sdiv_abs(c * r, dist);
    lemma_mul_inequality(absi(c), dist, r);
    lemma_div_is_ordered(absi(c) * r, dist * r, dist);
    lemma_div_multiples_vanish(r, dist);
    assert(dist * r == r * dist) by (nonlinear_arith);
    assert(absi(n) <= r);
    lemma_mul_nonnegative(absi(c), r);
    lemma_remainder_lower(absi(c) * r, dist);
    assert(absi(n) * dist <= absi(c) * r);
    assert(n * n * (dist * dist) <= (c * c) * (r * r)) by (nonlinear_arith)
        requires
            0 <= absi(n),
            0 <= dist,
            absi(n) * dist <= absi(c) * r,
            absi(n) == if n >= 0 { n } else { -n },
            absi(c) == if c >= 0 { c } else { -c },
            r >= 0,
    ;
}

/// After a clamp, the squared distance from rest exceeds the squared tether
/// radius by at most the rounding margin.
proof fn lemma_tether_bound(dsq2: int, dsq: int, dist: int)
    by (nonlinear_arith)
    requires
        TETHER_RADIUS as int <= dist,
        dist * dist <= dsq,
        dsq < (dist + 1) * (dist + 1),
        0 <= dsq2,
        dsq2 * (dist * dist) <= dsq * ((TETHER_RADIUS as int) * (TETHER_RADIUS as int)),
    ensures
        dsq2 <= TETHER_RADIUS_SQ as int + TETHER_SQ_MARGIN as int,
{
}

/// One physics tick of a single axis: returns the new position before the
/// tether clamp and the new velocity.
fn axis_step(
    pos: i64,
    vel: i64,
    rest: i64,
    gc: i64,
    ac: i64,
    p: &PhysicsParams,
    dt: i64,
    d_factor: i64,
) -> (r: (i64, i64))
    requires
        params_ok(p@),
        -COORD_MAX <= pos <= COORD_MAX,
        -COORD_MAX <= rest <= COORD_MAX,
        -VEL_MAX <= vel <= VEL_MAX,
        -COORD_MAX <= gc <= COORD_MAX,
        -COORD_MAX <= ac <= COORD_MAX,
        1 <= dt <= DT_MAX,
        0 <= d_factor <= SCALE,
    ensures
        r.1 as int == axis_velocity(vel as int, axis_force(pos - rest, gc as int, ac as int, p@), p@.mass, dt as int, d_factor as int),
        r.0 as int == axis_position(pos as int, r.1 as int, dt as int),
        absi(r.0 as int) <= 4_200_000_000_000_000_000,
        absi(r.1 as int) <= 4_200_000_000_000_000_000,
{
    let d = pos - rest;
    proof {
        lemma_fmul_bound(d as int, p.stiffness as int, 2 * COORD_MAX as int, PARAM_MAX as int);
        lemma_fmul_bound(gc as int, p.gravity_influence as int, COORD_MAX as int, PARAM_MAX as int);
        lemma_fmul_bound(ac as int, p.mass as int, COORD_MAX as int, PARAM_MAX as int);
    }
    let spring = mul_div_trunc(d, p.stiffness, SCALE);
    let grav = mul_div_trunc(gc, p.gravity_influence, SCALE);
    let push = mul_div_trunc(ac, p.mass, SCALE);
    let f = grav - push - spring;
    proof {
        lemma_abs_mul(f as int, SCALE as int);
        lemma_sdiv_abs((f as int) * (SCALE as int), p.mass as int);
        lemma_div_nonincreasing(absi((f as int) * (SCALE as int)), p.mass as int);
    }
    let fdm = mul_div_trunc(f, SCALE, p.mass);
    proof {
        lemma_fmul_bound(fdm as int, dt as int, 4_000_000_000_000_000_000, DT_MAX as int);
    }
    let dv = mul_div_trunc(fdm, dt, SCALE);
    let v0 = vel + dv;
    proof {
        lemma_fmul_scale_between(d_factor as int, v0 as int);
        lemma_fmul_comm(d_factor as int, v0 as int);
    }
    let v1 = mul_div_trunc(v0, d_factor, SCALE);
    proof {
        lemma_fmul_bound(v1 as int, dt as int, 4_100_000_000_000_000_000, DT_MAX as int);
    }
    let dp = mul_div_trunc(v1, dt, SCALE);
    (pos + dp, v1)
}

/// One physics tick of a single vertex, including the tether clamp.
fn step_vertex(
    v: &VertexState,
    p: &PhysicsParams,
    g: &Vec3,
    a: &Vec3,
    dt: i64,
    d_factor: i64,
) -> (nv: VertexState)
    requires
        vertex_in(v@),
        params_ok(p@),
        v3_in(g@, COORD_MAX as int),
        v3_in(a@, COORD_MAX as int),
        1 <= dt <= DT_MAX,
        0 <= d_factor <= SCALE,
    ensures
        nv@ == vertex_next(v@, p@, g@, a@, dt as int, d_factor as int),
        dist_sq_from_rest(nv@) <= TETHER_RADIUS_SQ as int + TETHER_SQ_MARGIN as int,
{
    let (px, vx) = axis_step(v.position.x, v.velocity.x, v.original_pos.x, g.x, a.x, p, dt, d_factor);
    let (py, vy) = axis_step(v.position.y, v.velocity.y, v.original_pos.y, g.y, a.y, p, dt, d_factor);
    let (pz, vz) = axis_step(v.position.z, v.velocity.z, v.original_pos.z, g.z, a.z, p, dt, d_factor);
    let cdx = px - v.original_pos.x;
    let cdy = py - v.original_pos.y;
    let cdz = pz - v.original_pos.z;
    proof {
        assert((cdx as int) * (cdx as int) <= 25_000_000_000_000_000_000_000_000_000_000_000_000
            && (cdx as int) * (cdx as int) >= 0) by (nonlinear_arith)
            requires
                absi(cdx as int) <= 5_000_000_000_000_000_000,
                absi(cdx as int) == if cdx as int >= 0 { cdx as int } else { -(cdx as int) },
        ;
        assert((cdy as int) * (cdy as int) <= 25_000_000_000_000_000_000_000_000_000_000_000_000
            && (cdy as int) * (cdy as int) >= 0) by (nonlinear_arith)
            requires
                absi(cdy as int) <= 5_000_000_000_000_000_000,
                absi(cdy as int) == if cdy as int >= 0 { cdy as int } else { -(cdy as int) },
        ;
        assert((cdz as int) * (cdz as int) <= 25_000_000_000_000_000_000_000_000_000_000_000_000
            && (cdz as int) * (cdz as int) >= 0) by (nonlinear_arith)
            requires
                absi(cdz as int) <= 5_000_000_000_000_000_000,
                absi(cdz as int) == if cdz as int >= 0 { cdz as int } else { -(cdz as int) },
        ;
    }
    let dsq: i128 = (cdx as i128) * (cdx as i128) + (cdy as i128) * (cdy as i128) + (cdz as i128)
        * (cdz as i128);
    if dsq > TETHER_RADIUS_SQ as i128 {
        proof {
            assert(dsq >= 0);
        }
        let dist_u = isqrt(dsq as u128);
        proof {
            assert(dsq as u128 as int == dsq as int);
            assert(dist_u as int <= 9_000_000_000_000_000_000) by (nonlinear_arith)
                requires
                    0 <= dist_u as int,
                    (dist_u as int) * (dist_u as int) <= 75_000_000_000_000_000_000_000_000_000_000_000_000,
            ;
        }
        let dist = dist_u as i64;
        proof {
            assert(dist as int >= TETHER_RADIUS as int) by (nonlinear_arith)
                requires
                    dsq as int > TETHER_RADIUS_SQ as int,
                    (dsq as int) < (dist as int + 1) * (dist as int + 1),
                    TETHER_RADIUS_SQ as int == (TETHER_RADIUS as int) * (TETHER_RADIUS as int),
                    0 <= dist as int,
            ;
            assert(absi(cdx as int) <= dist as int) by (nonlinear_arith)
                requires
                    (cdx as int) * (cdx as int) <= dsq as int,
                    (dsq as int) < (dist as int + 1) * (dist as int + 1),
                    0 <= dist as int,
                    absi(cdx as int) == if cdx as int >= 0 { cdx as int } else { -(cdx as int) },
            ;
            assert(absi(cdy as int) <= dist as int) by (nonlinear_arith)
                requires
                    (cdy as int) * (cdy as int) <= dsq as int,
                    (dsq as int) < (dist as int + 1) * (dist as int + 1),
                    0 <= dist as int,
                    absi(cdy as int) == if cdy as int >= 0 { cdy as int } else { -(cdy as int) },
            ;
            assert(absi(cdz as int) <= dist as int) by (nonlinear_arith)
                requires
                    (cdz as int) * (cdz as int) <= dsq as int,
                    (dsq as int) < (dist as int + 1) * (dist as int + 1),
                    0 <= dist as int,
                    absi(cdz as int) == if cdz as int >= 0 { cdz as int } else { -(cdz as int) },
            ;
            lemma_clamp_axis(cdx as int, dist as int);
            lemma_clamp_axis(cdy as int, dist as int);
            lemma_clamp_axis(cdz as int, dist as int);
            lemma_sdiv_abs((cdx as int) * (TETHER_RADIUS as int), dist as int);
            lemma_sdiv_abs((cdy as int) * (TETHER_RADIUS as int), dist as int);
            lemma_sdiv_abs((cdz as int) * (TETHER_RADIUS as int), dist as int);
            lemma_fmul_bound(vx as int, VELOCITY_LOSS as int, 4_200_000_000_000_000_000, VELOCITY_LOSS as int);
            lemma_fmul_bound(vy as int, VELOCITY_LOSS as int, 4_200_000_000_000_000_000, VELOCITY_LOSS as int);
            lemma_fmul_bound(vz as int, VELOCITY_LOSS as int, 4_200_000_000_000_000_000, VELOCITY_LOSS as int);
        }
        let nx = v.original_pos.x + mul_div_trunc(cdx, TETHER_RADIUS, dist);
        let ny = v.original_pos.y + mul_div_trunc(cdy, TETHER_RADIUS, dist);
        let nz = v.original_pos.z + mul_div_trunc(cdz, TETHER_RADIUS, dist);
        let nv = VertexState {
            position: Vec3 { x: nx, y: ny, z: nz },
            velocity: Vec3 {
                x: mul_div_trunc(vx, VELOCITY_LOSS, SCALE),
                y: mul_div_trunc(vy, VELOCITY_LOSS, SCALE),
                z: mul_div_trunc(vz, VELOCITY_LOSS, SCALE),
            },
            original_pos: v.original_pos,
        };
        proof {
            let r = TETHER_RADIUS as int;
            let di = dist as int;
            let n1 = sdiv((cdx as int) * r, di);
            let n2 = sdiv((cdy as int) * r, di);
            let n3 = sdiv((cdz as int) * r, di);
            let dsq2 = dist_sq_from_rest(nv@);
            assert(dsq2 == n1 * n1 + n2 * n2 + n3 * n3);
            assert(dsq2 * (di * di) <= (dsq as int) * (r * r)) by (nonlinear_arith)
                requires
                    dsq2 == n1 * n1 + n2 * n2 + n3 * n3,
                    n1 * n1 * (di * di) <= ((cdx as int) * (cdx as int)) * (r * r),
                    n2 * n2 * (di * di) <= ((cdy as int) * (cdy as int)) * (r * r),
                    n3 * n3 * (di * di) <= ((cdz as int) * (cdz as int)) * (r * r),
                    dsq as int == (cdx as int) * (cdx as int) + (cdy as int) * (cdy as int) + (
                    cdz as int) * (cdz as int),
            ;
            assert(dsq2 >= 0) by (nonlinear_arith)
                requires
                    dsq2 == n1 * n1 + n2 * n2 + n3 * n3,
            ;
            lemma_tether_bound(dsq2, dsq as int, di);
        }
        nv
    } else {
        VertexState {
            position: Vec3 { x: px, y: py, z: pz },
            velocity: Vec3 { x: vx, y: vy, z: vz },
            original_pos: v.original_pos,
        }
    }
}

impl RhythmEngine {
    /// One physics tick over the whole vertex buffer, in place: each vertex
    /// is advanced by `vertex_next`, and every vertex ends within the tether
    /// radius (plus rounding margin) of its rest position, whatever the
    /// forces.
    pub fn step_physics(
        &self,
        states: &mut Vec<VertexState>,
        params: &PhysicsParams,
        gravity: &Vec3,
        accel: &Vec3,
        dt: i64,
    )
        requires
            params_ok(params@),
            v3_in(gravity@, COORD_MAX as int),
            v3_in(accel@, COORD_MAX as int),
            1 <= dt <= DT_MAX,
            forall|i: int|
                0 <= i < old(states)@.len() ==> vertex_in(#[trigger] old(states)@[i]@),
        ensures
            final(states)@.len() == old(states)@.len(),
            forall|i: int|
                0 <= i < old(states)@.len() ==> #[trigger] final(states)@[i]@ == vertex_next(
                    old(states)@[i]@,
                    params@,
                    gravity@,
                    accel@,
                    dt as int,
                    damp_factor(params@.damping as int, dt as int),
                ),
            forall|i: int|
                0 <= i < old(states)@.len() ==> dist_sq_from_rest(#[trigger] final(states)@[i]@)
                    <= TETHER_RADIUS_SQ as int + TETHER_SQ_MARGIN as int,
    {
        let d_factor = compute_fp_pow(SCALE - params.damping, FPS_NORM * dt);
        let n = states.len();
        let mut i: usize = 0;
        while i < n
            invariant
                params_ok(params@),
                v3_in(gravity@, COORD_MAX as int),
                v3_in(accel@, COORD_MAX as int),
                1 <= dt <= DT_MAX,
                0 <= d_factor <= SCALE,
                d_factor as int == damp_factor(params@.damping as int, dt as int),
                n == states@.len(),
                n == old(states)@.len(),
                i <= n,
                forall|j: int| 0 <= j < old(states)@.len() ==> vertex_in(#[trigger] old(states)@[j]@),
                forall|j: int|
                    i <= j < n ==> #[trigger] states@[j] == old(states)@[j],
                forall|j: int|
                    0 <= j < i ==> #[trigger] states@[j]@ == vertex_next(
                        old(states)@[j]@,
                        params@,
                        gravity@,
                        accel@,
                        dt as int,
                        d_factor as int,
                    ),
                forall|j: int|
                    0 <= j < i ==> dist_sq_from_rest(#[trigger] states@[j]@) <= TETHER_RADIUS_SQ
                        as int + TETHER_SQ_MARGIN as int,
            decreases n - i,
        {
            let vcur = states[i];
            let nv = step_vertex(&vcur, params, gravity, accel, dt, d_factor);
            states.set(i, nv);
            i = i + 1;
        }
    }
}

} // verus!
