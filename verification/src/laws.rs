//! The library's stated laws, proved once and for all over the spec-level
//! transition functions that the executable contracts are pinned to.

use vstd::prelude::*;
use vstd::arithmetic::div_mod::{
    lemma_div_is_ordered, lemma_div_multiples_vanish, lemma_div_multiples_vanish_fancy,
};
use vstd::arithmetic::mul::{lemma_mul_is_distributive_add, lemma_mul_is_distributive_sub};
use crate::fixmath::{
    abs_i, div_trunc, lemma_div_trunc_bound, lemma_div_trunc_exact, lemma_isqrt_spec,
    lemma_isqrt_unique, sat_spec, SCALE,
};
use crate::vec2::{dist_spec, dist_sq_spec, Vec2};
use crate::body::{
    spec_bounce, spec_integrated_pos, spec_integrated_vel, spec_update, Body, Env, DT_LIMIT,
};
use crate::collide::{spec_collide, spec_colliding, spec_normal, spec_vel_along_normal,
    BABY_DELAY};
use crate::world::{spec_integrate_all, spec_scan_from, spec_step};

verus! {

/// The scaled collision normal always lies within `[-SCALE, SCALE]` on each
/// axis: no component of the line of impact exceeds the unit length.
pub proof fn lemma_normal_bounds(b1: Body, b2: Body)
    ensures
        ({
            let (nx, ny) = spec_normal(b1, b2);
            -1000 <= nx <= 1000 && -1000 <= ny <= 1000
        }),
{
    let d = dist_spec(b1.pos, b2.pos);
    if d == 0 {
    } else {
        let sq = dist_sq_spec(b1.pos, b2.pos);
        let x1 = b1.pos.x as int;
        let y1 = b1.pos.y as int;
        let x2 = b2.pos.x as int;
        let y2 = b2.pos.y as int;
        let dx = x2 - x1;
        let dy = y2 - y1;
        assert(dx * dx <= sq && dy * dy <= sq && sq >= 0) by (nonlinear_arith)
            requires
                sq == (x1 - x2) * (x1 - x2) + (y1 - y2) * (y1 - y2),
                dx == x2 - x1,
                dy == y2 - y1,
        ;
        lemma_isqrt_spec(sq as nat);
        assert(abs_i(dx) <= d) by (nonlinear_arith)
            requires
                dx * dx < (d + 1) * (d + 1),
                d >= 1,
        ;
        assert(abs_i(dy) <= d) by (nonlinear_arith)
            requires
                dy * dy < (d + 1) * (d + 1),
                d >= 1,
        ;
        lemma_div_trunc_bound(dx * SCALE, d, SCALE as int);
        lemma_div_trunc_bound(dy * SCALE, d, SCALE as int);
    }
}

/// Energy non-creation at boundaries: a body that falls onto the lower
/// boundary under a restitution below one leaves the bounce with a strictly
/// smaller vertical speed than it arrived with.
pub proof fn lemma_boundary_energy_dissipates(b: Body, dt: int, env: Env)
    requires
        b.wf(),
        env.wf(),
        0 <= dt <= DT_LIMIT as int,
        !b.is_held,
        b.restitution < SCALE,
        b.max_speed.y >= 0,
        2 * b.radius <= env.height,
        spec_integrated_pos(b, dt, env).1 + b.radius > env.height,
        spec_integrated_vel(b, dt, env).1 > 0,
    ensures
        abs_i(spec_update(b, dt, env).vel.y as int) < spec_integrated_vel(b, dt, env).1,
{
    let vyi = spec_integrated_vel(b, dt, env).1;
    let ret = b.restitution as int;
    let x = vyi * ret;
    assert(0 <= x <= vyi * 1000 - vyi) by (nonlinear_arith)
        requires
            0 <= ret < 1000,
            vyi >= 1,
            x == vyi * ret,
    ;
    // spec_bounce(vyi, ret) == -(x / 1000), and x / 1000 <= vyi - 1.
    lemma_div_is_ordered(x, vyi * 1000 - 1, 1000);
    lemma_div_multiples_vanish_fancy(vyi - 1, 999, 1000);
    assert(1000 * (vyi - 1) + 999 == vyi * 1000 - 1) by (nonlinear_arith);
    assert(x / 1000 <= vyi - 1);
    assert(-vyi * ret == -x) by (nonlinear_arith)
        requires
            x == vyi * ret,
    ;
    assert(spec_bounce(vyi, ret) == -(x / 1000));
    // The bounce result is non-positive, so neither the top-boundary check
    // (excluded by the height hypothesis) nor the upper speed clamp alters it.
    assert(spec_update(b, dt, env).vel.y == spec_bounce(vyi, ret));
}

/// Auxiliary: one velocity component's contribution to the momentum budget.
/// Applying the equal-and-opposite impulse changes the total momentum by
/// less than one unit of each divisor, the truncation slack.
proof fn lemma_momentum_component(v1: int, v2: int, m1: int, m2: int, imp: int)
    requires
        1 <= m1,
        1 <= m2,
        -100_000_000_000_000 <= v1 <= 100_000_000_000_000,
        -100_000_000_000_000 <= v2 <= 100_000_000_000_000,
        -700_000_000_000_000 <= imp <= 700_000_000_000_000,
    ensures
        abs_i(m1 * sat_spec(v1 - div_trunc(imp * SCALE, m1)) + m2 * sat_spec(v2 + div_trunc(
            imp * SCALE, m2)) - (m1 * v1 + m2 * v2)) < m1 + m2,
{
    let d1 = div_trunc(imp * 1000, m1);
    let d2 = div_trunc(imp * 1000, m2);
    lemma_div_trunc_bound(imp * 1000, m1, 700_000_000_000_000_000);
    lemma_div_trunc_bound(imp * 1000, m2, 700_000_000_000_000_000);
    assert(sat_spec(v1 - d1) == v1 - d1);
    assert(sat_spec(v2 + d2) == v2 + d2);
    lemma_mul_is_distributive_sub(m1, v1, d1);
    lemma_mul_is_distributive_add(m2, v2, d2);
    lemma_div_trunc_exact(imp * 1000, m1);
    lemma_div_trunc_exact(imp * 1000, m2);
}

/// Momentum consistency in collision: with bodies in the linear regime (no
/// saturation), `m1*vel1 + m2*vel2` changes by less than `m1 + m2` on each
/// axis across a `collide`, the slack of fixed-point truncation — the
/// impulse itself is equal and opposite.
pub proof fn lemma_collision_momentum(b1: Body, b2: Body)
    requires
        b1.wf(),
        b2.wf(),
        -100_000_000_000_000 <= b1.vel.x <= 100_000_000_000_000,
        -100_000_000_000_000 <= b1.vel.y <= 100_000_000_000_000,
        -100_000_000_000_000 <= b2.vel.x <= 100_000_000_000_000,
        -100_000_000_000_000 <= b2.vel.y <= 100_000_000_000_000,
    ensures
        ({
            let (a, b, t) = spec_collide(b1, b2);
            abs_i(b1.mass * a.vel.x + b2.mass * b.vel.x - (b1.mass * b1.vel.x + b2.mass
                * b2.vel.x)) < b1.mass + b2.mass && abs_i(b1.mass * a.vel.y + b2.mass * b.vel.y
                - (b1.mass * b1.vel.y + b2.mass * b2.vel.y)) < b1.mass + b2.mass
        }),
{
    let (a, b, t) = spec_collide(b1, b2);
    if b1.is_held || b2.is_held || !spec_colliding(b1, b2) || spec_vel_along_normal(b1, b2)
        > 0 {
        assert(a.vel == b1.vel && b.vel == b2.vel);
    } else {
        lemma_normal_bounds(b1, b2);
        let (nx, ny) = spec_normal(b1, b2);
        let rvx = b2.vel.x - b1.vel.x;
        let rvy = b2.vel.y - b1.vel.y;
        assert(abs_i(rvx * nx) <= 200_000_000_000_000_000 && abs_i(rvy * ny)
            <= 200_000_000_000_000_000) by (nonlinear_arith)
            requires
                -200_000_000_000_000 <= rvx <= 200_000_000_000_000,
                -200_000_000_000_000 <= rvy <= 200_000_000_000_000,
                -1000 <= nx <= 1000,
                -1000 <= ny <= 1000,
        ;
        lemma_div_trunc_bound(rvx * nx + rvy * ny, 1000, 400_000_000_000_000);
        let vn = spec_vel_along_normal(b1, b2);
        assert(abs_i(-(SCALE + 700) * vn) <= 700_000_000_000_000_000) by (nonlinear_arith)
            requires
                SCALE == 1000,
                -400_000_000_000_000 <= vn <= 400_000_000_000_000,
        ;
        lemma_div_trunc_bound(-(SCALE + 700) * vn, 1000, 700_000_000_000_000);
        let j = div_trunc(-(SCALE + 700) * vn, SCALE as int);
        assert(abs_i(nx * j) <= 700_000_000_000_000_000 && abs_i(ny * j)
            <= 700_000_000_000_000_000) by (nonlinear_arith)
            requires
                -700_000_000_000_000 <= j <= 700_000_000_000_000,
                -1000 <= nx <= 1000,
                -1000 <= ny <= 1000,
        ;
        lemma_div_trunc_bound(nx * j, 1000, 700_000_000_000_000);
        lemma_div_trunc_bound(ny * j, 1000, 700_000_000_000_000);
        let ix = div_trunc(nx * j, SCALE as int);
        let iy = div_trunc(ny * j, SCALE as int);
        lemma_momentum_component(b1.vel.x as int, b2.vel.x as int, b1.mass as int,
            b2.mass as int, ix);
        lemma_momentum_component(b1.vel.y as int, b2.vel.y as int, b1.mass as int,
            b2.mass as int, iy);
    }
}

/// No interpenetration after correction, shown for a head-on pair on one
/// horizontal line: the corrected centers are at least the sum of radii
/// apart, up to the one milli-unit that truncating the half-overlap loses.
pub proof fn lemma_separation_head_on(b1: Body, b2: Body)
    requires
        b1.wf(),
        b2.wf(),
        !b1.is_held,
        !b2.is_held,
        b1.pos.y == b2.pos.y,
        b1.pos.x < b2.pos.x,
        -100_000_000_000_000_000 <= b1.pos.x <= 100_000_000_000_000_000,
        -100_000_000_000_000_000 <= b2.pos.x <= 100_000_000_000_000_000,
        b1.radius <= 100_000_000_000_000_000,
        b2.radius <= 100_000_000_000_000_000,
    ensures
        ({
            let (a, b, t) = spec_collide(b1, b2);
            &&& b.pos.x - a.pos.x >= b1.radius + b2.radius - 1
            &&& a.pos.y == b1.pos.y
            &&& b.pos.y == b2.pos.y
        }),
{
    let dx = b2.pos.x - b1.pos.x;
    let sq = dist_sq_spec(b1.pos, b2.pos);
    assert(sq == dx * dx && dx * dx < (dx + 1) * (dx + 1)) by (nonlinear_arith)
        requires
            sq == (b1.pos.x - b2.pos.x) * (b1.pos.x - b2.pos.x) + (b1.pos.y - b2.pos.y) * (
            b1.pos.y - b2.pos.y),
            dx == b2.pos.x - b1.pos.x,
            b1.pos.y == b2.pos.y,
            dx >= 1,
    ;
    lemma_isqrt_unique(sq as nat, dx as nat);
    let d = dist_spec(b1.pos, b2.pos);
    assert(d == dx);
    if !spec_colliding(b1, b2) {
        assert(b2.pos.x - b1.pos.x >= b1.radius + b2.radius);
    } else {
        let s = b1.radius + b2.radius as int;
        let half = (s - d) / 2;
        assert(dx * SCALE == dx * 1000 && 0 * 1000 == 0) by (nonlinear_arith);
        lemma_div_multiples_vanish(1000, dx);
        assert(dx * 1000 == 1000 * dx) by (nonlinear_arith);
        assert(spec_normal(b1, b2).0 == 1000);
        assert(spec_normal(b1, b2).1 == div_trunc(0, d) == 0);
        lemma_div_multiples_vanish(half, 1000);
        assert(1000 * half == half * 1000) by (nonlinear_arith);
        assert(div_trunc(1000 * half, SCALE as int) == half);
        assert(0 * half == 0) by (nonlinear_arith);
        assert(div_trunc(0 * half, SCALE as int) == 0);
        // Each center moves half the overlap; truncating `/ 2` loses at most
        // one milli-unit in total.
        assert(s - d <= 2 * half + 1);
        assert(0 <= half <= 100_000_000_000_000_000);
        assert(sat_spec(b1.pos.x - half) == b1.pos.x - half);
        assert(sat_spec(b2.pos.x + half) == b2.pos.x + half);
        let (a, b, t) = spec_collide(b1, b2);
        assert(a.pos.x == b1.pos.x - half && b.pos.x == b2.pos.x + half);
    }
}

/// Separating pairs are untouched: when the relative velocity along the
/// line of impact points apart, `collide` changes no velocity and spawns
/// nothing; only the positional correction may act.
pub proof fn lemma_separating_pair_untouched(b1: Body, b2: Body)
    requires
        spec_vel_along_normal(b1, b2) > 0,
    ensures
        ({
            let (a, b, t) = spec_collide(b1, b2);
            a.vel == b1.vel && b.vel == b2.vel && t is None
        }),
{
}

/// Spawn once per cooldown: a collision that spawns flags both partners and
/// arms their cooldowns, and an immediate second collision of the same pair
/// spawns nothing.
pub proof fn lemma_spawn_once(b1: Body, b2: Body)
    requires
        spec_collide(b1, b2).2 is Some,
    ensures
        ({
            let (a, b, t) = spec_collide(b1, b2);
            &&& a.has_reproduced && b.has_reproduced
            &&& a.cooldown == BABY_DELAY && b.cooldown == BABY_DELAY
            &&& spec_collide(a, b).2 is None
        }),
{
}

/// While the cooldown has not yet elapsed, a step keeps the
/// has-recently-reproduced flag, so the pair stays barren.
pub proof fn lemma_cooldown_blocks_respawn(b: Body, dt: int, env: Env)
    requires
        b.has_reproduced,
        !b.is_held,
        0 <= dt < b.cooldown,
    ensures
        spec_update(b, dt, env).has_reproduced,
        spec_update(b, dt, env).cooldown == b.cooldown - dt,
{
}

/// Determinism: the per-tick transition is a function of the prior state,
/// the time step and the environment alone, so two runs from equal states
/// under the same `dt` sequence coincide; randomness enters only through
/// the drawn initial velocity of newly created bodies.
pub proof fn lemma_step_deterministic(bs1: Seq<Body>, bs2: Seq<Body>, dt: int, env: Env)
    requires
        bs1 == bs2,
    ensures
        spec_step(bs1, dt, env) == spec_step(bs2, dt, env),
{
}

/// The pair scan never moves or accelerates a held body: collision response
/// is suspended for it.
pub proof fn lemma_scan_preserves_held(bs: Seq<Body>, i: int, j: int, k: int)
    requires
        0 <= k < bs.len(),
        bs[k].is_held,
    ensures
        spec_scan_from(bs, i, j).0.len() == bs.len(),
        spec_scan_from(bs, i, j).0[k] == bs[k],
    decreases bs.len() - i, bs.len() + 1 - j,
{
    if i < 0 || j < i + 1 || i + 1 >= bs.len() {
    } else if j >= bs.len() {
        lemma_scan_preserves_held(bs, i + 1, i + 2, k);
    } else {
        let (a, b, t) = spec_collide(bs[i], bs[j]);
        let bs2 = bs.update(i, a).update(j, b);
        if bs[i].is_held || bs[j].is_held {
            assert(bs2 =~= bs);
        }
        assert(bs2[k] == bs[k]);
        lemma_scan_preserves_held(bs2, i, j + 1, k);
    }
}

/// Held-body invariant: across a whole step, a held body's velocity is
/// forced to zero and its position is left where external control put it,
/// whatever `dt` is; neither gravity nor any collision touches it.
pub proof fn lemma_held_body_invariant(bs: Seq<Body>, dt: int, env: Env, k: int)
    requires
        0 <= k < bs.len(),
        bs[k].is_held,
    ensures
        spec_step(bs, dt, env).0.len() == bs.len(),
        spec_step(bs, dt, env).0[k].vel == (Vec2 { x: 0i64, y: 0i64 }),
        spec_step(bs, dt, env).0[k].pos == bs[k].pos,
        spec_step(bs, dt, env).0[k].is_held,
{
    let ub = spec_integrate_all(bs, dt, env);
    assert(ub[k] == spec_update(bs[k], dt, env));
    lemma_scan_preserves_held(ub, 0, 1, k);
}

} // verus!
