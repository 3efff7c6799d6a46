//! Pairwise narrow-phase collision resolution: overlap test, positional
//! correction along the line of impact, impulse-based velocity response with
//! a fixed elastic coefficient (distinct from each body's own boundary
//! restitution), and the spawn-on-first-collision rule.

use vstd::prelude::*;
use crate::fixmath::{
    abs_i, div_trunc, div_i128, lemma_div_trunc_bound, lemma_isqrt_spec, mul_i128, sat_i64,
    sat_spec, SAT, SCALE,
};
use crate::vec2::{dist_spec, dist_sq_spec, Vec2};
use crate::body::{Body, DEFAULT_MAX_SPEED, RAND_VEL_LIMIT};
use crate::rng::random_in_range;

verus! {

/// The fixed body-body elastic collision coefficient (per-mille).  It is
/// deliberately distinct from each body's own `restitution`, which governs
/// only boundary bounces.
pub const ELASTICITY: i64 = 700;

/// Reproduction cooldown set on both partners of a spawning collision
/// (milli-time-units).
pub const BABY_DELAY: i64 = 5_000;

/// Two bodies collide when their center distance is below the sum of radii.
pub open spec fn spec_colliding(b1: Body, b2: Body) -> bool {
    dist_spec(b1.pos, b2.pos) < b1.radius + b2.radius
}

/// Unit normal (line of impact) from `b1` to `b2`, scaled by `SCALE`.
/// Coincident centers would divide by zero; the defined fallback is the
/// positive horizontal axis.
pub open spec fn spec_normal(b1: Body, b2: Body) -> (int, int) {
    let d = dist_spec(b1.pos, b2.pos);
    if d == 0 {
        (SCALE as int, 0)
    } else {
        (
            div_trunc((b2.pos.x - b1.pos.x) * SCALE, d),
            div_trunc((b2.pos.y - b1.pos.y) * SCALE, d),
        )
    }
}

/// Positions after the positional correction: each body is pushed half the
/// overlap away along the line of impact.
pub open spec fn spec_corrected(b1: Body, b2: Body) -> (Vec2, Vec2) {
    let d = dist_spec(b1.pos, b2.pos);
    let half = (b1.radius + b2.radius - d) / 2;
    let (nx, ny) = spec_normal(b1, b2);
    let cx = div_trunc(nx * half, SCALE as int);
    let cy = div_trunc(ny * half, SCALE as int);
    (
        Vec2 { x: sat_spec(b1.pos.x - cx) as i64, y: sat_spec(b1.pos.y - cy) as i64 },
        Vec2 { x: sat_spec(b2.pos.x + cx) as i64, y: sat_spec(b2.pos.y + cy) as i64 },
    )
}

/// Component of the relative velocity `vel2 - vel1` along the line of impact.
pub open spec fn spec_vel_along_normal(b1: Body, b2: Body) -> int {
    let (nx, ny) = spec_normal(b1, b2);
    div_trunc((b2.vel.x - b1.vel.x) * nx + (b2.vel.y - b1.vel.y) * ny, SCALE as int)
}

/// The impulse vector `normal * (-(1 + e) * v_rel_normal)`.
pub open spec fn spec_impulse(b1: Body, b2: Body) -> (int, int) {
    let vn = spec_vel_along_normal(b1, b2);
    let j = div_trunc(-(SCALE + ELASTICITY) * vn, SCALE as int);
    let (nx, ny) = spec_normal(b1, b2);
    (div_trunc(nx * j, SCALE as int), div_trunc(ny * j, SCALE as int))
}

/// The child a spawning collision produces, up to its randomly drawn
/// velocity (zero here): body 1 after correction is the template — its
/// position, half its radius, twice its mass re-run through its divisor, its
/// coefficients and tag.  Radius and effective mass are floored at the
/// fixed-point minimum of one and the mass is capped at `SAT`.
pub open spec fn spec_baby(parent: Body) -> Body {
    let r = parent.radius as int / 2;
    let m = div_trunc(2 * parent.mass, parent.mass_divisor as int);
    Body {
        pos: parent.pos,
        vel: Vec2 { x: 0, y: 0 },
        force: Vec2 { x: 0, y: 0 },
        radius: if r < 1 { 1 } else { r as i64 },
        mass: if m < 1 { 1 } else if m > SAT { SAT } else { m as i64 },
        mass_divisor: parent.mass_divisor,
        restitution: parent.restitution,
        friction: parent.friction,
        max_speed: Vec2 { x: DEFAULT_MAX_SPEED, y: DEFAULT_MAX_SPEED },
        is_held: false,
        has_reproduced: false,
        cooldown: 0,
        tag: parent.tag,
    }
}

/// A spawned child agrees with its template on every field but the randomly
/// drawn velocity, which lies in the construction range.
pub open spec fn child_matches(c: Body, t: Body) -> bool {
    &&& c == (Body { vel: c.vel, ..t })
    &&& -RAND_VEL_LIMIT <= c.vel.x <= RAND_VEL_LIMIT
    &&& -RAND_VEL_LIMIT <= c.vel.y <= RAND_VEL_LIMIT
}

/// The whole resolution step on a pair, as `collide` performs it: the new
/// pair of bodies and the spawned child's template, if any.  Held bodies are
/// exempt from collision response, so a pair with a held member is left
/// untouched.
pub open spec fn spec_collide(b1: Body, b2: Body) -> (Body, Body, Option<Body>) {
    if b1.is_held || b2.is_held {
        (b1, b2, Option::<Body>::None)
    } else if !spec_colliding(b1, b2) {
        (b1, b2, Option::<Body>::None)
    } else {
        let (p1, p2) = spec_corrected(b1, b2);
        let a = Body { pos: p1, ..b1 };
        let b = Body { pos: p2, ..b2 };
        if spec_vel_along_normal(b1, b2) > 0 {
            (a, b, Option::<Body>::None)
        } else {
            let (ix, iy) = spec_impulse(b1, b2);
            let a2 = Body {
                vel: Vec2 {
                    x: sat_spec(a.vel.x - div_trunc(ix * SCALE, a.mass as int)) as i64,
                    y: sat_spec(a.vel.y - div_trunc(iy * SCALE, a.mass as int)) as i64,
                },
                ..a
            };
            let b2n = Body {
                vel: Vec2 {
                    x: sat_spec(b.vel.x + div_trunc(ix * SCALE, b.mass as int)) as i64,
                    y: sat_spec(b.vel.y + div_trunc(iy * SCALE, b.mass as int)) as i64,
                },
                ..b
            };
            if !b1.has_reproduced && !b2.has_reproduced {
                let a3 = Body { has_reproduced: true, cooldown: BABY_DELAY, ..a2 };
                let b3 = Body { has_reproduced: true, cooldown: BABY_DELAY, ..b2n };
                (a3, b3, Option::<Body>::Some(spec_baby(a3)))
            } else {
                (a2, b2n, Option::<Body>::None)
            }
        }
    }
}

impl Body {
    /// The child body of a spawning collision; its velocity is drawn at
    /// random like any newly created body's.
    pub fn create_baby(&self) -> (r: Body)
        requires
            self.wf(),
        ensures
            child_matches(r, spec_baby(*self)),
            r.wf(),
    {
        let vx: i64 = random_in_range(-RAND_VEL_LIMIT, RAND_VEL_LIMIT);
        let vy: i64 = random_in_range(-RAND_VEL_LIMIT, RAND_VEL_LIMIT);
        let half_radius: i64 = (self.radius as u64 / 2) as i64;
        let radius: i64 = if half_radius < 1 {
            1
        } else {
            half_radius
        };
        let m: i128 = div_i128(2 * self.mass as i128, self.mass_divisor as i128);
        let mass: i64 = if m < 1 {
            1
        } else if m > SAT as i128 {
            SAT
        } else {
            m as i64
        };
        Body {
            pos: self.pos,
            vel: Vec2 { x: vx, y: vy },
            force: Vec2 { x: 0, y: 0 },
            radius,
            mass,
            mass_divisor: self.mass_divisor,
            restitution: self.restitution,
            friction: self.friction,
            max_speed: Vec2 { x: DEFAULT_MAX_SPEED, y: DEFAULT_MAX_SPEED },
            is_held: false,
            has_reproduced: false,
            cooldown: 0,
            tag: self.tag,
        }
    }

    /// Test and resolve a collision between two distinct bodies, mutating
    /// both in place, and return the spawned child, if any.  A separating
    /// pair keeps its velocities; the positional correction applies to every
    /// overlapping pair.
    pub fn collide(&mut self, other: &mut Body) -> (r: Option<Body>)
        requires
            old(self).wf(),
            old(other).wf(),
        ensures
            ({
                let (a, b, t) = spec_collide(*old(self), *old(other));
                &&& *final(self) == a
                &&& *final(other) == b
                &&& match (r, t) {
                    (Some(c), Some(tc)) => child_matches(c, tc) && c.wf(),
                    (None, None) => true,
                    _ => false,
                }
            }),
            final(self).wf(),
            final(other).wf(),
            spec_vel_along_normal(*old(self), *old(other)) > 0 ==> final(self).vel == old(
                self,
            ).vel && final(other).vel == old(other).vel,
    {
        if self.is_held || other.is_held {
            return None;
        }
        let d: i64 = self.pos.dist(&other.pos);
        let sum_radii: i64 = self.radius + other.radius;
        if d >= sum_radii {
            return None;
        }
        // Line of impact, scaled by SCALE, from the pre-correction centers.
        let dx: i128 = other.pos.x as i128 - self.pos.x as i128;
        let dy: i128 = other.pos.y as i128 - self.pos.y as i128;
        let nx: i64;
        let ny: i64;
        if d == 0 {
            nx = SCALE;
            ny = 0;
        } else {
            proof {
                let sq = dist_sq_spec(old(self).pos, old(other).pos);
                let sx = old(self).pos.x as int;
                let sy = old(self).pos.y as int;
                let ox = old(other).pos.x as int;
                let oy = old(other).pos.y as int;
                lemma_isqrt_spec(sq as nat);
                assert(dx * dx + dy * dy == sq && dx * dx >= 0 && dy * dy >= 0)
                    by (nonlinear_arith)
                    requires
                        dx == ox - sx,
                        dy == oy - sy,
                        sq == (sx - ox) * (sx - ox) + (sy - oy) * (sy - oy),
                ;
                assert(abs_i(dx as int) <= d) by (nonlinear_arith)
                    requires
                        dx * dx < (d + 1) * (d + 1),
                        d >= 1,
                ;
                assert(abs_i(dy as int) <= d) by (nonlinear_arith)
                    requires
                        dy * dy < (d + 1) * (d + 1),
                        d >= 1,
                ;
                lemma_div_trunc_bound(dx as int * SCALE, d as int, SCALE as int);
                lemma_div_trunc_bound(dy as int * SCALE, d as int, SCALE as int);
            }
            nx = div_i128(dx * 1000, d as i128) as i64;
            ny = div_i128(dy * 1000, d as i128) as i64;
        }
        // Positional correction: half the overlap for each body.
        let half: i64 = ((sum_radii - d) as u64 / 2) as i64;
        proof {
            assert(half as int * nx as int == nx as int * half as int
                && abs_i(nx as int * half as int) <= half as int * 1000) by (nonlinear_arith)
                requires
                    -1000 <= nx as int <= 1000,
                    half >= 0,
            ;
            lemma_div_trunc_bound(nx as int * half as int, 1000, half as int);
            assert(half as int * ny as int == ny as int * half as int
                && abs_i(ny as int * half as int) <= half as int * 1000) by (nonlinear_arith)
                requires
                    -1000 <= ny as int <= 1000,
                    half >= 0,
            ;
            lemma_div_trunc_bound(ny as int * half as int, 1000, half as int);
        }
        let cxw: i128 = div_i128(mul_i128(half as i128, nx as i128), 1000);
        let cyw: i128 = div_i128(mul_i128(half as i128, ny as i128), 1000);
        let cx: i64 = cxw as i64;
        let cy: i64 = cyw as i64;
        self.pos = Vec2 {
            x: sat_i64(self.pos.x as i128 - cx as i128),
            y: sat_i64(self.pos.y as i128 - cy as i128),
        };
        other.pos = Vec2 {
            x: sat_i64(other.pos.x as i128 + cx as i128),
            y: sat_i64(other.pos.y as i128 + cy as i128),
        };
        // Relative velocity along the line of impact.
        let rvx: i128 = other.vel.x as i128 - self.vel.x as i128;
        let rvy: i128 = other.vel.y as i128 - self.vel.y as i128;
        let px: i128 = mul_i128(rvx, nx as i128);
        let py: i128 = mul_i128(rvy, ny as i128);
        proof {
            assert(abs_i(px as int) <= 2_000_000_000_000_000_000_000) by (nonlinear_arith)
                requires
                    px == rvx * nx,
                    -2_000_000_000_000_000_000 <= rvx <= 2_000_000_000_000_000_000,
                    -1000 <= nx as int <= 1000,
            ;
            assert(abs_i(py as int) <= 2_000_000_000_000_000_000_000) by (nonlinear_arith)
                requires
                    py == rvy * ny,
                    -2_000_000_000_000_000_000 <= rvy <= 2_000_000_000_000_000_000,
                    -1000 <= ny as int <= 1000,
            ;
            lemma_div_trunc_bound(px as int + py as int, 1000, 4_000_000_000_000_000_000);
        }
        let vn: i128 = div_i128(px + py, 1000);
        proof {
            assert(-4_000_000_000_000_000_000 <= vn <= 4_000_000_000_000_000_000);
        }
        if vn > 0 {
            return None;
        }
        // Impulse response.
        proof {
            assert(-7_000_000_000_000_000_000_000 <= -1700 * vn
                <= 7_000_000_000_000_000_000_000) by (nonlinear_arith)
                requires
                    -4_000_000_000_000_000_000 <= vn <= 4_000_000_000_000_000_000,
            ;
        }
        // -(SCALE + ELASTICITY) == -1700, written as a literal.
        let jn: i128 = -1700 * vn;
        proof {
            lemma_div_trunc_bound(jn as int, 1000, 7_000_000_000_000_000_000);
        }
        let j: i128 = div_i128(jn, 1000);
        let jxw: i128 = mul_i128(j, nx as i128);
        let jyw: i128 = mul_i128(j, ny as i128);
        proof {
            assert(j * nx as int == nx as int * j && j * ny as int == ny as int * j)
                by (nonlinear_arith);
            assert(abs_i(jxw as int) <= 7_000_000_000_000_000_000_000) by (nonlinear_arith)
                requires
                    jxw == j * nx,
                    -7_000_000_000_000_000_000 <= j <= 7_000_000_000_000_000_000,
                    -1000 <= nx as int <= 1000,
            ;
            assert(abs_i(jyw as int) <= 7_000_000_000_000_000_000_000) by (nonlinear_arith)
                requires
                    jyw == j * ny,
                    -7_000_000_000_000_000_000 <= j <= 7_000_000_000_000_000_000,
                    -1000 <= ny as int <= 1000,
            ;
            lemma_div_trunc_bound(jxw as int, 1000, 7_000_000_000_000_000_000);
            lemma_div_trunc_bound(jyw as int, 1000, 7_000_000_000_000_000_000);
        }
        let ix: i128 = div_i128(jxw, 1000);
        let iy: i128 = div_i128(jyw, 1000);
        self.vel = Vec2 {
            x: sat_i64(self.vel.x as i128 - div_i128(ix * 1000, self.mass as i128)),
            y: sat_i64(self.vel.y as i128 - div_i128(iy * 1000, self.mass as i128)),
        };
        other.vel = Vec2 {
            x: sat_i64(other.vel.x as i128 + div_i128(ix * 1000, other.mass as i128)),
            y: sat_i64(other.vel.y as i128 + div_i128(iy * 1000, other.mass as i128)),
        };
        // Spawn rule: one child per collision, only when neither partner has
        // recently reproduced.
        if !self.has_reproduced && !other.has_reproduced {
            self.has_reproduced = true;
            other.has_reproduced = true;
            self.cooldown = BABY_DELAY;
            other.cooldown = BABY_DELAY;
            return Some(self.create_baby());
        }
        None
    }
}

} // verus!
