//! The simulated circular particle and its per-step kinematics: gravity,
//! surface friction, explicit Euler integration, boundary reflection,
//! reproduction-cooldown bookkeeping, and the asymmetric maximum-speed clamp
//! (only the positive direction is clamped, a deliberate, documented policy).

use vstd::prelude::*;
use crate::fixmath::{
    abs_i, div_trunc, div_i128, mul_i128, sat_i64, sat_spec, SAT, SCALE,
};
use crate::vec2::{SimError, Vec2};
use crate::rng::random_in_range;

verus! {

/// Upper bound on one time step, in milli-seconds.
pub const DT_LIMIT: i64 = 10_000_000;

/// Bound on the ambient gravity constant (milli-units per second squared).
pub const GRAVITY_LIMIT: i64 = 1_000_000_000;

/// Bound on the pixels-per-unit scale factor.
pub const PIXELS_PER_METER_LIMIT: i64 = 1_000_000;

/// Default per-axis speed ceiling of a new body (milli-units per second).
pub const DEFAULT_MAX_SPEED: i64 = 250_000;

/// Initial velocity components are drawn from `[-RAND_VEL_LIMIT, RAND_VEL_LIMIT]`.
pub const RAND_VEL_LIMIT: i64 = 100_000;

/// Visual state of a body: flagged while it has recently reproduced.
#[derive(Clone, Copy, PartialEq, Eq, Structural, Debug)]
pub enum VisualTag {
    Normal,
    Flagged,
}

/// The simulation's rectangular bounds `(0,0)..(width,height)` and ambient
/// gravity parameters, supplied by the embedding application.
#[derive(Clone, Copy, PartialEq, Eq, Structural, Debug)]
pub struct Env {
    pub width: i64,
    pub height: i64,
    pub gravity_constant: i64,
    pub pixels_per_meter: i64,
}

impl Env {
    pub open spec fn wf(self) -> bool {
        &&& 0 <= self.width <= SAT
        &&& 0 <= self.height <= SAT
        &&& 0 <= self.gravity_constant <= GRAVITY_LIMIT
        &&& 0 <= self.pixels_per_meter <= PIXELS_PER_METER_LIMIT
    }

    pub fn new(width: i64, height: i64, gravity_constant: i64, pixels_per_meter: i64) -> (r:
        Result<Env, SimError>)
        ensures
            r is Ok <==> (0 <= width <= SAT && 0 <= height <= SAT && 0 <= gravity_constant
                <= GRAVITY_LIMIT && 0 <= pixels_per_meter <= PIXELS_PER_METER_LIMIT),
            r is Ok ==> r->Ok_0 == (Env { width, height, gravity_constant, pixels_per_meter })
                && r->Ok_0.wf(),
            r is Err ==> r->Err_0 == SimError::InvalidParameter,
    {
        if 0 <= width && width <= SAT && 0 <= height && height <= SAT && 0 <= gravity_constant
            && gravity_constant <= GRAVITY_LIMIT && 0 <= pixels_per_meter && pixels_per_meter
            <= PIXELS_PER_METER_LIMIT {
            Ok(Env { width, height, gravity_constant, pixels_per_meter })
        } else {
            Err(SimError::InvalidParameter)
        }
    }
}

/// A circular rigid body.  Kinematic fields are milli-units; `restitution`
/// and `friction` are per-mille coefficients; `mass` is the effective mass
/// after the construction-time divisor.
#[derive(Clone, Copy, PartialEq, Eq, Structural, Debug)]
pub struct Body {
    pub pos: Vec2,
    pub vel: Vec2,
    pub force: Vec2,
    pub radius: i64,
    pub mass: i64,
    pub mass_divisor: i64,
    pub restitution: i64,
    pub friction: i64,
    pub max_speed: Vec2,
    pub is_held: bool,
    pub has_reproduced: bool,
    pub cooldown: i64,
    pub tag: VisualTag,
}

/// Validity of construction parameters: positive radius and a positive
/// effective mass, coefficients in `[0, 1]` (per-mille).
pub open spec fn params_ok(radius: i64, friction: i64, restitution: i64, mass: i64,
    mass_divisor: i64) -> bool {
    &&& 1 <= radius <= SAT
    &&& 0 <= friction <= SCALE
    &&& 0 <= restitution <= SCALE
    &&& 1 <= mass_divisor <= SAT
    &&& 1 <= div_trunc(mass as int, mass_divisor as int) <= SAT
}

/// The body a successful construction returns, given the drawn velocity.
pub open spec fn spec_new(x: i64, y: i64, radius: i64, tag: VisualTag, friction: i64,
    restitution: i64, mass: i64, mass_divisor: i64, vel: Vec2) -> Body {
    Body {
        pos: Vec2 { x: sat_spec(x as int) as i64, y: sat_spec(y as int) as i64 },
        vel: Vec2 { x: sat_spec(vel.x as int) as i64, y: sat_spec(vel.y as int) as i64 },
        force: Vec2 { x: 0, y: 0 },
        radius,
        mass: div_trunc(mass as int, mass_divisor as int) as i64,
        mass_divisor,
        restitution,
        friction,
        max_speed: Vec2 { x: DEFAULT_MAX_SPEED, y: DEFAULT_MAX_SPEED },
        is_held: false,
        has_reproduced: false,
        cooldown: 0,
        tag,
    }
}

/// Velocity on the vertical axis after gravity acted for `dt`.
pub open spec fn spec_gravity_vel_y(b: Body, dt: int, env: Env) -> int {
    b.vel.y + div_trunc(env.gravity_constant * env.pixels_per_meter * dt, SCALE as int)
}

/// Velocity on the horizontal axis after surface friction, applied only when
/// the body's lower edge touches or passes the lower boundary.
pub open spec fn spec_friction_vel_x(b: Body, env: Env) -> int {
    if b.pos.y + b.radius >= env.height {
        div_trunc(b.vel.x * b.friction, SCALE as int)
    } else {
        b.vel.x as int
    }
}

/// Velocity after gravity, friction and the force term of explicit Euler
/// integration (`acceleration = force / mass`, broadcast over both axes).
pub open spec fn spec_integrated_vel(b: Body, dt: int, env: Env) -> (int, int) {
    let ax = div_trunc(b.force.x * SCALE, b.mass as int);
    let ay = div_trunc(b.force.y * SCALE, b.mass as int);
    (
        sat_spec(spec_friction_vel_x(b, env) + div_trunc(ax * dt, SCALE as int)),
        sat_spec(spec_gravity_vel_y(b, dt, env) + div_trunc(ay * dt, SCALE as int)),
    )
}

/// Position advanced by the integrated velocity.
pub open spec fn spec_integrated_pos(b: Body, dt: int, env: Env) -> (int, int) {
    let (vx, vy) = spec_integrated_vel(b, dt, env);
    (
        sat_spec(b.pos.x + div_trunc(vx * dt, SCALE as int)),
        sat_spec(b.pos.y + div_trunc(vy * dt, SCALE as int)),
    )
}

/// Reflected velocity at a boundary: negated and scaled by restitution.
pub open spec fn spec_bounce(v: int, restitution: int) -> int {
    div_trunc(-v * restitution, SCALE as int)
}

/// Boundary resolution: a body crossing an edge is made exactly tangent to it
/// and its normal velocity is reflected.  The vertical checks are
/// independent; the horizontal ones are an `if`/`else if` pair.
/// Returns `(px, py, vx, vy)`.
pub open spec fn spec_edges(px: int, py: int, vx: int, vy: int, radius: int, restitution: int,
    env: Env) -> (int, int, int, int) {
    let py1 = if py + radius > env.height {
        env.height - radius
    } else {
        py
    };
    let vy1 = if py + radius > env.height {
        spec_bounce(vy, restitution)
    } else {
        vy
    };
    let py2 = if py1 - radius < 0 {
        radius
    } else {
        py1
    };
    let vy2 = if py1 - radius < 0 {
        spec_bounce(vy1, restitution)
    } else {
        vy1
    };
    let px1 = if px + radius > env.width {
        env.width - radius
    } else if px - radius < 0 {
        radius
    } else {
        px
    };
    let vx1 = if px + radius > env.width || px - radius < 0 {
        spec_bounce(vx, restitution)
    } else {
        vx
    };
    (px1, py2, vx1, vy2)
}

/// Cooldown bookkeeping: a positive cooldown is decremented by `dt` (floored
/// at zero); once it has reached zero, the next step clears the
/// has-reproduced flag.  Returns `(cooldown, has_reproduced)`.
pub open spec fn spec_cooldown_tick(cooldown: int, flag: bool, dt: int) -> (int, bool) {
    if cooldown > 0 {
        (if cooldown - dt > 0 { cooldown - dt } else { 0 }, flag)
    } else {
        (0, false)
    }
}

/// The asymmetric speed limit: only the positive direction is clamped.
pub open spec fn spec_clamp_max(v: int, max: int) -> int {
    if v > max {
        max
    } else {
        v
    }
}

/// One whole per-body step: gravity, friction, Euler integration, boundary
/// resolution, cooldown bookkeeping, visual tag, speed clamp, force reset.
/// A held body is exempt from all physics: its velocity is forced to zero,
/// its position is left to external control, and its force is discarded.
pub open spec fn spec_update(b: Body, dt: int, env: Env) -> Body {
    if b.is_held {
        Body { vel: Vec2 { x: 0, y: 0 }, force: Vec2 { x: 0, y: 0 }, ..b }
    } else {
        let (vxi, vyi) = spec_integrated_vel(b, dt, env);
        let (pxi, pyi) = spec_integrated_pos(b, dt, env);
        let (px, py, vx, vy) = spec_edges(pxi, pyi, vxi, vyi, b.radius as int,
            b.restitution as int, env);
        let (cd, flag) = spec_cooldown_tick(b.cooldown as int, b.has_reproduced, dt);
        let vxc = spec_clamp_max(vx, b.max_speed.x as int);
        let vyc = spec_clamp_max(vy, b.max_speed.y as int);
        Body {
            pos: Vec2 { x: px as i64, y: py as i64 },
            vel: Vec2 { x: vxc as i64, y: vyc as i64 },
            force: Vec2 { x: 0, y: 0 },
            cooldown: cd as i64,
            has_reproduced: flag,
            tag: if flag {
                VisualTag::Flagged
            } else {
                VisualTag::Normal
            },
            ..b
        }
    }
}

impl Body {
    /// Physical parameters valid and every kinematic field representable.
    pub open spec fn wf(self) -> bool {
        &&& 1 <= self.radius <= SAT
        &&& 1 <= self.mass <= SAT
        &&& 1 <= self.mass_divisor <= SAT
        &&& 0 <= self.restitution <= SCALE
        &&& 0 <= self.friction <= SCALE
        &&& 0 <= self.cooldown <= SAT
        &&& self.pos.in_range()
        &&& self.vel.in_range()
        &&& self.force.in_range()
        &&& self.max_speed.in_range()
    }

    /// Construct a body with an explicit initial velocity.  Rejects
    /// non-positive radius or effective mass and out-of-range coefficients.
    /// The requested mass is scaled down by `mass_divisor`.
    pub fn with_velocity(x: i64, y: i64, radius: i64, tag: VisualTag, friction: i64,
        restitution: i64, mass: i64, mass_divisor: i64, vel: Vec2) -> (r: Result<Body, SimError>)
        ensures
            r is Ok <==> params_ok(radius, friction, restitution, mass, mass_divisor),
            r is Err ==> r->Err_0 == SimError::InvalidParameter,
            r is Ok ==> r->Ok_0 == spec_new(x, y, radius, tag, friction, restitution, mass,
                mass_divisor, vel) && r->Ok_0.wf(),
    {
        if radius < 1 || radius > SAT || friction < 0 || friction > SCALE || restitution < 0
            || restitution > SCALE || mass_divisor < 1 || mass_divisor > SAT {
            return Err(SimError::InvalidParameter);
        }
        let eff: i128 = div_i128(mass as i128, mass_divisor as i128);
        if eff < 1 || eff > SAT as i128 {
            return Err(SimError::InvalidParameter);
        }
        Ok(Body {
            pos: Vec2::new(x, y),
            vel: Vec2::new(vel.x, vel.y),
            force: Vec2 { x: 0, y: 0 },
            radius,
            mass: eff as i64,
            mass_divisor,
            restitution,
            friction,
            max_speed: Vec2 { x: DEFAULT_MAX_SPEED, y: DEFAULT_MAX_SPEED },
            is_held: false,
            has_reproduced: false,
            cooldown: 0,
            tag,
        })
    }

    /// Construct a body with a random initial velocity, each component drawn
    /// from `[-RAND_VEL_LIMIT, RAND_VEL_LIMIT]`.
    pub fn new(x: i64, y: i64, radius: i64, tag: VisualTag, friction: i64, restitution: i64,
        mass: i64, mass_divisor: i64) -> (r: Result<Body, SimError>)
        ensures
            r is Ok <==> params_ok(radius, friction, restitution, mass, mass_divisor),
            r is Err ==> r->Err_0 == SimError::InvalidParameter,
            r is Ok ==> r->Ok_0 == spec_new(x, y, radius, tag, friction, restitution, mass,
                mass_divisor, r->Ok_0.vel) && r->Ok_0.wf()
                && -RAND_VEL_LIMIT <= r->Ok_0.vel.x <= RAND_VEL_LIMIT
                && -RAND_VEL_LIMIT <= r->Ok_0.vel.y <= RAND_VEL_LIMIT,
    {
        let vx: i64 = random_in_range(-RAND_VEL_LIMIT, RAND_VEL_LIMIT);
        let vy: i64 = random_in_range(-RAND_VEL_LIMIT, RAND_VEL_LIMIT);
        Body::with_velocity(x, y, radius, tag, friction, restitution, mass, mass_divisor,
            Vec2 { x: vx, y: vy })
    }

    /// Begin or end external manipulation.
    pub fn set_held(&mut self, held: bool)
        ensures
            *final(self) == (Body { is_held: held, ..*old(self) }),
    {
        self.is_held = held;
    }

    /// Drive the body's position from outside (used while it is held).
    pub fn set_position(&mut self, p: Vec2)
        ensures
            *final(self) == (Body {
                pos: Vec2 { x: sat_spec(p.x as int) as i64, y: sat_spec(p.y as int) as i64 },
                ..*old(self)
            }),
            final(self).pos.in_range(),
    {
        self.pos = Vec2::new(p.x, p.y);
    }

    /// Set the force to be consumed by the next integration step (one-shot:
    /// the step resets it to zero).
    pub fn apply_force(&mut self, f: Vec2)
        ensures
            *final(self) == (Body {
                force: Vec2 { x: sat_spec(f.x as int) as i64, y: sat_spec(f.y as int) as i64 },
                ..*old(self)
            }),
            final(self).force.in_range(),
    {
        self.force = Vec2::new(f.x, f.y);
    }

    /// Whether a point lies inside the body's bounding square (the pick test
    /// used by a pointer-drag collaborator).
    pub fn covers_point(&self, x: i64, y: i64) -> (r: bool)
        requires
            self.wf(),
        ensures
            r <==> (self.pos.x - self.radius < x < self.pos.x + self.radius && self.pos.y
                - self.radius < y < self.pos.y + self.radius),
    {
        x > self.pos.x - self.radius && x < self.pos.x + self.radius && y > self.pos.y
            - self.radius && y < self.pos.y + self.radius
    }

    /// Advance this body by one time step of `dt` milli-seconds.
    pub fn update(&mut self, dt: i64, env: &Env)
        requires
            old(self).wf(),
            env.wf(),
            0 <= dt <= DT_LIMIT,
        ensures
            *final(self) == spec_update(*old(self), dt as int, *env),
            final(self).wf(),
    {
        if self.is_held {
            self.vel = Vec2 { x: 0, y: 0 };
            self.force = Vec2 { x: 0, y: 0 };
            return;
        }
        // Gravity on the vertical axis.
        let geff: i128 = mul_i128(env.gravity_constant as i128, env.pixels_per_meter as i128);
        proof {
            assert(0 <= geff <= 1_000_000_000_000_000) by (nonlinear_arith)
                requires
                    geff == env.gravity_constant as int * env.pixels_per_meter as int,
                    0 <= env.gravity_constant as int <= GRAVITY_LIMIT as int,
                    0 <= env.pixels_per_meter as int <= PIXELS_PER_METER_LIMIT as int,
            ;
        }
        let vy_g: i128 = self.vel.y as i128 + div_i128(mul_i128(geff, dt as i128), 1000);
        // Surface friction on the horizontal axis while touching the floor.
        let vx_f: i128 = if self.pos.y + self.radius >= env.height {
            div_i128(mul_i128(self.vel.x as i128, self.friction as i128), 1000)
        } else {
            self.vel.x as i128
        };
        // Explicit Euler: acceleration = force / mass, broadcast over axes.
        let ax: i128 = div_i128(self.force.x as i128 * 1000, self.mass as i128);
        let ay: i128 = div_i128(self.force.y as i128 * 1000, self.mass as i128);
        let vx1: i64 = sat_i64(vx_f + div_i128(mul_i128(ax, dt as i128), 1000));
        let vy1: i64 = sat_i64(vy_g + div_i128(mul_i128(ay, dt as i128), 1000));
        let px1: i64 = sat_i64(self.pos.x as i128 + div_i128(mul_i128(vx1 as i128, dt as i128),
            1000));
        let py1: i64 = sat_i64(self.pos.y as i128 + div_i128(mul_i128(vy1 as i128, dt as i128),
            1000));
        // Boundary resolution.
        let py2: i64;
        let vy2: i64;
        if py1 + self.radius > env.height {
            py2 = env.height - self.radius;
            vy2 = bounce(vy1, self.restitution);
        } else {
            py2 = py1;
            vy2 = vy1;
        }
        let py3: i64;
        let vy3: i64;
        if py2 - self.radius < 0 {
            py3 = self.radius;
            vy3 = bounce(vy2, self.restitution);
        } else {
            py3 = py2;
            vy3 = vy2;
        }
        let px2: i64;
        let vx2: i64;
        if px1 + self.radius > env.width {
            px2 = env.width - self.radius;
            vx2 = bounce(vx1, self.restitution);
        } else if px1 - self.radius < 0 {
            px2 = self.radius;
            vx2 = bounce(vx1, self.restitution);
        } else {
            px2 = px1;
            vx2 = vx1;
        }
        // Reproduction cooldown and visual tag.
        if self.cooldown > 0 {
            self.cooldown = if self.cooldown - dt > 0 {
                self.cooldown - dt
            } else {
                0
            };
        } else {
            self.cooldown = 0;
            self.has_reproduced = false;
        }
        self.tag = if self.has_reproduced {
            VisualTag::Flagged
        } else {
            VisualTag::Normal
        };
        // Asymmetric speed clamp: only the positive direction is limited.
        let vx3: i64 = if vx2 > self.max_speed.x {
            self.max_speed.x
        } else {
            vx2
        };
        let vy4: i64 = if vy3 > self.max_speed.y {
            self.max_speed.y
        } else {
            vy3
        };
        self.pos = Vec2 { x: px2, y: py3 };
        self.vel = Vec2 { x: vx3, y: vy4 };
        self.force = Vec2 { x: 0, y: 0 };
    }
}

/// Gain applied to a pointer-drag trajectory to produce a throw force.
pub const THROW_GAIN: i64 = 2_000;

/// The force of a throw: the drag from the newest recorded pointer position
/// back to the oldest, reversed and amplified by `THROW_GAIN`.
pub open spec fn spec_throw_force(first: Vec2, last: Vec2) -> Vec2 {
    let dx = sat_spec(first.x - last.x);
    let dy = sat_spec(first.y - last.y);
    let mx = sat_spec(dx * -1);
    let my = sat_spec(dy * -1);
    Vec2 { x: sat_spec(mx * THROW_GAIN) as i64, y: sat_spec(my * THROW_GAIN) as i64 }
}

/// Compute the one-shot force a pointer throw imparts, from the oldest and
/// newest points of the recorded drag trajectory.
pub fn throw_force(first: Vec2, last: Vec2) -> (r: Vec2)
    ensures
        r == spec_throw_force(first, last),
        r.in_range(),
{
    first.sub(&last).scale(-1).scale(THROW_GAIN)
}

/// Reflected velocity at a boundary, `-v * restitution / SCALE`.
fn bounce(v: i64, restitution: i64) -> (r: i64)
    requires
        -SAT <= v <= SAT,
        0 <= restitution <= SCALE,
    ensures
        r == spec_bounce(v as int, restitution as int),
        abs_i(r as int) <= abs_i(v as int),
{
    let p: i128 = mul_i128(-(v as i128), restitution as i128);
    proof {
        assert(abs_i(p as int) <= abs_i(v as int) * 1000) by (nonlinear_arith)
            requires
                p == -(v as int) * restitution,
                0 <= restitution <= 1000,
        ;
        crate::fixmath::lemma_div_trunc_bound(p as int, 1000, abs_i(v as int));
    }
    let q: i128 = div_i128(p, 1000);
    q as i64
}

} // verus!
