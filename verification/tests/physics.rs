use particles::body::{Body, Env, VisualTag};
use particles::vec2::{SimError, Vec2};

fn env_500() -> Env {
    // A 1000 x 500 unit box; gravity 0.5 at 100 pixels per unit gives 50
    // units per second squared.
    Env::new(1_000_000, 500_000, 500, 100).unwrap()
}

fn ball(x: i64, y: i64, radius: i64, mass: i64, vel: Vec2) -> Body {
    Body::with_velocity(x, y, radius, VisualTag::Normal, 1_000, 1_000, mass, 1, vel).unwrap()
}

#[test]
fn construction_rejects_bad_parameters() {
    let v = Vec2 { x: 0, y: 0 };
    assert_eq!(
        Body::with_velocity(0, 0, 0, VisualTag::Normal, 1_000, 1_000, 1_000, 1, v),
        Err(SimError::InvalidParameter)
    );
    assert_eq!(
        Body::with_velocity(0, 0, 10_000, VisualTag::Normal, 1_000, 1_000, 0, 1, v),
        Err(SimError::InvalidParameter)
    );
    assert_eq!(
        Body::with_velocity(0, 0, 10_000, VisualTag::Normal, 1_000, 1_000, 1_000, 0, v),
        Err(SimError::InvalidParameter)
    );
    assert_eq!(
        Body::with_velocity(0, 0, 10_000, VisualTag::Normal, 1_001, 1_000, 1_000, 1, v),
        Err(SimError::InvalidParameter)
    );
}

#[test]
fn construction_scales_mass_by_the_divisor() {
    let v = Vec2 { x: 0, y: 0 };
    let b = Body::with_velocity(0, 0, 10_000, VisualTag::Normal, 1_000, 1_000, 4_000, 4, v)
        .unwrap();
    assert_eq!(b.mass, 1_000);
    assert_eq!(b.max_speed, Vec2 { x: 250_000, y: 250_000 });
    assert!(!b.has_reproduced);
    assert_eq!(b.cooldown, 0);
}

#[test]
fn random_velocity_stays_in_range() {
    for _ in 0..32 {
        let b = Body::new(0, 0, 10_000, VisualTag::Normal, 1_000, 1_000, 1_000, 1).unwrap();
        assert!(-100_000 <= b.vel.x && b.vel.x <= 100_000);
        assert!(-100_000 <= b.vel.y && b.vel.y <= 100_000);
    }
}

#[test]
fn gravity_accelerates_downward() {
    let env = env_500();
    let mut b = ball(100_000, 100_000, 10_000, 1_000, Vec2 { x: 0, y: 0 });
    b.update(1_000, &env);
    // 50 units/s^2 for one second.
    assert_eq!(b.vel, Vec2 { x: 0, y: 50_000 });
    assert_eq!(b.pos, Vec2 { x: 100_000, y: 150_000 });
}

#[test]
fn boundary_bounce_dissipates_energy() {
    let env = env_500();
    let mut b = ball(100_000, 490_000, 10_000, 1_000, Vec2 { x: 0, y: 60_000 });
    b.restitution = 500;
    b.update(1_000, &env);
    // Falls with 110 units/s after gravity, reflects at half retention.
    assert_eq!(b.pos, Vec2 { x: 100_000, y: 490_000 });
    assert_eq!(b.vel, Vec2 { x: 0, y: -55_000 });
    assert!(55_000 < 110_000);
}

#[test]
fn surface_friction_brakes_on_the_floor() {
    let env = env_500();
    let mut b = ball(100_000, 490_000, 10_000, 1_000, Vec2 { x: 10_000, y: 0 });
    b.friction = 500;
    b.update(0, &env);
    assert_eq!(b.vel.x, 5_000);
}

#[test]
fn accumulated_force_is_one_shot() {
    let env = env_500();
    let mut b = ball(100_000, 100_000, 10_000, 2_000, Vec2 { x: 0, y: 0 });
    b.apply_force(Vec2 { x: 2_000, y: 0 });
    b.update(1_000, &env);
    // acceleration = 2000 / 2 units = 1000 milli-units per second squared.
    assert_eq!(b.vel.x, 1_000);
    assert_eq!(b.force, Vec2 { x: 0, y: 0 });
    b.update(1_000, &env);
    // No further horizontal acceleration: the force was consumed.
    assert_eq!(b.vel.x, 1_000);
}

#[test]
fn max_speed_clamp_is_asymmetric() {
    let env = env_500();
    let mut b = ball(500_000, 100_000, 10_000, 1_000, Vec2 { x: 300_000, y: -300_000 });
    b.update(0, &env);
    assert_eq!(b.vel, Vec2 { x: 250_000, y: -300_000 });
}

#[test]
fn held_body_ignores_physics() {
    let env = env_500();
    let mut b = ball(100_000, 100_000, 10_000, 1_000, Vec2 { x: 7_000, y: 7_000 });
    b.set_held(true);
    b.apply_force(Vec2 { x: 9_000, y: 9_000 });
    b.update(1_000, &env);
    assert_eq!(b.vel, Vec2 { x: 0, y: 0 });
    assert_eq!(b.pos, Vec2 { x: 100_000, y: 100_000 });
    assert_eq!(b.force, Vec2 { x: 0, y: 0 });
    b.set_position(Vec2 { x: 1_234, y: 5_678 });
    assert_eq!(b.pos, Vec2 { x: 1_234, y: 5_678 });
}

#[test]
fn covers_point_is_the_bounding_square() {
    let b = ball(100_000, 100_000, 10_000, 1_000, Vec2 { x: 0, y: 0 });
    assert!(b.covers_point(100_000, 100_000));
    assert!(b.covers_point(109_999, 91_000));
    assert!(!b.covers_point(110_000, 100_000));
    assert!(!b.covers_point(100_000, 90_000));
}

#[test]
fn head_on_collision_follows_the_impulse_formula() {
    let mut b1 = ball(0, 0, 10_000, 1_000, Vec2 { x: 5_000, y: 0 });
    let mut b2 = ball(15_000, 0, 10_000, 1_000, Vec2 { x: -5_000, y: 0 });
    let child = b1.collide(&mut b2);
    // Positions separated by half the overlap each.
    assert_eq!(b1.pos, Vec2 { x: -2_500, y: 0 });
    assert_eq!(b2.pos, Vec2 { x: 17_500, y: 0 });
    // j = -(1 + 0.7) * v_rel_normal = 17 units/s, applied to each body.
    assert_eq!(b1.vel, Vec2 { x: -12_000, y: 0 });
    assert_eq!(b2.vel, Vec2 { x: 12_000, y: 0 });
    // Momentum (equal masses) is conserved exactly here.
    assert_eq!(b1.vel.x + b2.vel.x, 0);
    // Both partners are flagged and cooled down; one child spawned.
    assert!(b1.has_reproduced && b2.has_reproduced);
    assert_eq!(b1.cooldown, 5_000);
    assert_eq!(b2.cooldown, 5_000);
    let c = child.unwrap();
    assert_eq!(c.pos, Vec2 { x: -2_500, y: 0 });
    assert_eq!(c.radius, 5_000);
    assert_eq!(c.mass, 2_000);
    assert!(!c.has_reproduced);
    assert!(-100_000 <= c.vel.x && c.vel.x <= 100_000);
    assert!(-100_000 <= c.vel.y && c.vel.y <= 100_000);
}

#[test]
fn overlap_correction_leaves_no_interpenetration() {
    let mut b1 = ball(0, 0, 4_000, 1_000, Vec2 { x: 0, y: 0 });
    let mut b2 = ball(3_000, 4_000, 4_000, 1_000, Vec2 { x: 0, y: 0 });
    b1.has_reproduced = true;
    let r = b1.collide(&mut b2);
    assert!(r.is_none());
    assert_eq!(b1.pos, Vec2 { x: -900, y: -1_200 });
    assert_eq!(b2.pos, Vec2 { x: 3_900, y: 5_200 });
    assert!(b1.pos.dist(&b2.pos) >= 4_000 + 4_000 - 2);
}

#[test]
fn separating_pair_keeps_its_velocities() {
    let mut b1 = ball(0, 0, 10_000, 1_000, Vec2 { x: -5_000, y: 0 });
    let mut b2 = ball(15_000, 0, 10_000, 1_000, Vec2 { x: 5_000, y: 0 });
    let r = b1.collide(&mut b2);
    assert!(r.is_none());
    assert_eq!(b1.vel, Vec2 { x: -5_000, y: 0 });
    assert_eq!(b2.vel, Vec2 { x: 5_000, y: 0 });
    // The positional correction still applies.
    assert_eq!(b1.pos, Vec2 { x: -2_500, y: 0 });
    assert_eq!(b2.pos, Vec2 { x: 17_500, y: 0 });
}

#[test]
fn flagged_partner_blocks_the_spawn() {
    let mut b1 = ball(0, 0, 10_000, 1_000, Vec2 { x: 5_000, y: 0 });
    let mut b2 = ball(15_000, 0, 10_000, 1_000, Vec2 { x: -5_000, y: 0 });
    b2.has_reproduced = true;
    let r = b1.collide(&mut b2);
    assert!(r.is_none());
    // The impulse is still applied.
    assert_eq!(b1.vel, Vec2 { x: -12_000, y: 0 });
}

#[test]
fn spawn_once_per_cooldown_window() {
    let env = env_500();
    let mut b1 = ball(300_000, 100_000, 10_000, 1_000, Vec2 { x: 5_000, y: 0 });
    let mut b2 = ball(315_000, 100_000, 10_000, 1_000, Vec2 { x: -5_000, y: 0 });
    assert!(b1.collide(&mut b2).is_some());
    // Immediately colliding again spawns nothing: both partners are flagged.
    let mut c1 = b1;
    let mut c2 = b2;
    c2.pos = Vec2 { x: c1.pos.x + 15_000, y: c1.pos.y };
    c2.vel = Vec2 { x: -5_000, y: 0 };
    c1.vel = Vec2 { x: 5_000, y: 0 };
    assert!(c1.collide(&mut c2).is_none());
    // The flag survives while the cooldown runs (2 of 5 time units)...
    let mut f = b1;
    f.update(2_000, &env);
    assert!(f.has_reproduced);
    assert_eq!(f.cooldown, 3_000);
    assert_eq!(f.tag, VisualTag::Flagged);
    // ...and clears one step after it has elapsed.
    f.update(3_000, &env);
    assert!(f.has_reproduced);
    assert_eq!(f.cooldown, 0);
    f.update(1, &env);
    assert!(!f.has_reproduced);
    assert_eq!(f.tag, VisualTag::Normal);
}

#[test]
fn coincident_centers_use_the_fallback_normal() {
    let mut b1 = ball(5_000, 5_000, 3_000, 1_000, Vec2 { x: 0, y: 0 });
    let mut b2 = ball(5_000, 5_000, 3_000, 1_000, Vec2 { x: 0, y: 0 });
    b1.has_reproduced = true;
    let r = b1.collide(&mut b2);
    assert!(r.is_none());
    // Pushed apart along the positive horizontal axis.
    assert_eq!(b1.pos, Vec2 { x: 2_000, y: 5_000 });
    assert_eq!(b2.pos, Vec2 { x: 8_000, y: 5_000 });
}

#[test]
fn held_pair_is_left_untouched_by_collide() {
    let mut b1 = ball(0, 0, 10_000, 1_000, Vec2 { x: 5_000, y: 0 });
    let mut b2 = ball(15_000, 0, 10_000, 1_000, Vec2 { x: -5_000, y: 0 });
    b1.set_held(true);
    let r = b1.collide(&mut b2);
    assert!(r.is_none());
    assert_eq!(b1.pos, Vec2 { x: 0, y: 0 });
    assert_eq!(b2.pos, Vec2 { x: 15_000, y: 0 });
    assert_eq!(b1.vel, Vec2 { x: 5_000, y: 0 });
    assert_eq!(b2.vel, Vec2 { x: -5_000, y: 0 });
}

#[test]
fn corner_resolves_both_axes_in_one_step() {
    let env = env_500();
    let mut b = ball(995_000, 485_000, 10_000, 1_000, Vec2 { x: 20_000, y: 0 });
    b.restitution = 500;
    b.update(1_000, &env);
    // After gravity the body moves (20, 50) units and crosses both the right
    // and the lower boundary; both corrections apply in the same step.
    assert_eq!(b.pos, Vec2 { x: 990_000, y: 490_000 });
    assert_eq!(b.vel, Vec2 { x: -10_000, y: -25_000 });
}

#[test]
fn environment_rejects_out_of_range_parameters() {
    assert_eq!(
        Env::new(-1, 500_000, 500, 100).unwrap_err(),
        SimError::InvalidParameter
    );
    assert_eq!(
        Env::new(1_000_000, 500_000, -5, 100).unwrap_err(),
        SimError::InvalidParameter
    );
    assert!(Env::new(1_000_000, 500_000, 0, 0).is_ok());
}

#[test]
fn set_position_saturates_into_the_representable_range() {
    let mut b = ball(0, 0, 10_000, 1_000, Vec2 { x: 0, y: 0 });
    b.set_position(Vec2 { x: i64::MAX, y: i64::MIN });
    assert_eq!(b.pos.x, 1_000_000_000_000_000_000);
    assert_eq!(b.pos.y, -1_000_000_000_000_000_000);
}
