use particles::body::{Body, Env, VisualTag};
use particles::vec2::Vec2;
use particles::world::World;

fn env_500() -> Env {
    Env::new(1_000_000, 500_000, 500, 100).unwrap()
}

fn ball(x: i64, y: i64, radius: i64, mass: i64, vel: Vec2) -> Body {
    Body::with_velocity(x, y, radius, VisualTag::Normal, 1_000, 1_000, mass, 1, vel).unwrap()
}

#[test]
fn step_matches_a_single_body_update() {
    let env = env_500();
    let mut w = World::new(env);
    w.add_body(ball(100_000, 100_000, 10_000, 1_000, Vec2 { x: 3_000, y: 0 }));
    let mut b = ball(100_000, 100_000, 10_000, 1_000, Vec2 { x: 3_000, y: 0 });
    w.step(16);
    b.update(16, &env);
    assert_eq!(w.get_body(0), b);
    assert_eq!(w.body_count(), 1);
}

#[test]
fn update_all_advances_without_pair_resolution() {
    let env = env_500();
    let mut w = World::new(env);
    // An overlapping pair: update_all must not resolve it.
    w.add_body(ball(100_000, 100_000, 10_000, 1_000, Vec2 { x: 0, y: 0 }));
    w.add_body(ball(105_000, 100_000, 10_000, 1_000, Vec2 { x: 0, y: 0 }));
    w.update_all(0);
    assert_eq!(w.get_body(0).pos, Vec2 { x: 100_000, y: 100_000 });
    assert_eq!(w.get_body(1).pos, Vec2 { x: 105_000, y: 100_000 });
    assert_eq!(w.body_count(), 2);
}

#[test]
fn children_join_after_the_scan() {
    let env = env_500();
    let mut w = World::new(env);
    w.add_body(ball(300_000, 100_000, 10_000, 1_000, Vec2 { x: 5_000, y: 0 }));
    w.add_body(ball(315_000, 100_000, 10_000, 1_000, Vec2 { x: -5_000, y: 0 }));
    w.step(0);
    // Exactly one child, appended after the two parents.
    assert_eq!(w.body_count(), 3);
    let c = w.get_body(2);
    assert_eq!(c.radius, 5_000);
    assert!(!c.has_reproduced);
    assert!(w.get_body(0).has_reproduced);
    assert!(w.get_body(1).has_reproduced);
    // The next tick spawns no further child within the cooldown window.
    w.step(16);
    assert_eq!(w.body_count(), 3);
}

#[test]
fn trajectories_are_deterministic() {
    let env = env_500();
    let mut w1 = World::new(env);
    let mut w2 = World::new(env);
    for w in [&mut w1, &mut w2] {
        let mut a = ball(100_000, 50_000, 10_000, 1_000, Vec2 { x: 40_000, y: -10_000 });
        let mut b = ball(400_000, 80_000, 20_000, 3_000, Vec2 { x: -30_000, y: 5_000 });
        // Pre-flagged bodies spawn no children, so no random draws occur.
        a.has_reproduced = true;
        a.cooldown = 1_000_000;
        b.has_reproduced = true;
        b.cooldown = 1_000_000;
        w.add_body(a);
        w.add_body(b);
    }
    for _ in 0..200 {
        w1.step(16);
        w2.step(16);
    }
    assert_eq!(w1.body_count(), 2);
    for i in 0..2 {
        assert_eq!(w1.get_body(i), w2.get_body(i));
    }
}

#[test]
fn held_body_is_untouched_by_a_step() {
    let env = env_500();
    let mut w = World::new(env);
    w.add_body(ball(300_000, 100_000, 10_000, 1_000, Vec2 { x: 5_000, y: 0 }));
    w.add_body(ball(315_000, 100_000, 10_000, 1_000, Vec2 { x: -5_000, y: 0 }));
    w.set_held(0, true);
    w.step(1_000);
    let held = w.get_body(0);
    assert_eq!(held.pos, Vec2 { x: 300_000, y: 100_000 });
    assert_eq!(held.vel, Vec2 { x: 0, y: 0 });
    // The pair was skipped entirely: no spawn either.
    assert_eq!(w.body_count(), 2);
}

#[test]
fn world_control_surface_reaches_the_body() {
    let env = env_500();
    let mut w = World::new(env);
    w.add_body(ball(100_000, 100_000, 10_000, 1_000, Vec2 { x: 0, y: 0 }));
    w.set_position(0, Vec2 { x: 7_000, y: 8_000 });
    assert_eq!(w.get_body(0).pos, Vec2 { x: 7_000, y: 8_000 });
    w.apply_force(0, Vec2 { x: 123, y: 456 });
    assert_eq!(w.get_body(0).force, Vec2 { x: 123, y: 456 });
    w.set_held(0, true);
    assert!(w.get_body(0).is_held);
}
