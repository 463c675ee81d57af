//! Scenario tests for the integrator, the orchestrator and the preview
//! lifecycle, on concrete worlds.

use nbody::body::{new_body, new_preview, World};
use nbody::fixed::{fx_add, fx_mul, FX_MAX, FX_MIN};
use nbody::orchestrator::{Config, FrameSignals, PhysicsSys};
use nbody::physics::DEFAULT_G;
use nbody::vector::Vec2;

fn quiet_config(main_iterations: u32, preview_iterations: u32) -> Config {
    Config {
        main_iterations,
        preview_iterations,
        dt: 10, // 0.01 time units
        g: DEFAULT_G,
        paused: false,
    }
}

fn no_signals() -> FrameSignals {
    FrameSignals {
        start_point: None,
        target_point: Vec2::new(0, 0),
        recreate_preview: false,
        create_radius: 300,
    }
}

#[test]
fn single_body_inertia() {
    // A lone body at rest with no other massive bodies: zero acceleration
    // and an unchanged position after any number of steps.
    let mut w = World::new();
    w.add_body(new_body(Vec2::new(15000, 15000), Vec2::new(0, 0), 100_000, 1000));
    PhysicsSys::run(&mut w, 25, 0, 10, DEFAULT_G);
    let b = w.bodies[0];
    assert_eq!(b.pos, Vec2::new(15000, 15000));
    assert_eq!(b.vel, Vec2::new(0, 0));
    assert_eq!(b.accel, Vec2::new(0, 0));
    assert!(b.alive);
}

#[test]
fn gravity_pull_has_the_exact_textbook_value() {
    // A unit distance and a mass of 100: the pull is g * m / r^2 exactly.
    let mut w = World::new();
    w.add_body(new_body(Vec2::new(0, 0), Vec2::new(0, 0), 1, 100));
    w.add_body(new_body(Vec2::new(1000, 0), Vec2::new(0, 0), 100_000, 100));
    PhysicsSys::run(&mut w, 1, 0, 10, DEFAULT_G);
    let b = w.bodies[0];
    // Positions move first, on the zero acceleration left from before.
    assert_eq!(b.pos, Vec2::new(0, 0));
    // 66.74 * 100 / 1^2 == 6674.0 units of acceleration.
    assert_eq!(b.accel, Vec2::new(6_674_000, 0));
    assert_eq!(b.past_accel, Vec2::new(6_674_000, 0));
    // One velocity update: (0 + 6674.0)/2 * 0.01 == 33.37.
    assert_eq!(b.vel, Vec2::new(33370, 0));
}

#[test]
fn two_body_symmetry() {
    // Equal masses, mirror-image starts, zero velocity: the trajectories
    // stay exact mirror images and total momentum stays exactly zero.
    let mut w = World::new();
    w.add_body(new_body(Vec2::new(-2000, 500), Vec2::new(0, 0), 10_000, 100));
    w.add_body(new_body(Vec2::new(2000, -500), Vec2::new(0, 0), 10_000, 100));
    PhysicsSys::run(&mut w, 10, 0, 10, DEFAULT_G);
    let a = w.bodies[0];
    let b = w.bodies[1];
    assert_eq!(b.pos.x, -a.pos.x);
    assert_eq!(b.pos.y, -a.pos.y);
    assert_eq!(b.vel.x, -a.vel.x);
    assert_eq!(b.vel.y, -a.vel.y);
    assert_eq!(b.accel.x, -a.accel.x);
    assert_eq!(b.accel.y, -a.accel.y);
    // The bodies attract each other, so something did move.
    assert_ne!(a.pos, Vec2::new(-2000, 500));
    // Total fixed-point momentum, computed with the library's own ops.
    assert_eq!(fx_add(fx_mul(a.mass, a.vel.x), fx_mul(b.mass, b.vel.x)), 0);
    assert_eq!(fx_add(fx_mul(a.mass, a.vel.y), fx_mul(b.mass, b.vel.y)), 0);
}

#[test]
fn two_body_momentum_drift_is_bounded() {
    // Unequal masses: truncation may leak momentum, but the drift over a
    // short closed run stays far below the momenta involved.
    let mut w = World::new();
    w.add_body(new_body(Vec2::new(0, 0), Vec2::new(0, 0), 100_000, 100));
    w.add_body(new_body(Vec2::new(10000, 0), Vec2::new(0, 0), 50_000, 100));
    PhysicsSys::run(&mut w, 20, 0, 10, DEFAULT_G);
    let a = w.bodies[0];
    let b = w.bodies[1];
    let px = fx_add(fx_mul(a.mass, a.vel.x), fx_mul(b.mass, b.vel.x));
    let py = fx_add(fx_mul(a.mass, a.vel.y), fx_mul(b.mass, b.vel.y));
    // Each body's own momentum is in the thousands of units by now.
    assert!(fx_mul(a.mass, a.vel.x) > 1000);
    assert!(px.abs() <= 1000, "x momentum drifted to {}", px);
    assert_eq!(py, 0);
}

#[test]
fn zero_iteration_tick_changes_nothing() {
    let mut w = World::new();
    w.add_body(new_body(Vec2::new(123, 456), Vec2::new(7, -8), 9000, 100));
    w.add_body(new_preview(Vec2::new(-1, 2), Vec2::new(3, 4), 50));
    let before: Vec<_> = w.bodies.clone();
    let cfg = quiet_config(0, 0);
    let mut sig = no_signals();
    w.run_physics_systems(&cfg, &mut sig);
    assert_eq!(w.bodies, before);
    assert!(!sig.recreate_preview);
}

#[test]
fn preview_pass_never_touches_real_bodies() {
    let mut w = World::new();
    w.add_body(new_body(Vec2::new(10000, 0), Vec2::new(100, 0), 50_000, 100));
    w.add_body(new_preview(Vec2::new(0, 10000), Vec2::new(0, -100), 500));
    let real_before = w.bodies[0];
    let preview_before = w.bodies[1];
    PhysicsSys::run(&mut w, 0, 8, 10, DEFAULT_G);
    assert_eq!(w.bodies[0], real_before);
    // The preview body is pulled by the real body's mass and did move.
    assert_ne!(w.bodies[1].pos, preview_before.pos);
}

#[test]
fn main_pass_never_touches_preview_bodies() {
    let mut w = World::new();
    w.add_body(new_body(Vec2::new(10000, 0), Vec2::new(100, 0), 50_000, 100));
    w.add_body(new_preview(Vec2::new(0, 10000), Vec2::new(0, -100), 500));
    let preview_before = w.bodies[1];
    PhysicsSys::run(&mut w, 8, 0, 10, DEFAULT_G);
    assert_eq!(w.bodies[1], preview_before);
    // The real body moved: it has velocity.
    assert_ne!(w.bodies[0].pos, Vec2::new(10000, 0));
}

#[test]
fn paused_frame_still_runs_the_preview_pass() {
    let mut w = World::new();
    w.add_body(new_body(Vec2::new(10000, 0), Vec2::new(100, 0), 50_000, 100));
    w.add_body(new_preview(Vec2::new(0, 10000), Vec2::new(0, -100), 500));
    let real_before = w.bodies[0];
    let preview_before = w.bodies[1];
    let cfg = Config { paused: true, ..quiet_config(5, 5) };
    let mut sig = no_signals();
    w.run_physics_systems(&cfg, &mut sig);
    assert_eq!(w.bodies[0], real_before);
    assert_ne!(w.bodies[1].pos, preview_before.pos);
}

#[test]
fn recreate_preview_is_deterministic() {
    // start (0,0), target (4,0): the new preview body sits at the start
    // point with velocity (start - target) * 0.025 == (-0.1, 0).
    let mut w = World::new();
    let cfg = quiet_config(0, 0);
    let mut sig = FrameSignals {
        start_point: Some(Vec2::new(0, 0)),
        target_point: Vec2::new(4000, 0),
        recreate_preview: true,
        create_radius: 300,
    };
    w.run_physics_systems(&cfg, &mut sig);
    assert_eq!(w.bodies.len(), 1);
    let p = w.bodies[0];
    assert!(p.preview && p.alive);
    assert_eq!(p.pos, Vec2::new(0, 0));
    assert_eq!(p.vel, Vec2::new(-100, 0));
    assert_eq!(p.mass, 0);
    assert_eq!(p.radius, 300);
    assert!(!sig.recreate_preview);
}

#[test]
fn recreate_replaces_the_old_preview() {
    let mut w = World::new();
    w.add_body(new_body(Vec2::new(9000, 9000), Vec2::new(0, 0), 70_000, 900));
    w.add_body(new_preview(Vec2::new(1, 1), Vec2::new(2, 2), 50));
    let cfg = quiet_config(0, 0);
    let mut sig = FrameSignals {
        start_point: Some(Vec2::new(500, 600)),
        target_point: Vec2::new(500, 600),
        recreate_preview: true,
        create_radius: 40,
    };
    w.run_physics_systems(&cfg, &mut sig);
    assert_eq!(w.bodies.len(), 3);
    assert!(w.bodies[0].alive && !w.bodies[0].preview);
    assert!(!w.bodies[1].alive, "the old preview body must be tombstoned");
    let p = w.bodies[2];
    assert!(p.alive && p.preview);
    assert_eq!(p.pos, Vec2::new(500, 600));
    assert_eq!(p.vel, Vec2::new(0, 0));
}

#[test]
fn recreate_without_a_start_point_only_deletes() {
    let mut w = World::new();
    w.add_body(new_preview(Vec2::new(1, 1), Vec2::new(2, 2), 50));
    let cfg = quiet_config(0, 0);
    let mut sig = FrameSignals { recreate_preview: true, ..no_signals() };
    w.run_physics_systems(&cfg, &mut sig);
    assert_eq!(w.bodies.len(), 1);
    assert!(!w.bodies[0].alive);
    assert!(!sig.recreate_preview);
}

#[test]
fn repeated_runs_are_bit_identical() {
    let build = || {
        let mut w = World::new();
        w.add_body(new_body(Vec2::new(-2000, 500), Vec2::new(10, 0), 10_000, 100));
        w.add_body(new_body(Vec2::new(2000, -500), Vec2::new(0, -10), 30_000, 100));
        w.add_body(new_preview(Vec2::new(0, 3000), Vec2::new(5, 5), 50));
        w
    };
    let mut w1 = build();
    let mut w2 = build();
    PhysicsSys::run(&mut w1, 7, 3, 10, DEFAULT_G);
    PhysicsSys::run(&mut w2, 7, 3, 10, DEFAULT_G);
    assert_eq!(w1.bodies, w2.bodies);
}

#[test]
fn extreme_coordinates_saturate_instead_of_panicking() {
    let mut w = World::new();
    w.add_body(new_body(Vec2::new(FX_MAX, FX_MIN), Vec2::new(FX_MAX, 0), FX_MAX, FX_MAX));
    w.add_body(new_body(Vec2::new(FX_MIN, FX_MAX), Vec2::new(0, FX_MIN), FX_MAX, FX_MAX));
    PhysicsSys::run(&mut w, 3, 0, FX_MAX, FX_MAX);
    for b in w.bodies.iter() {
        assert!(b.pos.x >= FX_MIN && b.vel.x >= FX_MIN && b.accel.x >= FX_MIN);
    }
}

#[test]
fn delete_preview_spares_real_bodies() {
    let mut w = World::new();
    w.add_body(new_body(Vec2::new(0, 0), Vec2::new(0, 0), 1000, 100));
    w.add_body(new_preview(Vec2::new(1, 0), Vec2::new(0, 0), 10));
    w.add_body(new_preview(Vec2::new(2, 0), Vec2::new(0, 0), 10));
    w.delete_preview();
    assert!(w.bodies[0].alive);
    assert!(!w.bodies[1].alive);
    assert!(!w.bodies[2].alive);
}

#[test]
fn new_body_starts_with_a_clear_acceleration_history() {
    let b = new_body(Vec2::new(5, 6), Vec2::new(7, 8), 900, 10);
    assert_eq!(b.accel, Vec2::new(0, 0));
    assert_eq!(b.past_accel, Vec2::new(0, 0));
    assert!(!b.preview);
    assert!(b.alive);
    let p = new_preview(Vec2::new(5, 6), Vec2::new(7, 8), 10);
    assert!(p.preview);
    assert_eq!(p.mass, 0, "a preview body exerts no gravity of its own");
}
