//! Tests for collision detection and the merge policy.

use nbody::body::{new_body, new_preview, World};
use nbody::collision::{calc_collisions, resolve_collisions};
use nbody::vector::Vec2;

#[test]
fn overlapping_pair_is_flagged() {
    // Distance 1.0, radii 0.6 + 0.6 == 1.2: flagged.
    let mut w = World::new();
    w.add_body(new_body(Vec2::new(0, 0), Vec2::new(0, 0), 1000, 600));
    w.add_body(new_body(Vec2::new(1000, 0), Vec2::new(0, 0), 1000, 600));
    let pairs = calc_collisions(&w);
    assert_eq!(pairs, vec![(0, 1)]);
}

#[test]
fn distant_pair_is_not_flagged() {
    // Distance 1.3 against the same radius sum of 1.2: not flagged.
    let mut w = World::new();
    w.add_body(new_body(Vec2::new(0, 0), Vec2::new(0, 0), 1000, 600));
    w.add_body(new_body(Vec2::new(1300, 0), Vec2::new(0, 0), 1000, 600));
    let pairs = calc_collisions(&w);
    assert!(pairs.is_empty());
}

#[test]
fn touching_pair_is_flagged() {
    // Distance exactly equal to the radius sum still counts as overlap.
    let mut w = World::new();
    w.add_body(new_body(Vec2::new(0, 0), Vec2::new(0, 0), 1000, 600));
    w.add_body(new_body(Vec2::new(1200, 0), Vec2::new(0, 0), 1000, 600));
    let pairs = calc_collisions(&w);
    assert_eq!(pairs, vec![(0, 1)]);
}

#[test]
fn dead_bodies_are_ignored() {
    let mut w = World::new();
    w.add_body(new_body(Vec2::new(0, 0), Vec2::new(0, 0), 1000, 600));
    w.add_body(new_body(Vec2::new(1000, 0), Vec2::new(0, 0), 1000, 600));
    w.bodies[1].alive = false;
    assert!(calc_collisions(&w).is_empty());
}

#[test]
fn preview_bodies_collide_too() {
    let mut w = World::new();
    w.add_body(new_body(Vec2::new(0, 0), Vec2::new(0, 0), 1000, 600));
    w.add_body(new_preview(Vec2::new(500, 0), Vec2::new(0, 0), 100));
    let pairs = calc_collisions(&w);
    assert_eq!(pairs, vec![(0, 1)]);
}

#[test]
fn pairs_come_in_ascending_handle_order() {
    // Three mutually overlapping bodies: every pair once, sorted.
    let mut w = World::new();
    w.add_body(new_body(Vec2::new(0, 0), Vec2::new(0, 0), 1000, 900));
    w.add_body(new_body(Vec2::new(500, 0), Vec2::new(0, 0), 1000, 900));
    w.add_body(new_body(Vec2::new(0, 500), Vec2::new(0, 0), 1000, 900));
    let pairs = calc_collisions(&w);
    assert_eq!(pairs, vec![(0, 1), (0, 2), (1, 2)]);
}

#[test]
fn merge_conserves_momentum_and_sums_mass() {
    // 2.0 kg at +0.3 against 1.0 kg at -0.3: the heavier wins the slot,
    // the merged velocity is (2*0.3 - 1*0.3)/3 == 0.1.
    let mut w = World::new();
    w.add_body(new_body(Vec2::new(0, 0), Vec2::new(300, 0), 2000, 500));
    w.add_body(new_body(Vec2::new(500, 0), Vec2::new(-300, 0), 1000, 700));
    let pairs = calc_collisions(&w);
    assert_eq!(pairs, vec![(0, 1)]);
    resolve_collisions(&mut w, &pairs);
    let winner = w.bodies[0];
    let loser = w.bodies[1];
    assert!(winner.alive);
    assert!(!loser.alive);
    assert_eq!(winner.mass, 3000);
    assert_eq!(winner.vel, Vec2::new(100, 0));
    assert_eq!(winner.radius, 700, "the larger radius is kept");
    assert_eq!(winner.pos, Vec2::new(0, 0), "the absorber stays put");
}

#[test]
fn heavier_body_absorbs_regardless_of_order() {
    let mut w = World::new();
    w.add_body(new_body(Vec2::new(0, 0), Vec2::new(300, 0), 1000, 500));
    w.add_body(new_body(Vec2::new(500, 0), Vec2::new(-300, 0), 2000, 700));
    let pairs = calc_collisions(&w);
    resolve_collisions(&mut w, &pairs);
    assert!(!w.bodies[0].alive);
    assert!(w.bodies[1].alive);
    assert_eq!(w.bodies[1].mass, 3000);
    assert_eq!(w.bodies[1].vel, Vec2::new(-100, 0));
}

#[test]
fn a_body_deleted_earlier_in_the_pass_is_skipped() {
    // Three in a row, all overlapping. After (0,1) merges into 0, body 1
    // is dead, so (1,2) is skipped; (0,2) then merges too.
    let mut w = World::new();
    w.add_body(new_body(Vec2::new(0, 0), Vec2::new(0, 0), 3000, 900));
    w.add_body(new_body(Vec2::new(500, 0), Vec2::new(0, 0), 2000, 900));
    w.add_body(new_body(Vec2::new(1000, 0), Vec2::new(0, 0), 1000, 900));
    let pairs = calc_collisions(&w);
    assert_eq!(pairs, vec![(0, 1), (0, 2), (1, 2)]);
    resolve_collisions(&mut w, &pairs);
    assert!(w.bodies[0].alive);
    assert!(!w.bodies[1].alive);
    assert!(!w.bodies[2].alive);
    assert_eq!(w.bodies[0].mass, 6000);
}

#[test]
fn massless_pair_is_left_untouched() {
    // Two overlapping preview bodies have zero combined mass: no merge.
    let mut w = World::new();
    w.add_body(new_preview(Vec2::new(0, 0), Vec2::new(0, 0), 600));
    w.add_body(new_preview(Vec2::new(500, 0), Vec2::new(0, 0), 600));
    let pairs = calc_collisions(&w);
    assert_eq!(pairs, vec![(0, 1)]);
    resolve_collisions(&mut w, &pairs);
    assert!(w.bodies[0].alive && w.bodies[1].alive);
}
