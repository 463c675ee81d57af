//! The physics passes: gravity evaluation and velocity-Verlet integration.
//!
//! One step over the active set (selected by `preview_only`) runs three
//! strictly sequential phases, each a pass over the whole store:
//! positions first (from the acceleration left over from the previous
//! step), then a fresh gravity evaluation from the just-updated positions,
//! then velocities from the trapezoidal average of old and new
//! acceleration. Within a phase every body is updated from the same
//! snapshot, so the phase order — not the iteration order — decides what
//! each body sees.
//!
//! Gravity excludes a body from its own sum strictly by handle, never by
//! position, so two distinct bodies sharing exact coordinates still
//! attract everything else; a coincident pair contributes nothing to each
//! other, which stands in for a minimum-distance floor at zero distance.

use vstd::prelude::*;

use crate::body::{in_pass, Body, World};
use crate::fixed::{
    fx_mul, lemma_sat_neg, lemma_sqrt_bracket, lemma_tdiv_neg, mul_div_sat, sat, sfx_mul,
    spec_sqrt, tdiv, SCALE,
};
use crate::vector::{
    sv2_add, sv2_half, sv2_neg, sv2_raw2, sv2_scale, sv2_sub, sv2_zero, v2_add, v2_half, v2_ok,
    v2_raw2, v2_scale, v2_sub, Vec2,
};

verus! {

/// The default gravitational constant, in thousandths: 66.74 world units.
pub const DEFAULT_G: i64 = 66740;

/// The acceleration one source body at displacement `d` induces: the unit
/// vector toward the source times `g * m / |d|^2`, evaluated stepwise in
/// saturating fixed point. A source at exactly zero distance contributes
/// nothing.
pub open spec fn spec_contrib(g: i64, m: i64, d: Vec2) -> Vec2 {
    let raw2 = sv2_raw2(d);
    if raw2 == 0 {
        sv2_zero()
    } else {
        let mag = spec_sqrt(raw2 as nat) as int;
        let t1 = sfx_mul(g, m);
        let t2 = sat(tdiv(t1 * SCALE, mag));
        let t3 = sat(tdiv(t2 * SCALE, mag));
        Vec2 { x: sat(tdiv(t3 * d.x, mag)), y: sat(tdiv(t3 * d.y, mag)) }
    }
}

/// Net acceleration on body `i` from the first `n` slots: every live body
/// other than `i` itself contributes, preview or not, whatever its mass's
/// sign. Exclusion is by handle only.
pub open spec fn spec_accel_sum(s: Seq<Body>, i: int, g: i64, n: int) -> Vec2
    decreases n,
{
    if n <= 0 {
        sv2_zero()
    } else {
        let prev = spec_accel_sum(s, i, g, n - 1);
        let j = n - 1;
        if j != i && s[j].alive {
            sv2_add(prev, spec_contrib(g, s[j].mass, sv2_sub(s[j].pos, s[i].pos)))
        } else {
            prev
        }
    }
}

/// Position phase for one body: `pos += vel*dt + (accel/2)*dt^2`, with the
/// acceleration left over from the previous step.
pub open spec fn spec_step_pos(b: Body, dt: i64) -> Body {
    Body {
        pos: sv2_add(
            b.pos,
            sv2_add(sv2_scale(b.vel, dt), sv2_scale(sv2_half(b.accel), sfx_mul(dt, dt))),
        ),
        ..b
    }
}

/// Velocity phase for one body: `vel += (accel + past_accel)/2 * dt`, then
/// the new acceleration is remembered for the next step.
pub open spec fn spec_step_vel(b: Body, dt: i64) -> Body {
    Body {
        vel: sv2_add(b.vel, sv2_scale(sv2_half(sv2_add(b.accel, b.past_accel)), dt)),
        past_accel: b.accel,
        ..b
    }
}

/// The position phase over the active set.
pub open spec fn spec_position_pass(s: Seq<Body>, dt: i64, po: bool) -> Seq<Body> {
    s.map(
        |i: int, b: Body|
            if in_pass(b, po) {
                spec_step_pos(b, dt)
            } else {
                b
            },
    )
}

/// The gravity phase over the active set: each active body's acceleration
/// is replaced by its fresh sum; sources are all live bodies.
pub open spec fn spec_gravity_pass(s: Seq<Body>, g: i64, po: bool) -> Seq<Body> {
    s.map(
        |i: int, b: Body|
            if in_pass(b, po) {
                Body { accel: spec_accel_sum(s, i, g, s.len() as int), ..b }
            } else {
                b
            },
    )
}

/// The velocity phase over the active set.
pub open spec fn spec_kinematics_pass(s: Seq<Body>, dt: i64, po: bool) -> Seq<Body> {
    s.map(
        |i: int, b: Body|
            if in_pass(b, po) {
                spec_step_vel(b, dt)
            } else {
                b
            },
    )
}

/// One full velocity-Verlet step over the active set.
pub open spec fn spec_step(s: Seq<Body>, dt: i64, g: i64, po: bool) -> Seq<Body> {
    spec_kinematics_pass(spec_gravity_pass(spec_position_pass(s, dt, po), g, po), dt, po)
}

/// `n` full steps over the active set.
pub open spec fn spec_steps(s: Seq<Body>, dt: i64, g: i64, po: bool, n: nat) -> Seq<Body>
    decreases n,
{
    if n == 0 {
        s
    } else {
        spec_steps(spec_step(s, dt, g, po), dt, g, po, (n - 1) as nat)
    }
}

/// A massless source pulls on nothing.
pub proof fn lemma_contrib_zero_mass(g: i64, d: Vec2)
    ensures
        spec_contrib(g, 0, d) == sv2_zero(),
{
    let raw2 = sv2_raw2(d);
    if raw2 != 0 {
        assert(raw2 >= 0) by (nonlinear_arith)
            requires
                raw2 == d.x as int * d.x as int + d.y as int * d.y as int,
        ;
        lemma_sqrt_bracket(raw2 as nat);
        let s = spec_sqrt(raw2 as nat);
        assert(s >= 1) by (nonlinear_arith)
            requires
                raw2 >= 1,
                raw2 < (s + 1) * (s + 1),
        ;
        let mag = s as int;
        assert(g as int * 0int == 0) by (nonlinear_arith);
        crate::fixed::lemma_tdiv_zero(SCALE as int);
        assert(sfx_mul(g, 0) == 0);
        crate::fixed::lemma_tdiv_zero(mag);
        let t3: i64 = 0;
        assert(t3 as int * d.x as int == 0 && t3 as int * d.y as int == 0) by (nonlinear_arith)
            requires
                t3 as int == 0,
        ;
    }
}

/// The pull is odd in the displacement: mirroring the world mirrors every
/// contribution exactly, because truncation and saturation are both odd.
pub proof fn lemma_contrib_neg(g: i64, m: i64, d: Vec2)
    requires
        v2_ok(d),
    ensures
        spec_contrib(g, m, sv2_neg(d)) == sv2_neg(spec_contrib(g, m, d)),
        v2_ok(spec_contrib(g, m, d)),
{
    let nd = sv2_neg(d);
    assert(nd.x as int == -(d.x as int) && nd.y as int == -(d.y as int));
    assert(sv2_raw2(nd) == sv2_raw2(d)) by (nonlinear_arith)
        requires
            nd.x as int == -(d.x as int),
            nd.y as int == -(d.y as int),
            sv2_raw2(nd) == nd.x as int * nd.x as int + nd.y as int * nd.y as int,
            sv2_raw2(d) == d.x as int * d.x as int + d.y as int * d.y as int,
    ;
    let raw2 = sv2_raw2(d);
    if raw2 == 0 {
    } else {
        lemma_sqrt_bracket(raw2 as nat);
        let s = spec_sqrt(raw2 as nat);
        assert(raw2 >= 0) by (nonlinear_arith)
            requires
                raw2 == d.x as int * d.x as int + d.y as int * d.y as int,
        ;
        assert(s >= 1) by (nonlinear_arith)
            requires
                raw2 >= 1,
                raw2 < (s + 1) * (s + 1),
        ;
        let mag = s as int;
        let t1 = sfx_mul(g, m);
        let t2 = sat(tdiv(t1 * SCALE, mag));
        let t3 = sat(tdiv(t2 * SCALE, mag));
        assert(t3 as int * nd.x as int == -(t3 as int * d.x as int)) by (nonlinear_arith)
            requires
                nd.x as int == -(d.x as int),
        ;
        assert(t3 as int * nd.y as int == -(t3 as int * d.y as int)) by (nonlinear_arith)
            requires
                nd.y as int == -(d.y as int),
        ;
        lemma_tdiv_neg(t3 * d.x, mag);
        lemma_tdiv_neg(t3 * d.y, mag);
        lemma_sat_neg(tdiv(t3 * d.x, mag));
        lemma_sat_neg(tdiv(t3 * d.y, mag));
    }
}

/// Net acceleration on a body is zero when every other live body is
/// massless.
pub proof fn lemma_accel_sum_zero(s: Seq<Body>, i: int, g: i64, n: int)
    requires
        forall|j: int| 0 <= j < n && j != i && #[trigger] s[j].alive ==> s[j].mass == 0,
    ensures
        spec_accel_sum(s, i, g, n) == sv2_zero(),
    decreases n,
{
    if n > 0 {
        lemma_accel_sum_zero(s, i, g, n - 1);
        let j = n - 1;
        if j != i && s[j].alive {
            lemma_contrib_zero_mass(g, sv2_sub(s[j].pos, s[i].pos));
        }
    }
}

/// Peeling the last step off a run of `n + 1`.
pub proof fn lemma_steps_snoc(s: Seq<Body>, dt: i64, g: i64, po: bool, n: nat)
    ensures
        spec_steps(s, dt, g, po, n + 1) == spec_step(spec_steps(s, dt, g, po, n), dt, g, po),
    decreases n,
{
    reveal_with_fuel(spec_steps, 3);
    if n > 0 {
        lemma_steps_snoc(spec_step(s, dt, g, po), dt, g, po, (n - 1) as nat);
    }
}

/// Run `n` full steps over the active set.
pub fn run_steps(world: &mut World, dt: i64, g: i64, preview_only: bool, n: u32)
    ensures
        final(world).bodies@ == spec_steps(old(world).bodies@, dt, g, preview_only, n as nat),
{
    let mut k: u32 = 0;
    while k < n
        invariant
            k <= n,
            world.bodies@ == spec_steps(old(world).bodies@, dt, g, preview_only, k as nat),
        decreases n - k,
    {
        step(world, dt, g, preview_only);
        proof {
            lemma_steps_snoc(old(world).bodies@, dt, g, preview_only, k as nat);
        }
        k = k + 1;
    }
}

/// The acceleration one source induces, executable.
pub fn pull(g: i64, m: i64, d: Vec2) -> (c: Vec2)
    ensures
        c == spec_contrib(g, m, d),
{
    let raw2 = v2_raw2(d);
    if raw2 == 0 {
        return Vec2 { x: 0, y: 0 };
    }
    let mag = crate::fixed::isqrt(raw2);
    proof {
        lemma_sqrt_bracket(raw2 as nat);
        let s = spec_sqrt(raw2 as nat);
        assert(s >= 1) by (nonlinear_arith)
            requires
                raw2 as int >= 1,
                (raw2 as int) < (s + 1) * (s + 1),
        ;
    }
    let t1 = fx_mul(g, m);
    let t2 = mul_div_sat(t1, SCALE, mag);
    let t3 = mul_div_sat(t2, SCALE, mag);
    Vec2 { x: mul_div_sat(t3, d.x, mag), y: mul_div_sat(t3, d.y, mag) }
}

/// Gravity never reads accelerations: the sum is the same over any two
/// snapshots that agree on position, mass and liveness.
pub proof fn lemma_accel_sum_congruence(s1: Seq<Body>, s2: Seq<Body>, i: int, g: i64, n: int)
    requires
        s1.len() == s2.len(),
        n <= s1.len(),
        0 <= i < s1.len(),
        forall|j: int|
            0 <= j < s1.len() ==> #[trigger] s1[j].pos == s2[j].pos && s1[j].mass == s2[j].mass
                && s1[j].alive == s2[j].alive,
    ensures
        spec_accel_sum(s1, i, g, n) == spec_accel_sum(s2, i, g, n),
    decreases n,
{
    if n > 0 {
        lemma_accel_sum_congruence(s1, s2, i, g, n - 1);
        let j = n - 1;
        assert(s1[j].pos == s2[j].pos && s1[j].mass == s2[j].mass && s1[j].alive == s2[j].alive);
        assert(s1[i].pos == s2[i].pos);
    }
}

/// Advance positions of the active set; phase one of a step.
pub fn integrate_positions(world: &mut World, dt: i64, preview_only: bool)
    ensures
        final(world).bodies@ == spec_position_pass(old(world).bodies@, dt, preview_only),
{
    let n = world.bodies.len();
    let mut i: usize = 0;
    while i < n
        invariant
            n == world.bodies.len(),
            old(world).bodies@.len() == n,
            i <= n,
            forall|j: int|
                0 <= j < i ==> world.bodies@[j] == spec_position_pass(
                    old(world).bodies@,
                    dt,
                    preview_only,
                )[j],
            forall|j: int| i <= j < n ==> world.bodies@[j] == old(world).bodies@[j],
        decreases n - i,
    {
        let b = world.bodies[i];
        if b.alive && b.preview == preview_only {
            let dt2 = fx_mul(dt, dt);
            let shift = v2_add(v2_scale(b.vel, dt), v2_scale(v2_half(b.accel), dt2));
            world.bodies[i] = Body { pos: v2_add(b.pos, shift), ..b };
        }
        i = i + 1;
    }
    proof {
        assert(world.bodies@ =~= spec_position_pass(old(world).bodies@, dt, preview_only));
    }
}

/// Recompute accelerations of the active set from the current positions;
/// phase two of a step. Every body's sum reads the same position snapshot.
pub fn apply_gravity(world: &mut World, g: i64, preview_only: bool)
    ensures
        final(world).bodies@ == spec_gravity_pass(old(world).bodies@, g, preview_only),
{
    let n = world.bodies.len();
    let mut i: usize = 0;
    while i < n
        invariant
            n == world.bodies.len(),
            old(world).bodies@.len() == n,
            i <= n,
            forall|j: int|
                0 <= j < i ==> world.bodies@[j] == spec_gravity_pass(
                    old(world).bodies@,
                    g,
                    preview_only,
                )[j],
            forall|j: int| i <= j < n ==> world.bodies@[j] == old(world).bodies@[j],
            forall|j: int|
                0 <= j < n ==> #[trigger] world.bodies@[j].pos == old(world).bodies@[j].pos
                    && world.bodies@[j].mass == old(world).bodies@[j].mass
                    && world.bodies@[j].alive == old(world).bodies@[j].alive,
        decreases n - i,
    {
        let b = world.bodies[i];
        if b.alive && b.preview == preview_only {
            let mut acc = Vec2 { x: 0, y: 0 };
            let mut j: usize = 0;
            while j < n
                invariant
                    n == world.bodies.len(),
                    i < n,
                    j <= n,
                    b == world.bodies@[i as int],
                    acc == spec_accel_sum(world.bodies@, i as int, g, j as int),
                decreases n - j,
            {
                let bj = world.bodies[j];
                if j != i && bj.alive {
                    let d = v2_sub(bj.pos, b.pos);
                    acc = v2_add(acc, pull(g, bj.mass, d));
                }
                j = j + 1;
            }
            proof {
                lemma_accel_sum_congruence(
                    world.bodies@,
                    old(world).bodies@,
                    i as int,
                    g,
                    n as int,
                );
            }
            world.bodies[i] = Body { accel: acc, ..b };
        }
        i = i + 1;
    }
    proof {
        assert(world.bodies@ =~= spec_gravity_pass(old(world).bodies@, g, preview_only));
    }
}

/// Advance velocities of the active set and roll the acceleration history;
/// phase three of a step.
pub fn integrate_kinematics(world: &mut World, dt: i64, preview_only: bool)
    ensures
        final(world).bodies@ == spec_kinematics_pass(old(world).bodies@, dt, preview_only),
{
    let n = world.bodies.len();
    let mut i: usize = 0;
    while i < n
        invariant
            n == world.bodies.len(),
            old(world).bodies@.len() == n,
            i <= n,
            forall|j: int|
                0 <= j < i ==> world.bodies@[j] == spec_kinematics_pass(
                    old(world).bodies@,
                    dt,
                    preview_only,
                )[j],
            forall|j: int| i <= j < n ==> world.bodies@[j] == old(world).bodies@[j],
        decreases n - i,
    {
        let b = world.bodies[i];
        if b.alive && b.preview == preview_only {
            let gain = v2_scale(v2_half(v2_add(b.accel, b.past_accel)), dt);
            world.bodies[i] = Body { vel: v2_add(b.vel, gain), past_accel: b.accel, ..b };
        }
        i = i + 1;
    }
    proof {
        assert(world.bodies@ =~= spec_kinematics_pass(old(world).bodies@, dt, preview_only));
    }
}

/// One full velocity-Verlet step over the active set: positions, then
/// gravity, then velocities, in that order.
pub fn step(world: &mut World, dt: i64, g: i64, preview_only: bool)
    ensures
        final(world).bodies@ == spec_step(old(world).bodies@, dt, g, preview_only),
{
    integrate_positions(world, dt, preview_only);
    apply_gravity(world, g, preview_only);
    integrate_kinematics(world, dt, preview_only);
}

} // verus!
