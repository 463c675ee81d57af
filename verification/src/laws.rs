//! Global laws of the simulation, stated and proved over the step specs.

use vstd::prelude::*;

use crate::body::{body_ok, in_pass, same_statics, Body};
use crate::fixed::{
    lemma_sat_neg, lemma_sfx_add_neg, lemma_sfx_add_zero, lemma_sfx_half_neg, lemma_sfx_mul_comm,
    lemma_sfx_mul_neg, lemma_sfx_mul_zero, lemma_tdiv_zero, sfx_add, sfx_half, sfx_mul,
};
use crate::orchestrator::{spec_tick, Config, FrameSignals};
use crate::physics::{
    lemma_accel_sum_zero, lemma_contrib_neg, spec_accel_sum, spec_contrib, spec_gravity_pass,
    spec_kinematics_pass, spec_position_pass, spec_step, spec_step_pos, spec_step_vel, spec_steps,
};
use crate::vector::{sv2_neg, sv2_sub, sv2_zero, v2_ok};

verus! {

/// A physics step never changes a body's mass, radius, marker or
/// liveness, nor the number of slots.
pub proof fn lemma_step_statics(s: Seq<Body>, dt: i64, g: i64, po: bool)
    ensures
        spec_step(s, dt, g, po).len() == s.len(),
        forall|i: int|
            0 <= i < s.len() ==> same_statics(#[trigger] spec_step(s, dt, g, po)[i], s[i]),
{
    let p1 = spec_position_pass(s, dt, po);
    let p2 = spec_gravity_pass(p1, g, po);
    let p3 = spec_kinematics_pass(p2, dt, po);
    assert forall|i: int| 0 <= i < s.len() implies same_statics(
        #[trigger] spec_step(s, dt, g, po)[i],
        s[i],
    ) by {
        assert(same_statics(p1[i], s[i]));
        assert(same_statics(p2[i], p1[i]));
        assert(same_statics(p3[i], p2[i]));
    }
}

/// Law of pass isolation, one step: a step of either pass leaves every
/// body of the other pass — and every dead slot — exactly as it was.
pub proof fn lemma_step_isolation(s: Seq<Body>, dt: i64, g: i64, po: bool)
    ensures
        spec_step(s, dt, g, po).len() == s.len(),
        forall|i: int|
            0 <= i < s.len() && !in_pass(#[trigger] s[i], po) ==> spec_step(s, dt, g, po)[i]
                == s[i],
{
    let p1 = spec_position_pass(s, dt, po);
    let p2 = spec_gravity_pass(p1, g, po);
    let p3 = spec_kinematics_pass(p2, dt, po);
    assert forall|i: int| 0 <= i < s.len() && !in_pass(#[trigger] s[i], po) implies spec_step(
        s,
        dt,
        g,
        po,
    )[i] == s[i] by {
        assert(p1[i] == s[i]);
        assert(p2[i] == p1[i]);
        assert(p3[i] == p2[i]);
    }
}

/// Law of pass isolation: any number of steps of the preview pass leaves
/// every non-preview body untouched, and any number of steps of the main
/// pass leaves every preview body untouched; dead slots never move.
pub proof fn lemma_pass_isolation(s: Seq<Body>, dt: i64, g: i64, po: bool, n: nat)
    ensures
        spec_steps(s, dt, g, po, n).len() == s.len(),
        forall|i: int|
            0 <= i < s.len() && !in_pass(#[trigger] s[i], po) ==> spec_steps(s, dt, g, po, n)[i]
                == s[i],
    decreases n,
{
    if n > 0 {
        let t = spec_step(s, dt, g, po);
        lemma_step_isolation(s, dt, g, po);
        lemma_step_statics(s, dt, g, po);
        lemma_pass_isolation(t, dt, g, po, (n - 1) as nat);
        assert forall|i: int| 0 <= i < s.len() && !in_pass(#[trigger] s[i], po) implies spec_steps(
            s,
            dt,
            g,
            po,
            n,
        )[i] == s[i] by {
            assert(t[i] == s[i]);
            assert(!in_pass(t[i], po));
        }
    }
}

/// Law of the idle frame: a tick with both iteration counts at zero and
/// no recreate signal returns the store exactly as it was.
pub proof fn lemma_zero_iteration_tick(s: Seq<Body>, cfg: Config, sig: FrameSignals)
    requires
        cfg.main_iterations == 0,
        cfg.preview_iterations == 0,
        !sig.recreate_preview,
    ensures
        spec_tick(s, cfg, sig) == s,
{
}

/// A body at rest among exclusively massless companions stays exactly
/// where it is through one step, with zero velocity and acceleration.
pub proof fn lemma_step_inertia(s: Seq<Body>, i: int, dt: i64, g: i64, po: bool)
    requires
        0 <= i < s.len(),
        v2_ok(s[i].pos),
        s[i].vel == sv2_zero(),
        s[i].accel == sv2_zero(),
        s[i].past_accel == sv2_zero(),
        forall|j: int| 0 <= j < s.len() && j != i && #[trigger] s[j].alive ==> s[j].mass == 0,
    ensures
        spec_step(s, dt, g, po).len() == s.len(),
        spec_step(s, dt, g, po)[i] == s[i],
{
    let p1 = spec_position_pass(s, dt, po);
    let p2 = spec_gravity_pass(p1, g, po);
    let p3 = spec_kinematics_pass(p2, dt, po);
    lemma_sfx_mul_zero(dt);
    lemma_sfx_mul_zero(sfx_mul(dt, dt));
    lemma_tdiv_zero(2);
    assert(sfx_half(0) == 0);
    lemma_sfx_add_zero(0);
    lemma_sfx_add_zero(s[i].pos.x);
    lemma_sfx_add_zero(s[i].pos.y);
    assert(p1[i] == s[i]);
    assert forall|j: int| 0 <= j < p1.len() implies same_statics(#[trigger] p1[j], s[j]) by {
        assert(p1[j] == (if in_pass(s[j], po) {
            spec_step_pos(s[j], dt)
        } else {
            s[j]
        }));
    }
    if in_pass(p1[i], po) {
        lemma_accel_sum_zero(p1, i, g, p1.len() as int);
    }
    assert(p2[i] == p1[i]);
    assert(p3[i] == p2[i]);
}

/// Law of inertia: a lone body — one whose live companions are all
/// massless — that starts at rest with a clear acceleration history feels
/// no pull and never moves, over any number of steps of either pass.
pub proof fn lemma_single_body_inertia(s: Seq<Body>, i: int, dt: i64, g: i64, po: bool, n: nat)
    requires
        0 <= i < s.len(),
        v2_ok(s[i].pos),
        s[i].vel == sv2_zero(),
        s[i].accel == sv2_zero(),
        s[i].past_accel == sv2_zero(),
        forall|j: int| 0 <= j < s.len() && j != i && #[trigger] s[j].alive ==> s[j].mass == 0,
    ensures
        spec_steps(s, dt, g, po, n).len() == s.len(),
        spec_steps(s, dt, g, po, n)[i] == s[i],
    decreases n,
{
    if n > 0 {
        let t = spec_step(s, dt, g, po);
        lemma_step_inertia(s, i, dt, g, po);
        lemma_step_statics(s, dt, g, po);
        assert forall|j: int| 0 <= j < t.len() && j != i && #[trigger] t[j].alive implies t[j].mass
            == 0 by {
            assert(same_statics(t[j], s[j]));
        }
        lemma_single_body_inertia(t, i, dt, g, po, (n - 1) as nat);
    }
}

/// Two live bodies of equal mass in the same pass, exact mirror images of
/// each other in position, velocity and acceleration history.
pub open spec fn mirrored_pair(s: Seq<Body>) -> bool {
    s.len() == 2 && s[0].alive && s[1].alive && s[0].preview == s[1].preview && body_ok(s[0])
        && body_ok(s[1]) && s[1].mass == s[0].mass && s[1].pos == sv2_neg(s[0].pos) && s[1].vel
        == sv2_neg(s[0].vel) && s[1].accel == sv2_neg(s[0].accel) && s[1].past_accel == sv2_neg(
        s[0].past_accel,
    )
}

/// The position phase is odd: a mirrored body moves to the mirrored place.
proof fn lemma_step_pos_mirror(a: Body, b: Body, dt: i64)
    requires
        body_ok(a),
        b.pos == sv2_neg(a.pos),
        b.vel == sv2_neg(a.vel),
        b.accel == sv2_neg(a.accel),
    ensures
        spec_step_pos(b, dt).pos == sv2_neg(spec_step_pos(a, dt).pos),
{
    let dt2 = sfx_mul(dt, dt);
    lemma_sfx_mul_neg(a.vel.x, dt);
    lemma_sfx_mul_neg(a.vel.y, dt);
    lemma_sfx_half_neg(a.accel.x);
    lemma_sfx_half_neg(a.accel.y);
    lemma_sfx_mul_neg(sfx_half(a.accel.x), dt2);
    lemma_sfx_mul_neg(sfx_half(a.accel.y), dt2);
    lemma_sfx_add_neg(sfx_mul(a.vel.x, dt), sfx_mul(sfx_half(a.accel.x), dt2));
    lemma_sfx_add_neg(sfx_mul(a.vel.y, dt), sfx_mul(sfx_half(a.accel.y), dt2));
    lemma_sfx_add_neg(a.pos.x, sfx_add(sfx_mul(a.vel.x, dt), sfx_mul(sfx_half(a.accel.x), dt2)));
    lemma_sfx_add_neg(a.pos.y, sfx_add(sfx_mul(a.vel.y, dt), sfx_mul(sfx_half(a.accel.y), dt2)));
}

/// The velocity phase is odd as well.
proof fn lemma_step_vel_mirror(a: Body, b: Body, dt: i64)
    requires
        body_ok(a),
        b.vel == sv2_neg(a.vel),
        b.accel == sv2_neg(a.accel),
        b.past_accel == sv2_neg(a.past_accel),
    ensures
        spec_step_vel(b, dt).vel == sv2_neg(spec_step_vel(a, dt).vel),
        spec_step_vel(b, dt).past_accel == sv2_neg(spec_step_vel(a, dt).past_accel),
{
    lemma_sfx_add_neg(a.accel.x, a.past_accel.x);
    lemma_sfx_add_neg(a.accel.y, a.past_accel.y);
    lemma_sfx_half_neg(sfx_add(a.accel.x, a.past_accel.x));
    lemma_sfx_half_neg(sfx_add(a.accel.y, a.past_accel.y));
    lemma_sfx_mul_neg(sfx_half(sfx_add(a.accel.x, a.past_accel.x)), dt);
    lemma_sfx_mul_neg(sfx_half(sfx_add(a.accel.y, a.past_accel.y)), dt);
    lemma_sfx_add_neg(a.vel.x, sfx_mul(sfx_half(sfx_add(a.accel.x, a.past_accel.x)), dt));
    lemma_sfx_add_neg(a.vel.y, sfx_mul(sfx_half(sfx_add(a.accel.y, a.past_accel.y)), dt));
}

/// Mirror symmetry survives one full step.
proof fn lemma_step_mirror(s: Seq<Body>, dt: i64, g: i64, po: bool)
    requires
        mirrored_pair(s),
    ensures
        mirrored_pair(spec_step(s, dt, g, po)),
{
    let p1 = spec_position_pass(s, dt, po);
    let p2 = spec_gravity_pass(p1, g, po);
    let p3 = spec_kinematics_pass(p2, dt, po);
    if !in_pass(s[0], po) {
        assert(p1[0] == s[0] && p1[1] == s[1]);
        assert(p2[0] == p1[0] && p2[1] == p1[1]);
        assert(p3[0] == p2[0] && p3[1] == p2[1]);
    } else {
        assert(in_pass(s[1], po));
        lemma_step_pos_mirror(s[0], s[1], dt);
        assert(p1[0] == spec_step_pos(s[0], dt));
        assert(p1[1] == spec_step_pos(s[1], dt));
        let a1 = p1[0];
        let b1 = p1[1];
        assert(body_ok(a1) && body_ok(b1));
        assert(b1.pos == sv2_neg(a1.pos));
        let d0 = sv2_sub(b1.pos, a1.pos);
        let d1 = sv2_sub(a1.pos, b1.pos);
        lemma_sat_neg(b1.pos.x as int - a1.pos.x as int);
        lemma_sat_neg(b1.pos.y as int - a1.pos.y as int);
        assert(d1 == sv2_neg(d0));
        let m = s[0].mass;
        assert(a1.mass == m && b1.mass == m);
        let c0 = spec_contrib(g, m, d0);
        lemma_contrib_neg(g, m, d0);
        let c1 = spec_contrib(g, m, d1);
        assert(c1 == sv2_neg(c0));
        lemma_contrib_neg(g, m, d1);
        assert(v2_ok(c0) && v2_ok(c1));
        reveal_with_fuel(spec_accel_sum, 4);
        lemma_sfx_add_zero(c0.x);
        lemma_sfx_add_zero(c0.y);
        lemma_sfx_add_zero(c1.x);
        lemma_sfx_add_zero(c1.y);
        assert(spec_accel_sum(p1, 0, g, 2) == c0);
        assert(spec_accel_sum(p1, 1, g, 2) == c1);
        assert(p2[0] == (Body { accel: c0, ..a1 }));
        assert(p2[1] == (Body { accel: c1, ..b1 }));
        lemma_step_vel_mirror(p2[0], p2[1], dt);
        assert(p3[0] == spec_step_vel(p2[0], dt));
        assert(p3[1] == spec_step_vel(p2[1], dt));
        assert(body_ok(p3[0]) && body_ok(p3[1]));
    }
}

/// Law of two-body symmetry: two live bodies of equal mass that start as
/// exact mirror images about the origin stay exact mirror images after
/// any number of steps, and their total fixed-point momentum is zero on
/// both axes.
pub proof fn lemma_two_body_symmetry(s: Seq<Body>, dt: i64, g: i64, po: bool, n: nat)
    requires
        mirrored_pair(s),
    ensures
        mirrored_pair(spec_steps(s, dt, g, po, n)),
        ({
            let t = spec_steps(s, dt, g, po, n);
            sfx_add(sfx_mul(t[0].mass, t[0].vel.x), sfx_mul(t[1].mass, t[1].vel.x)) == 0
                && sfx_add(sfx_mul(t[0].mass, t[0].vel.y), sfx_mul(t[1].mass, t[1].vel.y)) == 0
        }),
    decreases n,
{
    if n > 0 {
        lemma_step_mirror(s, dt, g, po);
        lemma_two_body_symmetry(spec_step(s, dt, g, po), dt, g, po, (n - 1) as nat);
    }
    let t = spec_steps(s, dt, g, po, n);
    let m = t[0].mass;
    let px = sfx_mul(m, t[0].vel.x);
    let py = sfx_mul(m, t[0].vel.y);
    lemma_sfx_mul_comm(m, t[0].vel.x);
    lemma_sfx_mul_comm(m, t[0].vel.y);
    lemma_sfx_mul_neg(t[0].vel.x, m);
    lemma_sfx_mul_neg(t[0].vel.y, m);
    lemma_sfx_mul_comm(t[1].mass, t[1].vel.x);
    lemma_sfx_mul_comm(t[1].mass, t[1].vel.y);
    assert(sfx_mul(t[1].mass, t[1].vel.x) as int == -(px as int));
    assert(sfx_mul(t[1].mass, t[1].vel.y) as int == -(py as int));
}

} // verus!
