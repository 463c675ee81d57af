//! The step orchestrator: one frame of simulation.
//!
//! Per frame the orchestrator runs `main_iterations` full steps over the
//! real bodies — skipped entirely while paused — then, always,
//! `preview_iterations` steps over the preview bodies. If the caller set
//! the recreate signal it then deletes every preview body and, when a
//! start point exists, creates exactly one fresh preview body whose
//! velocity is the vector from the target point back to the start point
//! scaled by the fixed preview factor; finally the signal is cleared.

use vstd::prelude::*;

use crate::body::{
    new_preview, spec_delete_preview, spec_new_preview, Body, World,
};
use crate::physics::{run_steps, spec_steps};
use crate::vector::{sv2_scale, sv2_sub, v2_scale, v2_sub, Vec2};

verus! {

/// Velocity per unit of drag distance for a recreated preview body, in
/// thousandths: 0.025.
pub const PREVIEW_VEL_FACTOR: i64 = 25;

/// The per-frame configuration bundle. Both iteration counts may be zero,
/// which disables that pass for the frame.
#[derive(Clone, Copy, PartialEq, Eq, Structural, Debug)]
pub struct Config {
    pub main_iterations: u32,
    pub preview_iterations: u32,
    pub dt: i64,
    pub g: i64,
    pub paused: bool,
}

/// Transient per-frame signals from the caller: where a drag started,
/// where it currently points, whether the preview body must be rebuilt,
/// and the radius the external creation surface would give it.
#[derive(Clone, Copy, Debug)]
pub struct FrameSignals {
    pub start_point: Option<Vec2>,
    pub target_point: Vec2,
    pub recreate_preview: bool,
    pub create_radius: i64,
}

/// The velocity a recreated preview body starts with.
pub open spec fn spec_preview_vel(start: Vec2, target: Vec2) -> Vec2 {
    sv2_scale(sv2_sub(start, target), PREVIEW_VEL_FACTOR)
}

/// Rebuild the preview: delete every preview body, then, when a start
/// point exists, append one fresh preview body at the start point.
pub open spec fn spec_recreate(s: Seq<Body>, sig: FrameSignals) -> Seq<Body> {
    let d = spec_delete_preview(s);
    match sig.start_point {
        Option::None => d,
        Option::Some(sp) => d.push(
            spec_new_preview(sp, spec_preview_vel(sp, sig.target_point), sig.create_radius),
        ),
    }
}

/// One whole frame: the main pass unless paused, the preview pass always,
/// then the preview rebuild when signalled.
pub open spec fn spec_tick(s: Seq<Body>, cfg: Config, sig: FrameSignals) -> Seq<Body> {
    let s1 = if cfg.paused {
        s
    } else {
        spec_steps(s, cfg.dt, cfg.g, false, cfg.main_iterations as nat)
    };
    let s2 = spec_steps(s1, cfg.dt, cfg.g, true, cfg.preview_iterations as nat);
    if sig.recreate_preview {
        spec_recreate(s2, sig)
    } else {
        s2
    }
}

/// The two-rate physics driver.
pub struct PhysicsSys;

impl PhysicsSys {
    /// Run the main pass, then the preview pass, at their own rates.
    pub fn run(world: &mut World, main_iterations: u32, preview_iterations: u32, dt: i64, g: i64)
        ensures
            final(world).bodies@ == spec_steps(
                spec_steps(old(world).bodies@, dt, g, false, main_iterations as nat),
                dt,
                g,
                true,
                preview_iterations as nat,
            ),
    {
        run_steps(world, dt, g, false, main_iterations);
        run_steps(world, dt, g, true, preview_iterations);
    }
}

impl World {
    /// Advance the world by one frame and clear the recreate signal.
    pub fn run_physics_systems(&mut self, cfg: &Config, signals: &mut FrameSignals)
        ensures
            final(self).bodies@ == spec_tick(old(self).bodies@, *cfg, *old(signals)),
            final(signals).start_point == old(signals).start_point,
            final(signals).target_point == old(signals).target_point,
            final(signals).create_radius == old(signals).create_radius,
            !final(signals).recreate_preview,
    {
        if !cfg.paused {
            run_steps(self, cfg.dt, cfg.g, false, cfg.main_iterations);
        }
        run_steps(self, cfg.dt, cfg.g, true, cfg.preview_iterations);
        if signals.recreate_preview {
            self.delete_preview();
            match signals.start_point {
                Option::Some(sp) => {
                    let vel = v2_scale(v2_sub(sp, signals.target_point), PREVIEW_VEL_FACTOR);
                    let b = new_preview(sp, vel, signals.create_radius);
                    self.add_body(b);
                },
                Option::None => {},
            }
        }
        signals.recreate_preview = false;
    }
}

} // verus!
