//! The body store: a dense arena of bodies keyed by their index.
//!
//! A handle is a position in the `bodies` vector and stays stable for the
//! life of the store: deletion only clears the `alive` flag (a tombstone),
//! and creation appends a fresh slot at the end. The physics passes skip
//! dead slots, so a tombstone behaves exactly like an absent body.

use vstd::prelude::*;

use crate::fixed::fx_ok;
use crate::vector::{v2_ok, sv2_zero, Vec2};

verus! {

/// One body: a position, its velocity-Verlet kinematic state, a mass that
/// sources gravity, a radius used only for overlap tests, the preview
/// marker for speculative trajectory bodies, and the tombstone flag.
#[derive(Clone, Copy, PartialEq, Eq, Structural, Debug)]
pub struct Body {
    pub pos: Vec2,
    pub vel: Vec2,
    pub accel: Vec2,
    pub past_accel: Vec2,
    pub mass: i64,
    pub radius: i64,
    pub preview: bool,
    pub alive: bool,
}

/// Every scalar of the body is in the symmetric range.
pub open spec fn body_ok(b: Body) -> bool {
    v2_ok(b.pos) && v2_ok(b.vel) && v2_ok(b.accel) && v2_ok(b.past_accel) && fx_ok(b.mass)
        && fx_ok(b.radius)
}

/// Every body of the store is well formed.
pub open spec fn bodies_ok(s: Seq<Body>) -> bool {
    forall|i: int| 0 <= i < s.len() ==> body_ok(#[trigger] s[i])
}

/// A body takes part in the pass selected by `preview_only`: the main pass
/// runs over live real bodies, the preview pass over live preview bodies.
/// The two sets are disjoint, which is what keeps the passes isolated.
pub open spec fn in_pass(b: Body, preview_only: bool) -> bool {
    b.alive && b.preview == preview_only
}

/// The fields a physics step never touches.
pub open spec fn same_statics(a: Body, b: Body) -> bool {
    a.mass == b.mass && a.radius == b.radius && a.preview == b.preview && a.alive == b.alive
}

/// A freshly created real body: both acceleration slots start at zero.
pub open spec fn spec_new_body(pos: Vec2, vel: Vec2, mass: i64, rad: i64) -> Body {
    Body {
        pos,
        vel,
        accel: sv2_zero(),
        past_accel: sv2_zero(),
        mass,
        radius: rad,
        preview: false,
        alive: true,
    }
}

/// A freshly created preview body. It carries no mass of its own: a
/// speculative body feels the gravity of the real bodies but exerts none.
pub open spec fn spec_new_preview(pos: Vec2, vel: Vec2, rad: i64) -> Body {
    Body {
        pos,
        vel,
        accel: sv2_zero(),
        past_accel: sv2_zero(),
        mass: 0,
        radius: rad,
        preview: true,
        alive: true,
    }
}

/// Build a real body at `pos` with initial velocity `vel`.
pub fn new_body(pos: Vec2, vel: Vec2, mass: i64, rad: i64) -> (b: Body)
    ensures
        b == spec_new_body(pos, vel, mass, rad),
{
    Body {
        pos,
        vel,
        accel: Vec2 { x: 0, y: 0 },
        past_accel: Vec2 { x: 0, y: 0 },
        mass,
        radius: rad,
        preview: false,
        alive: true,
    }
}

/// Build a preview body at `pos` with initial velocity `vel`.
pub fn new_preview(pos: Vec2, vel: Vec2, rad: i64) -> (b: Body)
    ensures
        b == spec_new_preview(pos, vel, rad),
{
    Body {
        pos,
        vel,
        accel: Vec2 { x: 0, y: 0 },
        past_accel: Vec2 { x: 0, y: 0 },
        mass: 0,
        radius: rad,
        preview: true,
        alive: true,
    }
}

/// The arena of bodies.
pub struct World {
    pub bodies: Vec<Body>,
}

/// Tombstone every live preview body; everything else is untouched.
pub open spec fn spec_delete_preview(s: Seq<Body>) -> Seq<Body> {
    s.map(
        |i: int, b: Body|
            if b.alive && b.preview {
                Body { alive: false, ..b }
            } else {
                b
            },
    )
}

impl World {
    /// An empty store.
    pub fn new() -> (w: World)
        ensures
            w.bodies@ == Seq::<Body>::empty(),
    {
        let w = World { bodies: Vec::new() };
        proof {
            assert(w.bodies@ =~= Seq::<Body>::empty());
        }
        w
    }

    /// Append a body; its handle is the previous length.
    pub fn add_body(&mut self, b: Body)
        ensures
            final(self).bodies@ == old(self).bodies@.push(b),
    {
        self.bodies.push(b);
    }

    /// Delete every preview body, in bulk, by tombstoning its slot.
    pub fn delete_preview(&mut self)
        ensures
            final(self).bodies@ == spec_delete_preview(old(self).bodies@),
    {
        let n = self.bodies.len();
        let mut i: usize = 0;
        while i < n
            invariant
                n == self.bodies.len(),
                old(self).bodies@.len() == n,
                i <= n,
                forall|j: int|
                    0 <= j < i ==> self.bodies@[j] == spec_delete_preview(old(self).bodies@)[j],
                forall|j: int| i <= j < n ==> self.bodies@[j] == old(self).bodies@[j],
            decreases n - i,
        {
            let b = self.bodies[i];
            if b.alive && b.preview {
                self.bodies[i] = Body { alive: false, ..b };
            }
            i = i + 1;
        }
        proof {
            assert(self.bodies@ =~= spec_delete_preview(old(self).bodies@));
        }
    }
}

} // verus!
