//! 2D vectors over saturating fixed-point scalars.

use vstd::prelude::*;

use crate::fixed::{
    abs_int, fx_add, fx_half, fx_mul, fx_ok, fx_sub, isqrt, neg64, sat, sfx_add, sfx_half,
    sfx_mul, sfx_sub, spec_sqrt,
};

verus! {

/// A point or displacement in world coordinates.
#[derive(Clone, Copy, PartialEq, Eq, Structural, Debug)]
pub struct Vec2 {
    pub x: i64,
    pub y: i64,
}

/// Both components are in the scalar range.
pub open spec fn v2_ok(v: Vec2) -> bool {
    fx_ok(v.x) && fx_ok(v.y)
}

/// The zero vector.
pub open spec fn sv2_zero() -> Vec2 {
    Vec2 { x: 0, y: 0 }
}

/// Component-wise saturating sum.
pub open spec fn sv2_add(a: Vec2, b: Vec2) -> Vec2 {
    Vec2 { x: sfx_add(a.x, b.x), y: sfx_add(a.y, b.y) }
}

/// Component-wise saturating difference.
pub open spec fn sv2_sub(a: Vec2, b: Vec2) -> Vec2 {
    Vec2 { x: sfx_sub(a.x, b.x), y: sfx_sub(a.y, b.y) }
}

/// Saturating scaling by a fixed-point factor.
pub open spec fn sv2_scale(v: Vec2, k: i64) -> Vec2 {
    Vec2 { x: sfx_mul(v.x, k), y: sfx_mul(v.y, k) }
}

/// Component-wise halving.
pub open spec fn sv2_half(v: Vec2) -> Vec2 {
    Vec2 { x: sfx_half(v.x), y: sfx_half(v.y) }
}

/// Exact negation of an in-range vector.
pub open spec fn sv2_neg(v: Vec2) -> Vec2
    recommends
        v2_ok(v),
{
    Vec2 { x: neg64(v.x), y: neg64(v.y) }
}

/// Saturating fixed-point dot product.
pub open spec fn sv2_dot(a: Vec2, b: Vec2) -> i64 {
    sfx_add(sfx_mul(a.x, b.x), sfx_mul(a.y, b.y))
}

/// Squared length in raw sub-units: `SCALE * SCALE` times the squared
/// length in world units. Always fits below `2^127`.
pub open spec fn sv2_raw2(v: Vec2) -> int {
    v.x * v.x + v.y * v.y
}

/// Saturating fixed-point length: the integer square root of the raw
/// squared length is again a scalar in sub-units.
pub open spec fn sv2_norm(v: Vec2) -> i64 {
    sat(spec_sqrt(sv2_raw2(v) as nat) as int)
}

impl Vec2 {
    /// Build a vector from its components.
    pub fn new(x: i64, y: i64) -> (r: Vec2)
        ensures
            r == (Vec2 { x, y }),
    {
        Vec2 { x, y }
    }

    /// The zero vector.
    pub fn zero() -> (r: Vec2)
        ensures
            r == sv2_zero(),
    {
        Vec2 { x: 0, y: 0 }
    }
}

/// Component-wise saturating sum.
pub fn v2_add(a: Vec2, b: Vec2) -> (r: Vec2)
    ensures
        r == sv2_add(a, b),
{
    Vec2 { x: fx_add(a.x, b.x), y: fx_add(a.y, b.y) }
}

/// Component-wise saturating difference.
pub fn v2_sub(a: Vec2, b: Vec2) -> (r: Vec2)
    ensures
        r == sv2_sub(a, b),
{
    Vec2 { x: fx_sub(a.x, b.x), y: fx_sub(a.y, b.y) }
}

/// Saturating scaling by a fixed-point factor.
pub fn v2_scale(v: Vec2, k: i64) -> (r: Vec2)
    ensures
        r == sv2_scale(v, k),
{
    Vec2 { x: fx_mul(v.x, k), y: fx_mul(v.y, k) }
}

/// Component-wise halving.
pub fn v2_half(v: Vec2) -> (r: Vec2)
    ensures
        r == sv2_half(v),
{
    Vec2 { x: fx_half(v.x), y: fx_half(v.y) }
}

/// Saturating fixed-point dot product.
pub fn v2_dot(a: Vec2, b: Vec2) -> (r: i64)
    ensures
        r == sv2_dot(a, b),
{
    fx_add(fx_mul(a.x, b.x), fx_mul(a.y, b.y))
}

/// Squared length in raw sub-units, exactly.
pub fn v2_raw2(v: Vec2) -> (r: u128)
    ensures
        r as int == sv2_raw2(v),
{
    let ax = if v.x >= 0 {
        v.x as u128
    } else {
        (-(v.x as i128)) as u128
    };
    let ay = if v.y >= 0 {
        v.y as u128
    } else {
        (-(v.y as i128)) as u128
    };
    proof {
        assert(ax as int * ax as int == v.x as int * v.x as int) by (nonlinear_arith)
            requires
                ax as int == abs_int(v.x as int),
        ;
        assert(ay as int * ay as int == v.y as int * v.y as int) by (nonlinear_arith)
            requires
                ay as int == abs_int(v.y as int),
        ;
        let lim: int = 0x8000000000000000;
        assert(ax as int * ax as int <= lim * lim && ay as int * ay as int <= lim * lim)
            by (nonlinear_arith)
            requires
                0 <= ax as int <= lim,
                0 <= ay as int <= lim,
                lim == 0x8000000000000000,
        ;
    }
    ax * ax + ay * ay
}

/// Saturating fixed-point length.
pub fn v2_norm(v: Vec2) -> (r: i64)
    ensures
        r == sv2_norm(v),
{
    let raw2 = v2_raw2(v);
    let root = isqrt(raw2);
    if root > crate::fixed::FX_MAX as u128 {
        crate::fixed::FX_MAX
    } else {
        root as i64
    }
}

} // verus!
