//! Pairwise collision detection, and a documented resolution policy.
//!
//! Detection flags every unordered pair of distinct live bodies whose
//! centre distance is at most the sum of their radii, comparing squared
//! distances so the test is exact in the discrete scalars. The flagged set
//! is enumerated in ascending handle order, so it does not depend on any
//! iteration choice.
//!
//! Resolution policy (chosen here, since detection alone fixes none): the
//! pair merges inelastically. The body of larger mass — the lower handle
//! on a tie — absorbs the other: masses add, the merged velocity conserves
//! fixed-point momentum, the larger radius is kept, and the absorbed slot
//! is tombstoned. A pair is skipped when either body was already deleted
//! earlier in the same pass, or when the combined mass is not positive (a
//! momentum-conserving velocity would then be undefined).

use vstd::prelude::*;

use crate::body::{Body, World};
use crate::fixed::{fx_add, fx_div, fx_mul, sfx_add, sfx_div, sfx_mul};
use crate::vector::{sv2_raw2, sv2_sub, v2_raw2, v2_sub, Vec2};

verus! {

broadcast use vstd::seq_lib::lemma_seq_contains_after_push;

/// Centre distance at most the radius sum, compared in squares.
pub open spec fn spec_overlap(a: Body, b: Body) -> bool {
    let rsum = sfx_add(a.radius, b.radius);
    rsum >= 0 && sv2_raw2(sv2_sub(b.pos, a.pos)) <= rsum * rsum
}

/// The ordered pair `(i, j)` is flagged: both handles live, `i` below `j`,
/// and the two bodies overlap.
pub open spec fn colliding(s: Seq<Body>, i: int, j: int) -> bool {
    0 <= i < j < s.len() && s[i].alive && s[j].alive && spec_overlap(s[i], s[j])
}

/// Strict lexicographic order on flagged pairs.
pub open spec fn pair_lt(p: (usize, usize), q: (usize, usize)) -> bool {
    p.0 < q.0 || (p.0 == q.0 && p.1 < q.1)
}

/// Exact overlap test.
pub fn overlaps(a: &Body, b: &Body) -> (r: bool)
    ensures
        r == spec_overlap(*a, *b),
{
    let rsum = fx_add(a.radius, b.radius);
    if rsum < 0 {
        return false;
    }
    let raw2 = v2_raw2(v2_sub(b.pos, a.pos));
    proof {
        let lim: int = 0x8000000000000000;
        assert(rsum as int * rsum as int <= lim * lim) by (nonlinear_arith)
            requires
                0 <= rsum as int <= lim,
                lim == 0x8000000000000000,
        ;
    }
    let sq: u128 = (rsum as u128) * (rsum as u128);
    raw2 <= sq
}

/// Flag every colliding pair, in ascending handle order.
pub fn calc_collisions(world: &World) -> (pairs: Vec<(usize, usize)>)
    ensures
        forall|k: int|
            0 <= k < pairs@.len() ==> colliding(
                world.bodies@,
                #[trigger] pairs@[k].0 as int,
                pairs@[k].1 as int,
            ),
        forall|i: int, j: int|
            #[trigger] colliding(world.bodies@, i, j) ==> pairs@.contains(
                (i as usize, j as usize),
            ),
        forall|k1: int, k2: int|
            0 <= k1 < k2 < pairs@.len() ==> pair_lt(#[trigger] pairs@[k1], #[trigger] pairs@[k2]),
{
    let n = world.bodies.len();
    let mut pairs: Vec<(usize, usize)> = Vec::new();
    let mut i: usize = 0;
    while i < n
        invariant
            n == world.bodies.len(),
            i <= n,
            forall|k: int|
                0 <= k < pairs@.len() ==> colliding(
                    world.bodies@,
                    #[trigger] pairs@[k].0 as int,
                    pairs@[k].1 as int,
                ) && pairs@[k].0 < i,
            forall|a: int, b: int|
                #[trigger] colliding(world.bodies@, a, b) && a < i ==> pairs@.contains(
                    (a as usize, b as usize),
                ),
            forall|k1: int, k2: int|
                0 <= k1 < k2 < pairs@.len() ==> pair_lt(
                    #[trigger] pairs@[k1],
                    #[trigger] pairs@[k2],
                ),
        decreases n - i,
    {
        let bi = world.bodies[i];
        if bi.alive {
            let mut j: usize = i + 1;
            while j < n
                invariant
                    n == world.bodies.len(),
                    i < j,
                    j <= n,
                    bi == world.bodies@[i as int],
                    bi.alive,
                    forall|k: int|
                        0 <= k < pairs@.len() ==> colliding(
                            world.bodies@,
                            #[trigger] pairs@[k].0 as int,
                            pairs@[k].1 as int,
                        ) && (pairs@[k].0 < i || (pairs@[k].0 == i && pairs@[k].1 < j)),
                    forall|a: int, b: int|
                        #[trigger] colliding(world.bodies@, a, b) && (a < i || (a == i && b < j))
                            ==> pairs@.contains((a as usize, b as usize)),
                    forall|k1: int, k2: int|
                        0 <= k1 < k2 < pairs@.len() ==> pair_lt(
                            #[trigger] pairs@[k1],
                            #[trigger] pairs@[k2],
                        ),
                decreases n - j,
            {
                let bj = world.bodies[j];
                if bj.alive && overlaps(&bi, &bj) {
                    pairs.push((i, j));
                    proof {
                        assert(pairs@.last() == (i, j));
                        assert(pairs@.contains((i, j)));
                    }
                } else {
                    proof {
                        assert(!colliding(world.bodies@, i as int, j as int));
                    }
                }
                j = j + 1;
            }
        } else {
            proof {
                assert(forall|a: int, b: int|
                    #[trigger] colliding(world.bodies@, a, b) && a == i ==> world.bodies@[a].alive);
            }
        }
        i = i + 1;
    }
    pairs
}

/// The absorber after an inelastic merge: summed mass, momentum-conserving
/// velocity, the larger radius; position and marker kept.
pub open spec fn spec_merge(a: Body, b: Body) -> Body
    recommends
        sfx_add(a.mass, b.mass) >= 1,
{
    let msum = sfx_add(a.mass, b.mass);
    Body {
        mass: msum,
        vel: Vec2 {
            x: sfx_div(sfx_add(sfx_mul(a.mass, a.vel.x), sfx_mul(b.mass, b.vel.x)), msum),
            y: sfx_div(sfx_add(sfx_mul(a.mass, a.vel.y), sfx_mul(b.mass, b.vel.y)), msum),
        },
        radius: if a.radius < b.radius {
            b.radius
        } else {
            a.radius
        },
        ..a
    }
}

/// Resolve one flagged pair: skip it unless both handles are distinct, in
/// range and still live and the combined mass is positive; otherwise the
/// heavier body (lower handle on a tie) absorbs the other.
pub open spec fn spec_resolve_one(s: Seq<Body>, i: int, j: int) -> Seq<Body> {
    if !(0 <= i < s.len() && 0 <= j < s.len() && i != j) {
        s
    } else if !(s[i].alive && s[j].alive) {
        s
    } else {
        let w = if s[j].mass > s[i].mass {
            j
        } else {
            i
        };
        let l = if s[j].mass > s[i].mass {
            i
        } else {
            j
        };
        if sfx_add(s[w].mass, s[l].mass) < 1 {
            s
        } else {
            s.update(w, spec_merge(s[w], s[l])).update(l, Body { alive: false, ..s[l] })
        }
    }
}

/// Resolve a list of flagged pairs in order; a body deleted by an earlier
/// pair is never processed again in the same pass.
pub open spec fn spec_resolve(s: Seq<Body>, pairs: Seq<(usize, usize)>) -> Seq<Body>
    decreases pairs.len(),
{
    if pairs.len() == 0 {
        s
    } else {
        spec_resolve(
            spec_resolve_one(s, pairs[0].0 as int, pairs[0].1 as int),
            pairs.subrange(1, pairs.len() as int),
        )
    }
}

/// Apply the merge policy to every flagged pair, in order.
pub fn resolve_collisions(world: &mut World, pairs: &Vec<(usize, usize)>)
    ensures
        final(world).bodies@ == spec_resolve(old(world).bodies@, pairs@),
{
    let m = pairs.len();
    proof {
        assert(pairs@.subrange(0, m as int) =~= pairs@);
    }
    let mut k: usize = 0;
    while k < m
        invariant
            m == pairs@.len(),
            k <= m,
            spec_resolve(old(world).bodies@, pairs@) == spec_resolve(
                world.bodies@,
                pairs@.subrange(k as int, m as int),
            ),
        decreases m - k,
    {
        let ghost pre = world.bodies@;
        let (pi, pj) = pairs[k];
        if pi < world.bodies.len() && pj < world.bodies.len() && pi != pj {
            let a = world.bodies[pi];
            let b = world.bodies[pj];
            if a.alive && b.alive {
                let (w, l) = if b.mass > a.mass {
                    (pj, pi)
                } else {
                    (pi, pj)
                };
                let bw = world.bodies[w];
                let bl = world.bodies[l];
                let msum = fx_add(bw.mass, bl.mass);
                if msum >= 1 {
                    let vx = fx_div(fx_add(fx_mul(bw.mass, bw.vel.x), fx_mul(bl.mass, bl.vel.x)), msum);
                    let vy = fx_div(fx_add(fx_mul(bw.mass, bw.vel.y), fx_mul(bl.mass, bl.vel.y)), msum);
                    let rad = if bw.radius < bl.radius {
                        bl.radius
                    } else {
                        bw.radius
                    };
                    world.bodies[w] = Body { mass: msum, vel: Vec2 { x: vx, y: vy }, radius: rad, ..bw };
                    world.bodies[l] = Body { alive: false, ..bl };
                }
            }
        }
        proof {
            assert(world.bodies@ =~= spec_resolve_one(pre, pi as int, pj as int));
            assert(pairs@.subrange(k as int, m as int).subrange(
                1,
                pairs@.subrange(k as int, m as int).len() as int,
            ) =~= pairs@.subrange(k as int + 1, m as int));
        }
        k = k + 1;
    }
    proof {
        assert(pairs@.subrange(m as int, m as int) =~= Seq::<(usize, usize)>::empty());
    }
}

} // verus!
