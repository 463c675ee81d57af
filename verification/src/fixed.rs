//! Saturating fixed-point scalars.
//!
//! A scalar is an `i64` counting thousandths of a world unit (`SCALE`
//! sub-units per unit). All arithmetic saturates to the symmetric range
//! `[FX_MIN, FX_MAX]`; working in a symmetric range keeps negation total,
//! which the symmetry arguments about the integrator rely on. Products are
//! divided by `SCALE` with truncation toward zero, as the sign-magnitude
//! evaluation below computes it.

use vstd::prelude::*;

verus! {

/// Sub-units per world unit: a scalar of `SCALE` is one unit.
pub const SCALE: i64 = 1000;

/// Largest representable scalar.
pub const FX_MAX: i64 = i64::MAX;

/// Smallest representable scalar; `-FX_MIN == FX_MAX`, so negation never
/// leaves the range.
pub const FX_MIN: i64 = -i64::MAX;

/// Mathematical absolute value.
pub open spec fn abs_int(x: int) -> int {
    if x < 0 {
        -x
    } else {
        x
    }
}

/// Clamp a mathematical integer to the scalar range.
pub open spec fn fx_clip(x: int) -> int {
    if x > FX_MAX as int {
        FX_MAX as int
    } else if x < FX_MIN as int {
        FX_MIN as int
    } else {
        x
    }
}

/// Clamp to the scalar range, as a scalar.
pub open spec fn sat(x: int) -> i64 {
    fx_clip(x) as i64
}

/// Division truncated toward zero (the quotient the executable
/// sign-magnitude evaluation produces), for a positive divisor.
pub open spec fn tdiv(a: int, b: int) -> int
    recommends
        b >= 1,
{
    if a >= 0 {
        a / b
    } else {
        -((-a) / b)
    }
}

/// A scalar is in range; only `i64::MIN` is excluded.
pub open spec fn fx_ok(a: i64) -> bool {
    FX_MIN <= a
}

/// Saturating sum.
pub open spec fn sfx_add(a: i64, b: i64) -> i64 {
    sat(a + b)
}

/// Saturating difference.
pub open spec fn sfx_sub(a: i64, b: i64) -> i64 {
    sat(a - b)
}

/// Saturating fixed-point product: the wide product over `SCALE`,
/// truncated toward zero.
pub open spec fn sfx_mul(a: i64, b: i64) -> i64 {
    sat(tdiv(a * b, SCALE as int))
}

/// Half of a scalar, truncated toward zero; never saturates.
pub open spec fn sfx_half(a: i64) -> i64 {
    sat(tdiv(a as int, 2))
}

/// Saturating fixed-point quotient for a positive divisor.
pub open spec fn sfx_div(a: i64, b: i64) -> i64
    recommends
        b >= 1,
{
    sat(tdiv(a * SCALE, b as int))
}

/// Exact negation of an in-range scalar.
pub open spec fn neg64(a: i64) -> i64
    recommends
        fx_ok(a),
{
    (-(a as int)) as i64
}

/// Floor of the square root, defined by counting up.
pub open spec fn spec_sqrt(n: nat) -> nat
    decreases n,
{
    if n == 0 {
        0
    } else {
        let s = spec_sqrt((n - 1) as nat);
        if (s + 1) * (s + 1) <= n {
            s + 1
        } else {
            s
        }
    }
}

/// `spec_sqrt(n)` is the unique natural whose square brackets `n`.
pub proof fn lemma_sqrt_bracket(n: nat)
    ensures
        spec_sqrt(n) * spec_sqrt(n) <= n,
        n < (spec_sqrt(n) + 1) * (spec_sqrt(n) + 1),
    decreases n,
{
    if n == 0 {
        assert(0nat * 0nat == 0 && (0nat + 1) * (0nat + 1) == 1) by (nonlinear_arith);
    } else {
        lemma_sqrt_bracket((n - 1) as nat);
        let s = spec_sqrt((n - 1) as nat);
        if (s + 1) * (s + 1) <= n {
            assert((s + 2) * (s + 2) > n) by (nonlinear_arith)
                requires
                    n - 1 < (s + 1) * (s + 1),
            ;
            assert(spec_sqrt(n) == s + 1);
            assert((spec_sqrt(n) + 1) * (spec_sqrt(n) + 1) == (s + 2) * (s + 2))
                by (nonlinear_arith)
                requires
                    spec_sqrt(n) == s + 1,
            ;
        }
    }
}

/// Any bracketing root equals `spec_sqrt`.
pub proof fn lemma_sqrt_unique(n: nat, r: nat)
    requires
        r * r <= n,
        n < (r + 1) * (r + 1),
    ensures
        r == spec_sqrt(n),
{
    lemma_sqrt_bracket(n);
    let s = spec_sqrt(n);
    assert(r == s) by (nonlinear_arith)
        requires
            r * r <= n,
            n < (r + 1) * (r + 1),
            s * s <= n,
            n < (s + 1) * (s + 1),
    ;
}

/// Zero divided by anything positive is zero.
pub proof fn lemma_tdiv_zero(b: int)
    requires
        b >= 1,
    ensures
        tdiv(0, b) == 0,
{
    vstd::arithmetic::div_mod::lemma_div_of0(b);
}

/// Multiplying by zero yields zero, on either side.
pub proof fn lemma_sfx_mul_zero(a: i64)
    ensures
        sfx_mul(0, a) == 0,
        sfx_mul(a, 0) == 0,
{
    assert(0int * a as int == 0 && a as int * 0int == 0) by (nonlinear_arith);
    lemma_tdiv_zero(SCALE as int);
}

/// Saturating multiplication commutes.
pub proof fn lemma_sfx_mul_comm(a: i64, b: i64)
    ensures
        sfx_mul(a, b) == sfx_mul(b, a),
{
    assert(a as int * b as int == b as int * a as int) by (nonlinear_arith);
}

/// Adding zero changes nothing in range.
pub proof fn lemma_sfx_add_zero(a: i64)
    requires
        fx_ok(a),
    ensures
        sfx_add(0, a) == a,
        sfx_add(a, 0) == a,
{
}

/// Clamping is odd: the scalar range is symmetric.
pub proof fn lemma_sat_neg(x: int)
    ensures
        sat(-x) as int == -(sat(x) as int),
{
}

/// Truncated division is odd in its dividend.
pub proof fn lemma_tdiv_neg(a: int, b: int)
    requires
        b >= 1,
    ensures
        tdiv(-a, b) == -tdiv(a, b),
{
    if a == 0 {
        vstd::arithmetic::div_mod::lemma_div_of0(b);
    }
}

/// Saturating addition is odd.
pub proof fn lemma_sfx_add_neg(a: i64, b: i64)
    requires
        fx_ok(a),
        fx_ok(b),
    ensures
        sfx_add(neg64(a), neg64(b)) == neg64(sfx_add(a, b)),
{
    lemma_sat_neg(a + b);
}

/// Saturating subtraction is odd.
pub proof fn lemma_sfx_sub_neg(a: i64, b: i64)
    requires
        fx_ok(a),
        fx_ok(b),
    ensures
        sfx_sub(neg64(a), neg64(b)) == neg64(sfx_sub(a, b)),
{
    lemma_sat_neg(a - b);
}

/// Saturating multiplication is odd in its left factor.
pub proof fn lemma_sfx_mul_neg(a: i64, b: i64)
    requires
        fx_ok(a),
    ensures
        sfx_mul(neg64(a), b) == neg64(sfx_mul(a, b)),
{
    assert(neg64(a) as int * b as int == -(a as int * b as int)) by (nonlinear_arith)
        requires
            neg64(a) as int == -(a as int),
    ;
    lemma_tdiv_neg(a as int * b as int, SCALE as int);
    lemma_sat_neg(tdiv(a as int * b as int, SCALE as int));
}

/// Halving is odd.
pub proof fn lemma_sfx_half_neg(a: i64)
    requires
        fx_ok(a),
    ensures
        sfx_half(neg64(a)) == neg64(sfx_half(a)),
{
    lemma_tdiv_neg(a as int, 2);
    lemma_sat_neg(tdiv(a as int, 2));
}

/// Clamp a wide intermediate into a scalar.
fn clip128(x: i128) -> (r: i64)
    ensures
        r as int == fx_clip(x as int),
{
    if x > FX_MAX as i128 {
        FX_MAX
    } else if x < FX_MIN as i128 {
        FX_MIN
    } else {
        x as i64
    }
}

/// Magnitude of a scalar, wide enough for `i64::MIN`.
fn abs128(a: i64) -> (r: u128)
    ensures
        r as int == abs_int(a as int),
{
    if a >= 0 {
        a as u128
    } else {
        (-(a as i128)) as u128
    }
}

/// `sat(tdiv(a * b, d))` by sign-magnitude evaluation.
pub fn mul_div_sat(a: i64, b: i64, d: u128) -> (r: i64)
    requires
        d >= 1,
    ensures
        r as int == fx_clip(tdiv(a as int * b as int, d as int)),
{
    let aa = abs128(a);
    let bb = abs128(b);
    proof {
        assert(aa as int * bb as int <= 0x8000000000000000 * 0x8000000000000000)
            by (nonlinear_arith)
            requires
                0 <= aa as int <= 0x8000000000000000,
                0 <= bb as int <= 0x8000000000000000,
        ;
        assert(abs_int(a as int * b as int) == abs_int(a as int) * abs_int(b as int))
            by (nonlinear_arith);
    }
    let q: u128 = (aa * bb) / d;
    proof {
        let p = a as int * b as int;
        if (a as int) < 0 && (b as int) < 0 {
            assert(p >= 0) by (nonlinear_arith)
                requires
                    p == a as int * b as int,
                    (a as int) < 0,
                    (b as int) < 0,
            ;
        }
        if (a as int) >= 0 && (b as int) < 0 {
            assert(p <= 0) by (nonlinear_arith)
                requires
                    p == a as int * b as int,
                    (a as int) >= 0,
                    (b as int) < 0,
            ;
        }
        if (a as int) < 0 && (b as int) >= 0 {
            assert(p <= 0) by (nonlinear_arith)
                requires
                    p == a as int * b as int,
                    (a as int) < 0,
                    (b as int) >= 0,
            ;
        }
        if (a as int) >= 0 && (b as int) >= 0 {
            assert(p >= 0) by (nonlinear_arith)
                requires
                    p == a as int * b as int,
                    (a as int) >= 0,
                    (b as int) >= 0,
            ;
        }
        if p == 0 {
            vstd::arithmetic::div_mod::lemma_div_of0(d as int);
            assert(aa as int * bb as int == 0);
            assert(q == 0);
        }
        if p > 0 {
            assert(p == aa as int * bb as int);
            assert(tdiv(p, d as int) == q as int);
        }
        if p < 0 {
            assert(-p == aa as int * bb as int);
            assert(tdiv(p, d as int) == -(q as int));
        }
    }
    if (a < 0) != (b < 0) {
        if q > FX_MAX as u128 {
            FX_MIN
        } else {
            -(q as i64)
        }
    } else {
        if q > FX_MAX as u128 {
            FX_MAX
        } else {
            q as i64
        }
    }
}

/// Saturating sum of two scalars.
pub fn fx_add(a: i64, b: i64) -> (r: i64)
    ensures
        r == sfx_add(a, b),
{
    clip128(a as i128 + b as i128)
}

/// Saturating difference of two scalars.
pub fn fx_sub(a: i64, b: i64) -> (r: i64)
    ensures
        r == sfx_sub(a, b),
{
    clip128(a as i128 - b as i128)
}

/// Saturating fixed-point product of two scalars.
pub fn fx_mul(a: i64, b: i64) -> (r: i64)
    ensures
        r == sfx_mul(a, b),
{
    mul_div_sat(a, b, SCALE as u128)
}

/// Half of a scalar, truncated toward zero.
pub fn fx_half(a: i64) -> (r: i64)
    ensures
        r == sfx_half(a),
{
    mul_div_sat(a, 1, 2)
}

/// Saturating fixed-point quotient; the divisor must be positive.
pub fn fx_div(a: i64, b: i64) -> (r: i64)
    requires
        b >= 1,
    ensures
        r == sfx_div(a, b),
{
    mul_div_sat(a, SCALE, b as u128)
}

/// Floor of the square root of a wide magnitude, by binary search.
pub fn isqrt(n: u128) -> (r: u128)
    ensures
        r as nat == spec_sqrt(n as nat),
{
    if n == 0 {
        return 0;
    }
    let mut lo: u128 = 0;
    let mut hi: u128 = 0x10000000000000000;
    proof {
        let b: int = 0x10000000000000000;
        assert((n as int) < b * b) by (nonlinear_arith)
            requires
                n as int <= 0xffffffffffffffffffffffffffffffff,
                b == 0x10000000000000000,
        ;
    }
    while lo + 1 < hi
        invariant
            lo < hi,
            hi <= 0x10000000000000000,
            lo as int * lo as int <= n as int,
            (n as int) < hi as int * hi as int,
        decreases hi - lo,
    {
        let mid: u128 = lo + (hi - lo) / 2;
        proof {
            let b: int = 0x10000000000000000;
            assert((mid as int * mid as int) < b * b) by (nonlinear_arith)
                requires
                    0 <= mid as int && (mid as int) < b,
            ;
        }
        if mid * mid <= n {
            lo = mid;
        } else {
            hi = mid;
        }
    }
    proof {
        assert(hi == lo + 1);
        assert((lo as nat + 1) * (lo as nat + 1) == hi as int * hi as int)
            by (nonlinear_arith)
            requires
                lo as nat + 1 == hi as int,
        ;
        assert(lo as nat * lo as nat == lo as int * lo as int) by (nonlinear_arith)
            requires
                lo as nat == lo as int,
        ;
        lemma_sqrt_unique(n as nat, lo as nat);
    }
    lo
}

} // verus!
