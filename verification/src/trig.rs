//! Fixed-point trigonometry for the circular-arc approximation.
//!
//! Angles are fixed-point radians. The functions are the library's own
//! polynomial approximations; their contracts state the ranges and fixed
//! points that the arc code depends on, and every operation saturates, so
//! all of them are total.

use vstd::prelude::*;

use crate::fx::{
    fx_abs, fx_add, fx_clamp, fx_div, fx_mul, fx_sqrt, fx_sub, lemma_fx_div_bound,
    lemma_fx_mul_bound, SCALE,
};

verus! {

/// Pi in fixed-point radians.
pub const FX_PI: i64 = 314159;

/// Two pi in fixed-point radians.
pub const FX_TWO_PI: i64 = 628318;

/// Half pi in fixed-point radians.
pub const FX_HALF_PI: i64 = 157079;

/// Quarter pi in fixed-point radians.
pub const FX_QUARTER_PI: i64 = 78540;

/// Bring an angle into `[-pi, pi]` by whole turns.
pub fn reduce_angle(x0: i64) -> (r: i64)
    ensures
        -FX_PI <= r <= FX_PI,
        x0 == 0 ==> r == 0,
{
    let mut x: i64 = x0;
    while x > FX_PI
        invariant
            x0 == 0 ==> x == 0,
        decreases
                (if x > 0 {
                    x as int
                } else {
                    0int
                }),
    {
        x = x - FX_TWO_PI;
    }
    while x < -FX_PI
        invariant
            x <= FX_PI,
            x0 == 0 ==> x == 0,
        decreases
                (if x < 0 {
                    -(x as int)
                } else {
                    0int
                }),
    {
        x = x + FX_TWO_PI;
    }
    x
}

/// Arctangent on `[0, 1]`, by a quadratic correction of the linear ramp.
fn atan_unit(u: i64) -> (r: i64)
    requires
        0 <= u <= SCALE,
    ensures
        0 <= r <= FX_HALF_PI,
        u == 0 ==> r == 0,
{
    let ramp: i64 = fx_mul(u, FX_QUARTER_PI);
    let bow: i64 = fx_mul(fx_mul(u, fx_sub(SCALE, u)), fx_add(24470, fx_mul(6630, u)));
    proof {
        lemma_fx_mul_bound(u as int, FX_QUARTER_PI as int, SCALE as int, FX_QUARTER_PI as int);
        lemma_fx_mul_bound(6630, u as int, 6630, SCALE as int);
        lemma_fx_mul_bound(u as int, (SCALE - u) as int, SCALE as int, SCALE as int);
    }
    proof {
        lemma_fx_mul_bound(
            crate::fx::spec_fx_mul(u as int, (SCALE - u) as int),
            (24470 + crate::fx::spec_fx_mul(6630, u as int)) as int,
            SCALE as int,
            31100,
        );
    }
    fx_add(ramp, bow)
}

/// Arctangent of `y / x` with quadrant handling; the result lies in
/// `[-pi, pi]`, is zero on the positive `x` axis, and is non-negative for
/// non-negative `y`.
pub fn fx_atan2(y: i64, x: i64) -> (r: i64)
    ensures
        -FX_PI <= r <= FX_PI,
        y == 0 && x >= 0 ==> r == 0,
        y >= 0 ==> r >= 0,
{
    let ax: i64 = fx_abs(x);
    let ay: i64 = fx_abs(y);
    if ax == 0 && ay == 0 {
        return 0;
    }
    let t: i64 = if ay <= ax {
        let q: i64 = fx_div(ay, ax);
        proof {
            lemma_fx_div_bound(ay as int, ax as int);
        }
        atan_unit(q)
    } else {
        let q: i64 = fx_div(ax, ay);
        proof {
            lemma_fx_div_bound(ax as int, ay as int);
        }
        fx_sub(FX_HALF_PI, atan_unit(q))
    };
    let quad: i64 = if x >= 0 {
        t
    } else {
        fx_sub(FX_PI, t)
    };
    if y < 0 {
        -quad
    } else {
        quad
    }
}

/// Cosine on `[0, half pi]` by a truncated alternating series, forced into
/// `[-1, 1]`.
fn cos_poly(x: i64) -> (r: i64)
    requires
        0 <= x <= FX_HALF_PI,
    ensures
        -SCALE <= r <= SCALE,
        x == 0 ==> r == SCALE,
{
    let x2: i64 = fx_mul(x, x);
    let x4: i64 = fx_mul(x2, x2);
    let x6: i64 = fx_mul(x4, x2);
    let x8: i64 = fx_mul(x4, x4);
    let t1: i64 = fx_div(x2, 200000);
    let t2: i64 = fx_div(x4, 2400000);
    let t3: i64 = fx_div(x6, 72000000);
    let t4: i64 = fx_div(x8, 4032000000);
    let s: i64 = fx_add(fx_sub(fx_add(fx_sub(SCALE, t1), t2), t3), t4);
    proof {
        if x == 0 {
            crate::fx::lemma_fx_zero(0);
            assert(x2 as int == 0);
            crate::fx::lemma_fx_zero(200000);
            crate::fx::lemma_fx_zero(2400000);
            crate::fx::lemma_fx_zero(72000000);
            crate::fx::lemma_fx_zero(4032000000);
            assert(s as int == SCALE as int);
        }
    }
    fx_clamp(s, -SCALE, SCALE)
}

/// Sine on `[0, half pi]` by a truncated alternating series, forced into
/// `[-1, 1]`.
fn sin_poly(x: i64) -> (r: i64)
    requires
        0 <= x <= FX_HALF_PI,
    ensures
        -SCALE <= r <= SCALE,
        x == 0 ==> r == 0,
{
    let x2: i64 = fx_mul(x, x);
    let x3: i64 = fx_mul(x2, x);
    let x5: i64 = fx_mul(x3, x2);
    let x7: i64 = fx_mul(x5, x2);
    let t1: i64 = fx_div(x3, 600000);
    let t2: i64 = fx_div(x5, 12000000);
    let t3: i64 = fx_div(x7, 504000000);
    let s: i64 = fx_sub(fx_add(fx_sub(x, t1), t2), t3);
    proof {
        if x == 0 {
            crate::fx::lemma_fx_zero(0);
            assert(x2 as int == 0);
            crate::fx::lemma_fx_zero(600000);
            crate::fx::lemma_fx_zero(12000000);
            crate::fx::lemma_fx_zero(504000000);
            assert(s as int == 0);
        }
    }
    fx_clamp(s, -SCALE, SCALE)
}

/// Cosine of a fixed-point angle, in `[-1, 1]`.
pub fn fx_cos(x0: i64) -> (r: i64)
    ensures
        -SCALE <= r <= SCALE,
        x0 == 0 ==> r == SCALE,
{
    let x: i64 = reduce_angle(x0);
    let ax: i64 = fx_abs(x);
    if ax > FX_HALF_PI {
        let xr: i64 = fx_sub(FX_PI, ax);
        let c: i64 = cos_poly(xr);
        -c
    } else {
        cos_poly(ax)
    }
}

/// Sine of a fixed-point angle, in `[-1, 1]`.
pub fn fx_sin(x0: i64) -> (r: i64)
    ensures
        -SCALE <= r <= SCALE,
        x0 == 0 ==> r == 0,
{
    let x: i64 = reduce_angle(x0);
    let ax: i64 = fx_abs(x);
    let s: i64 = if ax > FX_HALF_PI {
        let xr: i64 = fx_sub(FX_PI, ax);
        sin_poly(xr)
    } else {
        sin_poly(ax)
    };
    if x < 0 {
        -s
    } else {
        s
    }
}

/// Arccosine of a fixed-point value (forced into `[-1, 1]` first); the
/// result lies in `[0, pi]`.
pub fn fx_acos(z0: i64) -> (r: i64)
    ensures
        0 <= r <= FX_PI,
{
    let z: i64 = fx_clamp(z0, -SCALE, SCALE);
    let s: i64 = fx_sqrt(fx_sub(SCALE, fx_mul(z, z)));
    fx_atan2(s, z)
}

} // verus!
