//! Fixed-point arithmetic: the numeric foundation of the library.
//!
//! A quantity is stored as an `i64` holding `value * SCALE`, so five decimal
//! digits of fraction are exact. Every operation is total: results that would
//! leave the representable range saturate at the nearest bound, and a divisor
//! of zero yields zero. Each executable operation is specified exactly by a
//! matching spec function over `int`.

use vstd::prelude::*;

verus! {

/// Number of fixed-point units per whole unit.
pub const SCALE: i64 = 100000;

/// Saturate an unbounded integer into the `i64` range.
pub open spec fn clip(x: int) -> int {
    if x > i64::MAX as int {
        i64::MAX as int
    } else if x < i64::MIN as int {
        i64::MIN as int
    } else {
        x
    }
}

/// Division truncating toward zero (the rounding used by all fixed-point
/// operations), defined for positive divisors.
pub open spec fn tdiv(p: int, d: int) -> int
    recommends
        d > 0,
{
    if p >= 0 {
        p / d
    } else {
        -((-p) / d)
    }
}

/// Absolute value over `int`.
pub open spec fn abs_int(x: int) -> int {
    if x < 0 {
        -x
    } else {
        x
    }
}

/// What `fx_add` returns.
pub open spec fn spec_fx_add(a: int, b: int) -> int {
    clip(a + b)
}

/// What `fx_sub` returns.
pub open spec fn spec_fx_sub(a: int, b: int) -> int {
    clip(a - b)
}

/// What `fx_mul` returns: the product of two fixed-point values.
pub open spec fn spec_fx_mul(a: int, b: int) -> int {
    clip(tdiv(a * b, SCALE as int))
}

/// What `fx_div` returns: the quotient of two fixed-point values; a divisor
/// of zero yields zero.
pub open spec fn spec_fx_div(a: int, b: int) -> int {
    if b == 0 {
        0
    } else {
        clip(tdiv(a * (SCALE as int), abs_int(b)) * (if b < 0 { -1int } else { 1int }))
    }
}

/// What `fx_of_int` returns: a whole number as a fixed-point value.
pub open spec fn spec_fx_of_int(n: int) -> int {
    clip(n * (SCALE as int))
}

proof fn lemma_abs_mul(a: int, b: int)
    ensures
        abs_int(a * b) == abs_int(a) * abs_int(b),
{
    assert(abs_int(a * b) == abs_int(a) * abs_int(b)) by (nonlinear_arith);
}

proof fn lemma_mul_sign(a: int, b: int)
    ensures
        a >= 0 && b >= 0 ==> a * b >= 0,
        a <= 0 && b <= 0 ==> a * b >= 0,
        a >= 0 && b <= 0 ==> a * b <= 0,
        a <= 0 && b >= 0 ==> a * b <= 0,
{
    assert(a >= 0 && b >= 0 ==> a * b >= 0) by (nonlinear_arith);
    assert(a <= 0 && b <= 0 ==> a * b >= 0) by (nonlinear_arith);
    assert(a >= 0 && b <= 0 ==> a * b <= 0) by (nonlinear_arith);
    assert(a <= 0 && b >= 0 ==> a * b <= 0) by (nonlinear_arith);
}

proof fn lemma_div_bound(p: int, d: int)
    requires
        p >= 0,
        d > 0,
    ensures
        0 <= p / d <= p,
{
    assert(0 <= p / d <= p) by (nonlinear_arith)
        requires
            p >= 0,
            d > 0,
    ;
}

/// Magnitude of an `i64`, exact also at the minimum value.
pub fn fx_abs_u64(a: i64) -> (r: u64)
    ensures
        r as int == abs_int(a as int),
{
    if a < 0 {
        let w: i128 = -(a as i128);
        w as u64
    } else {
        a as u64
    }
}

/// Saturate a signed magnitude into `i64`: the value is `-q` when `neg`
/// holds, else `q`.
fn clip_signed(neg: bool, q: u128) -> (r: i64)
    ensures
        r as int == clip(if neg { -(q as int) } else { q as int }),
{
    if neg {
        if q >= 9223372036854775808u128 {
            i64::MIN
        } else {
            let w: i128 = -(q as i128);
            w as i64
        }
    } else {
        if q > 9223372036854775807u128 {
            i64::MAX
        } else {
            q as i64
        }
    }
}

/// Saturating fixed-point addition.
pub fn fx_add(a: i64, b: i64) -> (r: i64)
    ensures
        r as int == spec_fx_add(a as int, b as int),
{
    let s: i128 = a as i128 + b as i128;
    if s > i64::MAX as i128 {
        i64::MAX
    } else if s < i64::MIN as i128 {
        i64::MIN
    } else {
        s as i64
    }
}

/// Saturating fixed-point subtraction.
pub fn fx_sub(a: i64, b: i64) -> (r: i64)
    ensures
        r as int == spec_fx_sub(a as int, b as int),
{
    let s: i128 = a as i128 - b as i128;
    if s > i64::MAX as i128 {
        i64::MAX
    } else if s < i64::MIN as i128 {
        i64::MIN
    } else {
        s as i64
    }
}

/// Saturating fixed-point multiplication.
pub fn fx_mul(a: i64, b: i64) -> (r: i64)
    ensures
        r as int == spec_fx_mul(a as int, b as int),
{
    let neg: bool = (a < 0) != (b < 0);
    let aa: u128 = fx_abs_u64(a) as u128;
    let bb: u128 = fx_abs_u64(b) as u128;
    proof {
        assert((aa as int) * (bb as int) <= 0x8000000000000000 * 0x8000000000000000)
            by (nonlinear_arith)
            requires
                0 <= aa as int <= 0x8000000000000000,
                0 <= bb as int <= 0x8000000000000000,
        ;
    }
    let p: u128 = aa * bb;
    let q: u128 = p / (SCALE as u128);
    proof {
        let ab = (a as int) * (b as int);
        lemma_abs_mul(a as int, b as int);
        assert(p as int == abs_int(ab));
        lemma_mul_sign(a as int, b as int);
        if ab >= 0 {
            assert(abs_int(ab) == ab);
            assert(tdiv(ab, SCALE as int) == q as int);
        } else {
            assert(abs_int(ab) == -ab);
            assert(tdiv(ab, SCALE as int) == -(q as int));
        }
        if ab == 0 {
            lemma_div_bound(0, SCALE as int);
            assert(q as int == 0);
        }
        assert((if neg {
            -(q as int)
        } else {
            q as int
        }) == tdiv(ab, SCALE as int));
    }
    clip_signed(neg, q)
}

/// Saturating fixed-point division; a divisor of zero yields zero.
pub fn fx_div(a: i64, b: i64) -> (r: i64)
    ensures
        r as int == spec_fx_div(a as int, b as int),
{
    if b == 0 {
        return 0;
    }
    let neg: bool = (a < 0) != (b < 0);
    let aa: u128 = fx_abs_u64(a) as u128;
    let bb: u128 = fx_abs_u64(b) as u128;
    let p: u128 = aa * (SCALE as u128);
    let q: u128 = p / bb;
    proof {
        let m = (a as int) * (SCALE as int);
        lemma_abs_mul(a as int, SCALE as int);
        assert(p as int == abs_int(m));
        lemma_mul_sign(a as int, SCALE as int);
        let t = tdiv(m, abs_int(b as int));
        if m >= 0 {
            assert(abs_int(m) == m);
            assert(t == q as int);
        } else {
            assert(abs_int(m) == -m);
            assert(t == -(q as int));
        }
        if a == 0 {
            lemma_div_bound(0, bb as int);
            assert(q as int == 0);
        }
        let s: int = if (b as int) < 0 {
            -1int
        } else {
            1int
        };
        assert(t * -1 == -t) by (nonlinear_arith);
        assert(t * 1 == t) by (nonlinear_arith);
        assert((if neg {
            -(q as int)
        } else {
            q as int
        }) == t * s);
    }
    clip_signed(neg, q)
}

/// A whole number as a saturating fixed-point value.
pub fn fx_of_int(n: i64) -> (r: i64)
    ensures
        r as int == spec_fx_of_int(n as int),
{
    proof {
        assert(i64::MIN as int * (SCALE as int) <= (n as int) * (SCALE as int) <= i64::MAX as int
            * (SCALE as int)) by (nonlinear_arith)
            requires
                i64::MIN as int <= n as int <= i64::MAX as int,
        ;
    }
    let s: i128 = (n as i128) * (SCALE as i128);
    if s > i64::MAX as i128 {
        i64::MAX
    } else if s < i64::MIN as i128 {
        i64::MIN
    } else {
        s as i64
    }
}

/// What `fx_abs` returns.
pub open spec fn spec_fx_abs(a: int) -> int {
    clip(abs_int(a))
}

/// Saturating fixed-point absolute value.
pub fn fx_abs(a: i64) -> (r: i64)
    ensures
        r as int == spec_fx_abs(a as int),
{
    let m: u64 = fx_abs_u64(a);
    if m > i64::MAX as u64 {
        i64::MAX
    } else {
        m as i64
    }
}

/// The smaller of two fixed-point values.
pub fn fx_min(a: i64, b: i64) -> (r: i64)
    ensures
        r as int == (if a as int <= b as int { a as int } else { b as int }),
{
    if a <= b {
        a
    } else {
        b
    }
}

/// The larger of two fixed-point values.
pub fn fx_max(a: i64, b: i64) -> (r: i64)
    ensures
        r as int == (if a as int >= b as int { a as int } else { b as int }),
{
    if a >= b {
        a
    } else {
        b
    }
}

/// The value `v` forced into `[lo, hi]`.
pub open spec fn spec_fx_clamp(v: int, lo: int, hi: int) -> int
    recommends
        lo <= hi,
{
    if v < lo {
        lo
    } else if v > hi {
        hi
    } else {
        v
    }
}

/// Force a value into `[lo, hi]`.
pub fn fx_clamp(v: i64, lo: i64, hi: i64) -> (r: i64)
    requires
        lo <= hi,
    ensures
        r as int == spec_fx_clamp(v as int, lo as int, hi as int),
{
    if v < lo {
        lo
    } else if v > hi {
        hi
    } else {
        v
    }
}

/// Multiplying or dividing zero yields zero.
pub proof fn lemma_fx_zero(a: int)
    ensures
        spec_fx_mul(0, a) == 0,
        spec_fx_mul(a, 0) == 0,
        spec_fx_div(0, a) == 0,
{
    assert(a * 0 == 0) by (nonlinear_arith);
    assert(0 * a == 0) by (nonlinear_arith);
    lemma_div_bound(0, SCALE as int);
    assert(tdiv(0, SCALE as int) == 0);
    if a != 0 {
        lemma_div_bound(0, abs_int(a));
        assert(tdiv(0 * (SCALE as int), abs_int(a)) == 0);
        assert(0int * -1int == 0);
        assert(0int * 1int == 0);
    }
}

/// A product of values from `[0, am] x [0, bm]` stays in `[0, am * bm / SCALE]`.
pub proof fn lemma_fx_mul_bound(a: int, b: int, am: int, bm: int)
    requires
        0 <= a <= am,
        0 <= b <= bm,
        am * bm <= i64::MAX as int,
    ensures
        0 <= spec_fx_mul(a, b) <= tdiv(am * bm, SCALE as int),
{
    assert(0 <= a * b <= am * bm) by (nonlinear_arith)
        requires
            0 <= a <= am,
            0 <= b <= bm,
    ;
    assert((a * b) / (SCALE as int) <= (am * bm) / (SCALE as int)) by (nonlinear_arith)
        requires
            0 <= a * b <= am * bm,
    ;
    lemma_div_bound(a * b, SCALE as int);
    lemma_div_bound(am * bm, SCALE as int);
}

/// A quotient of a numerator by a divisor at least as large stays in `[0, SCALE]`.
pub proof fn lemma_fx_div_bound(a: int, b: int)
    requires
        0 <= a <= b,
        0 < b,
    ensures
        0 <= spec_fx_div(a, b) <= SCALE as int,
{
    assert(0 <= a * (SCALE as int) <= b * (SCALE as int)) by (nonlinear_arith)
        requires
            0 <= a <= b,
    ;
    assert((a * (SCALE as int)) / b <= (b * (SCALE as int)) / b) by (nonlinear_arith)
        requires
            0 <= a * (SCALE as int) <= b * (SCALE as int),
            0 < b,
    ;
    assert((b * (SCALE as int)) / b == SCALE as int) by (nonlinear_arith)
        requires
            0 < b,
    ;
    lemma_div_bound(a * (SCALE as int), b);
}

/// `r` is the integer square root of `n`.
pub open spec fn is_sqrt_of(n: int, r: int) -> bool {
    0 <= r && r * r <= n && n < (r + 1) * (r + 1)
}

/// The integer square root of a non-negative integer.
pub open spec fn sqrt_int(n: int) -> int {
    choose|r: int| is_sqrt_of(n, r)
}

pub proof fn lemma_sqrt_unique(n: int, r1: int, r2: int)
    requires
        is_sqrt_of(n, r1),
        is_sqrt_of(n, r2),
    ensures
        r1 == r2,
{
    assert(r1 < r2 ==> (r1 + 1) * (r1 + 1) <= r2 * r2) by (nonlinear_arith)
        requires
            0 <= r1,
            0 <= r2,
    ;
    assert(r2 < r1 ==> (r2 + 1) * (r2 + 1) <= r1 * r1) by (nonlinear_arith)
        requires
            0 <= r1,
            0 <= r2,
    ;
}

/// Integer square root by bisection: `r * r <= n < (r + 1) * (r + 1)`.
pub fn isqrt_u128(n: u128) -> (r: u64)
    ensures
        is_sqrt_of(n as int, r as int),
        r as int == sqrt_int(n as int),
{
    let mut lo: u128 = 0;
    let mut hi: u128 = 0x10000000000000000;
    proof {
        assert((n as int) < 0x10000000000000000 * 0x10000000000000000) by (nonlinear_arith)
            requires
                n as int <= u128::MAX as int,
        ;
    }
    while hi - lo > 1
        invariant
            lo < hi <= 0x10000000000000000,
            (lo as int) * (lo as int) <= n as int,
            (n as int) < (hi as int) * (hi as int),
        decreases hi - lo,
    {
        let mid: u128 = lo + (hi - lo) / 2;
        proof {
            assert((mid as int) * (mid as int) <= 0xffffffffffffffff * 0xffffffffffffffff)
                by (nonlinear_arith)
                requires
                    0 <= mid as int <= 0xffffffffffffffff,
            ;
        }
        if mid * mid <= n {
            lo = mid;
        } else {
            hi = mid;
        }
    }
    proof {
        assert(is_sqrt_of(n as int, lo as int));
        assert(exists|r: int| is_sqrt_of(n as int, r));
        lemma_sqrt_unique(n as int, lo as int, sqrt_int(n as int));
    }
    lo as u64
}

/// What `fx_hypot` returns: the Euclidean length of the vector `(x, y)`.
pub open spec fn spec_fx_hypot(x: int, y: int) -> int {
    clip(sqrt_int(x * x + y * y))
}

/// Euclidean length of a fixed-point vector.
pub fn fx_hypot(x: i64, y: i64) -> (r: i64)
    ensures
        r as int == spec_fx_hypot(x as int, y as int),
        r >= 0,
{
    let xa: u128 = fx_abs_u64(x) as u128;
    let ya: u128 = fx_abs_u64(y) as u128;
    proof {
        assert((xa as int) * (xa as int) + (ya as int) * (ya as int) <= 0x8000000000000000
            * 0x8000000000000000 + 0x8000000000000000 * 0x8000000000000000) by (nonlinear_arith)
            requires
                0 <= xa as int <= 0x8000000000000000,
                0 <= ya as int <= 0x8000000000000000,
        ;
        lemma_abs_mul(x as int, x as int);
        lemma_abs_mul(y as int, y as int);
        lemma_mul_sign(x as int, x as int);
        lemma_mul_sign(y as int, y as int);
    }
    let s: u128 = xa * xa + ya * ya;
    let r0: u64 = isqrt_u128(s);
    proof {
        assert(s as int == (x as int) * (x as int) + (y as int) * (y as int));
    }
    if r0 > i64::MAX as u64 {
        i64::MAX
    } else {
        r0 as i64
    }
}

/// What `fx_sqrt` returns: the square root of a fixed-point value, zero for
/// negative inputs.
pub open spec fn spec_fx_sqrt(v: int) -> int {
    if v <= 0 {
        0
    } else {
        clip(sqrt_int(v * (SCALE as int)))
    }
}

/// Square root of a fixed-point value; negative inputs yield zero.
pub fn fx_sqrt(v: i64) -> (r: i64)
    ensures
        r as int == spec_fx_sqrt(v as int),
        r >= 0,
{
    if v <= 0 {
        return 0;
    }
    proof {
        assert((v as int) * (SCALE as int) <= 0x8000000000000000 * (SCALE as int))
            by (nonlinear_arith)
            requires
                0 <= v as int <= 0x8000000000000000,
        ;
    }
    let p: u128 = (v as u128) * (SCALE as u128);
    let r0: u64 = isqrt_u128(p);
    if r0 > i64::MAX as u64 {
        i64::MAX
    } else {
        r0 as i64
    }
}

} // verus!
