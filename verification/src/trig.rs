//! Angles in fixed-point radians: wrapping, the unit vector of a heading and
//! the bearing of a vector.
//!
//! Sine, cosine and arctangent are truncated power series evaluated with the
//! saturating operations of `fixed`, after the argument has been brought into
//! an eighth of a turn. Their values are stated here as they are computed;
//! each is within a few millionths of the real function.
use crate::fixed::{
    clamped, diff, fx_clamp, fx_div, fx_mean, fx_mul, fx_sub, in_range, mean, prod, quot, sat,
    saturate, LIMIT, SCALE,
};
use vstd::prelude::*;

verus! {

/// Half a turn.
pub const PI: i64 = 3_141_593;

/// A full turn; exactly twice `PI`.
pub const TWO_PI: i64 = 6_283_186;

/// A quarter of a turn.
pub const HALF_PI: i64 = 1_570_796;

/// An eighth of a turn.
pub const QUARTER_PI: i64 = 785_398;

/// The tangent of a sixteenth of a turn.
pub const TAN_SIXTEENTH: i64 = 414_214;

/// The angle in `(-PI, PI]` that differs from `d` by whole turns.
pub open spec fn wrapped(d: int) -> int {
    PI - ((PI - d) % (TWO_PI as int))
}

/// Magnitude of `v`, saturated.
pub open spec fn magnitude(v: int) -> int {
    if v >= 0 {
        sat(v)
    } else {
        sat(-v)
    }
}

/// `v` limited to `[-SCALE, SCALE]`.
pub open spec fn unit_clamp(v: int) -> int {
    clamped(v, -SCALE, SCALE as int)
}

/// Sine of a small angle `x`: the series up to the ninth power.
pub open spec fn sin_series(x: int) -> int {
    let x2 = prod(x, x);
    let t4 = diff(SCALE as int, mean(x2, 72));
    let t3 = diff(SCALE as int, mean(prod(x2, t4), 42));
    let t2 = diff(SCALE as int, mean(prod(x2, t3), 20));
    let t1 = diff(SCALE as int, mean(prod(x2, t2), 6));
    prod(x, t1)
}

/// Cosine of a small angle `x`: the series up to the eighth power.
pub open spec fn cos_series(x: int) -> int {
    let x2 = prod(x, x);
    let u4 = diff(SCALE as int, mean(x2, 56));
    let u3 = diff(SCALE as int, mean(prod(x2, u4), 30));
    let u2 = diff(SCALE as int, mean(prod(x2, u3), 12));
    diff(SCALE as int, mean(prod(x2, u2), 2))
}

/// The number of quarter turns nearest to an angle `a` in `(-PI, PI]`.
pub open spec fn quarter_turns(a: int) -> int {
    if a > 3 * QUARTER_PI {
        2
    } else if a > QUARTER_PI {
        1
    } else if a >= -QUARTER_PI {
        0
    } else if a >= -3 * QUARTER_PI {
        -1
    } else {
        -2
    }
}

/// What is left of the heading `h` after its nearest quarter turns are taken out.
pub open spec fn residual(h: int) -> int {
    wrapped(h) - quarter_turns(wrapped(h)) * HALF_PI
}

/// Cosine of the heading `h`.
pub open spec fn cosine(h: int) -> int {
    let q = quarter_turns(wrapped(h));
    let c = unit_clamp(cos_series(residual(h)));
    let s = unit_clamp(sin_series(residual(h)));
    if q == 0 {
        c
    } else if q == 1 {
        -s
    } else if q == -1 {
        s
    } else {
        -c
    }
}

/// Sine of the heading `h`.
pub open spec fn sine(h: int) -> int {
    let q = quarter_turns(wrapped(h));
    let c = unit_clamp(cos_series(residual(h)));
    let s = unit_clamp(sin_series(residual(h)));
    if q == 0 {
        s
    } else if q == 1 {
        c
    } else if q == -1 {
        -c
    } else {
        -s
    }
}

/// Arctangent of a small ratio `w`: the series up to the thirteenth power.
pub open spec fn atan_series(w: int) -> int {
    let w2 = prod(w, w);
    let s5 = diff(90_909, prod(w2, 76_923));
    let s4 = diff(111_111, prod(w2, s5));
    let s3 = diff(142_857, prod(w2, s4));
    let s2 = diff(200_000, prod(w2, s3));
    let s1 = diff(333_333, prod(w2, s2));
    let s0 = diff(SCALE as int, prod(w2, s1));
    prod(w, s0)
}

/// Arctangent of a ratio `z` in `[0, 1]`.
pub open spec fn atan_unit(z: int) -> int {
    if z <= TAN_SIXTEENTH {
        atan_series(z)
    } else {
        diff(QUARTER_PI as int, atan_series(quot(SCALE - z, SCALE + z)))
    }
}

/// The angle in the first quadrant of the vector `(ax, ay)`, both non-negative.
pub open spec fn arc(ax: int, ay: int) -> int {
    let raw = if ay <= ax {
        atan_unit(quot(ay, ax))
    } else {
        diff(HALF_PI as int, atan_unit(quot(ax, ay)))
    };
    clamped(raw, 0, HALF_PI as int)
}

/// The angle of the vector `(x, y)`, in `[-PI, PI]`; zero for the zero vector.
pub open spec fn bearing(y: int, x: int) -> int {
    let b = arc(magnitude(x), magnitude(y));
    if x >= 0 {
        if y >= 0 {
            b
        } else {
            -b
        }
    } else {
        if y >= 0 {
            PI - b
        } else {
            b - PI
        }
    }
}

/// A wrapped angle lies in `(-PI, PI]` and differs from the argument by whole turns.
pub proof fn lemma_wrapped(d: int)
    ensures
        -PI < wrapped(d) <= PI,
        (wrapped(d) - d) % (TWO_PI as int) == 0,
        -PI < d <= PI ==> wrapped(d) == d,
{
    let t = PI - d;
    let m = t % (TWO_PI as int);
    assert(t == (TWO_PI as int) * (t / (TWO_PI as int)) + m);
    assert((wrapped(d) - d) == (TWO_PI as int) * (t / (TWO_PI as int)));
}

/// The heading zero points along the first axis, exactly.
pub proof fn lemma_heading_zero()
    ensures
        cosine(0) == SCALE,
        sine(0) == 0,
{
    assert(wrapped(0) == 0);
    assert(prod(0, 0) == 0);
    assert(mean(0, 56) == 0);
    assert(mean(0, 72) == 0);
    assert(prod(0, SCALE as int) == 0);
    assert(cos_series(0) == SCALE);
    assert(sin_series(0) == 0);
}

/// Wraps an angle into `(-PI, PI]`.
pub fn wrap_angle(d: i64) -> (r: i64)
    ensures
        r == wrapped(d as int),
        -PI < r <= PI,
{
    let t: i128 = 3_141_593 - d as i128;
    let m: i128 = if t >= 0 {
        t % 6_283_186
    } else {
        let u: i128 = (-t) % 6_283_186;
        if u == 0 {
            0
        } else {
            6_283_186 - u
        }
    };
    assert(m == t % 6_283_186);
    (3_141_593 - m) as i64
}

/// Magnitude of `v`, saturated.
pub fn fx_abs(v: i64) -> (r: i64)
    ensures
        r == magnitude(v as int),
        0 <= r <= LIMIT,
{
    if v >= 0 {
        saturate(v as i128)
    } else {
        saturate(-(v as i128))
    }
}

/// Sine of a small angle.
fn sin_small(x: i64) -> (r: i64)
    ensures
        r == sin_series(x as int),
{
    let x2: i64 = fx_mul(x, x);
    let t4: i64 = fx_sub(SCALE, fx_mean(x2, 72));
    let t3: i64 = fx_sub(SCALE, fx_mean(fx_mul(x2, t4), 42));
    let t2: i64 = fx_sub(SCALE, fx_mean(fx_mul(x2, t3), 20));
    let t1: i64 = fx_sub(SCALE, fx_mean(fx_mul(x2, t2), 6));
    fx_mul(x, t1)
}

/// Cosine of a small angle.
fn cos_small(x: i64) -> (r: i64)
    ensures
        r == cos_series(x as int),
{
    let x2: i64 = fx_mul(x, x);
    let u4: i64 = fx_sub(SCALE, fx_mean(x2, 56));
    let u3: i64 = fx_sub(SCALE, fx_mean(fx_mul(x2, u4), 30));
    let u2: i64 = fx_sub(SCALE, fx_mean(fx_mul(x2, u3), 12));
    fx_sub(SCALE, fx_mean(fx_mul(x2, u2), 2))
}

/// The unit vector of the heading `h`: its cosine and its sine.
pub fn heading_vector(h: i64) -> (r: (i64, i64))
    ensures
        r.0 == cosine(h as int),
        r.1 == sine(h as int),
        -SCALE <= r.0 <= SCALE,
        -SCALE <= r.1 <= SCALE,
{
    let a: i64 = wrap_angle(h);
    let q: i64 = if a > 3 * QUARTER_PI {
        2
    } else if a > QUARTER_PI {
        1
    } else if a >= -QUARTER_PI {
        0
    } else if a >= -3 * QUARTER_PI {
        -1
    } else {
        -2
    };
    let x: i64 = a - q * HALF_PI;
    let c: i64 = fx_clamp(cos_small(x), -SCALE, SCALE);
    let s: i64 = fx_clamp(sin_small(x), -SCALE, SCALE);
    if q == 0 {
        (c, s)
    } else if q == 1 {
        (-s, c)
    } else if q == -1 {
        (s, -c)
    } else {
        (-c, -s)
    }
}

/// Arctangent of a small ratio.
fn atan_small(w: i64) -> (r: i64)
    ensures
        r == atan_series(w as int),
{
    let w2: i64 = fx_mul(w, w);
    let s5: i64 = fx_sub(90_909, fx_mul(w2, 76_923));
    let s4: i64 = fx_sub(111_111, fx_mul(w2, s5));
    let s3: i64 = fx_sub(142_857, fx_mul(w2, s4));
    let s2: i64 = fx_sub(200_000, fx_mul(w2, s3));
    let s1: i64 = fx_sub(333_333, fx_mul(w2, s2));
    let s0: i64 = fx_sub(SCALE, fx_mul(w2, s1));
    fx_mul(w, s0)
}

/// Arctangent of a ratio between zero and one.
fn atan_ratio(z: i64) -> (r: i64)
    requires
        in_range(z as int),
    ensures
        r == atan_unit(z as int),
{
    if z <= TAN_SIXTEENTH {
        atan_small(z)
    } else {
        fx_sub(QUARTER_PI, atan_small(fx_div(SCALE - z, SCALE + z)))
    }
}

/// The angle of the vector `(x, y)`, as `atan2` takes its arguments.
pub fn fx_atan2(y: i64, x: i64) -> (r: i64)
    ensures
        r == bearing(y as int, x as int),
        -PI <= r <= PI,
{
    let ax: i64 = fx_abs(x);
    let ay: i64 = fx_abs(y);
    let raw: i64 = if ay <= ax {
        atan_ratio(fx_div(ay, ax))
    } else {
        fx_sub(HALF_PI, atan_ratio(fx_div(ax, ay)))
    };
    let b: i64 = fx_clamp(raw, 0, HALF_PI);
    if x >= 0 {
        if y >= 0 {
            b
        } else {
            -b
        }
    } else {
        if y >= 0 {
            PI - b
        } else {
            b - PI
        }
    }
}

} // verus!
