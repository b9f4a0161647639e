//! Saturating fixed-point numbers.
//!
//! Every quantity of the simulation (a coordinate, an angle, a speed, a
//! weight, a time step) is an `i64` counting millionths of a unit. The
//! operations round to the nearest millionth, halves away from zero, and
//! saturate at `LIMIT` instead of overflowing, so each of them is total.
use vstd::prelude::*;

verus! {

/// Raw units per whole unit.
pub const SCALE: i64 = 1_000_000;

/// Largest magnitude an operation returns: a million whole units.
pub const LIMIT: i64 = 1_000_000_000_000;

/// Smallest positive number; the margin of the comparisons that guard a division.
pub const EPSILON: i64 = 1;

/// `v` is a value that the operations can return.
pub open spec fn in_range(v: int) -> bool {
    -LIMIT <= v <= LIMIT
}

/// `v` brought to the nearest value within `[-LIMIT, LIMIT]`.
pub open spec fn sat(v: int) -> int {
    if v > LIMIT {
        LIMIT as int
    } else if v < -LIMIT {
        -LIMIT
    } else {
        v
    }
}

/// `n / d` rounded to the nearest integer, halves upward, for `n >= 0` and `d > 0`.
pub open spec fn half_up(n: int, d: int) -> int {
    n / d + if 2 * (n % d) >= d {
        1int
    } else {
        0int
    }
}

/// `n / d` rounded to the nearest integer, halves away from zero, for `d > 0`.
pub open spec fn round_div(n: int, d: int) -> int {
    if n >= 0 {
        half_up(n, d)
    } else {
        -half_up(-n, d)
    }
}

/// `n / d` rounded to the nearest integer for any `d`; zero where `d` is zero.
pub open spec fn ratio(n: int, d: int) -> int {
    if d > 0 {
        round_div(n, d)
    } else if d < 0 {
        round_div(-n, -d)
    } else {
        0
    }
}

/// Saturating sum.
pub open spec fn sum(a: int, b: int) -> int {
    sat(a + b)
}

/// Saturating difference.
pub open spec fn diff(a: int, b: int) -> int {
    sat(a - b)
}

/// Saturating fixed-point product.
pub open spec fn prod(a: int, b: int) -> int {
    sat(round_div(a * b, SCALE as int))
}

/// Saturating fixed-point quotient; zero where `b` is zero.
pub open spec fn quot(a: int, b: int) -> int {
    sat(ratio(a * SCALE, b))
}

/// Saturating mean of a total `a` over `n` items; zero where `n` is zero.
pub open spec fn mean(a: int, n: int) -> int {
    sat(ratio(a, n))
}

/// The smaller of two numbers.
pub open spec fn lesser(a: int, b: int) -> int {
    if a <= b {
        a
    } else {
        b
    }
}

/// The larger of two numbers.
pub open spec fn greater(a: int, b: int) -> int {
    if a >= b {
        a
    } else {
        b
    }
}

/// `v` raised to `lo` where it is below, then lowered to `hi` where it is above.
/// Where `lo > hi` the upper bound wins.
pub open spec fn clamped(v: int, lo: int, hi: int) -> int {
    lesser(greater(v, lo), hi)
}

/// `r` is the integer square root of `n`.
pub open spec fn is_root(n: int, r: int) -> bool {
    0 <= r && r * r <= n < (r + 1) * (r + 1)
}

/// The integer square root of `n`, rounded down.
pub open spec fn isqrt(n: int) -> int {
    choose|r: int| is_root(n, r)
}

/// Euclidean length of the vector `(x, y)`, rounded down and saturated.
pub open spec fn length(x: int, y: int) -> int {
    sat(isqrt(x * x + y * y))
}

/// Exact squared length of the vector `(x, y)`, in squared raw units.
pub open spec fn norm_sq(x: int, y: int) -> int {
    x * x + y * y
}

/// A number has at most one integer square root.
pub proof fn lemma_root_unique(n: int, r1: int, r2: int)
    requires
        is_root(n, r1),
        is_root(n, r2),
    ensures
        r1 == r2,
{
    if r1 < r2 {
        assert((r1 + 1) * (r1 + 1) <= r2 * r2) by (nonlinear_arith)
            requires
                0 <= r1,
                r1 + 1 <= r2,
        ;
    } else if r2 < r1 {
        assert((r2 + 1) * (r2 + 1) <= r1 * r1) by (nonlinear_arith)
            requires
                0 <= r2,
                r2 + 1 <= r1,
        ;
    }
}

/// Every natural number has an integer square root, and `isqrt` is it.
pub proof fn lemma_isqrt_is_root(n: int)
    requires
        n >= 0,
    ensures
        is_root(n, isqrt(n)),
    decreases n,
{
    if n == 0 {
        assert(is_root(0, 0));
    } else {
        lemma_isqrt_is_root(n - 1);
        let r = isqrt(n - 1);
        if n < (r + 1) * (r + 1) {
            assert(is_root(n, r));
        } else {
            assert((r + 2) * (r + 2) > (r + 1) * (r + 1)) by (nonlinear_arith)
                requires
                    0 <= r,
            ;
            assert(is_root(n, r + 1));
        }
    }
}

/// A witnessed root is the value of `isqrt`.
pub proof fn lemma_isqrt_of(n: int, r: int)
    requires
        is_root(n, r),
    ensures
        isqrt(n) == r,
{
    lemma_root_unique(n, r, isqrt(n));
}

/// Rounded division never grows the magnitude of the numerator.
pub proof fn lemma_round_div_bound(n: int, d: int, bound: int)
    requires
        d >= 1,
        -bound <= n <= bound,
    ensures
        -bound <= round_div(n, d) <= bound,
        n >= 0 ==> round_div(n, d) >= 0,
        n <= 0 ==> round_div(n, d) <= 0,
{
    let m = if n >= 0 {
        n
    } else {
        -n
    };
    assert(0 <= half_up(m, d) <= m) by (nonlinear_arith)
        requires
            m >= 0,
            d >= 1,
            half_up(m, d) == m / d + if 2 * (m % d) >= d {
                1int
            } else {
                0int
            },
    {
        assert(m == d * (m / d) + m % d);
        assert(0 <= m % d < d);
        if 2 * (m % d) >= d {
            assert(m % d >= 1);
            assert(d * (m / d) >= m / d);
        } else {
            assert(d * (m / d) >= m / d);
        }
    }
}

/// Saturates a wide value.
pub fn saturate(v: i128) -> (r: i64)
    ensures
        r == sat(v as int),
{
    if v > LIMIT as i128 {
        LIMIT
    } else if v < -(LIMIT as i128) {
        -LIMIT
    } else {
        v as i64
    }
}

/// Divides `n` by a positive `d`, rounding to nearest, halves away from zero.
pub(crate) fn divide_rounded(n: i128, d: i128) -> (r: i128)
    requires
        d > 0,
        -0x4000_0000_0000_0000_0000_0000_0000_0000 <= n <= 0x4000_0000_0000_0000_0000_0000_0000_0000,
    ensures
        r == round_div(n as int, d as int),
{
    let m: i128 = if n >= 0 {
        n
    } else {
        -n
    };
    let q: i128 = m / d;
    let rem: i128 = m % d;
    proof {
        assert(0 <= q <= m) by (nonlinear_arith)
            requires
                m >= 0,
                d >= 1,
                q == m / d,
        ;
    }
    let up: bool = rem >= d - rem;
    let h: i128 = if up {
        q + 1
    } else {
        q
    };
    if n >= 0 {
        h
    } else {
        -h
    }
}

/// Divides `n` by any `d`, rounding to nearest; zero where `d` is zero.
pub(crate) fn divide(n: i128, d: i128) -> (r: i128)
    requires
        -0x4000_0000_0000_0000_0000_0000_0000_0000 <= n <= 0x4000_0000_0000_0000_0000_0000_0000_0000,
        -0x4000_0000_0000_0000_0000_0000_0000_0000 <= d,
    ensures
        r == ratio(n as int, d as int),
{
    if d > 0 {
        divide_rounded(n, d)
    } else if d < 0 {
        divide_rounded(-n, -d)
    } else {
        0
    }
}

/// The product of two `i64` values, which always fits.
pub(crate) fn wide_product(a: i64, b: i64) -> (r: i128)
    ensures
        r == a * b,
        -0x4000_0000_0000_0000_0000_0000_0000_0000 <= r <= 0x4000_0000_0000_0000_0000_0000_0000_0000,
{
    assert(-0x4000_0000_0000_0000_0000_0000_0000_0000 <= a * b
        <= 0x4000_0000_0000_0000_0000_0000_0000_0000) by (nonlinear_arith)
        requires
            -0x8000_0000_0000_0000 <= a <= 0x7fff_ffff_ffff_ffff,
            -0x8000_0000_0000_0000 <= b <= 0x7fff_ffff_ffff_ffff,
    ;
    (a as i128) * (b as i128)
}

/// Saturating addition.
pub fn fx_add(a: i64, b: i64) -> (r: i64)
    ensures
        r == sum(a as int, b as int),
        in_range(r as int),
{
    saturate(a as i128 + b as i128)
}

/// Saturating subtraction.
pub fn fx_sub(a: i64, b: i64) -> (r: i64)
    ensures
        r == diff(a as int, b as int),
        in_range(r as int),
{
    saturate(a as i128 - b as i128)
}

/// Saturating fixed-point multiplication.
pub fn fx_mul(a: i64, b: i64) -> (r: i64)
    ensures
        r == prod(a as int, b as int),
        in_range(r as int),
{
    saturate(divide_rounded(wide_product(a, b), SCALE as i128))
}

/// Saturating fixed-point division; zero where `b` is zero.
pub fn fx_div(a: i64, b: i64) -> (r: i64)
    ensures
        r == quot(a as int, b as int),
        in_range(r as int),
{
    let n: i128 = a as i128 * 1_000_000;
    saturate(divide(n, b as i128))
}

/// Saturating mean of a total over a count; zero where the count is zero.
pub fn fx_mean(a: i64, n: usize) -> (r: i64)
    ensures
        r == mean(a as int, n as int),
        in_range(r as int),
{
    saturate(divide(a as i128, n as i128))
}

/// The smaller of two numbers.
pub fn fx_min(a: i64, b: i64) -> (r: i64)
    ensures
        r == lesser(a as int, b as int),
{
    if a <= b {
        a
    } else {
        b
    }
}

/// The larger of two numbers.
pub fn fx_max(a: i64, b: i64) -> (r: i64)
    ensures
        r == greater(a as int, b as int),
{
    if a >= b {
        a
    } else {
        b
    }
}

/// Clamps `v` from below by `lo`, then from above by `hi`.
pub fn fx_clamp(v: i64, lo: i64, hi: i64) -> (r: i64)
    ensures
        r == clamped(v as int, lo as int, hi as int),
{
    fx_min(fx_max(v, lo), hi)
}

/// Integer square root, rounded down.
pub fn int_sqrt(n: u128) -> (r: u64)
    ensures
        is_root(n as int, r as int),
        r == isqrt(n as int),
{
    let mut lo: u128 = 0;
    let mut hi: u128 = 0x1_0000_0000_0000_0000;
    assert(hi * hi > n) by (nonlinear_arith)
        requires
            hi == 0x1_0000_0000_0000_0000,
            n <= 0xffff_ffff_ffff_ffff_ffff_ffff_ffff_ffff,
    ;
    while hi - lo > 1
        invariant
            lo < hi <= 0x1_0000_0000_0000_0000,
            lo * lo <= n < hi * hi,
        decreases hi - lo,
    {
        let mid: u128 = lo + (hi - lo) / 2;
        assert(mid * mid <= 0xffff_ffff_ffff_ffff_ffff_ffff_ffff_ffff) by (nonlinear_arith)
            requires
                0 <= mid <= 0xffff_ffff_ffff_ffff,
        ;
        let sq: u128 = mid * mid;
        if sq <= n {
            lo = mid;
        } else {
            hi = mid;
        }
    }
    proof {
        assert(hi == lo + 1);
        assert(is_root(n as int, lo as int));
        lemma_isqrt_of(n as int, lo as int);
    }
    lo as u64
}

/// The exact squared length of `(x, y)`.
pub fn squared_length(x: i64, y: i64) -> (r: u128)
    ensures
        r == norm_sq(x as int, y as int),
{
    let xx: i128 = wide_product(x, x);
    let yy: i128 = wide_product(y, y);
    assert(x * x >= 0 && y * y >= 0) by (nonlinear_arith);
    (xx as u128) + (yy as u128)
}

/// Euclidean length of `(x, y)`, rounded down and saturated.
pub fn fx_norm(x: i64, y: i64) -> (r: i64)
    ensures
        r == length(x as int, y as int),
        0 <= r <= LIMIT,
{
    let root: u64 = int_sqrt(squared_length(x, y));
    if root > LIMIT as u64 {
        LIMIT
    } else {
        root as i64
    }
}

} // verus!
