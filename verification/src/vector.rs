//! Vector arithmetic on points, each coordinate with the saturating
//! operations of `fixed`.
use crate::fixed::{
    diff, fx_add, fx_div, fx_mean, fx_mul, fx_norm, fx_sub, length, mean, norm_sq, prod, quot,
    squared_length, sum, EPSILON,
};
use crate::geometry::{pt, Point};
use crate::trig::{cosine, heading_vector, sine};
use vstd::prelude::*;

verus! {

/// The zero vector.
pub open spec fn zero() -> Point {
    pt(0, 0)
}

/// Sum of two vectors.
pub open spec fn vec_add(a: Point, b: Point) -> Point {
    pt(sum(a.x as int, b.x as int), sum(a.y as int, b.y as int))
}

/// Difference of two vectors.
pub open spec fn vec_sub(a: Point, b: Point) -> Point {
    pt(diff(a.x as int, b.x as int), diff(a.y as int, b.y as int))
}

/// The opposite vector.
pub open spec fn vec_neg(a: Point) -> Point {
    pt(diff(0, a.x as int), diff(0, a.y as int))
}

/// A vector times a number.
pub open spec fn vec_scale(a: Point, k: int) -> Point {
    pt(prod(a.x as int, k), prod(a.y as int, k))
}

/// A vector divided by a number; zero where the number is zero.
pub open spec fn vec_over(a: Point, k: int) -> Point {
    pt(quot(a.x as int, k), quot(a.y as int, k))
}

/// The mean of a total over `n` items; zero where `n` is zero.
pub open spec fn vec_mean(a: Point, n: int) -> Point {
    pt(mean(a.x as int, n), mean(a.y as int, n))
}

/// Length of a vector.
pub open spec fn vec_len(a: Point) -> int {
    length(a.x as int, a.y as int)
}

/// Distance between two points.
pub open spec fn distance(a: Point, b: Point) -> int {
    vec_len(vec_sub(a, b))
}

/// The unit vector of the heading `h`.
pub open spec fn heading_unit(h: int) -> Point {
    pt(cosine(h), sine(h))
}

/// A vector too short to count: its squared length, in squared raw units,
/// is at most `EPSILON`.
pub open spec fn is_negligible(v: Point) -> bool {
    norm_sq(v.x as int, v.y as int) <= EPSILON
}

/// The zero vector.
pub fn v_zero() -> (r: Point)
    ensures
        r == zero(),
{
    Point { x: 0, y: 0 }
}

/// Sum of two vectors.
pub fn v_add(a: Point, b: Point) -> (r: Point)
    ensures
        r == vec_add(a, b),
        r.in_plane(),
{
    Point { x: fx_add(a.x, b.x), y: fx_add(a.y, b.y) }
}

/// Difference of two vectors.
pub fn v_sub(a: Point, b: Point) -> (r: Point)
    ensures
        r == vec_sub(a, b),
        r.in_plane(),
{
    Point { x: fx_sub(a.x, b.x), y: fx_sub(a.y, b.y) }
}

/// The opposite vector.
pub fn v_neg(a: Point) -> (r: Point)
    ensures
        r == vec_neg(a),
        r.in_plane(),
{
    Point { x: fx_sub(0, a.x), y: fx_sub(0, a.y) }
}

/// A vector times a number.
pub fn v_scale(a: Point, k: i64) -> (r: Point)
    ensures
        r == vec_scale(a, k as int),
        r.in_plane(),
{
    Point { x: fx_mul(a.x, k), y: fx_mul(a.y, k) }
}

/// A vector divided by a number; zero where the number is zero.
pub fn v_over(a: Point, k: i64) -> (r: Point)
    ensures
        r == vec_over(a, k as int),
        r.in_plane(),
{
    Point { x: fx_div(a.x, k), y: fx_div(a.y, k) }
}

/// The mean of a total over `n` items; zero where `n` is zero.
pub fn v_mean(a: Point, n: usize) -> (r: Point)
    ensures
        r == vec_mean(a, n as int),
        r.in_plane(),
{
    Point { x: fx_mean(a.x, n), y: fx_mean(a.y, n) }
}

/// Length of a vector.
pub fn v_len(a: Point) -> (r: i64)
    ensures
        r == vec_len(a),
        r >= 0,
{
    fx_norm(a.x, a.y)
}

/// Distance between two points.
pub fn v_distance(a: Point, b: Point) -> (r: i64)
    ensures
        r == distance(a, b),
        r >= 0,
{
    v_len(v_sub(a, b))
}

/// The unit vector of the heading `h`.
pub fn v_heading(h: i64) -> (r: Point)
    ensures
        r == heading_unit(h as int),
        r.in_plane(),
{
    let (c, s): (i64, i64) = heading_vector(h);
    Point { x: c, y: s }
}

/// Whether a vector is too short to count.
pub fn v_negligible(v: Point) -> (r: bool)
    ensures
        r == is_negligible(v),
{
    squared_length(v.x, v.y) <= 1
}

} // verus!
