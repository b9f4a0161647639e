//! Land avoidance: the push that keeps a shark off the coast.
use crate::closest::Closest;
use crate::fixed::{diff, fx_add, fx_div, fx_sub, quot, sum, EPSILON, SCALE};
use crate::geometry::{pt, LandPolygon, Point, Rect};
use crate::vector::{
    distance, v_add, v_distance, v_len, v_neg, v_over, v_scale, v_sub, v_zero, vec_add, vec_len,
    vec_neg, vec_over, vec_scale, vec_sub, zero,
};
use vstd::prelude::*;

verus! {

/// The square of half-width `radius` around `future_pos`.
pub open spec fn watch_square(future_pos: Point, radius: int) -> Rect {
    Rect::spanning(
        pt(diff(future_pos.x as int, radius), diff(future_pos.y as int, radius)),
        pt(sum(future_pos.x as int, radius), sum(future_pos.y as int, radius)),
    )
}

/// The nearest boundary point of `poly` and its distance from `future_pos`,
/// where the polygon comes into play: its bounding rectangle meets the watch
/// square, it has a nearest boundary point, and that point is closer than
/// `radius`.
pub open spec fn land_reach(
    poly: LandPolygon,
    future_pos: Point,
    radius: int,
) -> Option<(Point, int)> {
    match poly.bounding() {
        None => None,
        Some(b) => if !b.overlaps(watch_square(future_pos, radius)) {
            None
        } else {
            match poly.closest(future_pos) {
                Closest::Indeterminate => None,
                Closest::Intersection(cp) => near_enough(cp, future_pos, radius),
                Closest::SinglePoint(cp) => near_enough(cp, future_pos, radius),
            }
        },
    }
}

/// The boundary point `cp` with its distance from `future_pos`, where that
/// distance is less than `radius`.
pub open spec fn near_enough(cp: Point, future_pos: Point, radius: int) -> Option<(Point, int)> {
    let dist = distance(future_pos, cp);
    if dist >= radius {
        None
    } else {
        Some((cp, dist))
    }
}

/// The push that a boundary point `cp` at the distance `dist` gives: of unit
/// length toward `cp` where the shark is inside the polygon and away from
/// `cp` where it is outside, scaled so that it fades from one at the
/// boundary to zero at `radius`.
pub open spec fn push_from(cp: Point, dist: int, future_pos: Point, radius: int, inside: bool)
    -> Point {
    let toward = vec_sub(cp, future_pos);
    let dir = if inside {
        toward
    } else {
        vec_neg(toward)
    };
    let norm = vec_len(dir);
    if norm > EPSILON {
        let strength = if dist < EPSILON {
            SCALE as int
        } else {
            quot(diff(radius, dist), radius)
        };
        vec_scale(vec_over(dir, norm), strength)
    } else {
        zero()
    }
}

/// The push of one polygon, given whether `future_pos` lies inside it.
pub open spec fn land_push(poly: LandPolygon, future_pos: Point, radius: int, inside: bool)
    -> Point {
    match land_reach(poly, future_pos, radius) {
        None => zero(),
        Some((cp, dist)) => push_from(cp, dist, future_pos, radius, inside),
    }
}

/// Land avoidance: the sum of the pushes of all polygons.
pub open spec fn land_avoidance(land: Seq<LandPolygon>, future_pos: Point, radius: int) -> Point
    decreases land.len(),
{
    if land.len() == 0 {
        zero()
    } else {
        vec_add(
            land_avoidance(land.drop_last(), future_pos, radius),
            land_push(land.last(), future_pos, radius, land.last().holds(future_pos)),
        )
    }
}

/// Whether the polygon comes into play for `future_pos`, and if so its
/// nearest boundary point and the distance to it.
pub fn avoidance_reach(
    poly: &LandPolygon,
    future_pos: Point,
    land_avoid_radius: i64,
) -> (r: Option<(Point, i64)>)
    ensures
        match r {
            Some((cp, dist)) => land_reach(*poly, future_pos, land_avoid_radius as int) == Some(
                (cp, dist as int),
            ),
            None => land_reach(*poly, future_pos, land_avoid_radius as int).is_none(),
        },
{
    let bound: Rect = match poly.bounds() {
        Some(b) => b,
        None => {
            return None;
        },
    };
    let watch: Rect = Rect::new(
        Point {
            x: fx_sub(future_pos.x, land_avoid_radius),
            y: fx_sub(future_pos.y, land_avoid_radius),
        },
        Point {
            x: fx_add(future_pos.x, land_avoid_radius),
            y: fx_add(future_pos.y, land_avoid_radius),
        },
    );
    if !bound.intersects(&watch) {
        return None;
    }
    let cp: Point = match poly.closest_point(future_pos) {
        Closest::Indeterminate => {
            return None;
        },
        Closest::Intersection(p) => p,
        Closest::SinglePoint(p) => p,
    };
    let dist: i64 = v_distance(future_pos, cp);
    if dist >= land_avoid_radius {
        return None;
    }
    Some((cp, dist))
}

/// The push that the boundary point `cp` at the distance `dist` gives a
/// shark whose look-ahead position is `future_pos`.
pub fn avoidance_push(
    cp: Point,
    dist: i64,
    future_pos: Point,
    land_avoid_radius: i64,
    inside: bool,
) -> (r: Point)
    ensures
        r == push_from(cp, dist as int, future_pos, land_avoid_radius as int, inside),
{
    let toward: Point = v_sub(cp, future_pos);
    let dir: Point = if inside {
        toward
    } else {
        v_neg(toward)
    };
    let norm: i64 = v_len(dir);
    if norm > EPSILON {
        let strength: i64 = if dist < EPSILON {
            SCALE
        } else {
            fx_div(fx_sub(land_avoid_radius, dist), land_avoid_radius)
        };
        v_scale(v_over(dir, norm), strength)
    } else {
        v_zero()
    }
}

/// The push of one polygon on a shark whose look-ahead position is
/// `future_pos`.
pub fn polygon_avoidance(
    poly: &LandPolygon,
    future_pos: Point,
    land_avoid_radius: i64,
) -> (r: Point)
    ensures
        r == land_push(
            *poly,
            future_pos,
            land_avoid_radius as int,
            poly.holds(future_pos),
        ),
{
    match avoidance_reach(poly, future_pos, land_avoid_radius) {
        None => v_zero(),
        Some((cp, dist)) => {
            let inside: bool = poly.contains(future_pos);
            avoidance_push(cp, dist, future_pos, land_avoid_radius, inside)
        },
    }
}

/// Land avoidance: the sum of the pushes of all polygons.
pub fn calculate_land_avoidance(
    future_pos: &Point,
    land_shape_file: &Vec<LandPolygon>,
    land_avoid_radius: i64,
) -> (r: Point)
    ensures
        r == land_avoidance(land_shape_file@, *future_pos, land_avoid_radius as int),
{
    let mut total: Point = v_zero();
    let mut k: usize = 0;
    while k < land_shape_file.len()
        invariant
            k <= land_shape_file.len(),
            total == land_avoidance(
                land_shape_file@.subrange(0, k as int),
                *future_pos,
                land_avoid_radius as int,
            ),
        decreases land_shape_file.len() - k,
    {
        proof {
            let next = land_shape_file@.subrange(0, k + 1);
            assert(next.drop_last() =~= land_shape_file@.subrange(0, k as int));
            assert(next.last() == land_shape_file@[k as int]);
        }
        let push: Point = polygon_avoidance(&land_shape_file[k], *future_pos, land_avoid_radius);
        total = v_add(total, push);
        k += 1;
    }
    assert(land_shape_file@.subrange(0, land_shape_file.len() as int) =~= land_shape_file@);
    total
}

} // verus!
