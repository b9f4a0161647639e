//! What holds of the steering for every input.
use crate::avoidance::{land_avoidance, land_push, land_reach, push_from};
use crate::fixed::{
    diff, half_up, in_range, is_root, isqrt, lemma_isqrt_is_root, length, prod, quot, round_div,
    EPSILON, SCALE,
};
use crate::geometry::{LandPolygon, Point};
use crate::integrator::velocity_after;
use crate::simulation::{
    avoidance_force, composed_force, flocking_force, steering_force, Tuning,
};
use crate::steering::{
    alignment, border_avoidance, cohesion, edge_push, goal_seeking, is_neighbor, look_ahead,
    nearest_goal_upto, neighbors, neighbors_upto, repulsion, separation, Shark,
};
use crate::vector::{
    distance, heading_unit, is_negligible, vec_len, vec_neg, vec_over, vec_scale, vec_sub, zero,
};
use vstd::prelude::*;

verus! {

/// A shark alone, with no goals and no land, whose look-ahead position is
/// near no edge of the map, feels no force at all: it keeps the velocity of
/// its heading and its speed.
pub proof fn lemma_lone_shark_unsteered(shark: Shark, t: Tuning)
    requires
        edge_push(
            t.map_bounds.0 as int,
            t.map_bounds.2 as int,
            look_ahead(shark, t.dt as int).x as int,
            t.border_margin as int,
        ) == 0,
        edge_push(
            t.map_bounds.1 as int,
            t.map_bounds.3 as int,
            look_ahead(shark, t.dt as int).y as int,
            t.border_margin as int,
        ) == 0,
    ensures
        steering_force(seq![shark], 0, Seq::<LandPolygon>::empty(), Seq::<Point>::empty(), t)
            == zero(),
        velocity_after(shark, zero(), t.dt as int) == vec_scale(
            heading_unit(shark.rotation_rad as int),
            shark.speed as int,
        ),
{
    let sharks = seq![shark];
    let radius = t.perception_radius as int;
    let none = Seq::<Shark>::empty();
    assert(neighbors_upto(sharks, 0, radius, 0) == none);
    assert(!is_neighbor(sharks, 0, 0, radius));
    assert(neighbors_upto(sharks, 0, radius, 1) == none);
    assert(neighbors(sharks, 0, radius) == none);
    assert(cohesion(shark, none) == zero());
    assert(separation(shark, none, t.separation_distance as int) == zero());
    assert(alignment(shark, none) == zero());
    let goals = Seq::<Point>::empty();
    assert(nearest_goal_upto(shark.position, goals, t.goal_seeking_radius as int, 0).is_none());
    assert(goal_seeking(shark, goals, t.goal_seeking_radius as int) == zero());
    lemma_scale_zero(t.cohesion_strength as int);
    lemma_scale_zero(t.separation_strength as int);
    lemma_scale_zero(t.alignment_strength as int);
    lemma_scale_zero(t.goal_seeking_strength as int);
    lemma_scale_zero(t.dt as int);
    assert(flocking_force(shark, none, goals, t) == zero());
    let future_pos = look_ahead(shark, t.dt as int);
    let land = Seq::<LandPolygon>::empty();
    assert(land_avoidance(land, future_pos, t.land_avoid_radius as int) == zero());
    assert(border_avoidance(shark, future_pos, t.map_bounds, t.border_margin as int) == zero());
    assert(is_negligible(zero()));
}

/// The zero vector scaled is the zero vector.
pub proof fn lemma_scale_zero(k: int)
    ensures
        vec_scale(zero(), k) == zero(),
{
    assert(0 * k == 0);
    assert(round_div(0, SCALE as int) == 0);
}

/// Where land avoidance counts, the applied force is the avoidance force
/// alone: neither the flocking forces nor the pull of a goal enter it.
pub proof fn lemma_land_avoidance_dominates(
    sharks: Seq<Shark>,
    i: int,
    land: Seq<LandPolygon>,
    goals: Seq<Point>,
    t: Tuning,
)
    requires
        !is_negligible(
            land_avoidance(land, look_ahead(sharks[i], t.dt as int), t.land_avoid_radius as int),
        ),
    ensures
        steering_force(sharks, i, land, goals, t) == avoidance_force(
            land_avoidance(land, look_ahead(sharks[i], t.dt as int), t.land_avoid_radius as int),
            border_avoidance(
                sharks[i],
                look_ahead(sharks[i], t.dt as int),
                t.map_bounds,
                t.border_margin as int,
            ),
            t,
        ),
{
}

/// Avoidance and flocking never mix: the applied force is one or the other.
pub proof fn lemma_force_is_either_or(
    land_push: Point,
    border_push: Point,
    flocking: Point,
    t: Tuning,
)
    ensures
        composed_force(land_push, border_push, flocking, t) == if is_negligible(land_push)
            && is_negligible(border_push) {
            flocking
        } else {
            avoidance_force(land_push, border_push, t)
        },
{
}

/// A quotient keeps the sign of its numerator, and is not zero where the
/// numerator is at least half the denominator.
pub proof fn lemma_quot_sign(a: int, d: int)
    requires
        d > 0,
    ensures
        a >= 0 ==> quot(a, d) >= 0,
        a <= 0 ==> quot(a, d) <= 0,
        2 * a >= d ==> quot(a, d) > 0,
        2 * a <= -d ==> quot(a, d) < 0,
{
    let m = if a >= 0 {
        a
    } else {
        -a
    };
    let n = m * SCALE;
    assert(n >= 0 && (2 * m >= d ==> n >= d)) by (nonlinear_arith)
        requires
            m >= 0,
            d > 0,
            n == m * 1_000_000,
    ;
    assert(n / d >= 0 && (n >= d ==> n / d >= 1) && (n == 0 ==> n / d == 0 && n % d == 0))
        by (nonlinear_arith)
        requires
            n >= 0,
            d > 0,
    ;
    assert(half_up(n, d) >= 0 && (n >= d ==> half_up(n, d) >= 1) && (n == 0 ==> half_up(n, d)
        == 0));
    assert(a * SCALE == if a >= 0 {
        n
    } else {
        -n
    }) by (nonlinear_arith)
        requires
            n == m * 1_000_000,
            m == if a >= 0 {
                a
            } else {
                -a
            },
    ;
}

/// The length of a vector is at most twice its greater coordinate.
pub proof fn lemma_length_bound(x: int, y: int, m: int)
    requires
        -m <= x <= m,
        -m <= y <= m,
    ensures
        0 <= length(x, y) <= 2 * m,
{
    let n = x * x + y * y;
    assert(0 <= n <= 2 * (m * m)) by (nonlinear_arith)
        requires
            -m <= x <= m,
            -m <= y <= m,
            n == x * x + y * y,
    ;
    lemma_isqrt_is_root(n);
    let r = isqrt(n);
    assert(is_root(n, r));
    if r > 2 * m {
        assert(r * r > 2 * (m * m)) by (nonlinear_arith)
            requires
                r >= 2 * m + 1,
                m >= 0,
        ;
    }
}

/// The separation force of a shark with one neighbour closer than
/// `separation_distance`, and not at the same place, points from the
/// neighbour to the shark: along neither axis does it point toward the
/// neighbour, and it is not zero.
pub proof fn lemma_separation_points_away(shark: Shark, other: Shark, separation_distance: int)
    requires
        0 < distance(shark.position, other.position) < separation_distance,
    ensures
        ({
            let force = separation(shark, seq![other], separation_distance);
            let dx = shark.position.x - other.position.x;
            let dy = shark.position.y - other.position.y;
            &&& dx >= 0 ==> force.x >= 0
            &&& dx <= 0 ==> force.x <= 0
            &&& dy >= 0 ==> force.y >= 0
            &&& dy <= 0 ==> force.y <= 0
            &&& force != zero()
        }),
{
    let nearby = seq![other];
    assert(nearby.drop_last() =~= Seq::<Shark>::empty());
    assert(nearby.last() == other);
    assert(separation(shark, nearby.drop_last(), separation_distance) == zero());
    let push = repulsion(shark, other, separation_distance);
    let away = vec_sub(shark.position, other.position);
    let sx = away.x as int;
    let sy = away.y as int;
    let dist = distance(shark.position, other.position);
    assert(sx == diff(shark.position.x as int, other.position.x as int));
    assert(sy == diff(shark.position.y as int, other.position.y as int));
    assert(dist == length(sx, sy));
    lemma_quot_sign(sx, dist);
    lemma_quot_sign(sy, dist);
    let m = if (if sx >= 0 {
        sx
    } else {
        -sx
    }) >= (if sy >= 0 {
        sy
    } else {
        -sy
    }) {
        if sx >= 0 {
            sx
        } else {
            -sx
        }
    } else {
        if sy >= 0 {
            sy
        } else {
            -sy
        }
    };
    lemma_length_bound(sx, sy, m);
    assert(push.x == quot(sx, dist));
    assert(push.y == quot(sy, dist));
    assert(push.x != 0 || push.y != 0);
}

/// A quotient is at least a half in magnitude where the numerator is at
/// least half the denominator.
pub proof fn lemma_quot_half(a: int, d: int)
    requires
        0 < d,
        -2 * d <= a <= 2 * d,
    ensures
        2 * a >= d ==> quot(a, d) >= 500_000,
        2 * a <= -d ==> quot(a, d) <= -500_000,
        -2_000_001 <= quot(a, d) <= 2_000_001,
{
    let m = if a >= 0 {
        a
    } else {
        -a
    };
    let n = m * SCALE;
    assert(n >= 0 && n <= 2_000_000 * d && (2 * m >= d ==> 2 * n >= 1_000_000 * d))
        by (nonlinear_arith)
        requires
            0 <= m <= 2 * d,
            d > 0,
            n == m * 1_000_000,
    ;
    assert(0 <= n / d <= 2_000_000 && (2 * n >= 1_000_000 * d ==> n / d >= 500_000))
        by (nonlinear_arith)
        requires
            0 <= n <= 2_000_000 * d,
            d > 0,
    ;
    assert(0 <= half_up(n, d) <= 2_000_001);
    assert(a * SCALE == if a >= 0 {
        n
    } else {
        -n
    }) by (nonlinear_arith)
        requires
            n == m * 1_000_000,
            m == if a >= 0 {
                a
            } else {
                -a
            },
    ;
}

/// A product of a number of at least a half in magnitude and a factor of at
/// least four millionths is at least two millionths in magnitude.
pub proof fn lemma_prod_counts(u: int, k: int)
    requires
        500_000 <= u <= 2_000_001 || -2_000_001 <= u <= -500_000,
        4 <= k <= 1_000_000_000_000,
    ensures
        u > 0 ==> prod(u, k) >= 2,
        u < 0 ==> prod(u, k) <= -2,
{
    let m = if u >= 0 {
        u
    } else {
        -u
    };
    let n = m * k;
    assert(2_000_000 <= n <= 2_000_001 * 1_000_000_000_000) by (nonlinear_arith)
        requires
            500_000 <= m <= 2_000_001,
            4 <= k <= 1_000_000_000_000,
            n == m * k,
    ;
    assert(u * k == if u >= 0 {
        n
    } else {
        -n
    }) by (nonlinear_arith)
        requires
            n == m * k,
            m == if u >= 0 {
                u
            } else {
                -u
            },
    ;
}

/// The strength with which a boundary point at the distance `dist` pushes:
/// one at the boundary, fading to zero at `radius`.
pub open spec fn push_strength(dist: int, radius: int) -> int {
    if dist < EPSILON {
        SCALE as int
    } else {
        quot(diff(radius, dist), radius)
    }
}

/// The push of a boundary point counts wherever it has a direction and a
/// strength of at least four millionths.
pub proof fn lemma_push_counts(
    cp: Point,
    dist: int,
    future_pos: Point,
    radius: int,
    inside: bool,
)
    requires
        vec_len(vec_sub(cp, future_pos)) > EPSILON,
        push_strength(dist, radius) >= 4,
    ensures
        !is_negligible(push_from(cp, dist, future_pos, radius, inside)),
{
    let toward = vec_sub(cp, future_pos);
    let dir = if inside {
        toward
    } else {
        vec_neg(toward)
    };
    let x = dir.x as int;
    let y = dir.y as int;
    assert(x * x + y * y == toward.x * toward.x + toward.y * toward.y) by (nonlinear_arith)
        requires
            (x == toward.x && y == toward.y) || (x == -toward.x && y == -toward.y),
    ;
    let norm = vec_len(dir);
    assert(norm == vec_len(toward));
    let ax = if x >= 0 {
        x
    } else {
        -x
    };
    let ay = if y >= 0 {
        y
    } else {
        -y
    };
    let m = if ax >= ay {
        ax
    } else {
        ay
    };
    lemma_length_bound(x, y, m);
    lemma_length_floor(x, y);
    lemma_quot_half(x, norm);
    lemma_quot_half(y, norm);
    let unit = vec_over(dir, norm);
    let k = push_strength(dist, radius);
    let force = push_from(cp, dist, future_pos, radius, inside);
    assert(force == vec_scale(unit, k));
    if ax >= ay {
        lemma_prod_counts(unit.x as int, k);
        assert(force.x >= 2 || force.x <= -2);
        assert(force.x * force.x >= 4) by (nonlinear_arith)
            requires
                force.x >= 2 || force.x <= -2,
        ;
    } else {
        lemma_prod_counts(unit.y as int, k);
        assert(force.y >= 2 || force.y <= -2);
        assert(force.y * force.y >= 4) by (nonlinear_arith)
            requires
                force.y >= 2 || force.y <= -2,
        ;
    }
    assert(force.x * force.x >= 0 && force.y * force.y >= 0) by (nonlinear_arith);
}

/// The length of a vector is at least the magnitude of each coordinate,
/// as far as the numbers reach.
pub proof fn lemma_length_floor(x: int, y: int)
    requires
        in_range(x),
        in_range(y),
    ensures
        length(x, y) >= x,
        length(x, y) >= -x,
        length(x, y) >= y,
        length(x, y) >= -y,
{
    let n = x * x + y * y;
    assert(n >= x * x && n >= y * y && x * x >= 0 && y * y >= 0) by (nonlinear_arith)
        requires
            n == x * x + y * y,
    ;
    lemma_isqrt_is_root(n);
    let r = isqrt(n);
    let ax = if x >= 0 {
        x
    } else {
        -x
    };
    let ay = if y >= 0 {
        y
    } else {
        -y
    };
    if r < ax {
        assert((r + 1) * (r + 1) <= x * x) by (nonlinear_arith)
            requires
                0 <= r,
                r + 1 <= ax,
                ax == x || ax == -x,
        ;
    }
    if r < ay {
        assert((r + 1) * (r + 1) <= y * y) by (nonlinear_arith)
            requires
                0 <= r,
                r + 1 <= ay,
                ay == y || ay == -y,
        ;
    }
}

/// A shark whose look-ahead position lies inside the one land polygon, off
/// its boundary and near enough to it for a push of at least four
/// millionths, is steered by avoidance alone: no flocking force and no pull
/// of a goal enters the applied force.
pub proof fn lemma_inside_land_dominates(
    sharks: Seq<Shark>,
    i: int,
    poly: LandPolygon,
    goals: Seq<Point>,
    t: Tuning,
    cp: Point,
    dist: int,
)
    requires
        poly.holds(look_ahead(sharks[i], t.dt as int)),
        land_reach(poly, look_ahead(sharks[i], t.dt as int), t.land_avoid_radius as int) == Some(
            (cp, dist),
        ),
        vec_len(vec_sub(cp, look_ahead(sharks[i], t.dt as int))) > EPSILON,
        push_strength(dist, t.land_avoid_radius as int) >= 4,
    ensures
        steering_force(sharks, i, seq![poly], goals, t) == avoidance_force(
            push_from(
                cp,
                dist,
                look_ahead(sharks[i], t.dt as int),
                t.land_avoid_radius as int,
                true,
            ),
            border_avoidance(
                sharks[i],
                look_ahead(sharks[i], t.dt as int),
                t.map_bounds,
                t.border_margin as int,
            ),
            t,
        ),
{
    let future_pos = look_ahead(sharks[i], t.dt as int);
    let radius = t.land_avoid_radius as int;
    let land = seq![poly];
    assert(land.drop_last() =~= Seq::<LandPolygon>::empty());
    assert(land.last() == poly);
    assert(land_avoidance(land.drop_last(), future_pos, radius) == zero());
    let push = push_from(cp, dist, future_pos, radius, true);
    assert(land_push(poly, future_pos, radius, true) == push);
    lemma_push_counts(cp, dist, future_pos, radius, true);
    lemma_push_in_plane(cp, dist, future_pos, radius, true);
    assert(land_avoidance(land, future_pos, radius) == push);
}

/// A push lies in the plane.
pub proof fn lemma_push_in_plane(
    cp: Point,
    dist: int,
    future_pos: Point,
    radius: int,
    inside: bool,
)
    ensures
        push_from(cp, dist, future_pos, radius, inside).in_plane(),
{
}

} // verus!
