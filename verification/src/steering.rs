//! The flocking forces on one shark: cohesion, separation, alignment and the
//! pull of the nearest goal; and the push away from the borders of the map.
use crate::fixed::{diff, fx_add, fx_mul, fx_sub, prod, sum, EPSILON, SCALE};
use crate::geometry::{pt, Point};
use crate::vector::{
    distance, heading_unit, v_add, v_distance, v_heading, v_len, v_mean, v_over, v_sub, v_zero,
    vec_add, vec_len, vec_mean, vec_over, vec_sub, zero,
};
use vstd::prelude::*;

verus! {

/// One shark: where it is, where it heads (in radians) and how fast it swims.
#[derive(Clone, Copy, Debug, PartialEq, Eq, Structural)]
pub struct Shark {
    pub position: Point,
    pub rotation_rad: i64,
    pub speed: i64,
}

/// Shark `j` is another shark than `i` and closer to it than `radius`.
pub open spec fn is_neighbor(sharks: Seq<Shark>, i: int, j: int, radius: int) -> bool {
    j != i && distance(sharks[i].position, sharks[j].position) < radius
}

/// The neighbours of shark `i` among the first `n` sharks, in their order.
pub open spec fn neighbors_upto(sharks: Seq<Shark>, i: int, radius: int, n: int) -> Seq<Shark>
    decreases n,
{
    if n <= 0 {
        Seq::empty()
    } else {
        let rest = neighbors_upto(sharks, i, radius, n - 1);
        if is_neighbor(sharks, i, n - 1, radius) {
            rest.push(sharks[n - 1])
        } else {
            rest
        }
    }
}

/// The neighbours of shark `i`: every other shark closer than `radius`.
pub open spec fn neighbors(sharks: Seq<Shark>, i: int, radius: int) -> Seq<Shark> {
    neighbors_upto(sharks, i, radius, sharks.len() as int)
}

/// The sum of the positions of the given sharks.
pub open spec fn total_position(sharks: Seq<Shark>) -> Point
    decreases sharks.len(),
{
    if sharks.len() == 0 {
        zero()
    } else {
        vec_add(total_position(sharks.drop_last()), sharks.last().position)
    }
}

/// The sum of the unit heading vectors of the given sharks.
pub open spec fn total_heading(sharks: Seq<Shark>) -> Point
    decreases sharks.len(),
{
    if sharks.len() == 0 {
        zero()
    } else {
        vec_add(total_heading(sharks.drop_last()), heading_unit(sharks.last().rotation_rad as int))
    }
}

/// Cohesion: from the shark to the mean position of its neighbours.
pub open spec fn cohesion(shark: Shark, nearby: Seq<Shark>) -> Point {
    if nearby.len() == 0 {
        zero()
    } else {
        vec_sub(vec_mean(total_position(nearby), nearby.len() as int), shark.position)
    }
}

/// What one neighbour adds to the separation: the unit vector away from it,
/// where it is closer than `separation_distance` and not at the same place.
pub open spec fn repulsion(shark: Shark, other: Shark, separation_distance: int) -> Point {
    let dist = distance(shark.position, other.position);
    if dist > 0 && dist < separation_distance {
        vec_over(vec_sub(shark.position, other.position), dist)
    } else {
        zero()
    }
}

/// Separation: the sum of the repulsions of the neighbours.
pub open spec fn separation(shark: Shark, nearby: Seq<Shark>, separation_distance: int) -> Point
    decreases nearby.len(),
{
    if nearby.len() == 0 {
        zero()
    } else {
        vec_add(
            separation(shark, nearby.drop_last(), separation_distance),
            repulsion(shark, nearby.last(), separation_distance),
        )
    }
}

/// Alignment: from the shark's heading to the mean heading of its neighbours.
pub open spec fn alignment(shark: Shark, nearby: Seq<Shark>) -> Point {
    if nearby.len() == 0 {
        zero()
    } else {
        vec_sub(
            vec_mean(total_heading(nearby), nearby.len() as int),
            heading_unit(shark.rotation_rad as int),
        )
    }
}

/// The goal nearest to `pos` among the first `n` goals that lie closer than
/// `radius`; of several equally near, the first.
pub open spec fn nearest_goal_upto(
    pos: Point,
    goals: Seq<Point>,
    radius: int,
    n: int,
) -> Option<int>
    decreases n,
{
    if n <= 0 {
        None
    } else {
        let before = nearest_goal_upto(pos, goals, radius, n - 1);
        let dist = distance(pos, goals[n - 1]);
        if dist < radius {
            match before {
                Some(k) => if dist < distance(pos, goals[k]) {
                    Some(n - 1)
                } else {
                    before
                },
                None => Some(n - 1),
            }
        } else {
            before
        }
    }
}

/// The goal nearest to `pos` that lies closer than `radius`, if there is one.
pub open spec fn nearest_goal(pos: Point, goals: Seq<Point>, radius: int) -> Option<int> {
    nearest_goal_upto(pos, goals, radius, goals.len() as int)
}

/// The unit vector from `pos` to `target`; zero where the two are closer
/// than `EPSILON`.
pub open spec fn direction_to(pos: Point, target: Point) -> Point {
    let steer = vec_sub(target, pos);
    let norm = vec_len(steer);
    if norm > EPSILON {
        vec_over(steer, norm)
    } else {
        zero()
    }
}

/// Goal seeking: the unit vector toward the nearest goal in reach.
pub open spec fn goal_seeking(shark: Shark, goals: Seq<Point>, radius: int) -> Point {
    match nearest_goal(shark.position, goals, radius) {
        Some(k) => direction_to(shark.position, goals[k]),
        None => zero(),
    }
}

/// Where the shark will be a short while ahead if it swims straight on.
pub open spec fn look_ahead(shark: Shark, dt: int) -> Point {
    let reach = prod(prod(shark.speed as int, 20 * SCALE), dt);
    let unit = heading_unit(shark.rotation_rad as int);
    pt(
        sum(shark.position.x as int, prod(reach, unit.x as int)),
        sum(shark.position.y as int, prod(reach, unit.y as int)),
    )
}

/// The way to steer along one axis: up from the lower edge, down from the
/// upper edge, not at all in between.
pub open spec fn edge_push(low: int, high: int, v: int, margin: int) -> int {
    if v < sum(low, margin) {
        SCALE as int
    } else if v > diff(high, margin) {
        -SCALE
    } else {
        0
    }
}

/// Border avoidance: from the shark's heading to the direction away from the
/// edges that `future_pos` comes too near; zero where it is near none.
pub open spec fn border_avoidance(
    shark: Shark,
    future_pos: Point,
    map_bounds: (i64, i64, i64, i64),
    margin: int,
) -> Point {
    let px = edge_push(map_bounds.0 as int, map_bounds.2 as int, future_pos.x as int, margin);
    let py = edge_push(map_bounds.1 as int, map_bounds.3 as int, future_pos.y as int, margin);
    if px != 0 || py != 0 {
        vec_sub(pt(px, py), heading_unit(shark.rotation_rad as int))
    } else {
        zero()
    }
}

/// What `nearest_goal` finds is in reach, nearer than every goal before it
/// and no farther than any goal after it; and it finds nothing only where no
/// goal is in reach.
pub proof fn lemma_nearest_goal(pos: Point, goals: Seq<Point>, radius: int, n: int)
    requires
        0 <= n <= goals.len(),
    ensures
        match nearest_goal_upto(pos, goals, radius, n) {
            Some(k) => {
                &&& 0 <= k < n
                &&& distance(pos, goals[k]) < radius
                &&& forall|j: int|
                    0 <= j < k && distance(pos, #[trigger] goals[j]) < radius ==> distance(
                        pos,
                        goals[j],
                    ) > distance(pos, goals[k])
                &&& forall|j: int|
                    k < j < n && distance(pos, #[trigger] goals[j]) < radius ==> distance(
                        pos,
                        goals[j],
                    ) >= distance(pos, goals[k])
            },
            None => forall|j: int| 0 <= j < n ==> distance(pos, #[trigger] goals[j]) >= radius,
        },
    decreases n,
{
    if n > 0 {
        lemma_nearest_goal(pos, goals, radius, n - 1);
    }
}

/// Every neighbour is another shark within the radius, and every other shark
/// within the radius is a neighbour.
pub proof fn lemma_neighbors(sharks: Seq<Shark>, i: int, radius: int, n: int)
    requires
        0 <= n <= sharks.len(),
    ensures
        forall|s: Shark|
            neighbors_upto(sharks, i, radius, n).contains(s) <==> exists|j: int|
                0 <= j < n && is_neighbor(sharks, i, j, radius) && #[trigger] sharks[j] == s,
        neighbors_upto(sharks, i, radius, n).len() <= n,
    decreases n,
{
    if n > 0 {
        lemma_neighbors(sharks, i, radius, n - 1);
        let rest = neighbors_upto(sharks, i, radius, n - 1);
        let all = neighbors_upto(sharks, i, radius, n);
        assert forall|s: Shark| all.contains(s) <==> exists|j: int|
            0 <= j < n && is_neighbor(sharks, i, j, radius) && #[trigger] sharks[j] == s by {
            if all.contains(s) {
                let k = choose|k: int| 0 <= k < all.len() && all[k] == s;
                if is_neighbor(sharks, i, n - 1, radius) && k == rest.len() {
                    assert(sharks[n - 1] == s);
                } else {
                    assert(rest[k] == s);
                    assert(rest.contains(s));
                }
            }
            if exists|j: int|
                0 <= j < n && is_neighbor(sharks, i, j, radius) && #[trigger] sharks[j] == s {
                let j = choose|j: int|
                    0 <= j < n && is_neighbor(sharks, i, j, radius) && #[trigger] sharks[j] == s;
                if j == n - 1 {
                    assert(all[rest.len() as int] == s);
                } else {
                    assert(rest.contains(s));
                    let k = choose|k: int| 0 <= k < rest.len() && rest[k] == s;
                    assert(all[k] == s);
                }
            }
        }
    } else {
        assert forall|s: Shark| !neighbors_upto(sharks, i, radius, n).contains(s) by {}
    }
}

/// The other sharks that shark `i` perceives: those closer than `radius`.
pub fn nearby_sharks(sharks: &Vec<Shark>, i: usize, radius: i64) -> (r: Vec<Shark>)
    requires
        i < sharks.len(),
    ensures
        r@ == neighbors(sharks@, i as int, radius as int),
{
    let me: Point = sharks[i].position;
    let mut out: Vec<Shark> = Vec::new();
    let mut j: usize = 0;
    while j < sharks.len()
        invariant
            i < sharks.len(),
            j <= sharks.len(),
            me == sharks@[i as int].position,
            out@ == neighbors_upto(sharks@, i as int, radius as int, j as int),
        decreases sharks.len() - j,
    {
        let other: Shark = sharks[j];
        if i != j && v_distance(me, other.position) < radius {
            out.push(other);
        }
        j += 1;
    }
    out
}

/// Cohesion: the vector from the shark to the middle of its neighbours.
pub fn calculate_cohesion(shark: &Shark, nearby: &Vec<Shark>) -> (r: Point)
    ensures
        r == cohesion(*shark, nearby@),
{
    if nearby.len() == 0 {
        return v_zero();
    }
    let mut total: Point = v_zero();
    let mut k: usize = 0;
    while k < nearby.len()
        invariant
            k <= nearby.len(),
            total == total_position(nearby@.subrange(0, k as int)),
        decreases nearby.len() - k,
    {
        proof {
            let next = nearby@.subrange(0, k + 1);
            assert(next.drop_last() =~= nearby@.subrange(0, k as int));
            assert(next.last() == nearby@[k as int]);
        }
        total = v_add(total, nearby[k].position);
        k += 1;
    }
    assert(nearby@.subrange(0, nearby.len() as int) =~= nearby@);
    v_sub(v_mean(total, nearby.len()), shark.position)
}

/// Separation: the sum of the unit vectors away from the neighbours that are
/// closer than `separation_distance`.
pub fn calculate_separation(
    shark: &Shark,
    nearby: &Vec<Shark>,
    separation_distance: i64,
) -> (r: Point)
    ensures
        r == separation(*shark, nearby@, separation_distance as int),
{
    let mut steer: Point = v_zero();
    let mut k: usize = 0;
    while k < nearby.len()
        invariant
            k <= nearby.len(),
            steer == separation(*shark, nearby@.subrange(0, k as int), separation_distance as int),
        decreases nearby.len() - k,
    {
        proof {
            let next = nearby@.subrange(0, k + 1);
            assert(next.drop_last() =~= nearby@.subrange(0, k as int));
            assert(next.last() == nearby@[k as int]);
        }
        let other: Shark = nearby[k];
        let dist: i64 = v_distance(shark.position, other.position);
        let push: Point = if dist > 0 && dist < separation_distance {
            v_over(v_sub(shark.position, other.position), dist)
        } else {
            v_zero()
        };
        steer = v_add(steer, push);
        k += 1;
    }
    assert(nearby@.subrange(0, nearby.len() as int) =~= nearby@);
    steer
}

/// Alignment: the mean heading of the neighbours less the shark's own.
pub fn calculate_alignment(shark: &Shark, nearby: &Vec<Shark>) -> (r: Point)
    ensures
        r == alignment(*shark, nearby@),
{
    if nearby.len() == 0 {
        return v_zero();
    }
    let mut total: Point = v_zero();
    let mut k: usize = 0;
    while k < nearby.len()
        invariant
            k <= nearby.len(),
            total == total_heading(nearby@.subrange(0, k as int)),
        decreases nearby.len() - k,
    {
        proof {
            let next = nearby@.subrange(0, k + 1);
            assert(next.drop_last() =~= nearby@.subrange(0, k as int));
            assert(next.last() == nearby@[k as int]);
        }
        total = v_add(total, v_heading(nearby[k].rotation_rad));
        k += 1;
    }
    assert(nearby@.subrange(0, nearby.len() as int) =~= nearby@);
    v_sub(v_mean(total, nearby.len()), v_heading(shark.rotation_rad))
}

/// Goal seeking: the unit vector toward the nearest goal closer than
/// `goal_seeking_radius`; zero where there is none.
pub fn calculate_goal_seeking(
    shark: &Shark,
    goals: &Vec<Point>,
    goal_seeking_radius: i64,
) -> (r: Point)
    ensures
        r == goal_seeking(*shark, goals@, goal_seeking_radius as int),
{
    let mut closest: Option<(usize, i64)> = None;
    let mut n: usize = 0;
    while n < goals.len()
        invariant
            n <= goals.len(),
            match closest {
                Some((k, d)) => k < n && d == distance(shark.position, goals@[k as int])
                    && nearest_goal_upto(
                    shark.position,
                    goals@,
                    goal_seeking_radius as int,
                    n as int,
                ) == Some(k as int),
                None => nearest_goal_upto(
                    shark.position,
                    goals@,
                    goal_seeking_radius as int,
                    n as int,
                ).is_none(),
            },
        decreases goals.len() - n,
    {
        let dist: i64 = v_distance(shark.position, goals[n]);
        if dist < goal_seeking_radius {
            match closest {
                Some((_, current)) => {
                    if dist < current {
                        closest = Some((n, dist));
                    }
                },
                None => {
                    closest = Some((n, dist));
                },
            }
        }
        n += 1;
    }
    match closest {
        Some((k, _)) => {
            let steer: Point = v_sub(goals[k], shark.position);
            let norm: i64 = v_len(steer);
            if norm > EPSILON {
                v_over(steer, norm)
            } else {
                v_zero()
            }
        },
        None => v_zero(),
    }
}

/// The look-ahead position: a short way ahead along the heading.
pub fn look_ahead_position(shark: &Shark, dt: i64) -> (r: Point)
    ensures
        r == look_ahead(*shark, dt as int),
        r.in_plane(),
{
    let reach: i64 = fx_mul(fx_mul(shark.speed, 20_000_000), dt);
    let unit: Point = v_heading(shark.rotation_rad);
    Point {
        x: fx_add(shark.position.x, fx_mul(reach, unit.x)),
        y: fx_add(shark.position.y, fx_mul(reach, unit.y)),
    }
}

/// Border avoidance: steers away from each edge of the map that the
/// look-ahead position comes nearer to than `border_margin`.
pub fn calculate_border_avoidance(
    shark: &Shark,
    future_pos: &Point,
    map_bounds: (i64, i64, i64, i64),
    border_margin: i64,
) -> (r: Point)
    ensures
        r == border_avoidance(*shark, *future_pos, map_bounds, border_margin as int),
{
    let (min_x, min_y, max_x, max_y): (i64, i64, i64, i64) = map_bounds;
    let mut px: i64 = 0;
    let mut py: i64 = 0;
    let mut changed: bool = false;
    if future_pos.x < fx_add(min_x, border_margin) {
        px = SCALE;
        changed = true;
    } else if future_pos.x > fx_sub(max_x, border_margin) {
        px = -SCALE;
        changed = true;
    }
    if future_pos.y < fx_add(min_y, border_margin) {
        py = SCALE;
        changed = true;
    } else if future_pos.y > fx_sub(max_y, border_margin) {
        py = -SCALE;
        changed = true;
    }
    if changed {
        return v_sub(Point { x: px, y: py }, v_heading(shark.rotation_rad));
    }
    v_zero()
}

} // verus!
