//! The integrator: one shark's next heading, speed and position from the
//! force that steers it.
use crate::fixed::{
    clamped, diff, fx_add, fx_clamp, fx_max, fx_min, fx_mul, fx_sub, greater, in_range,
    lemma_round_div_bound, lesser, prod, sum, EPSILON, SCALE,
};
use crate::geometry::{pt, Point};
use crate::steering::Shark;
use crate::trig::{bearing, fx_atan2, wrap_angle, wrapped, PI};
use crate::vector::{
    heading_unit, v_add, v_heading, v_len, v_over, v_scale, vec_add, vec_len, vec_over,
    vec_scale,
};
use vstd::prelude::*;

verus! {

/// The least speed a shark keeps.
pub const MIN_SPEED: i64 = 500_000;

/// The greatest speed a shark reaches.
pub const MAX_SPEED: i64 = 2_000_000;

/// The velocity of the shark once the force has acted for the time `dt`.
pub open spec fn velocity_after(shark: Shark, force: Point, dt: int) -> Point {
    vec_add(
        vec_scale(heading_unit(shark.rotation_rad as int), shark.speed as int),
        vec_scale(force, dt),
    )
}

/// The length of the velocity `v`, kept within the speed limits.
pub open spec fn capped_speed(v: Point) -> int {
    greater(lesser(vec_len(v), MAX_SPEED as int), MIN_SPEED as int)
}

/// The velocity `v` brought to its capped speed; left as it is where its
/// length is at most `EPSILON` and it has no direction to keep.
pub open spec fn rescaled(v: Point) -> Point {
    if vec_len(v) > EPSILON {
        vec_scale(vec_over(v, vec_len(v)), capped_speed(v))
    } else {
        v
    }
}

/// The greatest turn in the time `dt`: half a turn per unit of time.
pub open spec fn max_turn(dt: int) -> int {
    prod(PI as int, dt)
}

/// The turn from `heading` toward the direction of `v`: the shorter way
/// round, and at most `max_turn(dt)` either way.
pub open spec fn turn_toward(heading: int, v: Point, dt: int) -> int {
    clamped(
        wrapped(diff(bearing(v.y as int, v.x as int), heading)),
        -max_turn(dt),
        max_turn(dt),
    )
}

/// The least coordinate the map allows along an axis that starts at `low`.
pub open spec fn least_allowed(low: int) -> int {
    sum(low, EPSILON as int)
}

/// The greatest coordinate the map allows along an axis that ends at `high`.
pub open spec fn greatest_allowed(high: int) -> int {
    diff(high, EPSILON as int)
}

/// The point `p` brought into the map, an `EPSILON` off each edge.
pub open spec fn kept_inside(p: Point, map_bounds: (i64, i64, i64, i64)) -> Point {
    pt(
        clamped(
            p.x as int,
            least_allowed(map_bounds.0 as int),
            greatest_allowed(map_bounds.2 as int),
        ),
        clamped(
            p.y as int,
            least_allowed(map_bounds.1 as int),
            greatest_allowed(map_bounds.3 as int),
        ),
    )
}

/// The shark one tick later, steered by `force`.
pub open spec fn advanced(shark: Shark, force: Point, dt: int, map_bounds: (i64, i64, i64, i64))
    -> Shark {
    let pushed = velocity_after(shark, force, dt);
    let velocity = rescaled(pushed);
    Shark {
        position: kept_inside(vec_add(shark.position, vec_scale(velocity, dt)), map_bounds),
        rotation_rad: sum(
            shark.rotation_rad as int,
            turn_toward(shark.rotation_rad as int, velocity, dt),
        ) as i64,
        speed: capped_speed(pushed) as i64,
    }
}

/// The speed of `shark` lies within the speed limits.
pub open spec fn speed_kept(shark: Shark) -> bool {
    MIN_SPEED <= shark.speed <= MAX_SPEED
}

/// `shark` lies within the map, an `EPSILON` off each edge, along every axis
/// on which the map is wide enough to have such a place.
pub open spec fn on_the_map(shark: Shark, map_bounds: (i64, i64, i64, i64)) -> bool {
    &&& least_allowed(map_bounds.0 as int) <= greatest_allowed(map_bounds.2 as int)
        ==> least_allowed(map_bounds.0 as int) <= shark.position.x <= greatest_allowed(
        map_bounds.2 as int,
    )
    &&& least_allowed(map_bounds.1 as int) <= greatest_allowed(map_bounds.3 as int)
        ==> least_allowed(map_bounds.1 as int) <= shark.position.y <= greatest_allowed(
        map_bounds.3 as int,
    )
}

/// From `before` to `after` the heading has changed by at most `max_turn(dt)`.
pub open spec fn turn_kept(before: Shark, after: Shark, dt: int) -> bool {
    -max_turn(dt) <= after.rotation_rad - before.rotation_rad <= max_turn(dt)
}

/// After a tick the speed lies within the speed limits.
pub proof fn lemma_speed_limits(
    shark: Shark,
    force: Point,
    dt: int,
    map_bounds: (i64, i64, i64, i64),
)
    ensures
        speed_kept(advanced(shark, force, dt, map_bounds)),
{
}

/// After a tick the position lies within the map.
pub proof fn lemma_position_bounds(
    shark: Shark,
    force: Point,
    dt: int,
    map_bounds: (i64, i64, i64, i64),
)
    ensures
        on_the_map(advanced(shark, force, dt, map_bounds), map_bounds),
{
}

/// In a tick the heading changes by at most `max_turn(dt)`, for a time step
/// that is not negative and a heading that the numbers can hold.
pub proof fn lemma_turn_rate(
    shark: Shark,
    force: Point,
    dt: int,
    map_bounds: (i64, i64, i64, i64),
)
    requires
        dt >= 0,
        in_range(shark.rotation_rad as int),
    ensures
        max_turn(dt) >= 0,
        turn_kept(shark, advanced(shark, force, dt, map_bounds), dt),
{
    assert(PI * dt >= 0) by (nonlinear_arith)
        requires
            dt >= 0,
    ;
    lemma_round_div_bound(PI * dt, SCALE as int, PI * dt);
}

/// Advances one shark by one tick under the given force.
pub fn integrate(
    shark: &Shark,
    force: Point,
    dt: i64,
    map_bounds: (i64, i64, i64, i64),
) -> (r: Shark)
    ensures
        r == advanced(*shark, force, dt as int, map_bounds),
        speed_kept(r),
        on_the_map(r, map_bounds),
        dt >= 0 && in_range(shark.rotation_rad as int) ==> turn_kept(*shark, r, dt as int),
{
    proof {
        lemma_speed_limits(*shark, force, dt as int, map_bounds);
        lemma_position_bounds(*shark, force, dt as int, map_bounds);
        if dt >= 0 && in_range(shark.rotation_rad as int) {
            lemma_turn_rate(*shark, force, dt as int, map_bounds);
        }
    }
    let pushed: Point = v_add(v_scale(v_heading(shark.rotation_rad), shark.speed), v_scale(force, dt));
    let new_speed: i64 = v_len(pushed);
    let speed: i64 = fx_max(fx_min(new_speed, MAX_SPEED), MIN_SPEED);
    let velocity: Point = if new_speed > EPSILON {
        v_scale(v_over(pushed, new_speed), speed)
    } else {
        pushed
    };
    let desired: i64 = fx_atan2(velocity.y, velocity.x);
    let angle_diff: i64 = wrap_angle(fx_sub(desired, shark.rotation_rad));
    let limit: i64 = fx_mul(PI, dt);
    let turn: i64 = fx_clamp(angle_diff, -limit, limit);
    let heading: i64 = fx_add(shark.rotation_rad, turn);
    let moved: Point = v_add(shark.position, v_scale(velocity, dt));
    let (min_x, min_y, max_x, max_y): (i64, i64, i64, i64) = map_bounds;
    let position: Point = Point {
        x: fx_clamp(moved.x, fx_add(min_x, EPSILON), fx_sub(max_x, EPSILON)),
        y: fx_clamp(moved.y, fx_add(min_y, EPSILON), fx_sub(max_y, EPSILON)),
    };
    Shark { position, rotation_rad: heading, speed }
}

} // verus!
