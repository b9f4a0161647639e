//! The simulation: the sharks, their goals, and the step that moves every
//! shark by one tick.
use crate::avoidance::{calculate_land_avoidance, land_avoidance};
use crate::fixed::in_range;
use crate::geometry::{LandPolygon, Point};
use crate::integrator::{advanced, integrate, on_the_map, speed_kept, turn_kept};
use crate::steering::{
    alignment, border_avoidance, calculate_alignment, calculate_border_avoidance,
    calculate_cohesion, calculate_goal_seeking, calculate_separation, cohesion, goal_seeking,
    look_ahead, look_ahead_position, nearby_sharks, neighbors, separation, Shark,
};
use crate::vector::{is_negligible, v_add, v_negligible, v_scale, vec_add, vec_scale};
use vstd::prelude::*;

verus! {

/// The numbers that tune one step.
#[derive(Clone, Copy, Debug)]
pub struct Tuning {
    /// The length of a tick.
    pub dt: i64,
    /// How far a shark perceives other sharks.
    pub perception_radius: i64,
    /// The distance under which sharks repel each other.
    pub separation_distance: i64,
    pub cohesion_strength: i64,
    pub separation_strength: i64,
    pub alignment_strength: i64,
    /// The map: least x, least y, greatest x, greatest y.
    pub map_bounds: (i64, i64, i64, i64),
    /// The distance under which land repels.
    pub land_avoid_radius: i64,
    pub land_avoid_strength: i64,
    /// The distance under which an edge of the map repels.
    pub border_margin: i64,
    pub border_strength: i64,
    /// The distance under which a goal attracts.
    pub goal_seeking_radius: i64,
    pub goal_seeking_strength: i64,
}

/// The weighted sum of the four flocking forces on `shark`.
pub open spec fn flocking_force(
    shark: Shark,
    nearby: Seq<Shark>,
    goals: Seq<Point>,
    t: Tuning,
) -> Point {
    vec_add(
        vec_add(
            vec_add(
                vec_scale(cohesion(shark, nearby), t.cohesion_strength as int),
                vec_scale(
                    separation(shark, nearby, t.separation_distance as int),
                    t.separation_strength as int,
                ),
            ),
            vec_scale(alignment(shark, nearby), t.alignment_strength as int),
        ),
        vec_scale(
            goal_seeking(shark, goals, t.goal_seeking_radius as int),
            t.goal_seeking_strength as int,
        ),
    )
}

/// The weighted sum of the two avoidance forces.
pub open spec fn avoidance_force(land_push: Point, border_push: Point, t: Tuning) -> Point {
    vec_add(
        vec_scale(land_push, t.land_avoid_strength as int),
        vec_scale(border_push, t.border_strength as int),
    )
}

/// The force applied: avoidance alone where either avoidance force counts,
/// and else the flocking force alone.
pub open spec fn composed_force(land_push: Point, border_push: Point, flocking: Point, t: Tuning)
    -> Point {
    if !is_negligible(land_push) || !is_negligible(border_push) {
        avoidance_force(land_push, border_push, t)
    } else {
        flocking
    }
}

/// The force that steers shark `i` in this tick.
pub open spec fn steering_force(
    sharks: Seq<Shark>,
    i: int,
    land: Seq<LandPolygon>,
    goals: Seq<Point>,
    t: Tuning,
) -> Point {
    let shark = sharks[i];
    let future_pos = look_ahead(shark, t.dt as int);
    composed_force(
        land_avoidance(land, future_pos, t.land_avoid_radius as int),
        border_avoidance(shark, future_pos, t.map_bounds, t.border_margin as int),
        flocking_force(shark, neighbors(sharks, i, t.perception_radius as int), goals, t),
        t,
    )
}

/// Shark `i` one tick later.
pub open spec fn next_shark(
    sharks: Seq<Shark>,
    i: int,
    land: Seq<LandPolygon>,
    goals: Seq<Point>,
    t: Tuning,
) -> Shark {
    advanced(sharks[i], steering_force(sharks, i, land, goals, t), t.dt as int, t.map_bounds)
}

/// The applied force from the two avoidance forces and the flocking force.
pub fn compose_force(
    land_push: Point,
    border_push: Point,
    flocking: Point,
    tuning: &Tuning,
) -> (r: Point)
    ensures
        r == composed_force(land_push, border_push, flocking, *tuning),
{
    if !v_negligible(land_push) || !v_negligible(border_push) {
        v_add(
            v_scale(land_push, tuning.land_avoid_strength),
            v_scale(border_push, tuning.border_strength),
        )
    } else {
        flocking
    }
}

/// The force that steers shark `i`, with every other shark taken as it was
/// before the tick.
pub fn steer(
    sharks: &Vec<Shark>,
    i: usize,
    land_shape_file: &Vec<LandPolygon>,
    goals: &Vec<Point>,
    tuning: &Tuning,
) -> (r: Point)
    requires
        i < sharks.len(),
    ensures
        r == steering_force(sharks@, i as int, land_shape_file@, goals@, *tuning),
{
    let shark: &Shark = &sharks[i];
    let nearby: Vec<Shark> = nearby_sharks(sharks, i, tuning.perception_radius);
    let cohesion: Point = calculate_cohesion(shark, &nearby);
    let separation: Point = calculate_separation(shark, &nearby, tuning.separation_distance);
    let alignment: Point = calculate_alignment(shark, &nearby);
    let goal_seeking: Point = calculate_goal_seeking(shark, goals, tuning.goal_seeking_radius);
    let future_pos: Point = look_ahead_position(shark, tuning.dt);
    let land_push: Point = calculate_land_avoidance(
        &future_pos,
        land_shape_file,
        tuning.land_avoid_radius,
    );
    let border_push: Point = calculate_border_avoidance(
        shark,
        &future_pos,
        tuning.map_bounds,
        tuning.border_margin,
    );
    let flocking: Point = v_add(
        v_add(
            v_add(
                v_scale(cohesion, tuning.cohesion_strength),
                v_scale(separation, tuning.separation_strength),
            ),
            v_scale(alignment, tuning.alignment_strength),
        ),
        v_scale(goal_seeking, tuning.goal_seeking_strength),
    );
    compose_force(land_push, border_push, flocking, tuning)
}

/// The sharks and the goals that attract them.
#[derive(Debug)]
pub struct Simulation {
    pub sharks: Vec<Shark>,
    pub goals: Vec<Point>,
}

impl Simulation {
    /// Moves every shark by one tick. Each shark is steered by the sharks as
    /// they were before the tick, so the order of the sharks does not
    /// matter; the goals stay as they are.
    pub fn step(
        &mut self,
        dt: i64,
        perception_radius: i64,
        separation_distance: i64,
        cohesion_strength: i64,
        separation_strength: i64,
        alignment_strength: i64,
        land_shape_file: &Vec<LandPolygon>,
        map_bounds: (i64, i64, i64, i64),
        land_avoid_radius: i64,
        land_avoid_strength: i64,
        border_margin: i64,
        border_strength: i64,
        goal_seeking_radius: i64,
        goal_seeking_strength: i64,
    )
        ensures
            final(self).goals == old(self).goals,
            final(self).sharks@.len() == old(self).sharks@.len(),
            forall|i: int|
                0 <= i < old(self).sharks@.len() ==> #[trigger] final(self).sharks@[i]
                    == next_shark(
                    old(self).sharks@,
                    i,
                    land_shape_file@,
                    old(self).goals@,
                    (Tuning {
                        dt,
                        perception_radius,
                        separation_distance,
                        cohesion_strength,
                        separation_strength,
                        alignment_strength,
                        map_bounds,
                        land_avoid_radius,
                        land_avoid_strength,
                        border_margin,
                        border_strength,
                        goal_seeking_radius,
                        goal_seeking_strength,
                    }),
                ),
            forall|i: int|
                0 <= i < final(self).sharks@.len() ==> speed_kept(
                    #[trigger] final(self).sharks@[i],
                ),
            forall|i: int|
                0 <= i < final(self).sharks@.len() ==> on_the_map(
                    #[trigger] final(self).sharks@[i],
                    map_bounds,
                ),
            forall|i: int|
                0 <= i < final(self).sharks@.len() && dt >= 0 && in_range(
                    old(self).sharks@[i].rotation_rad as int,
                ) ==> turn_kept(
                    old(self).sharks@[i],
                    #[trigger] final(self).sharks@[i],
                    dt as int,
                ),
    {
        let tuning: Tuning = Tuning {
            dt,
            perception_radius,
            separation_distance,
            cohesion_strength,
            separation_strength,
            alignment_strength,
            map_bounds,
            land_avoid_radius,
            land_avoid_strength,
            border_margin,
            border_strength,
            goal_seeking_radius,
            goal_seeking_strength,
        };
        let mut new_sharks: Vec<Shark> = Vec::with_capacity(self.sharks.len());
        let mut i: usize = 0;
        while i < self.sharks.len()
            invariant
                i <= self.sharks.len(),
                *self == *old(self),
                new_sharks@.len() == i,
                tuning.dt == dt,
                tuning.map_bounds == map_bounds,
                forall|k: int|
                    0 <= k < i ==> #[trigger] new_sharks@[k] == next_shark(
                        self.sharks@,
                        k,
                        land_shape_file@,
                        self.goals@,
                        tuning,
                    ),
                forall|k: int|
                    0 <= k < i ==> speed_kept(#[trigger] new_sharks@[k]) && on_the_map(
                        new_sharks@[k],
                        map_bounds,
                    ),
                forall|k: int|
                    0 <= k < i && dt >= 0 && in_range(self.sharks@[k].rotation_rad as int)
                        ==> turn_kept(self.sharks@[k], #[trigger] new_sharks@[k], dt as int),
            decreases self.sharks.len() - i,
        {
            let force: Point = steer(&self.sharks, i, land_shape_file, &self.goals, &tuning);
            let moved: Shark = integrate(&self.sharks[i], force, dt, map_bounds);
            new_sharks.push(moved);
            i += 1;
        }
        self.sharks = new_sharks;
    }
}

} // verus!
