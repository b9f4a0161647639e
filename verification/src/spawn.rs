//! Setting the sharks out: random points of the map, points in open water,
//! and the simulation that starts from them.
use crate::geometry::{LandPolygon, Point};
use crate::inside::{interior_holds, scaled_ring};
use crate::simulation::Simulation;
use crate::steering::Shark;
use crate::trig::TWO_PI;
use rand::rngs::StdRng;
use vstd::prelude::*;

verus! {

/// The random number generator that places the sharks.
#[verifier::external_type_specification]
#[verifier::external_body]
pub struct ExStdRng(StdRng);

/// Calls `rand::Rng::random_range` on the inclusive range from `low` to
/// `high`. The value drawn lies in that range; the call panics on an empty
/// range, which `low <= high` rules out.
#[verifier::external_body]
fn sample_between(rng: &mut StdRng, low: i64, high: i64) -> (r: i64)
    requires
        low <= high,
    ensures
        low <= r <= high,
{
    rand::Rng::random_range(rng, low..=high)
}

/// The greatest longitude of a random point; the least is its opposite.
pub const MAX_LONGITUDE: i64 = 180_000_000;

/// The greatest latitude of a random point; the least is its opposite.
pub const MAX_LATITUDE: i64 = 90_000_000;

/// The factor by which land is grown before a point counts as water.
pub const COAST_MARGIN: i64 = 1_100_000;

/// The least speed a shark starts with.
pub const START_SPEED_MIN: i64 = 500_000;

/// The bound under which the starting speeds stay.
pub const START_SPEED_END: i64 = 1_500_000;

/// `p` is a point that `random_point` can return.
pub open spec fn on_map(p: Point) -> bool {
    -MAX_LONGITUDE <= p.x <= MAX_LONGITUDE && -MAX_LATITUDE <= p.y <= MAX_LATITUDE
}

/// The rings of the holes, each scaled about `c`.
pub open spec fn scaled_rings(
    rings: Seq<Seq<Point>>,
    c: Point,
    fx: int,
    fy: int,
) -> Seq<Seq<Point>> {
    Seq::new(rings.len(), |i: int| scaled_ring(rings[i], c, fx, fy))
}

/// `p` lies inside `poly` grown by the coast margin about its middle.
pub open spec fn on_grown_land(poly: LandPolygon, p: Point) -> bool {
    interior_holds(
        scaled_ring(poly.exterior(), poly.middle(), COAST_MARGIN as int, COAST_MARGIN as int),
        scaled_rings(poly.interiors(), poly.middle(), COAST_MARGIN as int, COAST_MARGIN as int),
        p.confined(),
    )
}

/// `p` lies inside none of the polygons, each grown by the coast margin.
pub open spec fn in_water(land: Seq<LandPolygon>, p: Point) -> bool {
    forall|i: int| 0 <= i < land.len() ==> !on_grown_land(#[trigger] land[i], p)
}

/// `shark` is a shark as the simulation sets it out: in open water on the
/// map, with a heading within one turn and a starting speed.
pub open spec fn set_out(land: Seq<LandPolygon>, shark: Shark) -> bool {
    &&& on_map(shark.position)
    &&& in_water(land, shark.position)
    &&& 0 <= shark.rotation_rad < TWO_PI
    &&& START_SPEED_MIN <= shark.speed < START_SPEED_END
}

/// A random point of the map: a latitude is drawn, then a longitude, and
/// `Point::new` makes the point of them. Whatever is drawn, the point lies on
/// the map.
pub fn random_point(rng: &mut StdRng) -> (r: Point)
    ensures
        on_map(r),
{
    let lat: i64 = sample_between(rng, -MAX_LATITUDE, MAX_LATITUDE);
    let lon: i64 = sample_between(rng, -MAX_LONGITUDE, MAX_LONGITUDE);
    Point::new(lon, lat)
}

/// Whether `p` lies in open water: inside none of the polygons, each grown
/// by the coast margin.
pub fn is_in_water(land_polygons: &Vec<LandPolygon>, p: Point) -> (r: bool)
    ensures
        r == in_water(land_polygons@, p),
{
    let mut i: usize = 0;
    while i < land_polygons.len()
        invariant
            i <= land_polygons.len(),
            forall|k: int| 0 <= k < i ==> !on_grown_land(#[trigger] land_polygons@[k], p),
        decreases land_polygons.len() - i,
    {
        let poly: &LandPolygon = &land_polygons[i];
        let grown: LandPolygon = poly.scale_xy(COAST_MARGIN, COAST_MARGIN);
        proof {
            assert(grown.interiors() =~= scaled_rings(
                poly.interiors(),
                poly.middle(),
                COAST_MARGIN as int,
                COAST_MARGIN as int,
            ));
        }
        if grown.contains(p) {
            return false;
        }
        i += 1;
    }
    true
}

/// A random point in open water, found in at most `max_attempts` draws.
/// Without land the first draw is taken.
pub fn random_point_in_water(
    rng: &mut StdRng,
    land_polygons: &Vec<LandPolygon>,
    max_attempts: u64,
) -> (r: Option<Point>)
    ensures
        match r {
            Some(p) => on_map(p) && in_water(land_polygons@, p) && max_attempts > 0,
            None => max_attempts == 0 || land_polygons@.len() > 0,
        },
{
    let mut left: u64 = max_attempts;
    while left > 0
        invariant
            left <= max_attempts,
            left < max_attempts ==> land_polygons@.len() > 0,
        decreases left,
    {
        let p: Point = random_point(rng);
        if is_in_water(land_polygons, p) {
            return Some(p);
        }
        left -= 1;
    }
    None
}

impl Simulation {
    /// A simulation of `amount_of_sharks` sharks, each set out at a random
    /// point in open water with a random heading and a random starting
    /// speed. `None` where, for some shark, `max_attempts` draws found no
    /// open water; without land that cannot happen.
    pub fn new(
        amount_of_sharks: usize,
        rng: &mut StdRng,
        land_shape_file: &Vec<LandPolygon>,
        goals: Vec<Point>,
        max_attempts: u64,
    ) -> (r: Option<Simulation>)
        ensures
            match r {
                Some(sim) => {
                    &&& sim.goals == goals
                    &&& sim.sharks@.len() == amount_of_sharks
                    &&& forall|i: int|
                        0 <= i < sim.sharks@.len() ==> set_out(
                            land_shape_file@,
                            #[trigger] sim.sharks@[i],
                        )
                    &&& amount_of_sharks == 0 || max_attempts > 0
                },
                None => amount_of_sharks > 0 && (max_attempts == 0 || land_shape_file@.len()
                    > 0),
            },
    {
        let mut sharks: Vec<Shark> = Vec::with_capacity(amount_of_sharks);
        let mut n: usize = 0;
        while n < amount_of_sharks
            invariant
                n <= amount_of_sharks,
                sharks@.len() == n,
                n > 0 ==> max_attempts > 0,
                forall|i: int|
                    0 <= i < sharks@.len() ==> set_out(land_shape_file@, #[trigger] sharks@[i]),
            decreases amount_of_sharks - n,
        {
            let position: Point = match random_point_in_water(
                rng,
                land_shape_file,
                max_attempts,
            ) {
                Some(p) => p,
                None => {
                    return None;
                },
            };
            let rotation_rad: i64 = sample_between(rng, 0, TWO_PI - 1);
            let speed: i64 = sample_between(rng, START_SPEED_MIN, START_SPEED_END - 1);
            sharks.push(Shark { position, rotation_rad, speed });
            n += 1;
        }
        Some(Simulation { sharks, goals })
    }
}

} // verus!
