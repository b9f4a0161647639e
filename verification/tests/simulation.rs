use rand::rngs::StdRng;
use rand::SeedableRng;
use shark_sim::geometry::{LandPolygon, Point};
use shark_sim::integrator::{integrate, MAX_SPEED, MIN_SPEED};
use shark_sim::shapes::{load_land_polygons, Shape};
use shark_sim::simulation::Simulation;
use shark_sim::spawn::{is_in_water, random_point, random_point_in_water};
use shark_sim::steering::Shark;
use shark_sim::tick::{should_trigger, TickScheduler, TICK_NANOS};
use shark_sim::trig::{HALF_PI, PI, TWO_PI};

const ONE: i64 = 1_000_000;
const BOUNDS: (i64, i64, i64, i64) = (-180 * ONE, -85 * ONE, 180 * ONE, 85 * ONE);

fn p(x: i64, y: i64) -> Point {
    Point { x: x * ONE, y: y * ONE }
}

fn shark(x: i64, y: i64, heading: i64) -> Shark {
    Shark { position: p(x, y), rotation_rad: heading, speed: ONE }
}

fn square() -> LandPolygon {
    LandPolygon::new(vec![p(0, 0), p(10, 0), p(10, 10), p(0, 10)], vec![])
}

fn step(sim: &mut Simulation, land: &Vec<LandPolygon>, land_avoid_radius: i64) {
    sim.step(
        100_000,
        4 * ONE,
        2 * ONE,
        100_000,
        100_000,
        50_000,
        land,
        BOUNDS,
        land_avoid_radius,
        100 * ONE,
        500_000,
        6 * ONE,
        10 * ONE,
        300_000,
    );
}

#[test]
fn integrate_without_force_keeps_course_and_speed() {
    let next = integrate(&shark(5, 5, 0), p(0, 0), 100_000, BOUNDS);
    assert_eq!(
        next,
        Shark { position: Point { x: 5_100_000, y: 5_000_000 }, rotation_rad: 0, speed: ONE }
    );
    let up = integrate(&shark(5, 5, HALF_PI), p(0, 0), 100_000, BOUNDS);
    assert_eq!(
        up,
        Shark { position: Point { x: 5_000_000, y: 5_100_000 }, rotation_rad: HALF_PI, speed: ONE }
    );
}

#[test]
fn integrate_clamps_the_speed() {
    let pushed = integrate(&shark(5, 5, 0), p(85, 0), 100_000, BOUNDS);
    assert_eq!(pushed.speed, MAX_SPEED);
    assert_eq!(pushed.position, Point { x: 5_200_000, y: 5_000_000 });
    assert_eq!(pushed.rotation_rad, 0);
    let braked = integrate(&shark(5, 5, 0), Point { x: -8 * ONE, y: 0 }, 100_000, BOUNDS);
    assert_eq!(braked.speed, MIN_SPEED);
    assert_eq!(braked.position, Point { x: 5_050_000, y: 5_000_000 });
}

#[test]
fn integrate_limits_the_turn_to_half_a_turn_per_unit_of_time() {
    let turned = integrate(&shark(5, 5, 0), p(0, 50), 100_000, BOUNDS);
    assert_eq!(turned.rotation_rad, 314_159);
    let back = integrate(&shark(5, 5, 0), p(0, -50), 100_000, BOUNDS);
    assert_eq!(back.rotation_rad, -314_159);
    let slight = integrate(&shark(5, 5, 0), Point { x: 0, y: ONE }, 100_000, BOUNDS);
    assert!((slight.rotation_rad - 99_669).abs() <= 3, "{}", slight.rotation_rad);
}

#[test]
fn integrate_turns_the_short_way_round() {
    let almost_back = Shark { position: p(5, 5), rotation_rad: PI - 100_000, speed: ONE };
    // pushed to head toward -PI + 0.1: the short way is to turn further left, through PI
    let force = Point { x: 0, y: -3 * ONE };
    let next = integrate(&almost_back, force, 100_000, BOUNDS);
    assert!(next.rotation_rad > almost_back.rotation_rad);
    assert!(next.rotation_rad - almost_back.rotation_rad <= 314_159);
}

#[test]
fn integrate_keeps_the_position_inside_the_map() {
    let edge = Shark { position: Point { x: 179_950_000, y: -84_990_000 }, rotation_rad: -785_398, speed: 2 * ONE };
    let next = integrate(&edge, p(0, 0), 100_000, BOUNDS);
    assert_eq!(next.position, Point { x: 180 * ONE - 1, y: -85 * ONE + 1 });
    let lost = Shark { position: p(500, 500), rotation_rad: 0, speed: ONE };
    assert_eq!(
        integrate(&lost, p(0, 0), 100_000, BOUNDS).position,
        Point { x: 180 * ONE - 1, y: 85 * ONE - 1 }
    );
}

#[test]
fn a_degenerate_map_gives_way_to_its_upper_edge() {
    let tiny = (7 * ONE, 3 * ONE, 7 * ONE, 3 * ONE);
    let next = integrate(&shark(0, 0, 0), p(0, 0), 100_000, tiny);
    assert_eq!(next.position, Point { x: 7 * ONE - 1, y: 3 * ONE - 1 });
}

#[test]
fn step_inside_land_is_driven_by_avoidance_alone() {
    let land = vec![square()];
    let mut alone = Simulation { sharks: vec![shark(5, 5, 0)], goals: vec![] };
    step(&mut alone, &land, 20 * ONE);
    assert_eq!(
        alone.sharks,
        vec![Shark { position: Point { x: 5_200_000, y: 5_000_000 }, rotation_rad: 0, speed: 2 * ONE }]
    );
    let mut crowded = Simulation {
        sharks: vec![shark(5, 5, 0), shark(6, 5, HALF_PI), shark(5, 4, PI)],
        goals: vec![p(5, 7), p(2, 2)],
    };
    step(&mut crowded, &land, 20 * ONE);
    assert_eq!(crowded.sharks[0], alone.sharks[0]);
    assert_eq!(crowded.sharks.len(), 3);
    assert_eq!(crowded.goals, vec![p(5, 7), p(2, 2)]);
}

#[test]
fn a_lone_shark_swims_straight_on() {
    let mut sim = Simulation { sharks: vec![shark(20, 20, 0)], goals: vec![] };
    for tick in 1..=50 {
        step(&mut sim, &vec![], 10 * ONE);
        assert_eq!(
            sim.sharks[0],
            Shark {
                position: Point { x: 20 * ONE + tick * 100_000, y: 20 * ONE },
                rotation_rad: 0,
                speed: ONE
            }
        );
    }
}

#[test]
fn a_lone_shark_on_a_slanted_course_barely_drifts() {
    let start = Shark { position: p(0, 0), rotation_rad: 700_000, speed: 1_200_000 };
    let mut sim = Simulation { sharks: vec![start], goals: vec![] };
    for _ in 0..200 {
        step(&mut sim, &vec![], 10 * ONE);
    }
    let end = sim.sharks[0];
    assert!((end.rotation_rad - 700_000).abs() <= 20, "heading {}", end.rotation_rad);
    assert!((end.speed - 1_200_000).abs() <= 400, "speed {}", end.speed);
    let want_x = 24.0 * 0.7f64.cos();
    let want_y = 24.0 * 0.7f64.sin();
    assert!((end.position.x as f64 / 1e6 - want_x).abs() < 0.01, "x {}", end.position.x);
    assert!((end.position.y as f64 / 1e6 - want_y).abs() < 0.01, "y {}", end.position.y);
}

#[test]
fn step_works_on_the_sharks_as_they_were() {
    let a = shark(50, 50, 0);
    let b = Shark { position: Point { x: 51 * ONE, y: 50_500_000 }, rotation_rad: HALF_PI, speed: 1_500_000 };
    let c = shark(49, 52, PI);
    let goals = vec![p(50, 47), p(60, 60)];
    let mut one = Simulation { sharks: vec![a, b, c], goals: goals.clone() };
    let mut other = Simulation { sharks: vec![c, a, b], goals };
    step(&mut one, &vec![square()], 10 * ONE);
    step(&mut other, &vec![square()], 10 * ONE);
    assert_eq!(one.sharks[0], other.sharks[1]);
    assert_eq!(one.sharks[1], other.sharks[2]);
    assert_eq!(one.sharks[2], other.sharks[0]);
    assert_ne!(one.sharks[0], a);
}

#[test]
fn step_applies_the_weighted_flocking_forces() {
    let mut sim = Simulation {
        sharks: vec![shark(50, 50, 0), shark(51, 50, HALF_PI)],
        goals: vec![p(50, 47)],
    };
    step(&mut sim, &vec![], 10 * ONE);
    // force (-0.05, -0.25): velocity (0.995, -0.025), speed 0.995314
    let first = sim.sharks[0];
    assert_eq!(first.speed, 995_314);
    assert!((first.rotation_rad + 25_120).abs() <= 3, "{}", first.rotation_rad);
    assert!((first.position.x - 50_099_500).abs() <= 1);
    assert!((first.position.y - 49_997_500).abs() <= 1);
}

#[test]
fn every_tick_keeps_speed_position_and_turn_within_bounds() {
    let mut rng = StdRng::seed_from_u64(7);
    let land = vec![
        square(),
        LandPolygon::new(vec![p(-60, -20), p(-20, -30), p(-30, 20)], vec![]),
    ];
    let goals = vec![p(30, 30), p(-100, 40), p(170, -80)];
    let mut sim = Simulation::new(40, &mut rng, &land, goals, 10_000).unwrap();
    sim.sharks[0].position = Point { x: 179_900_000, y: 84_900_000 };
    sim.sharks[1].position = Point { x: -179_900_000, y: -84_900_000 };
    sim.sharks[2].speed = 9 * ONE;
    sim.sharks[3].speed = 0;
    for _ in 0..150 {
        let before = sim.sharks.clone();
        step(&mut sim, &land, 10 * ONE);
        assert_eq!(sim.sharks.len(), before.len());
        for (old, new) in before.iter().zip(sim.sharks.iter()) {
            assert!(MIN_SPEED <= new.speed && new.speed <= MAX_SPEED);
            assert!(-180 * ONE + 1 <= new.position.x && new.position.x <= 180 * ONE - 1);
            assert!(-85 * ONE + 1 <= new.position.y && new.position.y <= 85 * ONE - 1);
            assert!((new.rotation_rad - old.rotation_rad).abs() <= 314_159);
        }
    }
}

#[test]
fn random_points_lie_on_the_map_and_vary() {
    let mut rng = StdRng::seed_from_u64(42);
    let points: Vec<Point> = (0..200).map(|_| random_point(&mut rng)).collect();
    for q in &points {
        assert!(-180 * ONE <= q.x && q.x <= 180 * ONE);
        assert!(-90 * ONE <= q.y && q.y <= 90 * ONE);
    }
    assert!(points.iter().any(|q| q.x < 0) && points.iter().any(|q| q.x > 0));
    assert!(points.iter().any(|q| q.y < -45 * ONE) && points.iter().any(|q| q.y > 45 * ONE));
    assert!(points.iter().any(|q| q.x.abs() > 90 * ONE));
}

#[test]
fn random_points_repeat_under_the_same_seed() {
    let mut a = StdRng::seed_from_u64(5);
    let mut b = StdRng::seed_from_u64(5);
    assert_eq!(random_point(&mut a), random_point(&mut b));
    assert_eq!(
        random_point_in_water(&mut a, &vec![square()], 100),
        random_point_in_water(&mut b, &vec![square()], 100)
    );
}

#[test]
fn water_ends_a_margin_off_the_coast() {
    let land = vec![square()];
    assert!(!is_in_water(&land, p(5, 5)));
    assert!(!is_in_water(&land, Point { x: 10_200_000, y: 5_000_000 }));
    assert!(!is_in_water(&land, Point { x: -400_000, y: -400_000 }));
    assert!(is_in_water(&land, Point { x: 10_500_000, y: 5_000_000 }));
    assert!(is_in_water(&land, Point { x: 10_600_000, y: 5_000_000 }));
    assert!(is_in_water(&vec![], p(5, 5)));
}

#[test]
fn points_in_water_avoid_the_grown_land() {
    let everything_but_a_strip = LandPolygon::new(
        vec![p(-200, -100), p(150, -100), p(150, 100), p(-200, 100)],
        vec![],
    );
    let land = vec![everything_but_a_strip];
    let mut rng = StdRng::seed_from_u64(11);
    for _ in 0..20 {
        let q = random_point_in_water(&mut rng, &land, 100_000).unwrap();
        assert!(q.x >= 167_500_000, "{}", q.x);
        assert!(is_in_water(&land, q));
    }
}

#[test]
fn no_water_and_no_attempts_find_no_point() {
    let all_land = LandPolygon::new(
        vec![p(-200, -100), p(200, -100), p(200, 100), p(-200, 100)],
        vec![],
    );
    let mut rng = StdRng::seed_from_u64(3);
    assert_eq!(random_point_in_water(&mut rng, &vec![all_land], 50), None);
    assert_eq!(random_point_in_water(&mut rng, &vec![], 0), None);
    assert!(random_point_in_water(&mut rng, &vec![], 1).is_some());
}

#[test]
fn a_map_of_water_sets_every_shark_out_at_the_first_draw() {
    for amount in [0usize, 1, 7, 300] {
        let mut rng = StdRng::seed_from_u64(amount as u64);
        let goals = vec![p(1, 2)];
        let sim = Simulation::new(amount, &mut rng, &vec![], goals.clone(), 1).unwrap();
        assert_eq!(sim.sharks.len(), amount);
        assert_eq!(sim.goals, goals);
        for s in &sim.sharks {
            assert!(-180 * ONE <= s.position.x && s.position.x <= 180 * ONE);
            assert!(-90 * ONE <= s.position.y && s.position.y <= 90 * ONE);
            assert!(0 <= s.rotation_rad && s.rotation_rad < TWO_PI);
            assert!(500_000 <= s.speed && s.speed < 1_500_000);
        }
    }
}

#[test]
fn sharks_are_set_out_with_varied_headings_and_speeds() {
    let mut rng = StdRng::seed_from_u64(99);
    let sim = Simulation::new(100, &mut rng, &vec![square()], vec![], 1_000).unwrap();
    assert!(sim.sharks.iter().any(|s| s.rotation_rad > PI));
    assert!(sim.sharks.iter().any(|s| s.rotation_rad < PI && s.rotation_rad > 0));
    assert!(sim.sharks.iter().any(|s| s.speed > ONE));
    assert!(sim.sharks.iter().any(|s| s.speed < ONE && s.speed > 500_000));
    for s in &sim.sharks {
        assert!(is_in_water(&vec![square()], s.position));
    }
}

#[test]
fn setting_out_fails_without_attempts_or_water() {
    let mut rng = StdRng::seed_from_u64(1);
    assert!(Simulation::new(3, &mut rng, &vec![], vec![], 0).is_none());
    assert!(Simulation::new(0, &mut rng, &vec![], vec![], 0).is_some());
    let all_land = LandPolygon::new(
        vec![p(-200, -100), p(200, -100), p(200, 100), p(-200, 100)],
        vec![],
    );
    assert!(Simulation::new(2, &mut rng, &vec![all_land], vec![], 20).is_none());
}

#[test]
fn land_polygons_are_the_polygon_shapes_in_order() {
    let outer = vec![p(0, 0), p(10, 0), p(10, 10), p(0, 10), p(0, 0)];
    let hole = vec![p(4, 4), p(6, 4), p(6, 6), p(4, 4)];
    let shapes = vec![
        Shape::Other,
        Shape::Polygon(vec![outer.clone(), hole.clone(), vec![]]),
        Shape::Other,
        Shape::Polygon(vec![vec![p(20, 20), p(30, 20), p(25, 30)]]),
    ];
    let land = load_land_polygons(&shapes);
    assert_eq!(land.len(), 2);
    assert_eq!(land[0].exterior_points(), &outer);
    assert_eq!(land[0].interior_rings(), &vec![hole, vec![]]);
    assert_eq!(land[1].exterior_points(), &vec![p(20, 20), p(30, 20), p(25, 30)]);
    assert_eq!(land[1].interior_rings().len(), 0);
    assert!(land[0].contains(p(2, 2)));
    assert!(!land[0].contains(p(5, 5)));
    assert_eq!(load_land_polygons(&vec![Shape::Other]).len(), 0);
    assert_eq!(load_land_polygons(&vec![]).len(), 0);
}

#[test]
fn from_rings_splits_the_outer_ring_from_the_holes() {
    let rings = vec![vec![p(0, 0), p(2, 0), p(1, 2)], vec![p(1, 1)]];
    let poly = LandPolygon::from_rings(&rings);
    assert_eq!(poly.exterior_points(), &rings[0]);
    assert_eq!(poly.interior_rings(), &vec![vec![p(1, 1)]]);
    let bare = LandPolygon::from_rings(&vec![vec![]]);
    assert_eq!(bare.exterior_points().len(), 0);
    assert_eq!(bare.bounds(), None);
}

#[test]
fn a_fresh_scheduler_never_triggers() {
    let mut s = TickScheduler::new();
    assert!(!should_trigger(&mut s, 0));
    assert!(!should_trigger(&mut s, 10 * TICK_NANOS));
    assert_eq!(s, TickScheduler { last_trigger: None });
}

#[test]
fn the_scheduler_triggers_once_a_tick_has_passed() {
    let mut s = TickScheduler { last_trigger: Some(1_000) };
    assert!(!should_trigger(&mut s, 1_000 + TICK_NANOS - 1));
    assert_eq!(s.last_trigger, Some(1_000));
    assert!(should_trigger(&mut s, 1_000 + TICK_NANOS));
    assert_eq!(s.last_trigger, Some(1_000 + TICK_NANOS));
    assert!(!should_trigger(&mut s, 1_000 + TICK_NANOS));
    assert!(!should_trigger(&mut s, 500));
    assert_eq!(s.last_trigger, Some(1_000 + TICK_NANOS));
    assert!(should_trigger(&mut s, u64::MAX));
    assert_eq!(s.last_trigger, Some(u64::MAX));
}
