use shark_sim::closest::Closest;
use shark_sim::fixed::LIMIT;
use shark_sim::geometry::{LandPolygon, Point, Rect};

fn p(x: i64, y: i64) -> Point {
    Point { x: x * 1_000_000, y: y * 1_000_000 }
}

fn square() -> LandPolygon {
    LandPolygon::new(vec![p(0, 0), p(10, 0), p(10, 10), p(0, 10)], vec![])
}

fn ring_with_hole() -> LandPolygon {
    LandPolygon::new(
        vec![p(0, 0), p(10, 0), p(10, 10), p(0, 10), p(0, 0)],
        vec![vec![p(4, 4), p(6, 4), p(6, 6), p(4, 6), p(4, 4)]],
    )
}

#[test]
fn rect_new_orders_its_corners() {
    let r = Rect::new(p(5, -2), p(-1, 3));
    assert_eq!(r.min, p(-1, -2));
    assert_eq!(r.max, p(5, 3));
}

#[test]
fn rects_that_touch_intersect() {
    let a = Rect::new(p(0, 0), p(2, 2));
    assert!(a.intersects(&Rect::new(p(2, 2), p(3, 3))));
    assert!(a.intersects(&Rect::new(p(1, 1), p(5, 5))));
    assert!(a.intersects(&Rect::new(p(-5, -5), p(5, 5))));
    assert!(!a.intersects(&Rect::new(p(3, 0), p(4, 2))));
    assert!(!a.intersects(&Rect::new(p(0, 3), p(2, 4))));
    assert!(!a.intersects(&Rect::new(p(-2, 0), p(-1, 2))));
    assert!(!a.intersects(&Rect::new(p(0, -2), p(2, -1))));
}

#[test]
fn bounds_hold_every_ring_point() {
    assert_eq!(square().bounds(), Some(Rect { min: p(0, 0), max: p(10, 10) }));
    let odd = LandPolygon::new(
        vec![p(1, 1), p(3, 1), p(2, 4)],
        vec![vec![p(-7, 2), p(2, 9)], vec![]],
    );
    assert_eq!(odd.bounds(), Some(Rect { min: p(-7, 1), max: p(3, 9) }));
}

#[test]
fn polygon_without_points_has_no_bounds() {
    assert_eq!(LandPolygon::new(vec![], vec![]).bounds(), None);
    assert_eq!(LandPolygon::new(vec![], vec![vec![], vec![]]).bounds(), None);
}

#[test]
fn polygon_points_are_confined_to_the_plane() {
    let far = LandPolygon::new(
        vec![Point { x: i64::MAX, y: -5 }, Point { x: 3, y: i64::MIN }],
        vec![],
    );
    assert_eq!(
        far.exterior_points(),
        &vec![Point { x: LIMIT, y: -5 }, Point { x: 3, y: -LIMIT }]
    );
    assert_eq!(
        far.bounds(),
        Some(Rect { min: Point { x: 3, y: -LIMIT }, max: Point { x: LIMIT, y: -5 } })
    );
    assert_eq!(Point { x: i64::MIN, y: 7 }.confine(), Point { x: -LIMIT, y: 7 });
}

#[test]
fn closest_point_from_inside_is_on_the_nearest_edge() {
    assert_eq!(square().closest_point(p(7, 5)), Closest::SinglePoint(p(10, 5)));
    assert_eq!(square().closest_point(p(5, 2)), Closest::SinglePoint(p(5, 0)));
}

#[test]
fn closest_point_takes_the_first_of_equally_near_edges() {
    assert_eq!(square().closest_point(p(5, 5)), Closest::SinglePoint(p(5, 0)));
}

#[test]
fn closest_point_from_outside_is_an_edge_foot_or_a_corner() {
    assert_eq!(square().closest_point(p(15, 5)), Closest::SinglePoint(p(10, 5)));
    assert_eq!(square().closest_point(p(12, 12)), Closest::SinglePoint(p(10, 10)));
    assert_eq!(square().closest_point(p(-3, -4)), Closest::SinglePoint(p(0, 0)));
}

#[test]
fn closest_point_on_the_boundary_is_an_intersection() {
    assert_eq!(square().closest_point(p(10, 3)), Closest::Intersection(p(10, 3)));
    assert_eq!(square().closest_point(p(0, 0)), Closest::Intersection(p(0, 0)));
}

#[test]
fn closest_point_may_lie_on_a_hole() {
    let q = Point { x: 5_000_000, y: 4_500_000 };
    assert_eq!(ring_with_hole().closest_point(q), Closest::SinglePoint(p(5, 4)));
}

#[test]
fn closest_point_is_indeterminate_without_an_edge() {
    assert_eq!(LandPolygon::new(vec![], vec![]).closest_point(p(1, 1)), Closest::Indeterminate);
    assert_eq!(
        LandPolygon::new(vec![p(2, 2)], vec![]).closest_point(p(1, 1)),
        Closest::Indeterminate
    );
    assert_eq!(
        LandPolygon::new(vec![p(2, 2), p(2, 2), p(2, 2)], vec![vec![p(1, 1)]])
            .closest_point(p(1, 1)),
        Closest::Indeterminate
    );
}

#[test]
fn closest_point_rounds_the_foot_to_the_grid() {
    let sliver = LandPolygon::new(vec![Point { x: 0, y: 0 }, Point { x: 3, y: 1 }], vec![]);
    assert_eq!(
        sliver.closest_point(Point { x: 1, y: 1 }),
        Closest::SinglePoint(Point { x: 1, y: 0 })
    );
}

#[test]
fn closest_point_confines_the_point_asked_about() {
    assert_eq!(
        square().closest_point(Point { x: i64::MAX, y: 5_000_000 }),
        Closest::SinglePoint(p(10, 5))
    );
}

#[test]
fn contains_is_strict_about_the_boundary() {
    assert!(square().contains(p(5, 5)));
    assert!(square().contains(Point { x: 9_999_999, y: 1 }));
    assert!(!square().contains(p(10, 5)));
    assert!(!square().contains(p(0, 0)));
    assert!(!square().contains(p(15, 5)));
    assert!(!square().contains(p(-1, 5)));
}

#[test]
fn contains_leaves_out_the_holes() {
    let land = ring_with_hole();
    assert!(land.contains(p(2, 2)));
    assert!(!land.contains(p(5, 5)));
    assert!(!land.contains(p(4, 5)));
    assert!(land.contains(p(7, 5)));
}

#[test]
fn contains_works_at_the_rim_of_the_plane() {
    let vast = LandPolygon::new(
        vec![
            Point { x: -LIMIT, y: -LIMIT },
            Point { x: LIMIT, y: -LIMIT },
            Point { x: LIMIT, y: LIMIT },
            Point { x: -LIMIT, y: LIMIT },
        ],
        vec![],
    );
    assert!(vast.contains(Point { x: LIMIT - 1, y: 1 - LIMIT }));
    assert!(!vast.contains(Point { x: i64::MAX, y: 0 }));
    assert!(!LandPolygon::new(vec![], vec![]).contains(p(0, 0)));
}

#[test]
fn scaling_grows_a_polygon_about_its_middle() {
    let grown = square().scale_xy(1_100_000, 1_100_000);
    assert_eq!(
        grown.exterior_points(),
        &vec![
            Point { x: -500_000, y: -500_000 },
            Point { x: 10_500_000, y: -500_000 },
            Point { x: 10_500_000, y: 10_500_000 },
            Point { x: -500_000, y: 10_500_000 },
        ]
    );
    assert_eq!(
        grown.bounds(),
        Some(Rect {
            min: Point { x: -500_000, y: -500_000 },
            max: Point { x: 10_500_000, y: 10_500_000 }
        })
    );
    assert!(grown.contains(Point { x: 10_200_000, y: 5_000_000 }));
    assert!(!square().contains(Point { x: 10_200_000, y: 5_000_000 }));
}

#[test]
fn scaling_treats_the_axes_apart_and_keeps_the_holes() {
    let scaled = ring_with_hole().scale_xy(2_000_000, 500_000);
    assert_eq!(scaled.exterior_points()[2], Point { x: 15_000_000, y: 7_500_000 });
    assert_eq!(scaled.interior_rings().len(), 1);
    assert_eq!(scaled.interior_rings()[0][0], Point { x: 3_000_000, y: 4_500_000 });
    let empty = LandPolygon::new(vec![], vec![vec![]]).scale_xy(3_000_000, 3_000_000);
    assert_eq!(empty.exterior_points().len(), 0);
    assert_eq!(empty.interior_rings().len(), 1);
}
