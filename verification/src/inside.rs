//! Whether a point lies inside a land polygon, and polygons grown about their
//! middle. The inside test is the one of the `geo` crate, on whole numbers.
use crate::fixed::{diff, divide, fx_add, fx_mul, fx_sub, mean, prod, saturate, sum};
use crate::geometry::{
    confined_ring, pt, ring_in_plane, ring_views, LandPolygon, Point, Rect,
};
use vstd::prelude::*;

verus! {

/// What `geo` answers when asked whether the polygon with the outer ring
/// `exterior` and the holes `interiors` contains the point `p`: whether `p`
/// lies strictly inside the outer ring and strictly outside every hole.
pub uninterp spec fn interior_holds(
    exterior: Seq<Point>,
    interiors: Seq<Seq<Point>>,
    p: Point,
) -> bool;

/// Calls `geo::Contains::contains` on a `geo::Polygon<i128>` built from the
/// given rings and on the point `p`. The answer depends on the rings and the
/// point alone; with coordinates in range none of the products that `geo`
/// forms can overflow.
#[verifier::external_body]
fn polygon_contains(exterior: &Vec<Point>, interiors: &Vec<Vec<Point>>, p: Point) -> (r: bool)
    requires
        ring_in_plane(exterior@),
        forall|i: int| 0 <= i < interiors@.len() ==> ring_in_plane(#[trigger] interiors@[i]@),
        p.in_plane(),
    ensures
        r == interior_holds(exterior@, ring_views(interiors@), p),
{
    let ring = |v: &Vec<Point>|
        geo::LineString::from(
            v.iter().map(|q| (q.x as i128, q.y as i128)).collect::<Vec<(i128, i128)>>(),
        );
    let poly = geo::Polygon::new(ring(exterior), interiors.iter().map(ring).collect());
    geo::Contains::contains(&poly, &geo::Point::new(p.x as i128, p.y as i128))
}

/// The middle of a rectangle.
pub open spec fn center_of(b: Rect) -> Point {
    pt(mean(b.max.x + b.min.x, 2), mean(b.max.y + b.min.y, 2))
}

/// The point `v` moved away from `c` by the factors `fx` and `fy`.
pub open spec fn scaled_point(v: Point, c: Point, fx: int, fy: int) -> Point {
    pt(
        sum(c.x as int, prod(diff(v.x as int, c.x as int), fx)),
        sum(c.y as int, prod(diff(v.y as int, c.y as int), fy)),
    )
}

/// Each point of `ring` moved away from `c` by the factors `fx` and `fy`.
pub open spec fn scaled_ring(ring: Seq<Point>, c: Point, fx: int, fy: int) -> Seq<Point> {
    Seq::new(ring.len(), |k: int| scaled_point(ring[k], c, fx, fy))
}

/// A ring whose points lie in the plane is its own confinement.
pub proof fn lemma_confined_in_plane(ring: Seq<Point>)
    requires
        ring_in_plane(ring),
    ensures
        confined_ring(ring) == ring,
{
    assert forall|k: int| 0 <= k < ring.len() implies #[trigger] confined_ring(ring)[k]
        == ring[k] by {
        assert(ring[k].in_plane());
    }
    assert(confined_ring(ring) =~= ring);
}

/// Scales one ring about the point `c`.
fn scale_ring(ring: &Vec<Point>, c: Point, fx: i64, fy: i64) -> (r: Vec<Point>)
    ensures
        r@ == scaled_ring(ring@, c, fx as int, fy as int),
        ring_in_plane(r@),
{
    let mut out: Vec<Point> = Vec::with_capacity(ring.len());
    let mut k: usize = 0;
    while k < ring.len()
        invariant
            k <= ring.len(),
            out@.len() == k,
            forall|j: int|
                0 <= j < k ==> #[trigger] out@[j] == scaled_point(
                    ring@[j],
                    c,
                    fx as int,
                    fy as int,
                ),
            forall|j: int| 0 <= j < k ==> (#[trigger] out@[j]).in_plane(),
        decreases ring.len() - k,
    {
        let v: Point = ring[k];
        let x: i64 = fx_add(c.x, fx_mul(fx_sub(v.x, c.x), fx));
        let y: i64 = fx_add(c.y, fx_mul(fx_sub(v.y, c.y), fy));
        out.push(Point { x, y });
        k += 1;
    }
    assert(out@ =~= scaled_ring(ring@, c, fx as int, fy as int));
    out
}

impl LandPolygon {
    /// Whether `p`, confined to the plane, lies inside the polygon.
    pub open spec fn holds(self, p: Point) -> bool {
        interior_holds(self.exterior(), self.interiors(), p.confined())
    }

    /// The point about which the polygon is scaled: the middle of its
    /// bounding rectangle.
    pub open spec fn middle(self) -> Point {
        match self.bounding() {
            Some(b) => center_of(b),
            None => pt(0, 0),
        }
    }

    /// Whether `p` lies strictly inside the polygon: inside its outer ring
    /// and in none of its holes.
    pub fn contains(&self, p: Point) -> (r: bool)
        ensures
            r == self.holds(p),
    {
        let outer: &Vec<Point> = self.exterior_points();
        let holes: &Vec<Vec<Point>> = self.interior_rings();
        proof {
            assert forall|k: int| 0 <= k < outer@.len() implies (#[trigger] outer@[k]).in_plane() by {
                assert(self.has_vertex(0, k));
            }
            assert forall|i: int| 0 <= i < holes@.len() implies ring_in_plane(
                #[trigger] holes@[i]@,
            ) by {
                assert forall|k: int| 0 <= k < holes@[i]@.len() implies (#[trigger] holes@[i]@[k]).in_plane() by {
                    assert(self.has_vertex(1 + i, k));
                    assert(self.ring(1 + i) == holes@[i]@);
                }
            }
        }
        polygon_contains(outer, holes, p.confine())
    }

    /// The polygon with every point moved away from the middle of the
    /// bounding rectangle by the factors `fx` and `fy`.
    pub fn scale_xy(&self, fx: i64, fy: i64) -> (r: LandPolygon)
        ensures
            r.wf(),
            r.exterior() == scaled_ring(self.exterior(), self.middle(), fx as int, fy as int),
            r.interiors().len() == self.interiors().len(),
            forall|i: int|
                0 <= i < self.interiors().len() ==> #[trigger] r.interiors()[i] == scaled_ring(
                    self.interiors()[i],
                    self.middle(),
                    fx as int,
                    fy as int,
                ),
    {
        let c: Point = match self.bounds() {
            Some(b) => Point {
                x: fx_mean_of(b.max.x, b.min.x),
                y: fx_mean_of(b.max.y, b.min.y),
            },
            None => Point { x: 0, y: 0 },
        };
        let outer: &Vec<Point> = self.exterior_points();
        let holes: &Vec<Vec<Point>> = self.interior_rings();
        let ext: Vec<Point> = scale_ring(outer, c, fx, fy);
        let mut rings: Vec<Vec<Point>> = Vec::with_capacity(holes.len());
        let mut i: usize = 0;
        while i < holes.len()
            invariant
                i <= holes.len(),
                rings@.len() == i,
                forall|j: int|
                    0 <= j < i ==> (#[trigger] rings@[j])@ == scaled_ring(
                        holes@[j]@,
                        c,
                        fx as int,
                        fy as int,
                    ),
                forall|j: int| 0 <= j < i ==> ring_in_plane((#[trigger] rings@[j])@),
            decreases holes.len() - i,
        {
            rings.push(scale_ring(&holes[i], c, fx, fy));
            i += 1;
        }
        proof {
            lemma_confined_in_plane(ext@);
            assert forall|j: int| 0 <= j < rings@.len() implies confined_ring(
                #[trigger] rings@[j]@,
            ) == rings@[j]@ by {
                lemma_confined_in_plane(rings@[j]@);
            }
            assert forall|j: int| 0 <= j < holes@.len() implies #[trigger] self.interiors()[j]
                == holes@[j]@ by {}
        }
        LandPolygon::new(ext, rings)
    }
}

/// The mean of two coordinates.
fn fx_mean_of(a: i64, b: i64) -> (r: i64)
    ensures
        r == mean(a + b, 2),
{
    let total: i128 = a as i128 + b as i128;
    saturate(divide(total, 2))
}

} // verus!
