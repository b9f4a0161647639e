//! Land polygons from the shapes of a geometry file.
use crate::geometry::{confined_ring, LandPolygon, Point};
use vstd::prelude::*;

verus! {

/// One shape of a geometry file, as far as the land is concerned.
#[derive(Debug)]
pub enum Shape {
    /// A polygon: its outer ring first, then the rings of its holes.
    Polygon(Vec<Vec<Point>>),
    /// Any shape that is no polygon.
    Other,
}

/// The ring lists of the polygons among the first `n` shapes, in their order.
pub open spec fn polygon_rings_upto(shapes: Seq<Shape>, n: int) -> Seq<Seq<Vec<Point>>>
    decreases n,
{
    if n <= 0 {
        Seq::empty()
    } else {
        let rest = polygon_rings_upto(shapes, n - 1);
        match shapes[n - 1] {
            Shape::Polygon(rings) => rest.push(rings@),
            Shape::Other => rest,
        }
    }
}

/// The ring lists of the polygons among the shapes, in their order.
pub open spec fn polygon_rings(shapes: Seq<Shape>) -> Seq<Seq<Vec<Point>>> {
    polygon_rings_upto(shapes, shapes.len() as int)
}

/// Every polygon among the shapes has at least its outer ring.
pub open spec fn rings_present(shapes: Seq<Shape>) -> bool {
    forall|i: int|
        0 <= i < shapes.len() ==> match #[trigger] shapes[i] {
            Shape::Polygon(rings) => rings@.len() >= 1,
            Shape::Other => true,
        }
}

/// `poly` is the polygon of the ring list `rings`: the first ring is its
/// outer ring and the others are its holes, each point confined to the plane.
pub open spec fn made_from(poly: LandPolygon, rings: Seq<Vec<Point>>) -> bool {
    &&& rings.len() >= 1
    &&& poly.wf()
    &&& poly.exterior() == confined_ring(rings[0]@)
    &&& poly.interiors().len() == rings.len() - 1
    &&& forall|i: int|
        0 <= i < rings.len() - 1 ==> #[trigger] poly.interiors()[i] == confined_ring(
            rings[i + 1]@,
        )
}

/// A copy of a ring.
fn copy_ring(ring: &Vec<Point>) -> (r: Vec<Point>)
    ensures
        r@ == ring@,
{
    let mut out: Vec<Point> = Vec::with_capacity(ring.len());
    let mut k: usize = 0;
    while k < ring.len()
        invariant
            k <= ring.len(),
            out@ == ring@.subrange(0, k as int),
        decreases ring.len() - k,
    {
        out.push(ring[k]);
        assert(out@ =~= ring@.subrange(0, k + 1));
        k += 1;
    }
    assert(ring@.subrange(0, ring.len() as int) =~= ring@);
    out
}

impl LandPolygon {
    /// The polygon of a ring list: the first ring is the outer ring, the
    /// others are the holes.
    pub fn from_rings(rings: &Vec<Vec<Point>>) -> (r: LandPolygon)
        requires
            rings@.len() >= 1,
        ensures
            made_from(r, rings@),
    {
        let exterior: Vec<Point> = copy_ring(&rings[0]);
        let mut interiors: Vec<Vec<Point>> = Vec::with_capacity(rings.len() - 1);
        let mut i: usize = 1;
        while i < rings.len()
            invariant
                1 <= i <= rings.len(),
                interiors@.len() == i - 1,
                forall|j: int| 0 <= j < i - 1 ==> (#[trigger] interiors@[j])@ == rings@[j + 1]@,
            decreases rings.len() - i,
        {
            interiors.push(copy_ring(&rings[i]));
            i += 1;
        }
        LandPolygon::new(exterior, interiors)
    }
}

/// The land polygons among the shapes of a geometry file, in their order;
/// shapes that are no polygons are passed over.
pub fn load_land_polygons(shapes: &Vec<Shape>) -> (r: Vec<LandPolygon>)
    requires
        rings_present(shapes@),
    ensures
        r@.len() == polygon_rings(shapes@).len(),
        forall|k: int| 0 <= k < r@.len() ==> made_from(#[trigger] r@[k], polygon_rings(shapes@)[k]),
{
    let mut polygons: Vec<LandPolygon> = Vec::new();
    let mut n: usize = 0;
    while n < shapes.len()
        invariant
            n <= shapes.len(),
            rings_present(shapes@),
            polygons@.len() == polygon_rings_upto(shapes@, n as int).len(),
            forall|k: int|
                0 <= k < polygons@.len() ==> made_from(
                    #[trigger] polygons@[k],
                    polygon_rings_upto(shapes@, n as int)[k],
                ),
        decreases shapes.len() - n,
    {
        match &shapes[n] {
            Shape::Polygon(rings) => {
                polygons.push(LandPolygon::from_rings(rings));
            },
            Shape::Other => {},
        }
        n += 1;
    }
    polygons
}

} // verus!
