//! Points, rectangles and land polygons of the plane.
use crate::fixed::{in_range, sat, saturate};
use vstd::prelude::*;

verus! {

/// A point of the plane, or a vector between two points.
#[derive(Clone, Copy, Debug, PartialEq, Eq, Structural)]
pub struct Point {
    pub x: i64,
    pub y: i64,
}

/// The point with the coordinates `x` and `y`.
pub open spec fn pt(x: int, y: int) -> Point {
    Point { x: x as i64, y: y as i64 }
}

impl Point {
    /// Both coordinates are values that the arithmetic can return.
    pub open spec fn in_plane(self) -> bool {
        in_range(self.x as int) && in_range(self.y as int)
    }

    /// The nearest point whose coordinates are in range.
    pub open spec fn confined(self) -> Point {
        pt(sat(self.x as int), sat(self.y as int))
    }

    /// The point with the coordinates `x` and `y`.
    pub fn new(x: i64, y: i64) -> (r: Point)
        ensures
            r == (Point { x, y }),
    {
        Point { x, y }
    }

    /// Brings both coordinates into range.
    pub fn confine(self) -> (r: Point)
        ensures
            r == self.confined(),
            r.in_plane(),
    {
        Point { x: saturate(self.x as i128), y: saturate(self.y as i128) }
    }
}

/// An axis-aligned rectangle, given by its least and its greatest corner.
#[derive(Clone, Copy, Debug, PartialEq, Eq, Structural)]
pub struct Rect {
    pub min: Point,
    pub max: Point,
}

impl Rect {
    /// The rectangle spanned by two opposite corners, in either order.
    pub open spec fn spanning(c1: Point, c2: Point) -> Rect {
        Rect {
            min: Point {
                x: if c1.x < c2.x {
                    c1.x
                } else {
                    c2.x
                },
                y: if c1.y < c2.y {
                    c1.y
                } else {
                    c2.y
                },
            },
            max: Point {
                x: if c1.x < c2.x {
                    c2.x
                } else {
                    c1.x
                },
                y: if c1.y < c2.y {
                    c2.y
                } else {
                    c1.y
                },
            },
        }
    }

    /// The point `p` lies in the rectangle, its edges included.
    pub open spec fn covers(self, p: Point) -> bool {
        self.min.x <= p.x <= self.max.x && self.min.y <= p.y <= self.max.y
    }

    /// The two rectangles share at least one point.
    pub open spec fn overlaps(self, other: Rect) -> bool {
        &&& self.max.x >= other.min.x
        &&& self.max.y >= other.min.y
        &&& self.min.x <= other.max.x
        &&& self.min.y <= other.max.y
    }

    /// The rectangle with the opposite corners `c1` and `c2`.
    pub fn new(c1: Point, c2: Point) -> (r: Rect)
        ensures
            r == Rect::spanning(c1, c2),
            r.min.x <= r.max.x,
            r.min.y <= r.max.y,
    {
        let (min_x, max_x): (i64, i64) = if c1.x < c2.x {
            (c1.x, c2.x)
        } else {
            (c2.x, c1.x)
        };
        let (min_y, max_y): (i64, i64) = if c1.y < c2.y {
            (c1.y, c2.y)
        } else {
            (c2.y, c1.y)
        };
        Rect { min: Point { x: min_x, y: min_y }, max: Point { x: max_x, y: max_y } }
    }

    /// Whether the two rectangles share at least one point.
    pub fn intersects(&self, other: &Rect) -> (r: bool)
        ensures
            r == self.overlaps(*other),
    {
        if self.max.x < other.min.x {
            return false;
        }
        if self.max.y < other.min.y {
            return false;
        }
        if self.min.x > other.max.x {
            return false;
        }
        if self.min.y > other.max.y {
            return false;
        }
        true
    }

    /// The least rectangle that holds this one and the point `p`.
    pub fn extended(self, p: Point) -> (r: Rect)
        ensures
            r.min.x == if p.x < self.min.x {
                p.x
            } else {
                self.min.x
            },
            r.min.y == if p.y < self.min.y {
                p.y
            } else {
                self.min.y
            },
            r.max.x == if p.x > self.max.x {
                p.x
            } else {
                self.max.x
            },
            r.max.y == if p.y > self.max.y {
                p.y
            } else {
                self.max.y
            },
    {
        Rect {
            min: Point {
                x: if p.x < self.min.x {
                    p.x
                } else {
                    self.min.x
                },
                y: if p.y < self.min.y {
                    p.y
                } else {
                    self.min.y
                },
            },
            max: Point {
                x: if p.x > self.max.x {
                    p.x
                } else {
                    self.max.x
                },
                y: if p.y > self.max.y {
                    p.y
                } else {
                    self.max.y
                },
            },
        }
    }
}

/// Each point of `ring`, confined to the plane.
pub open spec fn confined_ring(ring: Seq<Point>) -> Seq<Point> {
    Seq::new(ring.len(), |k: int| ring[k].confined())
}

/// Every point of `ring` has its coordinates in range.
pub open spec fn ring_in_plane(ring: Seq<Point>) -> bool {
    forall|k: int| 0 <= k < ring.len() ==> (#[trigger] ring[k]).in_plane()
}

/// The point sequences of a list of rings.
pub open spec fn ring_views(rings: Seq<Vec<Point>>) -> Seq<Seq<Point>> {
    Seq::new(rings.len(), |i: int| rings[i]@)
}

/// Copies a ring, confining each point to the plane.
pub fn confine_ring(ring: &Vec<Point>) -> (r: Vec<Point>)
    ensures
        r@ == confined_ring(ring@),
        ring_in_plane(r@),
{
    let mut out: Vec<Point> = Vec::with_capacity(ring.len());
    let mut k: usize = 0;
    while k < ring.len()
        invariant
            k <= ring.len(),
            out@.len() == k,
            forall|j: int| 0 <= j < k ==> out@[j] == (#[trigger] ring@[j]).confined(),
            forall|j: int| 0 <= j < k ==> (#[trigger] out@[j]).in_plane(),
        decreases ring.len() - k,
    {
        out.push(ring[k].confine());
        k += 1;
    }
    assert(out@ =~= confined_ring(ring@));
    out
}

/// A landmass: an outer ring and the rings of its holes, with the least
/// rectangle that holds all their points. Each ring is closed: its last point
/// is joined to its first.
pub struct LandPolygon {
    exterior: Vec<Point>,
    interiors: Vec<Vec<Point>>,
    bounds: Option<Rect>,
}

impl LandPolygon {
    /// The points of the outer ring.
    pub closed spec fn exterior(self) -> Seq<Point> {
        self.exterior@
    }

    /// The points of each hole.
    pub closed spec fn interiors(self) -> Seq<Seq<Point>> {
        ring_views(self.interiors@)
    }

    /// The cached bounding rectangle; `None` for a polygon without points.
    pub closed spec fn bounding(self) -> Option<Rect> {
        self.bounds
    }

    /// The number of rings, the outer one included.
    pub open spec fn ring_count(self) -> int {
        1 + self.interiors().len() as int
    }

    /// Ring `r`: the outer ring for 0, then the holes in order.
    pub open spec fn ring(self, r: int) -> Seq<Point> {
        ring_at(self.exterior(), self.interiors(), r)
    }

    /// Ring `r` has a point `k`.
    pub open spec fn has_vertex(self, r: int, k: int) -> bool {
        has_point(self.exterior(), self.interiors(), r, k)
    }

    /// What holds of every land polygon: its points lie in the plane, and its
    /// cached rectangle is the least one around the points of all its rings.
    pub open spec fn wf(self) -> bool {
        &&& forall|r: int, k: int| #[trigger]
            self.has_vertex(r, k) ==> self.ring(r)[k].in_plane()
        &&& bounds_so_far(
            self.exterior(),
            self.interiors(),
            self.bounding(),
            self.ring_count(),
            0,
        )
    }

    #[verifier::type_invariant]
    spec fn inv(self) -> bool {
        self.wf()
    }

    /// The cached rectangle holds every point of every ring, and a polygon
    /// without one has no points.
    pub proof fn lemma_bounds_cover(self, r: int, k: int)
        requires
            self.wf(),
            self.has_vertex(r, k),
        ensures
            self.bounding().is_some(),
            self.bounding().unwrap().covers(self.ring(r)[k]),
    {
        assert(precedes(r, k, self.ring_count(), 0));
    }

    /// The polygon with the outer ring `exterior` and the holes `interiors`,
    /// each point confined to the plane.
    pub fn new(exterior: Vec<Point>, interiors: Vec<Vec<Point>>) -> (r: LandPolygon)
        ensures
            r.wf(),
            r.exterior() == confined_ring(exterior@),
            r.interiors().len() == interiors@.len(),
            forall|i: int|
                0 <= i < interiors@.len() ==> #[trigger] r.interiors()[i] == confined_ring(
                    interiors@[i]@,
                ),
    {
        let ext: Vec<Point> = confine_ring(&exterior);
        let mut holes: Vec<Vec<Point>> = Vec::with_capacity(interiors.len());
        let mut i: usize = 0;
        while i < interiors.len()
            invariant
                i <= interiors.len(),
                holes@.len() == i,
                forall|j: int|
                    0 <= j < i ==> (#[trigger] holes@[j])@ == confined_ring(interiors@[j]@),
                forall|j: int| 0 <= j < i ==> ring_in_plane((#[trigger] holes@[j])@),
            decreases interiors.len() - i,
        {
            holes.push(confine_ring(&interiors[i]));
            i += 1;
        }
        let bounds: Option<Rect> = bounds_of(&ext, &holes);
        proof {
            assert forall|rr: int, k: int| #[trigger]
                has_point(ext@, ring_views(holes@), rr, k) implies ring_at(
                ext@,
                ring_views(holes@),
                rr,
            )[k].in_plane() by {
                if rr > 0 {
                    assert(ring_in_plane(holes@[rr - 1]@));
                }
            }
        }
        LandPolygon { exterior: ext, interiors: holes, bounds }
    }

    /// The outer ring.
    pub fn exterior_points(&self) -> (r: &Vec<Point>)
        ensures
            r@ == self.exterior(),
            self.wf(),
    {
        proof {
            use_type_invariant(self);
        }
        &self.exterior
    }

    /// The rings of the holes.
    pub fn interior_rings(&self) -> (r: &Vec<Vec<Point>>)
        ensures
            ring_views(r@) == self.interiors(),
            self.wf(),
    {
        proof {
            use_type_invariant(self);
        }
        &self.interiors
    }

    /// The cached bounding rectangle.
    pub fn bounds(&self) -> (r: Option<Rect>)
        ensures
            r == self.bounding(),
            self.wf(),
    {
        proof {
            use_type_invariant(self);
        }
        self.bounds
    }
}

/// Ring `r` of the rings `exterior`, `interiors[0]`, `interiors[1]`, ...
pub open spec fn ring_at(exterior: Seq<Point>, interiors: Seq<Seq<Point>>, r: int) -> Seq<Point> {
    if r == 0 {
        exterior
    } else {
        interiors[r - 1]
    }
}

/// Ring `r` exists and has a point `k`.
pub open spec fn has_point(
    exterior: Seq<Point>,
    interiors: Seq<Seq<Point>>,
    r: int,
    k: int,
) -> bool {
    0 <= r < 1 + interiors.len() && 0 <= k < ring_at(exterior, interiors, r).len()
}

/// Point `k` of ring `r`.
pub open spec fn point_at(
    exterior: Seq<Point>,
    interiors: Seq<Seq<Point>>,
    r: int,
    k: int,
) -> Point {
    ring_at(exterior, interiors, r)[k]
}

/// `(r1, k1)` comes before `(r2, k2)` when rings are walked in order.
pub open spec fn precedes(r1: int, k1: int, r2: int, k2: int) -> bool {
    r1 < r2 || (r1 == r2 && k1 < k2)
}

/// `b` is the least rectangle around the points that come before `(r, k)`.
pub open spec fn bounds_so_far(
    exterior: Seq<Point>,
    interiors: Seq<Seq<Point>>,
    b: Option<Rect>,
    r: int,
    k: int,
) -> bool {
    match b {
        None => forall|r2: int, k2: int|
            precedes(r2, k2, r, k) ==> !#[trigger] has_point(exterior, interiors, r2, k2),
        Some(b) => {
            &&& forall|r2: int, k2: int|
                #![trigger has_point(exterior, interiors, r2, k2)]
                has_point(exterior, interiors, r2, k2) && precedes(r2, k2, r, k) ==> b.covers(
                    point_at(exterior, interiors, r2, k2),
                )
            &&& exists|r2: int, k2: int|
                #![trigger has_point(exterior, interiors, r2, k2)]
                has_point(exterior, interiors, r2, k2) && precedes(r2, k2, r, k) && point_at(
                    exterior,
                    interiors,
                    r2,
                    k2,
                ).x == b.min.x
            &&& exists|r2: int, k2: int|
                #![trigger has_point(exterior, interiors, r2, k2)]
                has_point(exterior, interiors, r2, k2) && precedes(r2, k2, r, k) && point_at(
                    exterior,
                    interiors,
                    r2,
                    k2,
                ).y == b.min.y
            &&& exists|r2: int, k2: int|
                #![trigger has_point(exterior, interiors, r2, k2)]
                has_point(exterior, interiors, r2, k2) && precedes(r2, k2, r, k) && point_at(
                    exterior,
                    interiors,
                    r2,
                    k2,
                ).x == b.max.x
            &&& exists|r2: int, k2: int|
                #![trigger has_point(exterior, interiors, r2, k2)]
                has_point(exterior, interiors, r2, k2) && precedes(r2, k2, r, k) && point_at(
                    exterior,
                    interiors,
                    r2,
                    k2,
                ).y == b.max.y
        },
    }
}

/// Takes one more point into a running bounding rectangle.
fn include_point(acc: Option<Rect>, p: Point) -> (r: Option<Rect>)
    ensures
        r.is_some(),
        acc.is_none() ==> r == Some(Rect { min: p, max: p }),
        acc.is_some() ==> {
            let a = acc.unwrap();
            let b = r.unwrap();
            &&& b.min.x == if p.x < a.min.x {
                p.x
            } else {
                a.min.x
            }
            &&& b.min.y == if p.y < a.min.y {
                p.y
            } else {
                a.min.y
            }
            &&& b.max.x == if p.x > a.max.x {
                p.x
            } else {
                a.max.x
            }
            &&& b.max.y == if p.y > a.max.y {
                p.y
            } else {
                a.max.y
            }
        },
{
    match acc {
        None => Some(Rect { min: p, max: p }),
        Some(a) => Some(a.extended(p)),
    }
}

/// One step of the walk: the bounds stay least when the point at `(r, k)` is taken in.
proof fn lemma_bounds_step(
    exterior: Seq<Point>,
    interiors: Seq<Seq<Point>>,
    acc: Option<Rect>,
    next: Option<Rect>,
    r: int,
    k: int,
)
    requires
        has_point(exterior, interiors, r, k),
        bounds_so_far(exterior, interiors, acc, r, k),
        next.is_some(),
        acc.is_none() ==> next == Some(
            Rect { min: point_at(exterior, interiors, r, k), max: point_at(exterior, interiors, r, k) },
        ),
        acc.is_some() ==> {
            let a = acc.unwrap();
            let b = next.unwrap();
            let p = point_at(exterior, interiors, r, k);
            &&& b.min.x == if p.x < a.min.x {
                p.x
            } else {
                a.min.x
            }
            &&& b.min.y == if p.y < a.min.y {
                p.y
            } else {
                a.min.y
            }
            &&& b.max.x == if p.x > a.max.x {
                p.x
            } else {
                a.max.x
            }
            &&& b.max.y == if p.y > a.max.y {
                p.y
            } else {
                a.max.y
            }
        },
    ensures
        bounds_so_far(exterior, interiors, next, r, k + 1),
{
    let p = point_at(exterior, interiors, r, k);
    let b = next.unwrap();
    assert(precedes(r, k, r, k + 1));
    assert forall|r2: int, k2: int|
        #![trigger has_point(exterior, interiors, r2, k2)]
        has_point(exterior, interiors, r2, k2) && precedes(r2, k2, r, k + 1) implies b.covers(
        point_at(exterior, interiors, r2, k2),
    ) by {
        if !(r2 == r && k2 == k) {
            assert(precedes(r2, k2, r, k));
        }
    }
    match acc {
        None => {
            assert(has_point(exterior, interiors, r, k) && precedes(r, k, r, k + 1));
        },
        Some(a) => {
            let (xr, xk) = choose|r2: int, k2: int|
                #![trigger has_point(exterior, interiors, r2, k2)]
                has_point(exterior, interiors, r2, k2) && precedes(r2, k2, r, k) && point_at(
                    exterior,
                    interiors,
                    r2,
                    k2,
                ).x == a.min.x;
            let (wr, wk) = if p.x < a.min.x {
                (r, k)
            } else {
                (xr, xk)
            };
            assert(has_point(exterior, interiors, wr, wk) && precedes(wr, wk, r, k + 1)
                && point_at(exterior, interiors, wr, wk).x == b.min.x);
            let (yr, yk) = choose|r2: int, k2: int|
                #![trigger has_point(exterior, interiors, r2, k2)]
                has_point(exterior, interiors, r2, k2) && precedes(r2, k2, r, k) && point_at(
                    exterior,
                    interiors,
                    r2,
                    k2,
                ).y == a.min.y;
            let (vr, vk) = if p.y < a.min.y {
                (r, k)
            } else {
                (yr, yk)
            };
            assert(has_point(exterior, interiors, vr, vk) && precedes(vr, vk, r, k + 1)
                && point_at(exterior, interiors, vr, vk).y == b.min.y);
            let (xr2, xk2) = choose|r2: int, k2: int|
                #![trigger has_point(exterior, interiors, r2, k2)]
                has_point(exterior, interiors, r2, k2) && precedes(r2, k2, r, k) && point_at(
                    exterior,
                    interiors,
                    r2,
                    k2,
                ).x == a.max.x;
            let (wr2, wk2) = if p.x > a.max.x {
                (r, k)
            } else {
                (xr2, xk2)
            };
            assert(has_point(exterior, interiors, wr2, wk2) && precedes(wr2, wk2, r, k + 1)
                && point_at(exterior, interiors, wr2, wk2).x == b.max.x);
            let (yr2, yk2) = choose|r2: int, k2: int|
                #![trigger has_point(exterior, interiors, r2, k2)]
                has_point(exterior, interiors, r2, k2) && precedes(r2, k2, r, k) && point_at(
                    exterior,
                    interiors,
                    r2,
                    k2,
                ).y == a.max.y;
            let (vr2, vk2) = if p.y > a.max.y {
                (r, k)
            } else {
                (yr2, yk2)
            };
            assert(has_point(exterior, interiors, vr2, vk2) && precedes(vr2, vk2, r, k + 1)
                && point_at(exterior, interiors, vr2, vk2).y == b.max.y);
        },
    }
}

/// Walking on to the next ring keeps what was found.
proof fn lemma_bounds_next_ring(
    exterior: Seq<Point>,
    interiors: Seq<Seq<Point>>,
    acc: Option<Rect>,
    r: int,
)
    requires
        0 <= r < 1 + interiors.len(),
        bounds_so_far(exterior, interiors, acc, r, ring_at(exterior, interiors, r).len() as int),
    ensures
        bounds_so_far(exterior, interiors, acc, r + 1, 0),
{
    let n = ring_at(exterior, interiors, r).len() as int;
    assert forall|r2: int, k2: int|
        has_point(exterior, interiors, r2, k2) && precedes(r2, k2, r + 1, 0) implies precedes(
        r2,
        k2,
        r,
        n,
    ) by {}
    match acc {
        None => {
            assert forall|r2: int, k2: int| precedes(r2, k2, r + 1, 0) implies !#[trigger] has_point(
                exterior,
                interiors,
                r2,
                k2,
            ) by {
                if has_point(exterior, interiors, r2, k2) {
                    assert(precedes(r2, k2, r, n));
                }
            }
        },
        Some(b) => {
            let (xr, xk) = choose|r2: int, k2: int|
                #![trigger has_point(exterior, interiors, r2, k2)]
                has_point(exterior, interiors, r2, k2) && precedes(r2, k2, r, n) && point_at(
                    exterior,
                    interiors,
                    r2,
                    k2,
                ).x == b.min.x;
            assert(has_point(exterior, interiors, xr, xk) && precedes(xr, xk, r + 1, 0)
                && point_at(exterior, interiors, xr, xk).x == b.min.x);
            let (yr, yk) = choose|r2: int, k2: int|
                #![trigger has_point(exterior, interiors, r2, k2)]
                has_point(exterior, interiors, r2, k2) && precedes(r2, k2, r, n) && point_at(
                    exterior,
                    interiors,
                    r2,
                    k2,
                ).y == b.min.y;
            assert(has_point(exterior, interiors, yr, yk) && precedes(yr, yk, r + 1, 0)
                && point_at(exterior, interiors, yr, yk).y == b.min.y);
            let (xr2, xk2) = choose|r2: int, k2: int|
                #![trigger has_point(exterior, interiors, r2, k2)]
                has_point(exterior, interiors, r2, k2) && precedes(r2, k2, r, n) && point_at(
                    exterior,
                    interiors,
                    r2,
                    k2,
                ).x == b.max.x;
            assert(has_point(exterior, interiors, xr2, xk2) && precedes(xr2, xk2, r + 1, 0)
                && point_at(exterior, interiors, xr2, xk2).x == b.max.x);
            let (yr2, yk2) = choose|r2: int, k2: int|
                #![trigger has_point(exterior, interiors, r2, k2)]
                has_point(exterior, interiors, r2, k2) && precedes(r2, k2, r, n) && point_at(
                    exterior,
                    interiors,
                    r2,
                    k2,
                ).y == b.max.y;
            assert(has_point(exterior, interiors, yr2, yk2) && precedes(yr2, yk2, r + 1, 0)
                && point_at(exterior, interiors, yr2, yk2).y == b.max.y);
        },
    }
}

/// The least rectangle around all points of the given rings.
fn bounds_of(exterior: &Vec<Point>, interiors: &Vec<Vec<Point>>) -> (b: Option<Rect>)
    ensures
        bounds_so_far(
            exterior@,
            ring_views(interiors@),
            b,
            1 + interiors@.len() as int,
            0,
        ),
{
    let ghost ext = exterior@;
    let ghost ints = ring_views(interiors@);
    let mut acc: Option<Rect> = None;
    let mut k: usize = 0;
    while k < exterior.len()
        invariant
            k <= exterior.len(),
            ext == exterior@,
            ints == ring_views(interiors@),
            bounds_so_far(ext, ints, acc, 0, k as int),
        decreases exterior.len() - k,
    {
        let next: Option<Rect> = include_point(acc, exterior[k]);
        proof {
            lemma_bounds_step(ext, ints, acc, next, 0, k as int);
        }
        acc = next;
        k += 1;
    }
    proof {
        lemma_bounds_next_ring(ext, ints, acc, 0);
    }
    let mut i: usize = 0;
    while i < interiors.len()
        invariant
            i <= interiors.len(),
            ext == exterior@,
            ints == ring_views(interiors@),
            bounds_so_far(ext, ints, acc, 1 + i as int, 0),
        decreases interiors.len() - i,
    {
        let ring: &Vec<Point> = &interiors[i];
        let mut j: usize = 0;
        while j < ring.len()
            invariant
                i < interiors.len(),
                j <= ring.len(),
                ring@ == interiors@[i as int]@,
                ext == exterior@,
                ints == ring_views(interiors@),
                bounds_so_far(ext, ints, acc, 1 + i as int, j as int),
            decreases ring.len() - j,
        {
            let next: Option<Rect> = include_point(acc, ring[j]);
            proof {
                assert(ring_at(ext, ints, 1 + i as int) == ring@);
                lemma_bounds_step(ext, ints, acc, next, 1 + i as int, j as int);
            }
            acc = next;
            j += 1;
        }
        proof {
            assert(ring_at(ext, ints, 1 + i as int) == ring@);
            lemma_bounds_next_ring(ext, ints, acc, 1 + i as int);
        }
        i += 1;
    }
    acc
}

} // verus!
