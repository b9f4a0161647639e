//! The point of a land polygon's boundary that lies nearest to a given point.
use crate::fixed::{divide_rounded, half_up, norm_sq, round_div, squared_length};
use crate::geometry::{precedes, pt, ring_views, LandPolygon, Point};
use vstd::prelude::*;

verus! {

/// How the nearest boundary point relates to the point asked about.
#[derive(Clone, Copy, Debug, PartialEq, Eq, Structural)]
pub enum Closest {
    /// The point asked about lies on the boundary.
    Intersection(Point),
    /// The one nearest boundary point.
    SinglePoint(Point),
    /// The polygon has no edge to measure against.
    Indeterminate,
}

/// Exact squared distance between two points, in squared raw units.
pub open spec fn dist_sq(a: Point, b: Point) -> int {
    norm_sq(a.x - b.x, a.y - b.y)
}

/// The point of the segment from `a` to `b` nearest to `p`: the foot of the
/// perpendicular where it falls between the ends, rounded to the grid, and
/// else the nearer end.
pub open spec fn nearest_on_segment(a: Point, b: Point, p: Point) -> Point {
    let dx = b.x - a.x;
    let dy = b.y - a.y;
    let den = dx * dx + dy * dy;
    let num = (p.x - a.x) * dx + (p.y - a.y) * dy;
    if num <= 0 {
        a
    } else if num >= den {
        b
    } else {
        pt(a.x + round_div(dx * num, den), a.y + round_div(dy * num, den))
    }
}

impl LandPolygon {
    /// Where edge `s` of ring `r` starts.
    pub open spec fn edge_start(self, r: int, s: int) -> Point {
        self.ring(r)[s]
    }

    /// Where edge `s` of ring `r` ends: at the next point, or at the first
    /// point for the edge that closes the ring.
    pub open spec fn edge_end(self, r: int, s: int) -> Point {
        if s + 1 < self.ring(r).len() {
            self.ring(r)[s + 1]
        } else {
            self.ring(r)[0]
        }
    }

    /// Ring `r` has an edge `s` of non-zero length.
    pub open spec fn is_edge(self, r: int, s: int) -> bool {
        self.has_vertex(r, s) && self.edge_start(r, s) != self.edge_end(r, s)
    }

    /// The point of edge `(r, s)` nearest to `p`.
    pub open spec fn edge_point(self, r: int, s: int, p: Point) -> Point {
        nearest_on_segment(self.edge_start(r, s), self.edge_end(r, s), p)
    }

    /// The squared distance from `p` to edge `(r, s)`.
    pub open spec fn edge_dist(self, r: int, s: int, p: Point) -> int {
        dist_sq(self.edge_point(r, s, p), p)
    }

    /// Edge `(r, s)` is nearest to `p`, and the first such edge when the rings
    /// are walked in order.
    pub open spec fn is_nearest_edge(self, r: int, s: int, p: Point) -> bool {
        &&& self.is_edge(r, s)
        &&& forall|r2: int, s2: int| #[trigger]
            self.is_edge(r2, s2) ==> if precedes(r2, s2, r, s) {
                self.edge_dist(r2, s2, p) > self.edge_dist(r, s, p)
            } else {
                self.edge_dist(r2, s2, p) >= self.edge_dist(r, s, p)
            }
    }

    /// The polygon has an edge of non-zero length.
    pub open spec fn has_edge(self) -> bool {
        exists|r: int, s: int| self.is_edge(r, s)
    }

    /// The first edge nearest to `p`.
    pub open spec fn nearest_edge(self, p: Point) -> (int, int) {
        choose|r: int, s: int| self.is_nearest_edge(r, s, p)
    }

    /// The boundary point nearest to `p`, with `p` confined to the plane.
    pub open spec fn closest(self, p: Point) -> Closest {
        let q = p.confined();
        if !self.has_edge() {
            Closest::Indeterminate
        } else {
            let (r, s) = self.nearest_edge(q);
            let c = self.edge_point(r, s, q);
            if c == q {
                Closest::Intersection(c)
            } else {
                Closest::SinglePoint(c)
            }
        }
    }

    /// What the walk has found before it reaches edge `(r, s)`.
    pub open spec fn nearest_so_far(
        self,
        p: Point,
        found: bool,
        best: Point,
        best_d: int,
        br: int,
        bs: int,
        r: int,
        s: int,
    ) -> bool {
        if found {
            &&& self.is_edge(br, bs)
            &&& precedes(br, bs, r, s)
            &&& best == self.edge_point(br, bs, p)
            &&& best_d == self.edge_dist(br, bs, p)
            &&& forall|r2: int, s2: int| #[trigger]
                self.is_edge(r2, s2) && precedes(r2, s2, r, s) ==> if precedes(r2, s2, br, bs) {
                    self.edge_dist(r2, s2, p) > best_d
                } else {
                    self.edge_dist(r2, s2, p) >= best_d
                }
        } else {
            forall|r2: int, s2: int| #[trigger]
                self.is_edge(r2, s2) ==> !precedes(r2, s2, r, s)
        }
    }

    /// There is at most one first nearest edge.
    pub proof fn lemma_nearest_edge_unique(self, p: Point, r1: int, s1: int, r2: int, s2: int)
        requires
            self.is_nearest_edge(r1, s1, p),
            self.is_nearest_edge(r2, s2, p),
        ensures
            r1 == r2,
            s1 == s2,
    {
        assert(self.is_edge(r1, s1));
        assert(self.is_edge(r2, s2));
    }

    /// Walks one ring and keeps the nearest edge found so far.
    fn scan_ring(
        &self,
        ring: &Vec<Point>,
        r: Ghost<int>,
        q: Point,
        state: (bool, Point, u128),
        at: Ghost<(int, int)>,
    ) -> (out: ((bool, Point, u128), Ghost<(int, int)>))
        requires
            self.wf(),
            q.in_plane(),
            0 <= r@ < self.ring_count(),
            ring@ == self.ring(r@),
            self.nearest_so_far(q, state.0, state.1, state.2 as int, at@.0, at@.1, r@, 0),
        ensures
            self.nearest_so_far(
                q,
                out.0.0,
                out.0.1,
                out.0.2 as int,
                out.1@.0,
                out.1@.1,
                r@ + 1,
                0,
            ),
    {
        let mut found: bool = state.0;
        let mut best: Point = state.1;
        let mut best_d: u128 = state.2;
        let ghost mut br: int = at@.0;
        let ghost mut bs: int = at@.1;
        let n: usize = ring.len();
        let mut s: usize = 0;
        while s < n
            invariant
                self.wf(),
                q.in_plane(),
                0 <= r@ < self.ring_count(),
                ring@ == self.ring(r@),
                n == ring.len(),
                s <= n,
                self.nearest_so_far(q, found, best, best_d as int, br, bs, r@, s as int),
            decreases n - s,
        {
            let a: Point = ring[s];
            let b: Point = if s + 1 < n {
                ring[s + 1]
            } else {
                ring[0]
            };
            proof {
                assert(self.has_vertex(r@, s as int));
                assert(self.has_vertex(r@, 0));
                if s + 1 < n {
                    assert(self.has_vertex(r@, s + 1));
                }
                assert(a == self.edge_start(r@, s as int));
                assert(b == self.edge_end(r@, s as int));
            }
            let ghost old_found = found;
            let ghost old_d = best_d as int;
            let ghost old_br = br;
            let ghost old_bs = bs;
            if a.x != b.x || a.y != b.y {
                let c: Point = nearest_point_on_segment(a, b, q);
                let d: u128 = squared_distance(c, q);
                if !found || d < best_d {
                    found = true;
                    best = c;
                    best_d = d;
                    proof {
                        br = r@;
                        bs = s as int;
                    }
                }
            }
            proof {
                let cur = s as int;
                assert forall|r2: int, s2: int| #[trigger]
                    self.is_edge(r2, s2) && precedes(r2, s2, r@, cur + 1) implies (r2 == r@ && s2
                    == cur) || precedes(r2, s2, r@, cur) by {}
                if found {
                    assert(self.is_edge(br, bs));
                    assert forall|r2: int, s2: int| #[trigger]
                        self.is_edge(r2, s2) && precedes(r2, s2, r@, cur + 1) implies if precedes(
                        r2,
                        s2,
                        br,
                        bs,
                    ) {
                        self.edge_dist(r2, s2, q) > best_d
                    } else {
                        self.edge_dist(r2, s2, q) >= best_d
                    } by {
                        if !(r2 == r@ && s2 == cur) {
                            assert(precedes(r2, s2, r@, cur));
                            assert(old_found);
                            if br == r@ && bs == cur {
                                if precedes(r2, s2, old_br, old_bs) {
                                    assert(self.edge_dist(r2, s2, q) > old_d);
                                } else {
                                    assert(self.edge_dist(r2, s2, q) >= old_d);
                                }
                            }
                        }
                    }
                } else {
                    assert forall|r2: int, s2: int| #[trigger]
                        self.is_edge(r2, s2) implies !precedes(r2, s2, r@, cur + 1) by {
                        if precedes(r2, s2, r@, cur + 1) {
                            assert(!(r2 == r@ && s2 == cur));
                        }
                    }
                }
            }
            s += 1;
        }
        proof {
            if found {
                assert forall|r2: int, s2: int| #[trigger]
                    self.is_edge(r2, s2) && precedes(r2, s2, r@ + 1, 0) implies precedes(
                    r2,
                    s2,
                    r@,
                    n as int,
                ) by {}
            } else {
                assert forall|r2: int, s2: int| #[trigger]
                    self.is_edge(r2, s2) implies !precedes(r2, s2, r@ + 1, 0) by {
                    if precedes(r2, s2, r@ + 1, 0) {
                        assert(precedes(r2, s2, r@, n as int));
                    }
                }
            }
        }
        ((found, best, best_d), Ghost((br, bs)))
    }

    /// The boundary point nearest to `p`: the foot on the first nearest edge,
    /// classed as an intersection where `p` itself lies on the boundary, and
    /// indeterminate for a polygon without an edge.
    pub fn closest_point(&self, p: Point) -> (r: Closest)
        ensures
            r == self.closest(p),
            match r {
                Closest::Indeterminate => !self.has_edge(),
                Closest::Intersection(c) => c == p.confined() && exists|e: int, s: int|
                    self.is_nearest_edge(e, s, p.confined()) && c == self.edge_point(
                        e,
                        s,
                        p.confined(),
                    ),
                Closest::SinglePoint(c) => c != p.confined() && exists|e: int, s: int|
                    self.is_nearest_edge(e, s, p.confined()) && c == self.edge_point(
                        e,
                        s,
                        p.confined(),
                    ),
            },
    {
        let q: Point = p.confine();
        let outer: &Vec<Point> = self.exterior_points();
        let holes: &Vec<Vec<Point>> = self.interior_rings();
        let mut state: (bool, Point, u128) = (false, q, 0);
        let mut at: Ghost<(int, int)> = Ghost((0, 0));
        let first = self.scan_ring(outer, Ghost(0), q, state, at);
        state = first.0;
        at = first.1;
        let mut i: usize = 0;
        while i < holes.len()
            invariant
                self.wf(),
                q.in_plane(),
                i <= holes.len(),
                ring_views(holes@) == self.interiors(),
                self.nearest_so_far(q, state.0, state.1, state.2 as int, at@.0, at@.1, 1 + i, 0),
            decreases holes.len() - i,
        {
            let ring: &Vec<Point> = &holes[i];
            assert(ring@ == self.ring(1 + i));
            let next = self.scan_ring(ring, Ghost(1 + i), q, state, at);
            state = next.0;
            at = next.1;
            i += 1;
        }
        proof {
            let (br, bs) = at@;
            if state.0 {
                assert(self.is_edge(br, bs));
                assert forall|r2: int, s2: int| #[trigger] self.is_edge(r2, s2) implies precedes(
                    r2,
                    s2,
                    self.ring_count(),
                    0,
                ) by {}
                assert(self.is_nearest_edge(br, bs, q));
                let (cr, cs) = self.nearest_edge(q);
                assert(self.is_nearest_edge(cr, cs, q));
                self.lemma_nearest_edge_unique(q, br, bs, cr, cs);
            } else {
                assert forall|r2: int, s2: int| !self.is_edge(r2, s2) by {
                    if self.is_edge(r2, s2) {
                        assert(precedes(r2, s2, self.ring_count(), 0));
                    }
                }
            }
        }
        if !state.0 {
            Closest::Indeterminate
        } else if state.1.x == q.x && state.1.y == q.y {
            Closest::Intersection(state.1)
        } else {
            Closest::SinglePoint(state.1)
        }
    }
}

/// A fraction of a step never oversteps it.
pub proof fn lemma_fraction_bound(d: int, num: int, den: int)
    requires
        0 < num < den,
    ensures
        d >= 0 ==> 0 <= round_div(d * num, den) <= d,
        d <= 0 ==> d <= round_div(d * num, den) <= 0,
{
    let m = if d >= 0 {
        d
    } else {
        -d
    };
    let n = m * num;
    assert(0 <= n && (m > 0 ==> n < m * den) && (m == 0 ==> n == 0)) by (nonlinear_arith)
        requires
            m >= 0,
            0 < num < den,
            n == m * num,
    ;
    assert(0 <= n / den && n / den * den <= n && (n < m * den ==> n / den < m) && (n == 0 ==> n
        / den == 0 && n % den == 0)) by (nonlinear_arith)
        requires
            n >= 0,
            den > 0,
            m >= 0,
    ;
    assert(0 <= half_up(n, den) <= m);
    assert(d * num == if d >= 0 {
        n
    } else {
        -n
    }) by (nonlinear_arith)
        requires
            n == m * num,
            m == if d >= 0 {
                d
            } else {
                -d
            },
    ;
}

/// Exact squared distance between two points of the plane.
fn squared_distance(a: Point, b: Point) -> (r: u128)
    requires
        a.in_plane(),
        b.in_plane(),
    ensures
        r == dist_sq(a, b),
{
    squared_length(a.x - b.x, a.y - b.y)
}

/// The point of the segment from `a` to `b` that lies nearest to `p`.
fn nearest_point_on_segment(a: Point, b: Point, p: Point) -> (r: Point)
    requires
        a.in_plane(),
        b.in_plane(),
        p.in_plane(),
    ensures
        r == nearest_on_segment(a, b, p),
        r.in_plane(),
{
    let dx: i128 = b.x as i128 - a.x as i128;
    let dy: i128 = b.y as i128 - a.y as i128;
    let px: i128 = p.x as i128 - a.x as i128;
    let py: i128 = p.y as i128 - a.y as i128;
    proof {
        lemma_product_bound(dx as int, dx as int, 2_000_000_000_000, 2_000_000_000_000);
        lemma_product_bound(dy as int, dy as int, 2_000_000_000_000, 2_000_000_000_000);
        lemma_product_bound(px as int, dx as int, 2_000_000_000_000, 2_000_000_000_000);
        lemma_product_bound(py as int, dy as int, 2_000_000_000_000, 2_000_000_000_000);
    }
    let den: i128 = dx * dx + dy * dy;
    let num: i128 = px * dx + py * dy;
    if num <= 0 {
        return a;
    }
    if num >= den {
        return b;
    }
    proof {
        lemma_product_bound(
            dx as int,
            num as int,
            2_000_000_000_000,
            8_000_000_000_000_000_000_000_000,
        );
        lemma_product_bound(
            dy as int,
            num as int,
            2_000_000_000_000,
            8_000_000_000_000_000_000_000_000,
        );
        lemma_fraction_bound(dx as int, num as int, den as int);
        lemma_fraction_bound(dy as int, num as int, den as int);
    }
    let ox: i128 = divide_rounded(dx * num, den);
    let oy: i128 = divide_rounded(dy * num, den);
    Point { x: (a.x as i128 + ox) as i64, y: (a.y as i128 + oy) as i64 }
}

/// The product of two bounded numbers is bounded by the product of the bounds.
pub proof fn lemma_product_bound(x: int, y: int, bx: int, by: int)
    requires
        -bx <= x <= bx,
        -by <= y <= by,
    ensures
        -(bx * by) <= x * y <= bx * by,
{
    assert(-(bx * by) <= x * y <= bx * by) by (nonlinear_arith)
        requires
            -bx <= x <= bx,
            -by <= y <= by,
    ;
}

} // verus!
