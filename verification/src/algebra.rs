//! Combinatorial scaffolding for set operations on boundary regions.
//!
//! These types carry the bookkeeping a boolean-algebra layer needs when it
//! splits regions against each other: loops of segments, polygons described
//! as cyclic lists of bounding lines, and the records of how cells are cut.
//! They are index-based, like the edge graph of `Region2D`: no coordinates
//! are stored, only references into the owning arrays.

use vstd::prelude::*;

verus! {

/// A closed loop of segments, each segment a pair of point indices.
pub struct Loop {
    pub segments: Vec<(usize, usize)>,
}

impl Loop {
    /// The loop's segments as point-index pairs, in order.
    pub fn edges(&self) -> (r: Vec<(usize, usize)>)
        ensures
            r@ == self.segments@,
    {
        let n = self.segments.len();
        let mut r: Vec<(usize, usize)> = Vec::new();
        let mut i: usize = 0;
        while i < n
            invariant
                n == self.segments@.len(),
                0 <= i <= n,
                r@ == self.segments@.take(i as int),
            decreases n - i,
        {
            r.push(self.segments[i]);
            proof {
                assert(r@ =~= self.segments@.take(i + 1));
            }
            i += 1;
        }
        proof {
            assert(self.segments@.take(n as int) =~= self.segments@);
        }
        r
    }
}

/// The index after `i` in a cyclic list of length `n`.
pub open spec fn cyclic_next(i: int, n: int) -> int {
    if i + 1 == n {
        0
    } else {
        i + 1
    }
}

/// A convex-cell polygon described by a cyclic list of line indices: each
/// edge runs on a line and extends until the intersections with the
/// previous and next lines of the cycle.
pub struct Polygon {
    pub lines: Vec<usize>,
}

/// One edge of a polygon: its supporting line and the two neighbouring
/// lines whose intersections bound it.
#[derive(Clone, Copy, PartialEq, Eq, Structural)]
pub struct PolygonEdge {
    pub line: usize,
    pub start_intersection: usize,
    pub end_intersection: usize,
}

impl Polygon {
    /// The polygon's edges: for every position, the following line in the
    /// cycle supported between its two cyclic neighbours.
    pub fn edges(&self) -> (r: Vec<PolygonEdge>)
        ensures
            r@.len() == self.lines@.len(),
            forall|i: int|
                0 <= i < r@.len() ==> r@[i] == (PolygonEdge {
                    line: self.lines@[cyclic_next(i, self.lines@.len() as int)],
                    start_intersection: self.lines@[i],
                    end_intersection: self.lines@[cyclic_next(
                        cyclic_next(i, self.lines@.len() as int),
                        self.lines@.len() as int,
                    )],
                }),
    {
        let n = self.lines.len();
        let mut r: Vec<PolygonEdge> = Vec::new();
        let mut i: usize = 0;
        while i < n
            invariant
                n == self.lines@.len(),
                0 <= i <= n,
                r@.len() == i,
                forall|j: int|
                    0 <= j < i ==> r@[j] == (PolygonEdge {
                        line: self.lines@[cyclic_next(j, n as int)],
                        start_intersection: self.lines@[j],
                        end_intersection: self.lines@[cyclic_next(
                            cyclic_next(j, n as int),
                            n as int,
                        )],
                    }),
            decreases n - i,
        {
            let j1 = if i + 1 == n {
                0
            } else {
                i + 1
            };
            let j2 = if j1 + 1 == n {
                0
            } else {
                j1 + 1
            };
            r.push(
                PolygonEdge {
                    line: self.lines[j1],
                    start_intersection: self.lines[i],
                    end_intersection: self.lines[j2],
                },
            );
            i += 1;
        }
        r
    }
}

/// A reference to one intersection of two lines.
#[derive(Clone, Copy, PartialEq, Eq, Structural)]
pub struct IntersectionRef2D {
    pub l1: usize,
    pub l2: usize,
}

impl IntersectionRef2D {
    /// Whether two intersections share a line.
    pub fn connected(&self, other: &IntersectionRef2D) -> (r: bool)
        ensures
            r == (self.l1 == other.l1 || self.l1 == other.l2 || self.l2 == other.l1 || self.l2
                == other.l2),
    {
        self.l1 == other.l1 || self.l1 == other.l2 || self.l2 == other.l1 || self.l2 == other.l2
    }
}

/// A reference to a boundary segment: either an original segment of a loop
/// or one side of a segment produced by a cut.
#[derive(Clone, Copy, PartialEq, Eq, Structural)]
pub enum SegmentRef {
    Orig { loop_index: usize, segment: usize },
    Cut { i: usize, side: bool },
}

/// The record of a single segment being cut at a point.
#[derive(Clone, Copy, PartialEq, Eq, Structural)]
pub struct SegmentCut {
    pub loop_index: usize,
    pub segment: usize,
    pub cut_point: usize,
}

/// The split of one cell `orig` into the parts outside and inside the
/// cutting region.
pub struct Split<R, V> {
    pub orig: R,
    pub new_outside: Vec<V>,
    pub new_inside: Vec<V>,
}

/// The references to the cells a split produced on each side.
pub struct SplitResult<R> {
    pub new_outside: Vec<R>,
    pub new_inside: Vec<R>,
}

} // verus!
