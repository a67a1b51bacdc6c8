//! 2-dimensional boundary regions: a validated line/edge arrangement.
//!
//! A `Region2D` holds a set of lines and a graph of edges; each edge
//! references its supporting line and the two neighbouring edges whose lines
//! bound its extent, so edges own no coordinates and every extent is
//! recomputed exactly from the referenced lines.  Construction validates the
//! whole structure — every edge's derived interval is a proper 1-dimensional
//! region, the neighbour graph is symmetric, and every edge is either wholly
//! inside (a hole boundary) or wholly outside (an outer boundary) the region
//! swept by the remaining edges on its line.  A value that exists is always
//! valid, and the queries (`cut_region`, `inside`) are pinned to spec-level
//! mirrors of exactly the arithmetic they perform.

use vstd::prelude::*;
use vstd::pervasive::unreached;
use crate::scalar::{rat_lt, rat_of_int, Scalar};
use crate::geometry::{Line, LineV, LinePoint, LinePointV, LineSegment, LineSegmentV, Point2,
    Point2V, Vec2, Vec2V, line_wf, spec_line_intersection, spec_line_segment,
    spec_segment_intersection, spec_from_point_dir, opt_segment_view};
use crate::brep_1d::{Region1D, lps_view, spec_region1d_new, inside_indices, spec_r1_inside,
    opt_region_view};

verus! {

/// A boundary edge: its supporting line and its two neighbour edges, all by
/// index into the owning region's arrays.
#[derive(Clone, Copy)]
pub struct Edge {
    pub line: usize,
    pub x1: usize,
    pub x2: usize,
}

impl Edge {
    pub fn new(line: usize, x1: usize, x2: usize) -> (r: Edge)
        ensures
            r == (Edge { line, x1, x2 }),
    {
        Edge { line, x1, x2 }
    }
}

/// The views of a sequence of lines.
pub open spec fn lines_view(s: Seq<Line>) -> Seq<LineV> {
    s.map_values(|l: Line| l@)
}

/// All references of edge `e` stay inside the arrays.
pub open spec fn edge_in_range(lines: Seq<LineV>, edges: Seq<Edge>, e: int) -> bool {
    &&& 0 <= e < edges.len()
    &&& edges[e].line < lines.len()
    &&& edges[e].x1 < edges.len()
    &&& edges[e].x2 < edges.len()
}

/// All edges of the region reference only existing lines and edges.
pub open spec fn all_in_range(lines: Seq<LineV>, edges: Seq<Edge>) -> bool {
    forall|e: int| 0 <= e < edges.len() ==> edge_in_range(lines, edges, e)
}

/// The supporting line of edge `e` and the lines of its two neighbours.
pub open spec fn spec_edge_lines(lines: Seq<LineV>, edges: Seq<Edge>, e: int) -> (
    LineV,
    LineV,
    LineV,
) {
    let edge = edges[e];
    (
        lines[edge.line as int],
        lines[edges[edge.x1 as int].line as int],
        lines[edges[edge.x2 as int].line as int],
    )
}

/// The two raw boundary points of edge `e`: the intersections of its line
/// with its neighbours' lines, absent when either pair is parallel.
pub open spec fn spec_edge_points(lines: Seq<LineV>, edges: Seq<Edge>, e: int) -> Option<
    (LinePointV, LinePointV),
> {
    let (l, x1l, x2l) = spec_edge_lines(lines, edges, e);
    match spec_line_intersection(l, x1l) {
        None => None,
        Some(a) => match spec_line_intersection(l, x2l) {
            None => None,
            Some(b) => Some((a, b)),
        },
    }
}

/// The normalization applied to an edge's raw boundary points: when the raw
/// intersection directions describe a reversed interval, both flags are
/// flipped together so the interval reads endpoint-ascending.
pub open spec fn spec_flip_points(a: LinePointV, b: LinePointV) -> (LinePointV, LinePointV) {
    if rat_lt(a.pos, b.pos) && !a.dir && b.dir {
        ((LinePointV { pos: a.pos, dir: true }), (LinePointV { pos: b.pos, dir: false }))
    } else if rat_lt(b.pos, a.pos) && a.dir && !b.dir {
        ((LinePointV { pos: a.pos, dir: false }), (LinePointV { pos: b.pos, dir: true }))
    } else {
        (a, b)
    }
}

/// The 1-dimensional region of edge `e` on its own line.
pub open spec fn spec_edge_region(lines: Seq<LineV>, edges: Seq<Edge>, e: int) -> Option<
    Seq<LinePointV>,
> {
    match spec_edge_points(lines, edges, e) {
        None => None,
        Some(ab) => {
            let (a, b) = spec_flip_points(ab.0, ab.1);
            spec_region1d_new(seq![a, b])
        },
    }
}

/// Whether edge `e` is an "inside" (hole-bounding) edge: its raw
/// intersection directions describe a reversed interval.
pub open spec fn spec_inside_edge(lines: Seq<LineV>, edges: Seq<Edge>, e: int) -> Option<bool> {
    match spec_edge_points(lines, edges, e) {
        None => None,
        Some(ab) => Some(
            (rat_lt(ab.0.pos, ab.1.pos) && !ab.0.dir && ab.1.dir) || (rat_lt(ab.1.pos, ab.0.pos)
                && ab.0.dir && !ab.1.dir),
        ),
    }
}

/// The finite chord of edge `e`: its line bounded by the neighbours' lines.
pub open spec fn spec_edge_segment(lines: Seq<LineV>, edges: Seq<Edge>, e: int) -> Option<
    LineSegmentV,
> {
    let (l, x1l, x2l) = spec_edge_lines(lines, edges, e);
    spec_line_segment(l, x1l, x2l)
}

/// Whether edge index `i` is one of the (up to three) skipped indices.
pub open spec fn spec_skip(skip: Option<(usize, usize, usize)>, i: int) -> bool {
    match skip {
        None => false,
        Some(t) => i == t.0 || i == t.1 || i == t.2,
    }
}

/// What edge `i` contributes to a cut of the region by `l`: its crossing
/// with `l`, when the edge is not skipped and the crossing exists.
pub open spec fn spec_cut_contrib(
    lines: Seq<LineV>,
    edges: Seq<Edge>,
    l: LineV,
    skip: Option<(usize, usize, usize)>,
    i: int,
) -> Seq<LinePointV> {
    if spec_skip(skip, i) {
        Seq::<LinePointV>::empty()
    } else {
        match spec_edge_segment(lines, edges, i) {
            None => Seq::<LinePointV>::empty(),
            Some(s) => match spec_segment_intersection(l, s) {
                None => Seq::<LinePointV>::empty(),
                Some(lp) => seq![lp],
            },
        }
    }
}

/// The crossings of `l` with the chords of the first `n` edges, in edge
/// order.
pub open spec fn spec_cut_points(
    lines: Seq<LineV>,
    edges: Seq<Edge>,
    l: LineV,
    skip: Option<(usize, usize, usize)>,
    n: int,
) -> Seq<LinePointV>
    decreases n,
{
    if n <= 0 {
        Seq::<LinePointV>::empty()
    } else {
        spec_cut_points(lines, edges, l, skip, n - 1) + spec_cut_contrib(
            lines,
            edges,
            l,
            skip,
            n - 1,
        )
    }
}

/// The region obtained by slicing the arrangement with `l`: the sorted,
/// validated sequence of all edge crossings.
pub open spec fn spec_cut_region(
    lines: Seq<LineV>,
    edges: Seq<Edge>,
    l: LineV,
    skip: Option<(usize, usize, usize)>,
) -> Option<Seq<LinePointV>> {
    spec_region1d_new(spec_cut_points(lines, edges, l, skip, edges.len() as int))
}

/// How an edge's own region must relate to the region swept on its line by
/// all other edges: fully contained for a hole-bounding edge, fully
/// disjoint for an outer-boundary edge — never partially overlapping, which
/// would mean the boundary crosses itself.  Stated with the kernel's own
/// boundary-point containment: no swept point may lie inside the edge's
/// interval, and the edge's own points lie inside the swept region exactly
/// when the edge bounds a hole.
pub open spec fn spec_edge_placement(cut: Seq<LinePointV>, r: Seq<LinePointV>, ins: bool) -> bool {
    &&& inside_indices(cut, r, cut.len() as int).len() == 0
    &&& if ins {
        inside_indices(r, cut, r.len() as int).len() == r.len()
    } else {
        inside_indices(r, cut, r.len() as int).len() == 0
    }
}

/// The per-edge validation: the neighbour graph is symmetric at `e`, the
/// edge has a proper region, and that region sits inside the cut swept by
/// all other edges exactly when the edge is a hole-bounding edge, and
/// disjoint from it exactly when it bounds the outer boundary.
pub open spec fn spec_check_edge(lines: Seq<LineV>, edges: Seq<Edge>, e: int) -> bool {
    let edge = edges[e];
    &&& (e == edges[edge.x1 as int].x1 || e == edges[edge.x1 as int].x2)
    &&& (e == edges[edge.x2 as int].x1 || e == edges[edge.x2 as int].x2)
    &&& match spec_edge_region(lines, edges, e) {
        None => false,
        Some(r) => match spec_cut_region(
            lines,
            edges,
            lines[edge.line as int],
            Some(((e as usize), edge.x1, edge.x2)),
        ) {
            None => false,
            Some(cut) => match spec_inside_edge(lines, edges, e) {
                None => false,
                Some(ins) => spec_edge_placement(cut, r, ins),
            },
        },
    }
}

/// A valid region: all references in range, every edge a proper region, and
/// every edge passing the per-edge validation.
pub open spec fn spec_region_valid(lines: Seq<LineV>, edges: Seq<Edge>) -> bool {
    &&& all_in_range(lines, edges)
    &&& forall|e: int|
        0 <= e < edges.len() ==> spec_edge_region(lines, edges, e) is Some
    &&& forall|e: int| 0 <= e < edges.len() ==> spec_check_edge(lines, edges, e)
}

/// Point containment by slicing: cut the region with the horizontal line
/// through `p` and ask the resulting 1-dimensional region about `p`'s
/// position on that line.  Absent when the slice does not form a proper
/// region (which validation rules out for every line validation swept).
pub open spec fn spec_region_inside(lines: Seq<LineV>, edges: Seq<Edge>, p: Point2V) -> Option<
    bool,
> {
    let horiz = spec_from_point_dir(p, (Vec2V { x: rat_of_int(1), y: rat_of_int(0) }));
    match spec_cut_region(lines, edges, horiz, None) {
        None => None,
        Some(cut) => {
            let vert = spec_from_point_dir(p, (Vec2V { x: rat_of_int(0), y: rat_of_int(1) }));
            match spec_line_intersection(horiz, vert) {
                None => None,
                Some(lp) => Some(spec_r1_inside(cut, lp.pos)),
            }
        },
    }
}

// ---------------------------------------------------------------------------
// Executable helpers (free functions, usable before a region is built)
// ---------------------------------------------------------------------------

fn edge_points_exec(lines: &Vec<Line>, edges: &Vec<Edge>, e: usize) -> (r: Option<
    (LinePoint, LinePoint),
>)
    requires
        all_in_range(lines_view(lines@), edges@),
        e < edges@.len(),
    ensures
        match r {
            None => spec_edge_points(lines_view(lines@), edges@, e as int) is None,
            Some(ab) => spec_edge_points(lines_view(lines@), edges@, e as int) == Some(
                (ab.0@, ab.1@),
            ),
        },
{
    proof {
        assert(edge_in_range(lines_view(lines@), edges@, e as int));
    }
    let edge = edges[e];
    proof {
        assert(edge_in_range(lines_view(lines@), edges@, edge.x1 as int));
        assert(edge_in_range(lines_view(lines@), edges@, edge.x2 as int));
    }
    let l = &lines[edge.line];
    let x1l = &lines[edges[edge.x1].line];
    let x2l = &lines[edges[edge.x2].line];
    match l.intersection(x1l) {
        None => None,
        Some(a) => match l.intersection(x2l) {
            None => None,
            Some(b) => Some((a, b)),
        },
    }
}

fn edge_region_exec(lines: &Vec<Line>, edges: &Vec<Edge>, e: usize) -> (r: Option<Region1D>)
    requires
        all_in_range(lines_view(lines@), edges@),
        e < edges@.len(),
    ensures
        opt_region_view(r) == spec_edge_region(lines_view(lines@), edges@, e as int),
{
    match edge_points_exec(lines, edges, e) {
        None => None,
        Some((a, b)) => {
            let flip1 = a.pos.lt(&b.pos) && !a.dir && b.dir;
            let flip2 = b.pos.lt(&a.pos) && a.dir && !b.dir;
            let (a2, b2) = if flip1 {
                (LinePoint { pos: a.pos, dir: true }, LinePoint { pos: b.pos, dir: false })
            } else if flip2 {
                (LinePoint { pos: a.pos, dir: false }, LinePoint { pos: b.pos, dir: true })
            } else {
                (a, b)
            };
            let ghost flipped = spec_flip_points(a@, b@);
            proof {
                assert(a2@ == flipped.0 && b2@ == flipped.1);
            }
            let mut pts: Vec<LinePoint> = Vec::new();
            pts.push(a2);
            pts.push(b2);
            proof {
                assert(lps_view(pts@) =~= seq![flipped.0, flipped.1]);
            }
            Region1D::new(pts)
        },
    }
}

fn inside_edge_exec(lines: &Vec<Line>, edges: &Vec<Edge>, e: usize) -> (r: Option<bool>)
    requires
        all_in_range(lines_view(lines@), edges@),
        e < edges@.len(),
    ensures
        r == spec_inside_edge(lines_view(lines@), edges@, e as int),
{
    match edge_points_exec(lines, edges, e) {
        None => None,
        Some((a, b)) => Some(
            (a.pos.lt(&b.pos) && !a.dir && b.dir) || (b.pos.lt(&a.pos) && a.dir && !b.dir),
        ),
    }
}

fn edge_segment_exec(lines: &Vec<Line>, edges: &Vec<Edge>, e: usize) -> (r: Option<LineSegment>)
    requires
        all_in_range(lines_view(lines@), edges@),
        e < edges@.len(),
    ensures
        opt_segment_view(r) == spec_edge_segment(lines_view(lines@), edges@, e as int),
{
    proof {
        assert(edge_in_range(lines_view(lines@), edges@, e as int));
    }
    let edge = edges[e];
    proof {
        assert(edge_in_range(lines_view(lines@), edges@, edge.x1 as int));
        assert(edge_in_range(lines_view(lines@), edges@, edge.x2 as int));
    }
    let l = &lines[edge.line];
    let x1l = &lines[edges[edge.x1].line];
    let x2l = &lines[edges[edge.x2].line];
    l.line_segment(x1l, x2l)
}

fn cut_points_exec(
    lines: &Vec<Line>,
    edges: &Vec<Edge>,
    line: &Line,
    skip: Option<(usize, usize, usize)>,
) -> (r: Vec<LinePoint>)
    requires
        all_in_range(lines_view(lines@), edges@),
    ensures
        lps_view(r@) == spec_cut_points(lines_view(lines@), edges@, line@, skip, edges@.len() as int),
{
    let ghost lv = lines_view(lines@);
    let n = edges.len();
    let mut pts: Vec<LinePoint> = Vec::new();
    let mut e: usize = 0;
    while e < n
        invariant
            all_in_range(lv, edges@),
            lv == lines_view(lines@),
            n == edges@.len(),
            0 <= e <= n,
            lps_view(pts@) == spec_cut_points(lv, edges@, line@, skip, e as int),
        decreases n - e,
    {
        let ghost before = lps_view(pts@);
        let skip_this = match skip {
            None => false,
            Some(t) => e == t.0 || e == t.1 || e == t.2,
        };
        proof {
            assert(skip_this == spec_skip(skip, e as int));
        }
        if !skip_this {
            match edge_segment_exec(lines, edges, e) {
                None => {},
                Some(seg) => {
                    match line.segment_intersection(&seg) {
                        None => {},
                        Some(lp) => {
                            pts.push(lp);
                        },
                    }
                },
            }
        }
        proof {
            assert(lps_view(pts@) =~= before + spec_cut_contrib(lv, edges@, line@, skip, e as int));
        }
        e += 1;
    }
    pts
}

fn cut_region_raw(
    lines: &Vec<Line>,
    edges: &Vec<Edge>,
    line: &Line,
    skip: Option<(usize, usize, usize)>,
) -> (r: Option<Region1D>)
    requires
        all_in_range(lines_view(lines@), edges@),
    ensures
        opt_region_view(r) == spec_cut_region(lines_view(lines@), edges@, line@, skip),
{
    let pts = cut_points_exec(lines, edges, line, skip);
    Region1D::new(pts)
}

fn check_edge_exec(lines: &Vec<Line>, edges: &Vec<Edge>, e: usize) -> (r: bool)
    requires
        all_in_range(lines_view(lines@), edges@),
        e < edges@.len(),
    ensures
        r == spec_check_edge(lines_view(lines@), edges@, e as int),
{
    proof {
        assert(edge_in_range(lines_view(lines@), edges@, e as int));
    }
    let edge = edges[e];
    proof {
        assert(edge_in_range(lines_view(lines@), edges@, edge.x1 as int));
        assert(edge_in_range(lines_view(lines@), edges@, edge.x2 as int));
    }
    if !(e == edges[edge.x1].x1 || e == edges[edge.x1].x2) {
        return false;
    }
    if !(e == edges[edge.x2].x1 || e == edges[edge.x2].x2) {
        return false;
    }
    match edge_region_exec(lines, edges, e) {
        None => false,
        Some(r) => {
            match cut_region_raw(lines, edges, &lines[edge.line], Some((e, edge.x1, edge.x2))) {
                None => false,
                Some(cut) => match inside_edge_exec(lines, edges, e) {
                    None => false,
                    Some(ins) => {
                        let x = cut.intersection(&r);
                        let placed = if ins {
                            x.r2_inside.len() == r.len()
                        } else {
                            x.r2_inside.len() == 0
                        };
                        x.r1_inside.len() == 0 && placed
                    },
                },
            }
        },
    }
}

// ---------------------------------------------------------------------------
// The region type
// ---------------------------------------------------------------------------

/// A validated 2-dimensional boundary region.
pub struct Region2D {
    lines: Vec<Line>,
    edges: Vec<Edge>,
}

impl Region2D {
    /// The views of the region's lines.
    pub closed spec fn lines_v(&self) -> Seq<LineV> {
        lines_view(self.lines@)
    }

    /// The region's edges.
    pub closed spec fn edges_v(&self) -> Seq<Edge> {
        self.edges@
    }

    #[verifier::type_invariant]
    pub open spec fn type_inv(self) -> bool {
        &&& spec_region_valid(self.lines_v(), self.edges_v())
        &&& forall|i: int| 0 <= i < self.lines_v().len() ==> line_wf(self.lines_v()[i])
    }

    /// Validate the given arrangement and take ownership of it; absent
    /// exactly when the arrangement is not a valid region.
    pub fn new(lines: Vec<Line>, edges: Vec<Edge>) -> (r: Option<Region2D>)
        ensures
            match r {
                Some(reg) => reg.lines_v() == lines_view(lines@) && reg.edges_v() == edges@
                    && spec_region_valid(lines_view(lines@), edges@),
                None => !spec_region_valid(lines_view(lines@), edges@),
            },
    {
        let ghost lv = lines_view(lines@);
        let n_lines = lines.len();
        let n_edges = edges.len();

        // Every reference must land inside the arrays.
        let mut e: usize = 0;
        while e < n_edges
            invariant
                lv == lines_view(lines@),
                n_lines == lines@.len(),
                n_edges == edges@.len(),
                0 <= e <= n_edges,
                forall|j: int| 0 <= j < e ==> edge_in_range(lv, edges@, j),
            decreases n_edges - e,
        {
            let ed = edges[e];
            if ed.line >= n_lines || ed.x1 >= n_edges || ed.x2 >= n_edges {
                proof {
                    assert(!edge_in_range(lv, edges@, e as int));
                    assert(!all_in_range(lv, edges@));
                }
                return None;
            }
            e += 1;
        }
        assert(all_in_range(lv, edges@));

        // Record that every stored line is well formed.
        let mut i: usize = 0;
        while i < n_lines
            invariant
                lv == lines_view(lines@),
                n_lines == lines@.len(),
                0 <= i <= n_lines,
                forall|j: int| 0 <= j < i ==> line_wf(lv[j]),
            decreases n_lines - i,
        {
            let l = &lines[i];
            proof {
                use_type_invariant(l);
            }
            i += 1;
        }

        // Every edge must derive a proper 1-dimensional region.
        let mut e: usize = 0;
        while e < n_edges
            invariant
                lv == lines_view(lines@),
                n_edges == edges@.len(),
                all_in_range(lv, edges@),
                0 <= e <= n_edges,
                forall|j: int| 0 <= j < e ==> spec_edge_region(lv, edges@, j) is Some,
            decreases n_edges - e,
        {
            match edge_region_exec(&lines, &edges, e) {
                None => {
                    return None;
                },
                Some(_) => {},
            }
            e += 1;
        }

        // Every edge must pass the graph and containment validation.
        let mut e: usize = 0;
        while e < n_edges
            invariant
                lv == lines_view(lines@),
                n_edges == edges@.len(),
                all_in_range(lv, edges@),
                0 <= e <= n_edges,
                forall|j: int| 0 <= j < e ==> spec_check_edge(lv, edges@, j),
            decreases n_edges - e,
        {
            if !check_edge_exec(&lines, &edges, e) {
                return None;
            }
            e += 1;
        }

        Some(Region2D { lines, edges })
    }

    /// The edge list.
    pub fn edges(&self) -> (r: &Vec<Edge>)
        ensures
            r@ == self.edges_v(),
    {
        &self.edges
    }

    /// The line list.
    pub fn lines(&self) -> (r: &Vec<Line>)
        ensures
            lines_view(r@) == self.lines_v(),
    {
        &self.lines
    }

    /// The validated 1-dimensional region of edge `e` on its own line.
    /// Total on a valid region: validation established it for every edge.
    pub fn edge_region(&self, e: usize) -> (r: Region1D)
        requires
            e < self.edges_v().len(),
        ensures
            Some(r@) == spec_edge_region(self.lines_v(), self.edges_v(), e as int),
    {
        proof {
            use_type_invariant(self);
        }
        match edge_region_exec(&self.lines, &self.edges, e) {
            Some(r) => r,
            None => unreached(),
        }
    }

    /// Whether the chord of edge `e` crosses the given line.
    pub fn edge_intersects(&self, e: usize, line: &Line) -> (r: bool)
        requires
            e < self.edges_v().len(),
        ensures
            r == match spec_edge_segment(self.lines_v(), self.edges_v(), e as int) {
                None => false,
                Some(s) => spec_segment_intersection(line@, s) is Some,
            },
    {
        proof {
            use_type_invariant(self);
        }
        match edge_segment_exec(&self.lines, &self.edges, e) {
            None => false,
            Some(seg) => seg.intersects_line(line),
        }
    }

    /// Slice the region with an arbitrary line: every edge chord crossing,
    /// sorted and validated into a 1-dimensional region.  For a validated
    /// region the collected crossings of any line alternate, so the result
    /// is meant to always exist; that is a geometric theorem about the
    /// whole arrangement which this kernel does not prove, so instead of
    /// trusting it (and crashing if it ever failed), the impossible failure
    /// is a visible `None`.
    pub fn cut_region(&self, line: &Line) -> (r: Option<Region1D>)
        ensures
            opt_region_view(r) == spec_cut_region(self.lines_v(), self.edges_v(), line@, None),
    {
        proof {
            use_type_invariant(self);
        }
        cut_region_raw(&self.lines, &self.edges, line, None)
    }

    /// Whether `p` lies inside the region, by cutting with the horizontal
    /// line through `p`.  `None` is the same impossible-by-geometry slice
    /// failure as in [`Self::cut_region`], made visible instead of fatal.
    pub fn inside(&self, p: &Point2) -> (r: Option<bool>)
        ensures
            r == spec_region_inside(self.lines_v(), self.edges_v(), p@),
    {
        let ux = Vec2 { x: Scalar::from_int(1), y: Scalar::from_int(0) };
        let horiz = Line::from_point_dir(p, &ux);
        match self.cut_region(&horiz) {
            None => None,
            Some(cut) => {
                let uy = Vec2 { x: Scalar::from_int(0), y: Scalar::from_int(1) };
                let vert = Line::from_point_dir(p, &uy);
                match horiz.intersection(&vert) {
                    None => None,
                    Some(lp) => Some(cut.inside(&lp.pos)),
                }
            },
        }
    }
}

} // verus!
