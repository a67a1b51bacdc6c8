//! Oriented lines in the plane and their stable intersection primitives.
//!
//! A `Line` is the boundary of a half-plane: the points `p` with
//! `n . p == c` for a normal vector `n = (a, b)` and offset `c`.  The normal
//! is not required to have unit length; every derived quantity is either
//! scale-free (signs, orderings, containment) or expressed in the line's own
//! parametrization `point(t) = origin + dir * t` with `dir = (-b, a)`, so no
//! square roots are needed and all results are exact rationals.
//!
//! Every executable operation is pinned by its `ensures` to a spec-level
//! mirror (`spec_line_intersection`, `spec_project_point`, ...), which makes
//! determinism properties — the same pair of lines intersected from either
//! side gives the same point — provable facts rather than hopes.

use vstd::prelude::*;
use crate::scalar::{Scalar, RatV, rat_wf, rat_lt, rat_le, rat_eqv, rat_is_zero, rat_is_neg,
    rat_is_pos, rat_of_int, rat_add, rat_sub, rat_mul, rat_neg, rat_div};

verus! {

/// Reciprocal of the squared parallelism threshold: two lines whose unit
/// normals have a cross product `det` with `det * det * EPS_RECIP_SQ` below 1
/// are treated as parallel (the classical `|det| < 1e-5` rule, squared to
/// stay rational).
pub const EPS_RECIP_SQ: i64 = 10000000000;

/// A point of the plane.
pub struct Point2 {
    pub x: Scalar,
    pub y: Scalar,
}

/// A displacement in the plane.
pub struct Vec2 {
    pub x: Scalar,
    pub y: Scalar,
}

/// A point on a line expressed in the line's own 1-dimensional
/// parametrization.  `dir` marks an entering (`true`) or exiting (`false`)
/// boundary crossing relative to a region defined on that line.
pub struct LinePoint {
    pub pos: Scalar,
    pub dir: bool,
}

/// The result of projecting a point onto a line: its position along the
/// line, its signed distance from the line (in units of the normal's
/// length), and whether it lies on the positive-normal side.
pub struct PointProjection {
    pub pos: Scalar,
    pub dist: Scalar,
    pub inside: bool,
}

/// A finite chord of some line between two explicit endpoints.
pub struct LineSegment {
    p1: Point2,
    p2: Point2,
}

/// An oriented infinite line: the points `p` with `n . p == c`,
/// `n = (a, b)` nonzero.
pub struct Line {
    a: Scalar,
    b: Scalar,
    c: Scalar,
}

// ---------------------------------------------------------------------------
// Views
// ---------------------------------------------------------------------------

pub struct Point2V {
    pub x: RatV,
    pub y: RatV,
}

pub struct Vec2V {
    pub x: RatV,
    pub y: RatV,
}

pub struct LinePointV {
    pub pos: RatV,
    pub dir: bool,
}

pub struct PointProjectionV {
    pub pos: RatV,
    pub dist: RatV,
    pub inside: bool,
}

pub struct LineSegmentV {
    pub p1: Point2V,
    pub p2: Point2V,
}

pub struct LineV {
    pub a: RatV,
    pub b: RatV,
    pub c: RatV,
}

impl View for Point2 {
    type V = Point2V;

    open spec fn view(&self) -> Point2V {
        Point2V { x: self.x@, y: self.y@ }
    }
}

impl View for Vec2 {
    type V = Vec2V;

    open spec fn view(&self) -> Vec2V {
        Vec2V { x: self.x@, y: self.y@ }
    }
}

impl View for LinePoint {
    type V = LinePointV;

    open spec fn view(&self) -> LinePointV {
        LinePointV { pos: self.pos@, dir: self.dir }
    }
}

impl View for PointProjection {
    type V = PointProjectionV;

    open spec fn view(&self) -> PointProjectionV {
        PointProjectionV { pos: self.pos@, dist: self.dist@, inside: self.inside }
    }
}

impl View for LineSegment {
    type V = LineSegmentV;

    closed spec fn view(&self) -> LineSegmentV {
        LineSegmentV { p1: self.p1@, p2: self.p2@ }
    }
}

impl View for Line {
    type V = LineV;

    closed spec fn view(&self) -> LineV {
        LineV { a: self.a@, b: self.b@, c: self.c@ }
    }
}

// ---------------------------------------------------------------------------
// Spec-level geometry
// ---------------------------------------------------------------------------

pub open spec fn point2_wf(p: Point2V) -> bool {
    rat_wf(p.x) && rat_wf(p.y)
}

pub open spec fn segment_wf(s: LineSegmentV) -> bool {
    point2_wf(s.p1) && point2_wf(s.p2)
}

/// A line is well formed when its fractions are and its normal is nonzero.
pub open spec fn line_wf(l: LineV) -> bool {
    rat_wf(l.a) && rat_wf(l.b) && rat_wf(l.c) && !(rat_is_zero(l.a) && rat_is_zero(l.b))
}

/// The line through `p` with normal `n`.
pub open spec fn spec_from_point_normal(p: Point2V, n: Vec2V) -> LineV {
    LineV { a: n.x, b: n.y, c: rat_add(rat_mul(n.x, p.x), rat_mul(n.y, p.y)) }
}

/// The line through `p` with direction `d`.
pub open spec fn spec_from_point_dir(p: Point2V, d: Vec2V) -> LineV {
    spec_from_point_normal(p, Vec2V { x: d.y, y: rat_neg(d.x) })
}

/// The squared length of the line's normal vector.
pub open spec fn spec_nsq(l: LineV) -> RatV {
    rat_add(rat_mul(l.a, l.a), rat_mul(l.b, l.b))
}

/// Cross product of the two normals; zero exactly for parallel lines.
pub open spec fn spec_det(l1: LineV, l2: LineV) -> RatV {
    rat_sub(rat_mul(l1.a, l2.b), rat_mul(l1.b, l2.a))
}

/// The parallelism test: `|det| < 1e-5` for unit normals, written with
/// squares so it is exact for unnormalized ones.
pub open spec fn spec_parallel(l1: LineV, l2: LineV) -> bool {
    rat_lt(
        rat_mul(rat_of_int(EPS_RECIP_SQ as int), rat_mul(spec_det(l1, l2), spec_det(l1, l2))),
        rat_mul(spec_nsq(l1), spec_nsq(l2)),
    )
}

/// The closest point of the line to the coordinate origin.
pub open spec fn spec_origin(l: LineV) -> Point2V {
    Point2V {
        x: rat_div(rat_mul(l.a, l.c), spec_nsq(l)),
        y: rat_div(rat_mul(l.b, l.c), spec_nsq(l)),
    }
}

/// The line's parametrization: `origin + dir * t` with `dir = (-b, a)`.
pub open spec fn spec_line_point(l: LineV, t: RatV) -> Point2V {
    Point2V {
        x: rat_add(spec_origin(l).x, rat_mul(rat_neg(l.b), t)),
        y: rat_add(spec_origin(l).y, rat_mul(l.a, t)),
    }
}

/// The parameter of the intersection of `l1` with `l2`, on `l1`'s
/// parametrization.  Meaningful only when the lines are not parallel.
pub open spec fn spec_intersection_pos(l1: LineV, l2: LineV) -> RatV {
    rat_div(
        rat_sub(
            l2.c,
            rat_add(rat_mul(l2.a, spec_origin(l1).x), rat_mul(l2.b, spec_origin(l1).y)),
        ),
        spec_det(l1, l2),
    )
}

/// Intersection of two lines, as seen on the first line: position along the
/// first line, and a direction flag that is a stable function of which line
/// came first (the sign of the normals' cross product).
pub open spec fn spec_line_intersection(l1: LineV, l2: LineV) -> Option<LinePointV> {
    if spec_parallel(l1, l2) {
        None
    } else {
        Some(
            (LinePointV {
                pos: spec_intersection_pos(l1, l2),
                dir: rat_is_pos(spec_det(l1, l2)),
            }),
        )
    }
}

/// Lexicographic value order on points: `x` first, then `y`.
pub open spec fn spec_lex_lt(p: Point2V, q: Point2V) -> bool {
    rat_lt(p.x, q.x) || (rat_eqv(p.x, q.x) && rat_lt(p.y, q.y))
}

/// The Euclidean intersection point of two lines, computed from both sides
/// and resolved to the lexicographically smaller candidate so that both
/// argument orders give the same answer.
pub open spec fn spec_intersection_point(l1: LineV, l2: LineV) -> Option<Point2V> {
    match spec_line_intersection(l1, l2) {
        None => None,
        Some(x1) => match spec_line_intersection(l2, l1) {
            None => None,
            Some(x2) => {
                let p1 = spec_line_point(l1, x1.pos);
                let p2 = spec_line_point(l2, x2.pos);
                if spec_lex_lt(p1, p2) {
                    Some(p1)
                } else {
                    Some(p2)
                }
            },
        },
    }
}

/// Projection of a point onto a line: position along the line, signed
/// distance (in units of the normal's length; positive on the
/// positive-normal side), and the side flag.
pub open spec fn spec_project_point(l: LineV, p: Point2V) -> PointProjectionV {
    let pos = rat_div(rat_add(rat_mul(rat_neg(l.b), p.x), rat_mul(l.a, p.y)), spec_nsq(l));
    let dist = rat_sub(rat_add(rat_mul(l.a, p.x), rat_mul(l.b, p.y)), l.c);
    PointProjectionV { pos, dist, inside: rat_le(rat_of_int(0), dist) }
}

/// The chord of `l` between its intersections with `x1` and `x2`, endpoints
/// ordered by their position on `l` so the result does not depend on the
/// argument order.
pub open spec fn spec_line_segment(l: LineV, x1: LineV, x2: LineV) -> Option<LineSegmentV> {
    match spec_line_intersection(l, x1) {
        None => None,
        Some(t1) => match spec_line_intersection(l, x2) {
            None => None,
            Some(t2) => {
                let (y1, y2) = if rat_lt(t2.pos, t1.pos) {
                    (x2, x1)
                } else {
                    (x1, x2)
                };
                match spec_intersection_point(l, y1) {
                    None => None,
                    Some(p1) => match spec_intersection_point(l, y2) {
                        None => None,
                        Some(p2) => Some((LineSegmentV { p1, p2 })),
                    },
                }
            },
        },
    }
}

/// Intersection of a line with a finite segment, by the half-open rule: a
/// crossing exists exactly when the endpoint with the smaller signed
/// distance is strictly negative and the other is non-negative.  The
/// position interpolates the two projected positions at the zero of the
/// signed distance; `dir` records whether the endpoints had to be swapped.
pub open spec fn spec_segment_intersection(l: LineV, s: LineSegmentV) -> Option<LinePointV> {
    let pr1 = spec_project_point(l, s.p1);
    let pr2 = spec_project_point(l, s.p2);
    let swapped = rat_lt(pr2.dist, pr1.dist);
    let q1 = if swapped { pr2 } else { pr1 };
    let q2 = if swapped { pr1 } else { pr2 };
    if rat_is_neg(q1.dist) && !rat_is_neg(q2.dist) {
        Some(
            (LinePointV {
                pos: rat_sub(
                    q2.pos,
                    rat_div(rat_mul(rat_sub(q2.pos, q1.pos), q2.dist), rat_sub(q2.dist, q1.dist)),
                ),
                dir: swapped,
            }),
        )
    } else {
        None
    }
}

// Option views, so one ensures clause can pin an optional result.

pub open spec fn opt_lp_view(r: Option<LinePoint>) -> Option<LinePointV> {
    match r {
        None => None,
        Some(lp) => Some(lp@),
    }
}

pub open spec fn opt_point_view(r: Option<Point2>) -> Option<Point2V> {
    match r {
        None => None,
        Some(p) => Some(p@),
    }
}

pub open spec fn opt_segment_view(r: Option<LineSegment>) -> Option<LineSegmentV> {
    match r {
        None => None,
        Some(s) => Some(s@),
    }
}

// ---------------------------------------------------------------------------
// Supporting lemmas
// ---------------------------------------------------------------------------

/// A well-formed line's squared normal length is a positive value.
pub proof fn lemma_nsq_pos(l: LineV)
    requires
        line_wf(l),
    ensures
        rat_wf(spec_nsq(l)),
        rat_is_pos(spec_nsq(l)),
{
    let n = spec_nsq(l);
    assert(rat_wf(n) && rat_is_pos(n)) by (nonlinear_arith)
        requires
            l.a.d > 0,
            l.b.d > 0,
            !(l.a.n == 0 && l.b.n == 0),
            n == spec_nsq(l),
    {
    }
}

/// Two non-parallel well-formed lines have a determinant that is not the
/// value zero (so dividing by it is meaningful).
pub proof fn lemma_det_nonzero(l1: LineV, l2: LineV)
    requires
        line_wf(l1),
        line_wf(l2),
        !spec_parallel(l1, l2),
    ensures
        !rat_is_zero(spec_det(l1, l2)),
        rat_wf(spec_det(l1, l2)),
{
    lemma_nsq_pos(l1);
    lemma_nsq_pos(l2);
    let det = spec_det(l1, l2);
    assert(rat_wf(det)) by (nonlinear_arith)
        requires
            l1.a.d > 0,
            l1.b.d > 0,
            l2.a.d > 0,
            l2.b.d > 0,
            det == spec_det(l1, l2),
    {
    }
    if rat_is_zero(det) {
        let lhs = rat_mul(rat_of_int(EPS_RECIP_SQ as int), rat_mul(det, det));
        let rhs = rat_mul(spec_nsq(l1), spec_nsq(l2));
        assert(rat_lt(lhs, rhs)) by (nonlinear_arith)
            requires
                det.n == 0,
                det.d > 0,
                rat_wf(spec_nsq(l1)),
                rat_is_pos(spec_nsq(l1)),
                rat_wf(spec_nsq(l2)),
                rat_is_pos(spec_nsq(l2)),
                lhs == rat_mul(rat_of_int(EPS_RECIP_SQ as int), rat_mul(det, det)),
                rhs == rat_mul(spec_nsq(l1), spec_nsq(l2)),
        {
        }
        assert(false);
    }
}

// ---------------------------------------------------------------------------
// Executable geometry
// ---------------------------------------------------------------------------

impl LinePoint {
    pub fn new(pos: Scalar, dir: bool) -> (r: LinePoint)
        ensures
            r@ == (LinePointV { pos: pos@, dir: dir }),
    {
        LinePoint { pos, dir }
    }

    /// `+1` for an entering crossing, `-1` for an exiting one.
    pub fn dirsign(&self) -> (r: Scalar)
        ensures
            r@ == rat_of_int(if self.dir { 1int } else { -1int }),
    {
        if self.dir {
            Scalar::from_int(1)
        } else {
            Scalar::from_int(-1)
        }
    }
}

impl Line {
    #[verifier::type_invariant]
    pub open spec fn type_inv(self) -> bool {
        line_wf(self@)
    }

    /// The line through `p0` with normal `n`.
    pub fn from_point_normal(p0: &Point2, n: &Vec2) -> (r: Line)
        requires
            !(rat_is_zero(n@.x) && rat_is_zero(n@.y)),
        ensures
            r@ == spec_from_point_normal(p0@, n@),
    {
        let c = n.x.mul(&p0.x).add(&n.y.mul(&p0.y));
        let a = n.x.dup();
        let b = n.y.dup();
        proof {
            use_type_invariant(&a);
            use_type_invariant(&b);
            use_type_invariant(&c);
        }
        Line { a, b, c }
    }

    /// The line through `p0` with direction `d` (normal is `d` rotated by
    /// -90 degrees).
    pub fn from_point_dir(p0: &Point2, d: &Vec2) -> (r: Line)
        requires
            !(rat_is_zero(d@.x) && rat_is_zero(d@.y)),
        ensures
            r@ == spec_from_point_dir(p0@, d@),
    {
        let n = Vec2 { x: d.y.dup(), y: d.x.neg() };
        Line::from_point_normal(p0, &n)
    }

    /// The line through `p0` and `p1`, oriented from `p0` towards `p1`.
    pub fn from_two_points(p0: &Point2, p1: &Point2) -> (r: Line)
        requires
            !(rat_eqv(p0@.x, p1@.x) && rat_eqv(p0@.y, p1@.y)),
        ensures
            r@ == spec_from_point_dir(
                p1@,
                (Vec2V { x: rat_sub(p1@.x, p0@.x), y: rat_sub(p1@.y, p0@.y) }),
            ),
    {
        let d = Vec2 { x: p1.x.sub(&p0.x), y: p1.y.sub(&p0.y) };
        Line::from_point_dir(p1, &d)
    }

    /// The parallel line whose offset is shifted by `n . p`.
    pub fn with_origin(&self, p: &Point2) -> (r: Line)
        ensures
            r@.a == self@.a,
            r@.b == self@.b,
            r@.c == rat_add(rat_add(rat_mul(self@.a, p@.x), rat_mul(self@.b, p@.y)), self@.c),
    {
        proof {
            use_type_invariant(self);
        }
        let c = self.a.mul(&p.x).add(&self.b.mul(&p.y)).add(&self.c);
        let a = self.a.dup();
        let b = self.b.dup();
        proof {
            use_type_invariant(&a);
            use_type_invariant(&b);
            use_type_invariant(&c);
        }
        Line { a, b, c }
    }

    /// The parallel line through `p`.
    pub fn through_point(&self, p: &Point2) -> (r: Line)
        ensures
            r@.a == self@.a,
            r@.b == self@.b,
            r@.c == rat_add(rat_mul(self@.a, p@.x), rat_mul(self@.b, p@.y)),
    {
        proof {
            use_type_invariant(self);
        }
        let n = Vec2 { x: self.a.dup(), y: self.b.dup() };
        Line::from_point_normal(p, &n)
    }

    /// The closest point of the line to the coordinate origin.
    pub fn origin(&self) -> (r: Point2)
        ensures
            r@ == spec_origin(self@),
    {
        proof {
            use_type_invariant(self);
            lemma_nsq_pos(self@);
        }
        let nsq = self.a.mul(&self.a).add(&self.b.mul(&self.b));
        Point2 { x: self.a.mul(&self.c).div(&nsq), y: self.b.mul(&self.c).div(&nsq) }
    }

    /// The direction vector: the normal rotated by 90 degrees.
    pub fn dir(&self) -> (r: Vec2)
        ensures
            r@.x == rat_neg(self@.b),
            r@.y == self@.a,
    {
        Vec2 { x: self.b.neg(), y: self.a.dup() }
    }

    /// The normal vector.
    pub fn normal(&self) -> (r: Vec2)
        ensures
            r@.x == self@.a,
            r@.y == self@.b,
    {
        Vec2 { x: self.a.dup(), y: self.b.dup() }
    }

    /// The point at parameter `t` of the line's parametrization.
    pub fn point(&self, t: &Scalar) -> (r: Point2)
        ensures
            r@ == spec_line_point(self@, t@),
    {
        proof {
            use_type_invariant(self);
            lemma_nsq_pos(self@);
        }
        let o = self.origin();
        Point2 { x: o.x.add(&self.b.neg().mul(t)), y: o.y.add(&self.a.mul(t)) }
    }

    /// Intersection with another line, as a point on `self`'s
    /// parametrization; absent exactly when the lines are (nearly) parallel.
    pub fn intersection(&self, other: &Line) -> (r: Option<LinePoint>)
        ensures
            opt_lp_view(r) == spec_line_intersection(self@, other@),
    {
        proof {
            use_type_invariant(self);
            use_type_invariant(other);
        }
        let det = self.a.mul(&other.b).sub(&self.b.mul(&other.a));
        let nsq1 = self.a.mul(&self.a).add(&self.b.mul(&self.b));
        let nsq2 = other.a.mul(&other.a).add(&other.b.mul(&other.b));
        let lhs = Scalar::from_int(EPS_RECIP_SQ).mul(&det.mul(&det));
        if lhs.lt(&nsq1.mul(&nsq2)) {
            None
        } else {
            proof {
                lemma_det_nonzero(self@, other@);
                lemma_nsq_pos(self@);
            }
            let o = self.origin();
            let pos = other.c.sub(&other.a.mul(&o.x).add(&other.b.mul(&o.y))).div(&det);
            Some(LinePoint { pos, dir: det.is_pos() })
        }
    }

    /// The Euclidean intersection point with another line.  Both candidate
    /// points (one per argument order) are computed and the
    /// lexicographically smaller is returned, so `a.intersection_point(&b)`
    /// and `b.intersection_point(&a)` agree exactly.
    pub fn intersection_point(&self, other: &Line) -> (r: Option<Point2>)
        ensures
            opt_point_view(r) == spec_intersection_point(self@, other@),
    {
        match self.intersection(other) {
            None => None,
            Some(x1) => match other.intersection(self) {
                None => None,
                Some(x2) => {
                    let p1 = self.point(&x1.pos);
                    let p2 = other.point(&x2.pos);
                    let lex = p1.x.lt(&p2.x) || (p1.x.eq_val(&p2.x) && p1.y.lt(&p2.y));
                    if lex {
                        Some(p1)
                    } else {
                        Some(p2)
                    }
                },
            },
        }
    }

    /// Project a point onto the line.
    pub fn project_point(&self, p: &Point2) -> (r: PointProjection)
        ensures
            r@ == spec_project_point(self@, p@),
    {
        proof {
            use_type_invariant(self);
            lemma_nsq_pos(self@);
        }
        let nsq = self.a.mul(&self.a).add(&self.b.mul(&self.b));
        let pos = self.b.neg().mul(&p.x).add(&self.a.mul(&p.y)).div(&nsq);
        let dist = self.a.mul(&p.x).add(&self.b.mul(&p.y)).sub(&self.c);
        let inside = Scalar::from_int(0).le(&dist);
        PointProjection { pos, dist, inside }
    }

    /// Whether a point lies on the line's positive-normal side.
    pub fn inside(&self, p: &Point2) -> (r: bool)
        ensures
            r == spec_project_point(self@, p@).inside,
    {
        self.project_point(p).inside
    }

    /// The chord of `self` between its intersections with `x1` and `x2`,
    /// endpoints ordered by position on `self` so that the same segment
    /// results whichever argument order is used.
    pub fn line_segment(&self, x1: &Line, x2: &Line) -> (r: Option<LineSegment>)
        ensures
            opt_segment_view(r) == spec_line_segment(self@, x1@, x2@),
    {
        match self.intersection(x1) {
            None => None,
            Some(t1) => match self.intersection(x2) {
                None => None,
                Some(t2) => {
                    let swap = t2.pos.lt(&t1.pos);
                    let (y1, y2): (&Line, &Line) = if swap {
                        (x2, x1)
                    } else {
                        (x1, x2)
                    };
                    match self.intersection_point(y1) {
                        None => None,
                        Some(p1) => match self.intersection_point(y2) {
                            None => None,
                            Some(p2) => {
                                proof {
                                    use_type_invariant(&p1.x);
                                    use_type_invariant(&p1.y);
                                    use_type_invariant(&p2.x);
                                    use_type_invariant(&p2.y);
                                }
                                Some(LineSegment { p1, p2 })
                            },
                        },
                    }
                },
            },
        }
    }

    /// Intersection of this line with a finite segment, by the half-open
    /// rule: present exactly when one endpoint's signed distance is
    /// strictly negative and the other's is non-negative.  For two segments
    /// sharing a corner this guarantees a cutting line through the corner
    /// hits exactly one of them.
    pub fn segment_intersection(&self, segment: &LineSegment) -> (r: Option<LinePoint>)
        ensures
            opt_lp_view(r) == spec_segment_intersection(self@, segment@),
    {
        let pr1 = self.project_point(&segment.p1);
        let pr2 = self.project_point(&segment.p2);
        let swapped = pr2.dist.lt(&pr1.dist);
        let (q1, q2): (&PointProjection, &PointProjection) = if swapped {
            (&pr2, &pr1)
        } else {
            (&pr1, &pr2)
        };
        if q1.dist.is_neg() && !q2.dist.is_neg() {
            proof {
                use_type_invariant(&q1.dist);
                use_type_invariant(&q2.dist);
                assert(!rat_is_zero(rat_sub(q2.dist@, q1.dist@))) by (nonlinear_arith)
                    requires
                        q1.dist@.n < 0,
                        q2.dist@.n >= 0,
                        q1.dist@.d > 0,
                        q2.dist@.d > 0,
                {
                }
            }
            let pos = q2.pos.sub(&q2.pos.sub(&q1.pos).mul(&q2.dist).div(&q2.dist.sub(&q1.dist)));
            Some(LinePoint { pos, dir: swapped })
        } else {
            None
        }
    }
}

impl LineSegment {
    #[verifier::type_invariant]
    pub open spec fn type_inv(self) -> bool {
        segment_wf(self@)
    }

    /// Whether the given line crosses this segment (by the half-open rule).
    pub fn intersects_line(&self, line: &Line) -> (r: bool)
        ensures
            r == (spec_segment_intersection(line@, self@) is Some),
    {
        line.segment_intersection(self).is_some()
    }
}

} // verus!
