//! The kernel's cross-function guarantees, stated and proved.
//!
//! These are the properties the region code is built on: intersecting a pair
//! of lines is symmetric in its arguments, the half-open segment crossing
//! rule is exclusive at a shared corner when the cut passes through and
//! consistent when it merely grazes, and grazing hits land on the corner
//! itself.  The corner laws take the shared corner by value (equal
//! coordinate values), so they apply to segments built by
//! `Line::line_segment`, whose shared endpoints agree in value by the
//! symmetry law.

use vstd::prelude::*;
use crate::scalar::{RatV, rat_wf, rat_lt, rat_eqv, rat_is_zero, rat_is_neg, rat_add,
    rat_sub, rat_mul, rat_neg, rat_div};
use crate::geometry::{LineV, LineSegmentV, Point2V, line_wf, point2_wf, segment_wf, spec_nsq,
    spec_det, spec_parallel, spec_line_intersection, spec_intersection_point, spec_line_point,
    spec_lex_lt, spec_project_point, spec_segment_intersection, lemma_nsq_pos};

verus! {

// ---------------------------------------------------------------------------
// Small facts about exact fractions, used to assemble the laws below.
// ---------------------------------------------------------------------------

proof fn lemma_wf_ops(a: RatV, b: RatV)
    requires
        rat_wf(a),
        rat_wf(b),
    ensures
        rat_wf(rat_add(a, b)),
        rat_wf(rat_sub(a, b)),
        rat_wf(rat_mul(a, b)),
{
    assert(a.d * b.d > 0) by (nonlinear_arith)
        requires
            a.d > 0,
            b.d > 0,
    {
    }
}

proof fn lemma_mul_cong(a: RatV, a2: RatV, b: RatV, b2: RatV)
    requires
        rat_eqv(a, a2),
        rat_eqv(b, b2),
    ensures
        rat_eqv(rat_mul(a, b), rat_mul(a2, b2)),
{
    assert((a.n * b.n) * (a2.d * b2.d) == (a2.n * b2.n) * (a.d * b.d)) by (nonlinear_arith)
        requires
            a.n * a2.d == a2.n * a.d,
            b.n * b2.d == b2.n * b.d,
    {
        assert((a.n * b.n) * (a2.d * b2.d) == (a.n * a2.d) * (b.n * b2.d));
        assert((a2.n * a.d) * (b2.n * b.d) == (a2.n * b2.n) * (a.d * b.d));
    }
}

proof fn lemma_add_cong(a: RatV, a2: RatV, b: RatV, b2: RatV)
    requires
        rat_eqv(a, a2),
        rat_eqv(b, b2),
    ensures
        rat_eqv(rat_add(a, b), rat_add(a2, b2)),
{
    let l1: int = (a.n * b.d) * (a2.d * b2.d);
    let l2: int = (b.n * a.d) * (a2.d * b2.d);
    let r1: int = (a2.n * b2.d) * (a.d * b.d);
    let r2: int = (b2.n * a2.d) * (a.d * b.d);
    assert(l1 == r1) by (nonlinear_arith)
        requires
            l1 == (a.n * b.d) * (a2.d * b2.d),
            r1 == (a2.n * b2.d) * (a.d * b.d),
            a.n * a2.d == a2.n * a.d,
    {
        assert((a.n * b.d) * (a2.d * b2.d) == (a.n * a2.d) * (b.d * b2.d));
        assert((a.n * a2.d) * (b.d * b2.d) == (a2.n * a.d) * (b.d * b2.d));
        assert((a2.n * a.d) * (b.d * b2.d) == (a2.n * b2.d) * (a.d * b.d));
    }
    assert(l2 == r2) by (nonlinear_arith)
        requires
            l2 == (b.n * a.d) * (a2.d * b2.d),
            r2 == (b2.n * a2.d) * (a.d * b.d),
            b.n * b2.d == b2.n * b.d,
    {
        assert((b.n * a.d) * (a2.d * b2.d) == (b.n * b2.d) * (a.d * a2.d));
        assert((b.n * b2.d) * (a.d * a2.d) == (b2.n * b.d) * (a.d * a2.d));
        assert((b2.n * b.d) * (a.d * a2.d) == (b2.n * a2.d) * (a.d * b.d));
    }
    assert((a.n * b.d + b.n * a.d) * (a2.d * b2.d) == l1 + l2) by (nonlinear_arith)
        requires
            l1 == (a.n * b.d) * (a2.d * b2.d),
            l2 == (b.n * a.d) * (a2.d * b2.d),
    {
    }
    assert((a2.n * b2.d + b2.n * a2.d) * (a.d * b.d) == r1 + r2) by (nonlinear_arith)
        requires
            r1 == (a2.n * b2.d) * (a.d * b.d),
            r2 == (b2.n * a2.d) * (a.d * b.d),
    {
    }
}

proof fn lemma_sub_cong(a: RatV, a2: RatV, b: RatV, b2: RatV)
    requires
        rat_eqv(a, a2),
        rat_eqv(b, b2),
    ensures
        rat_eqv(rat_sub(a, b), rat_sub(a2, b2)),
{
    let l1: int = (a.n * b.d) * (a2.d * b2.d);
    let l2: int = (b.n * a.d) * (a2.d * b2.d);
    let r1: int = (a2.n * b2.d) * (a.d * b.d);
    let r2: int = (b2.n * a2.d) * (a.d * b.d);
    assert(l1 == r1) by (nonlinear_arith)
        requires
            l1 == (a.n * b.d) * (a2.d * b2.d),
            r1 == (a2.n * b2.d) * (a.d * b.d),
            a.n * a2.d == a2.n * a.d,
    {
        assert((a.n * b.d) * (a2.d * b2.d) == (a.n * a2.d) * (b.d * b2.d));
        assert((a.n * a2.d) * (b.d * b2.d) == (a2.n * a.d) * (b.d * b2.d));
        assert((a2.n * a.d) * (b.d * b2.d) == (a2.n * b2.d) * (a.d * b.d));
    }
    assert(l2 == r2) by (nonlinear_arith)
        requires
            l2 == (b.n * a.d) * (a2.d * b2.d),
            r2 == (b2.n * a2.d) * (a.d * b.d),
            b.n * b2.d == b2.n * b.d,
    {
        assert((b.n * a.d) * (a2.d * b2.d) == (b.n * b2.d) * (a.d * a2.d));
        assert((b.n * b2.d) * (a.d * a2.d) == (b2.n * b.d) * (a.d * a2.d));
        assert((b2.n * b.d) * (a.d * a2.d) == (b2.n * a2.d) * (a.d * b.d));
    }
    assert((a.n * b.d - b.n * a.d) * (a2.d * b2.d) == l1 - l2) by (nonlinear_arith)
        requires
            l1 == (a.n * b.d) * (a2.d * b2.d),
            l2 == (b.n * a.d) * (a2.d * b2.d),
    {
    }
    assert((a2.n * b2.d - b2.n * a2.d) * (a.d * b.d) == r1 - r2) by (nonlinear_arith)
        requires
            r1 == (a2.n * b2.d) * (a.d * b.d),
            r2 == (b2.n * a2.d) * (a.d * b.d),
    {
    }
}

/// Equal values have numerators of the same sign.
proof fn lemma_eqv_sign(u: RatV, v: RatV)
    requires
        rat_wf(u),
        rat_wf(v),
        rat_eqv(u, v),
    ensures
        (u.n < 0) == (v.n < 0),
        (u.n == 0) == (v.n == 0),
{
    assert(((u.n < 0) == (v.n < 0)) && ((u.n == 0) == (v.n == 0))) by (nonlinear_arith)
        requires
            u.d > 0,
            v.d > 0,
            u.n * v.d == v.n * u.d,
    {
    }
}

proof fn lemma_eqv_trans(a: RatV, b: RatV, c: RatV)
    requires
        rat_wf(a),
        rat_wf(b),
        rat_wf(c),
        rat_eqv(a, b),
        rat_eqv(b, c),
    ensures
        rat_eqv(a, c),
{
    assert(a.n * c.d == c.n * a.d) by (nonlinear_arith)
        requires
            a.d > 0,
            b.d > 0,
            c.d > 0,
            a.n * b.d == b.n * a.d,
            b.n * c.d == c.n * b.d,
    {
    }
}

/// Subtracting a fraction whose numerator is zero does not change the value.
proof fn lemma_sub_zero_num(a: RatV, z: RatV)
    requires
        z.n == 0,
    ensures
        rat_eqv(rat_sub(a, z), a),
{
    assert((a.n * z.d - 0 * a.d) * a.d == a.n * (a.d * z.d)) by (nonlinear_arith);
}

/// Division by a nonzero value yields a well-formed fraction.
proof fn lemma_div_wf(x: RatV, y: RatV)
    requires
        rat_wf(x),
        rat_wf(y),
        !rat_is_zero(y),
    ensures
        rat_wf(rat_div(x, y)),
{
    assert(rat_div(x, y).d > 0) by (nonlinear_arith)
        requires
            x.d > 0,
            y.d > 0,
            y.n != 0,
            rat_div(x, y) == (if x.d * y.n < 0 {
                RatV { n: -(x.n * y.d), d: -(x.d * y.n) }
            } else {
                RatV { n: x.n * y.d, d: x.d * y.n }
            }),
    {
    }
}

/// Dividing equal values by the same nonzero divisor gives equal values.
proof fn lemma_div_cong_num(x: RatV, x2: RatV, y: RatV)
    requires
        rat_wf(x),
        rat_wf(x2),
        rat_wf(y),
        !rat_is_zero(y),
        rat_eqv(x, x2),
    ensures
        rat_eqv(rat_div(x, y), rat_div(x2, y)),
{
    assert((x.d * y.n < 0) == (x2.d * y.n < 0)) by (nonlinear_arith)
        requires
            x.d > 0,
            x2.d > 0,
    {
    }
    if x.d * y.n < 0 {
        assert((-(x.n * y.d)) * (-(x2.d * y.n)) == (-(x2.n * y.d)) * (-(x.d * y.n)))
            by (nonlinear_arith)
            requires
                x.n * x2.d == x2.n * x.d,
        {
            assert((-(x.n * y.d)) * (-(x2.d * y.n)) == (x.n * x2.d) * (y.d * y.n));
            assert((x2.n * x.d) * (y.d * y.n) == (-(x2.n * y.d)) * (-(x.d * y.n)));
        }
    } else {
        assert((x.n * y.d) * (x2.d * y.n) == (x2.n * y.d) * (x.d * y.n)) by (nonlinear_arith)
            requires
                x.n * x2.d == x2.n * x.d,
        {
            assert((x.n * y.d) * (x2.d * y.n) == (x.n * x2.d) * (y.d * y.n));
            assert((x2.n * x.d) * (y.d * y.n) == (x2.n * y.d) * (x.d * y.n));
        }
    }
}

/// Two points with equal coordinate values project to equal signed
/// distances from any line.
proof fn lemma_project_dist_cong(l: LineV, p: Point2V, q: Point2V)
    requires
        line_wf(l),
        point2_wf(p),
        point2_wf(q),
        rat_eqv(p.x, q.x),
        rat_eqv(p.y, q.y),
    ensures
        rat_eqv(spec_project_point(l, p).dist, spec_project_point(l, q).dist),
{
    lemma_mul_cong(l.a, l.a, p.x, q.x);
    lemma_mul_cong(l.b, l.b, p.y, q.y);
    lemma_add_cong(rat_mul(l.a, p.x), rat_mul(l.a, q.x), rat_mul(l.b, p.y), rat_mul(l.b, q.y));
    lemma_sub_cong(
        rat_add(rat_mul(l.a, p.x), rat_mul(l.b, p.y)),
        rat_add(rat_mul(l.a, q.x), rat_mul(l.b, q.y)),
        l.c,
        l.c,
    );
}

/// The projected position of a point on a line is a well-formed fraction.
proof fn lemma_project_pos_wf(l: LineV, p: Point2V)
    requires
        line_wf(l),
        point2_wf(p),
    ensures
        rat_wf(spec_project_point(l, p).pos),
{
    lemma_nsq_pos(l);
    lemma_wf_ops(rat_neg(l.b), p.x);
    lemma_wf_ops(l.a, p.y);
    lemma_wf_ops(rat_mul(rat_neg(l.b), p.x), rat_mul(l.a, p.y));
    lemma_div_wf(rat_add(rat_mul(rat_neg(l.b), p.x), rat_mul(l.a, p.y)), spec_nsq(l));
}

/// Two points with equal coordinate values project to equal positions
/// along any line.
proof fn lemma_project_pos_cong(l: LineV, p: Point2V, q: Point2V)
    requires
        line_wf(l),
        point2_wf(p),
        point2_wf(q),
        rat_eqv(p.x, q.x),
        rat_eqv(p.y, q.y),
    ensures
        rat_wf(spec_project_point(l, p).pos),
        rat_wf(spec_project_point(l, q).pos),
        rat_eqv(spec_project_point(l, p).pos, spec_project_point(l, q).pos),
{
    lemma_nsq_pos(l);
    let nsq = spec_nsq(l);
    let fp = rat_add(rat_mul(rat_neg(l.b), p.x), rat_mul(l.a, p.y));
    let fq = rat_add(rat_mul(rat_neg(l.b), q.x), rat_mul(l.a, q.y));
    lemma_mul_cong(rat_neg(l.b), rat_neg(l.b), p.x, q.x);
    lemma_mul_cong(l.a, l.a, p.y, q.y);
    lemma_add_cong(rat_mul(rat_neg(l.b), p.x), rat_mul(rat_neg(l.b), q.x), rat_mul(l.a, p.y),
        rat_mul(l.a, q.y));
    lemma_wf_ops(rat_neg(l.b), p.x);
    lemma_wf_ops(l.a, p.y);
    lemma_wf_ops(rat_mul(rat_neg(l.b), p.x), rat_mul(l.a, p.y));
    lemma_wf_ops(rat_neg(l.b), q.x);
    lemma_wf_ops(l.a, q.y);
    lemma_wf_ops(rat_mul(rat_neg(l.b), q.x), rat_mul(l.a, q.y));
    lemma_div_wf(fp, nsq);
    lemma_div_wf(fq, nsq);
    lemma_div_cong_num(fp, fq, nsq);
}

proof fn lemma_rat_mul_comm(x: RatV, y: RatV)
    ensures
        rat_mul(x, y) == rat_mul(y, x),
{
    assert(x.n * y.n == y.n * x.n) by (nonlinear_arith);
    assert(x.d * y.d == y.d * x.d) by (nonlinear_arith);
}

/// Swapping the arguments negates the determinant.
proof fn lemma_det_swap(a: LineV, b: LineV)
    ensures
        spec_det(b, a) == rat_neg(spec_det(a, b)),
{
    let p = a.a;
    let q = a.b;
    let r = b.a;
    let s = b.b;
    assert((r.n * q.n) * (s.d * p.d) - (s.n * p.n) * (r.d * q.d) == -((p.n * s.n) * (q.d * r.d) - (
    q.n * r.n) * (p.d * s.d))) by (nonlinear_arith);
    assert((r.d * q.d) * (s.d * p.d) == (p.d * s.d) * (q.d * r.d)) by (nonlinear_arith);
}

/// The squared determinant does not depend on the argument order.
proof fn lemma_det_swap_sq(a: LineV, b: LineV)
    ensures
        rat_mul(spec_det(b, a), spec_det(b, a)) == rat_mul(spec_det(a, b), spec_det(a, b)),
{
    lemma_det_swap(a, b);
    let d = spec_det(a, b);
    assert((-d.n) * (-d.n) == d.n * d.n) by (nonlinear_arith);
}

/// The parallelism test is symmetric in its arguments.
pub proof fn lemma_parallel_symmetric(a: LineV, b: LineV)
    ensures
        spec_parallel(a, b) == spec_parallel(b, a),
{
    lemma_det_swap_sq(a, b);
    lemma_rat_mul_comm(spec_nsq(a), spec_nsq(b));
}

/// **Symmetry of the intersection point.**  For any two lines, computing
/// the Euclidean intersection point from either side gives a result that
/// exists under exactly the same conditions and has exactly the same
/// coordinate values.
pub proof fn lemma_intersection_point_symmetric(a: LineV, b: LineV)
    ensures
        (spec_intersection_point(a, b) is Some) == (spec_intersection_point(b, a) is Some),
        spec_intersection_point(a, b) is Some ==> {
            let p = spec_intersection_point(a, b)->Some_0;
            let q = spec_intersection_point(b, a)->Some_0;
            rat_eqv(p.x, q.x) && rat_eqv(p.y, q.y)
        },
{
    lemma_parallel_symmetric(a, b);
    if !spec_parallel(a, b) {
        let x1 = spec_line_intersection(a, b)->Some_0;
        let x2 = spec_line_intersection(b, a)->Some_0;
        let p1 = spec_line_point(a, x1.pos);
        let p2 = spec_line_point(b, x2.pos);
        // Both argument orders choose between the same two candidates.
        if spec_lex_lt(p1, p2) {
            assert(!spec_lex_lt(p2, p1));
            assert(spec_intersection_point(a, b) == Some(p1));
            assert(spec_intersection_point(b, a) == Some(p1));
        } else if spec_lex_lt(p2, p1) {
            assert(spec_intersection_point(a, b) == Some(p2));
            assert(spec_intersection_point(b, a) == Some(p2));
        } else {
            // Lexicographically incomparable candidates have equal values.
            assert(spec_intersection_point(a, b) == Some(p2));
            assert(spec_intersection_point(b, a) == Some(p1));
            assert(rat_eqv(p1.x, p2.x));
            assert(rat_eqv(p1.y, p2.y));
        }
    }
}

/// The signed distance of a projection is a well-formed fraction.
proof fn lemma_project_dist_wf(l: LineV, p: Point2V)
    requires
        line_wf(l),
        point2_wf(p),
    ensures
        rat_wf(spec_project_point(l, p).dist),
{
    let dist = spec_project_point(l, p).dist;
    assert(dist.d > 0) by (nonlinear_arith)
        requires
            l.a.d > 0,
            l.b.d > 0,
            l.c.d > 0,
            p.x.d > 0,
            p.y.d > 0,
            dist == rat_sub(rat_add(rat_mul(l.a, p.x), rat_mul(l.b, p.y)), l.c),
    {
    }
}

/// A segment whose second endpoint projects to distance zero is crossed by
/// the line exactly when its first endpoint's distance is strictly
/// negative.
proof fn lemma_corner_hit_second(l: LineV, s: LineSegmentV)
    requires
        line_wf(l),
        segment_wf(s),
        rat_is_zero(spec_project_point(l, s.p2).dist),
    ensures
        (spec_segment_intersection(l, s) is Some) == rat_is_neg(
            spec_project_point(l, s.p1).dist,
        ),
{
    let da = spec_project_point(l, s.p1).dist;
    let dc = spec_project_point(l, s.p2).dist;
    lemma_project_dist_wf(l, s.p1);
    lemma_project_dist_wf(l, s.p2);
    if rat_is_neg(da) {
        assert(da.n * dc.d < 0) by (nonlinear_arith)
            requires
                da.n < 0,
                dc.d > 0,
        {
        }
        assert(!rat_lt(dc, da));
        assert(rat_is_neg(da) && !rat_is_neg(dc));
    } else {
        if rat_lt(dc, da) {
            assert(!rat_is_neg(dc));
        } else {
            assert(!rat_is_neg(da));
        }
    }
}

/// A segment whose first endpoint projects to distance zero is crossed by
/// the line exactly when its second endpoint's distance is strictly
/// negative.
proof fn lemma_corner_hit_first(l: LineV, s: LineSegmentV)
    requires
        line_wf(l),
        segment_wf(s),
        rat_is_zero(spec_project_point(l, s.p1).dist),
    ensures
        (spec_segment_intersection(l, s) is Some) == rat_is_neg(
            spec_project_point(l, s.p2).dist,
        ),
{
    let dc = spec_project_point(l, s.p1).dist;
    let db = spec_project_point(l, s.p2).dist;
    lemma_project_dist_wf(l, s.p1);
    lemma_project_dist_wf(l, s.p2);
    if rat_is_neg(db) {
        assert(db.n * dc.d < 0) by (nonlinear_arith)
            requires
                db.n < 0,
                dc.d > 0,
        {
        }
        assert(rat_lt(db, dc));
        assert(rat_is_neg(db) && !rat_is_neg(dc));
    } else {
        if rat_lt(db, dc) {
            assert(!rat_is_neg(db));
        } else {
            assert(!rat_is_neg(dc));
        }
    }
}

/// **Shared-corner exclusivity.**  Two segments that share a corner, cut by
/// a line that passes through that corner and properly crosses (the far
/// endpoints lie strictly on opposite sides): exactly one of the two
/// segments registers an intersection — never zero, never two.
pub proof fn lemma_shared_corner_exclusive(l: LineV, s1: LineSegmentV, s2: LineSegmentV)
    requires
        line_wf(l),
        segment_wf(s1),
        segment_wf(s2),
        rat_eqv(s1.p2.x, s2.p1.x),
        rat_eqv(s1.p2.y, s2.p1.y),
        rat_is_zero(spec_project_point(l, s1.p2).dist),
        rat_is_neg(spec_project_point(l, s1.p1).dist) != rat_is_neg(
            spec_project_point(l, s2.p2).dist,
        ),
    ensures
        (spec_segment_intersection(l, s1) is Some) != (spec_segment_intersection(l, s2) is Some),
{
    lemma_shared_corner_dist_zero(l, s1, s2);
    lemma_corner_hit_second(l, s1);
    lemma_corner_hit_first(l, s2);
}

/// The probe's zero distance at the corner carries over to the second
/// segment's copy of the corner, which is only required to be equal in
/// value (the two segments may have computed it through different
/// intermediate fractions).
proof fn lemma_shared_corner_dist_zero(l: LineV, s1: LineSegmentV, s2: LineSegmentV)
    requires
        line_wf(l),
        segment_wf(s1),
        segment_wf(s2),
        rat_eqv(s1.p2.x, s2.p1.x),
        rat_eqv(s1.p2.y, s2.p1.y),
        rat_is_zero(spec_project_point(l, s1.p2).dist),
    ensures
        rat_is_zero(spec_project_point(l, s2.p1).dist),
{
    lemma_project_dist_wf(l, s1.p2);
    lemma_project_dist_wf(l, s2.p1);
    lemma_project_dist_cong(l, s1.p2, s2.p1);
    lemma_eqv_sign(spec_project_point(l, s1.p2).dist, spec_project_point(l, s2.p1).dist);
}

/// **Shared-corner grazing.**  When the cutting line only touches the
/// shared corner without crossing through (the far endpoints lie on the
/// same side), the two segments agree: both register an intersection or
/// neither does.
pub proof fn lemma_shared_corner_grazing(l: LineV, s1: LineSegmentV, s2: LineSegmentV)
    requires
        line_wf(l),
        segment_wf(s1),
        segment_wf(s2),
        rat_eqv(s1.p2.x, s2.p1.x),
        rat_eqv(s1.p2.y, s2.p1.y),
        rat_is_zero(spec_project_point(l, s1.p2).dist),
        rat_is_neg(spec_project_point(l, s1.p1).dist) == rat_is_neg(
            spec_project_point(l, s2.p2).dist,
        ),
    ensures
        (spec_segment_intersection(l, s1) is Some) == (spec_segment_intersection(l, s2) is Some),
{
    lemma_shared_corner_dist_zero(l, s1, s2);
    lemma_corner_hit_second(l, s1);
    lemma_corner_hit_first(l, s2);
}

/// **Grazing hits coincide.**  When the cutting line touches the shared
/// corner and both adjacent segments register a crossing (their far
/// endpoints lie strictly on the negative side), the two crossings sit at
/// the same position — the corner's own projection — so they respect any
/// declared order of the segments.
pub proof fn lemma_shared_corner_hit_positions(l: LineV, s1: LineSegmentV, s2: LineSegmentV)
    requires
        line_wf(l),
        segment_wf(s1),
        segment_wf(s2),
        rat_eqv(s1.p2.x, s2.p1.x),
        rat_eqv(s1.p2.y, s2.p1.y),
        rat_is_zero(spec_project_point(l, s1.p2).dist),
        rat_is_neg(spec_project_point(l, s1.p1).dist),
        rat_is_neg(spec_project_point(l, s2.p2).dist),
    ensures
        spec_segment_intersection(l, s1) is Some,
        spec_segment_intersection(l, s2) is Some,
        rat_eqv(
            spec_segment_intersection(l, s1)->Some_0.pos,
            spec_segment_intersection(l, s2)->Some_0.pos,
        ),
{
    lemma_shared_corner_dist_zero(l, s1, s2);
    lemma_corner_hit_second(l, s1);
    lemma_corner_hit_first(l, s2);

    // The crossing of s1: its far endpoint comes first, the corner second.
    let pr1 = spec_project_point(l, s1.p1);
    let pr2 = spec_project_point(l, s1.p2);
    lemma_project_dist_wf(l, s1.p1);
    lemma_project_dist_wf(l, s1.p2);
    assert(pr1.dist.n * pr2.dist.d < 0) by (nonlinear_arith)
        requires
            pr1.dist.n < 0,
            pr2.dist.d > 0,
    {
    }
    assert(!rat_lt(pr2.dist, pr1.dist));
    let z1 = rat_mul(rat_sub(pr2.pos, pr1.pos), pr2.dist);
    assert(z1.n == 0);
    let w1 = rat_sub(pr2.dist, pr1.dist);
    let pos1 = spec_segment_intersection(l, s1)->Some_0.pos;
    assert(pos1 == rat_sub(pr2.pos, rat_div(z1, w1)));
    assert(rat_div(z1, w1).n == 0);
    lemma_sub_zero_num(pr2.pos, rat_div(z1, w1));

    // The crossing of s2: the corner comes first, so the endpoints swap.
    let qr1 = spec_project_point(l, s2.p1);
    let qr2 = spec_project_point(l, s2.p2);
    lemma_project_dist_wf(l, s2.p1);
    lemma_project_dist_wf(l, s2.p2);
    assert(qr2.dist.n * qr1.dist.d < 0) by (nonlinear_arith)
        requires
            qr2.dist.n < 0,
            qr1.dist.d > 0,
    {
    }
    assert(rat_lt(qr2.dist, qr1.dist));
    let z2 = rat_mul(rat_sub(qr1.pos, qr2.pos), qr1.dist);
    assert(z2.n == 0);
    let w2 = rat_sub(qr1.dist, qr2.dist);
    let pos2 = spec_segment_intersection(l, s2)->Some_0.pos;
    assert(pos2 == rat_sub(qr1.pos, rat_div(z2, w2)));
    assert(rat_div(z2, w2).n == 0);
    lemma_sub_zero_num(qr1.pos, rat_div(z2, w2));

    // Both crossings equal the corner's projected position.
    lemma_project_pos_cong(l, s1.p2, s2.p1);
    lemma_project_pos_wf(l, s1.p1);
    lemma_project_pos_wf(l, s2.p2);
    let zd1 = rat_div(z1, w1);
    let zd2 = rat_div(z2, w2);
    lemma_wf_ops(pr2.pos, pr1.pos);
    lemma_wf_ops(rat_sub(pr2.pos, pr1.pos), pr2.dist);
    assert(w1.n > 0 && w1.d > 0) by (nonlinear_arith)
        requires
            pr1.dist.n < 0,
            pr2.dist.n == 0,
            pr1.dist.d > 0,
            pr2.dist.d > 0,
            w1 == rat_sub(pr2.dist, pr1.dist),
    {
    }
    lemma_div_wf(z1, w1);
    lemma_wf_ops(qr1.pos, qr2.pos);
    lemma_wf_ops(rat_sub(qr1.pos, qr2.pos), qr1.dist);
    assert(w2.n > 0 && w2.d > 0) by (nonlinear_arith)
        requires
            qr2.dist.n < 0,
            qr1.dist.n == 0,
            qr2.dist.d > 0,
            qr1.dist.d > 0,
            w2 == rat_sub(qr1.dist, qr2.dist),
    {
    }
    lemma_div_wf(z2, w2);
    lemma_wf_ops(pr2.pos, zd1);
    lemma_wf_ops(qr1.pos, zd2);
    lemma_eqv_trans(pos1, pr2.pos, qr1.pos);
    lemma_eqv_trans(pos1, qr1.pos, pos2);
}

} // verus!
