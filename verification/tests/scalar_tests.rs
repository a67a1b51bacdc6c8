use cad_kernel::scalar::Scalar;
use cad_kernel::geometry::{Line, LinePoint, Point2, Vec2};

fn s(v: i64) -> Scalar {
    Scalar::from_int(v)
}

fn q(n: i64, d: i64) -> Scalar {
    Scalar::from_ratio(n, d)
}

fn pt(x: Scalar, y: Scalar) -> Point2 {
    Point2 { x, y }
}

fn vec(x: Scalar, y: Scalar) -> Vec2 {
    Vec2 { x, y }
}

#[test]
fn scalar_arithmetic_exact() {
    // 1/3 + 1/6 == 1/2
    let a = q(1, 3).add(&q(1, 6));
    assert!(a.eq_val(&q(1, 2)));
    // 2/3 * 3/4 == 1/2
    let m = q(2, 3).mul(&q(3, 4));
    assert!(m.eq_val(&q(1, 2)));
    // (7/2) / (7/3) == 3/2
    let d = q(7, 2).div(&q(7, 3));
    assert!(d.eq_val(&q(3, 2)));
    // 5 - 9 == -4
    assert!(s(5).sub(&s(9)).eq_val(&s(-4)));
    assert!(s(4).neg().eq_val(&s(-4)));
}

#[test]
fn scalar_sign_normalization() {
    // A negative denominator is normalized away.
    let a = q(1, -2);
    assert!(a.eq_val(&q(-1, 2)));
    assert!(a.is_neg());
    assert!(!a.is_pos());
    assert!(q(0, -7).is_zero());
    // Division by a negative value keeps the order total.
    let d = s(1).div(&s(-2));
    assert!(d.eq_val(&q(-1, 2)));
}

#[test]
fn scalar_ordering() {
    assert!(q(1, 3).lt(&q(1, 2)));
    assert!(!q(1, 2).lt(&q(1, 3)));
    assert!(q(1, 2).le(&q(2, 4)));
    assert!(q(2, 4).le(&q(1, 2)));
    assert!(q(2, 4).eq_val(&q(1, 2)));
    assert!(q(-5, 2).lt(&q(-2, 1)));
}

#[test]
fn linepoint_dirsign() {
    let a = LinePoint::new(s(3), true);
    let b = LinePoint::new(s(3), false);
    assert!(a.dirsign().eq_val(&s(1)));
    assert!(b.dirsign().eq_val(&s(-1)));
    assert!(a.pos.eq_val(&b.pos));
    assert!(a.dir && !b.dir);
}

#[test]
fn line_projection_sides() {
    // The line y = 1 with normal pointing along +y.
    let l = Line::from_point_normal(&pt(s(0), s(1)), &vec(s(0), s(1)));
    let above = l.project_point(&pt(s(3), s(5)));
    assert!(above.inside);
    assert!(above.dist.eq_val(&s(4)));
    // The direction vector of a line with normal (0, 1) is (-1, 0), so the
    // position along the line runs against +x.
    assert!(above.pos.eq_val(&s(-3)));
    let below = l.project_point(&pt(s(-2), s(-1)));
    assert!(!below.inside);
    assert!(below.dist.eq_val(&s(-2)));
    let on = l.project_point(&pt(s(7), s(1)));
    assert!(on.inside);
    assert!(on.dist.is_zero());
    assert!(l.inside(&pt(s(7), s(1))));
    assert!(!l.inside(&pt(s(7), s(0))));
}

#[test]
fn line_point_parametrization() {
    // Horizontal line through the origin: point(t) walks along +x.
    let l = Line::from_point_dir(&pt(s(0), s(0)), &vec(s(1), s(0)));
    let p = l.point(&s(5));
    assert!(p.x.eq_val(&s(5)));
    assert!(p.y.eq_val(&s(0)));
    let o = l.origin();
    assert!(o.x.is_zero());
    assert!(o.y.is_zero());
    let d = l.dir();
    assert!(d.x.eq_val(&s(1)));
    assert!(d.y.is_zero());
    let n = l.normal();
    assert!(n.x.is_zero());
    assert!(n.y.eq_val(&s(-1)));
}

#[test]
fn parallel_lines_do_not_intersect() {
    let l1 = Line::from_point_dir(&pt(s(0), s(0)), &vec(s(1), s(0)));
    let l2 = Line::from_point_dir(&pt(s(0), s(1)), &vec(s(1), s(0)));
    assert!(l1.intersection(&l2).is_none());
    assert!(l1.intersection_point(&l2).is_none());
    // Coincident lines are also reported as no intersection.
    let l3 = Line::from_point_dir(&pt(s(0), s(0)), &vec(s(2), s(0)));
    assert!(l1.intersection(&l3).is_none());
}

#[test]
fn nearly_parallel_lines_hit_the_epsilon() {
    let l1 = Line::from_point_dir(&pt(s(0), s(0)), &vec(s(1), s(0)));
    // Slope 1e-6: below the 1e-5 determinant threshold.
    let l2 = Line::from_point_dir(&pt(s(0), s(1)), &vec(s(1), q(1, 1000000)));
    assert!(l1.intersection(&l2).is_none());
    // Slope 1e-4: above the threshold, a proper intersection.
    let l3 = Line::from_point_dir(&pt(s(0), s(1)), &vec(s(1), q(1, 10000)));
    assert!(l1.intersection(&l3).is_some());
}

#[test]
fn intersection_direction_flags_are_opposite_orders() {
    let l1 = Line::from_point_dir(&pt(s(0), s(0)), &vec(s(1), s(0)));
    let l2 = Line::from_point_dir(&pt(s(2), s(0)), &vec(s(0), s(1)));
    let a = l1.intersection(&l2).unwrap();
    let b = l2.intersection(&l1).unwrap();
    // The crossing sits at x = 2 on l1 and y = 0 on l2.
    assert!(a.pos.eq_val(&s(2)));
    assert!(b.pos.is_zero());
    // The direction flag is the sign of the determinant, so the two
    // argument orders disagree.
    assert!(a.dir != b.dir);
}
