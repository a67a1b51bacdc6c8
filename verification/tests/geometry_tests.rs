use cad_kernel::scalar::Scalar;
use cad_kernel::geometry::{Line, Point2, Vec2};

fn s(v: i64) -> Scalar {
    Scalar::from_int(v)
}

fn q(n: i64, d: i64) -> Scalar {
    Scalar::from_ratio(n, d)
}

fn pt(x: Scalar, y: Scalar) -> Point2 {
    Point2 { x, y }
}

fn vec(x: Scalar, y: Scalar) -> Vec2 {
    Vec2 { x, y }
}

/// Exact rotations by Pythagorean-triple angles, for variety without
/// leaving the rationals.  Each entry is (cos, sin) as (num, num, den).
const ROTS: [(i64, i64, i64); 4] = [(1, 0, 1), (3, 4, 5), (5, 12, 13), (8, 15, 17)];

fn rot_pt(k: usize, x: Scalar, y: Scalar) -> Point2 {
    let (c, sn, d) = ROTS[k % 4];
    let cos = q(c, d);
    let sin = q(sn, d);
    pt(cos.mul(&x).sub(&sin.mul(&y)), sin.mul(&x).add(&cos.mul(&y)))
}

fn rot_vec(k: usize, x: Scalar, y: Scalar) -> Vec2 {
    let p = rot_pt(k, x, y);
    Vec2 { x: p.x, y: p.y }
}

#[test]
fn line_intersection_and_segment_intersection_same() {
    let p1 = pt(s(3), s(7));
    let p2 = pt(q(5, 2), s(-10));

    let line = Line::from_two_points(&p1, &p2);

    let segment = line
        .line_segment(
            &Line::from_point_dir(&p1, &vec(s(1), s(0))),
            &Line::from_point_dir(&p2, &vec(s(1), s(0))),
        )
        .unwrap();

    let ray_line = Line::from_point_dir(&pt(s(0), s(0)), &vec(s(1), s(0)));

    let x1 = ray_line.intersection(&line).unwrap();
    let x2 = ray_line.segment_intersection(&segment).unwrap();

    assert_eq!(x1.dir, x2.dir);
    // With exact arithmetic the two positions agree exactly, not merely
    // within an epsilon.
    assert!(x1.pos.eq_val(&x2.pos));
}

#[test]
fn line_intersection_point_stable() {
    for k in 0..500u32 {
        let val = q(-1316314 - k as i64, 1000000);

        let p1 = pt(s(3), s(10));
        let p2 = pt(q(1543, 1000), val);
        let p3 = pt(q(5123, 1000), s(-10));

        let l1 = Line::from_two_points(&p1, &p2);
        let l2 = Line::from_two_points(&p2, &p3);

        let x1 = l1.intersection_point(&l2).unwrap();
        let x2 = l2.intersection_point(&l1).unwrap();

        assert!(x1.x.eq_val(&x2.x));
        assert!(x1.y.eq_val(&x2.y));
    }
}

#[test]
fn line_segment_intersection_stable() {
    for k in 0..200usize {
        let val = q(-1316314 - k as i64, 1000000);

        let p1 = rot_pt(k, s(3), s(10));
        let p2 = rot_pt(k, q(1543, 1000), val);
        let p3 = rot_pt(k, q(5123, 1000), s(-10));

        let l1 = Line::from_two_points(&p1, &p2);
        let l2 = Line::from_two_points(&p2, &p3);

        let ray_line = Line::from_point_dir(&p2, &rot_vec(k, s(1), s(0)));

        let p1_cut = Line::from_point_dir(&p1, &rot_vec(k, s(1), s(0)));
        let p3_cut = Line::from_point_dir(&p3, &rot_vec(k, s(1), s(0)));

        let l1_segment = l1.line_segment(&p1_cut, &l2).unwrap();
        let l2_segment = l2.line_segment(&l1, &p3_cut).unwrap();

        let x1 = l1_segment.intersects_line(&ray_line);
        let x2 = l2_segment.intersects_line(&ray_line);

        // The ray goes through the shared corner p2: exactly one of the two
        // adjacent segments intersects.
        assert!(x1 || x2);
        assert!(x1 != x2);
    }
}

#[test]
fn line_segment_intersection_corner() {
    let mut hits = 0;
    for k in 0..200usize {
        let val = q(10316314 + k as i64, 1000000);

        let p1 = rot_pt(k, s(3), q(3, 10));
        let p2 = rot_pt(k, q(10532, 1000), val);
        let p3 = rot_pt(k, q(25123, 1000), q(7, 100));

        let l1 = Line::from_two_points(&p1, &p2);
        let l2 = Line::from_two_points(&p2, &p3);
        let l3 = Line::from_two_points(&p3, &p1);

        let l1_seg = l1.line_segment(&l2, &l3).unwrap();
        let l2_seg = l2.line_segment(&l3, &l1).unwrap();
        let l3_seg = l3.line_segment(&l1, &l2).unwrap();

        // A line that touches the top corner p2 without entering the
        // triangle: the two adjacent segments must agree — here neither
        // registers a crossing.
        let ray_top = Line::from_point_dir(&p2, &rot_vec(k, s(1), s(0)));
        let t1 = ray_top.segment_intersection(&l1_seg);
        let t2 = ray_top.segment_intersection(&l2_seg);
        assert!(t1.is_some() == t2.is_some());

        // A line that touches the bottom corner p3 with the rest of the
        // triangle above it: both adjacent segments register, at the same
        // position.
        let ray_bot = Line::from_point_dir(&p3, &rot_vec(k, s(1), s(0)));
        let x1 = ray_bot.segment_intersection(&l2_seg);
        let x2 = ray_bot.segment_intersection(&l3_seg);
        assert!(x1.is_some() == x2.is_some());
        if let (Some(x1), Some(x2)) = (x1, x2) {
            hits += 1;
            assert!(x1.pos.le(&x2.pos) && x2.pos.le(&x1.pos));
        }
    }
    // The bottom-corner rays all graze with the triangle above, so every
    // iteration registers on both segments.
    assert!(hits == 200);
}

#[test]
fn intersection_point_lies_lexicographically_low() {
    // The symmetric pick returns the same value from both sides even for
    // axis-aligned crossings where the candidates coincide.
    let l1 = Line::from_point_dir(&pt(s(0), s(3)), &vec(s(1), s(0)));
    let l2 = Line::from_point_dir(&pt(s(4), s(0)), &vec(s(0), s(1)));
    let a = l1.intersection_point(&l2).unwrap();
    let b = l2.intersection_point(&l1).unwrap();
    assert!(a.x.eq_val(&s(4)) && a.y.eq_val(&s(3)));
    assert!(a.x.eq_val(&b.x) && a.y.eq_val(&b.y));
}
