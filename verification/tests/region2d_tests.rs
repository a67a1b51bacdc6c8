use cad_kernel::scalar::Scalar;
use cad_kernel::geometry::{Line, Point2, Vec2};
use cad_kernel::brep_2d::{Edge, Region2D};

fn s(v: i64) -> Scalar {
    Scalar::from_int(v)
}

fn q(n: i64, d: i64) -> Scalar {
    Scalar::from_ratio(n, d)
}

fn pt(x: Scalar, y: Scalar) -> Point2 {
    Point2 { x, y }
}

fn line(x0: Scalar, y0: Scalar, x1: Scalar, y1: Scalar) -> Line {
    Line::from_two_points(&pt(x0, y0), &pt(x1, y1))
}

/// An outer 3x3 square (lines 0..4) and an inner unit square (lines 4..8),
/// both oriented clockwise as seen from outside.
fn test_lines() -> Vec<Line> {
    vec![
        line(s(3), s(0), s(0), s(0)),
        line(s(3), s(3), s(3), s(0)),
        line(s(0), s(3), s(3), s(3)),
        line(s(0), s(0), s(0), s(3)),
        line(s(1), s(1), s(2), s(1)),
        line(s(2), s(1), s(2), s(2)),
        line(s(2), s(2), s(1), s(2)),
        line(s(1), s(2), s(1), s(1)),
    ]
}

#[test]
fn simple_region_valid() {
    let edges = vec![
        Edge::new(0, 1, 3),
        Edge::new(1, 0, 2),
        Edge::new(2, 1, 3),
        Edge::new(3, 0, 2),
    ];

    let region = Region2D::new(test_lines(), edges).unwrap();

    assert!(region.inside(&pt(q(1, 2), q(1, 2))).unwrap());
    assert!(!region.inside(&pt(q(7, 2), q(1, 2))).unwrap());
}

#[test]
fn boundary_points_are_inside() {
    // Regions are closed: their boundary belongs to them, including the
    // boundary of a hole.
    let edges = vec![
        Edge::new(0, 1, 3),
        Edge::new(1, 0, 2),
        Edge::new(2, 1, 3),
        Edge::new(3, 0, 2),
        Edge::new(4, 5, 7),
        Edge::new(5, 4, 6),
        Edge::new(6, 5, 7),
        Edge::new(7, 4, 6),
    ];
    let region = Region2D::new(test_lines(), edges).unwrap();
    // On the outer square's left edge.
    assert!(region.inside(&pt(s(0), q(1, 2))).unwrap());
    // On the inner square's left edge: the hole's boundary.
    assert!(region.inside(&pt(s(1), q(3, 2))).unwrap());
    // Just outside the outer square, and strictly inside the hole.
    assert!(!region.inside(&pt(q(-1, 100), q(1, 2))).unwrap());
    assert!(!region.inside(&pt(q(3, 2), q(3, 2))).unwrap());
}

#[test]
fn inverted_region_invalid() {
    // The inner square's edges alone describe a region whose boundary faces
    // the wrong way.
    let edges = vec![
        Edge::new(4, 1, 3),
        Edge::new(5, 0, 2),
        Edge::new(6, 1, 3),
        Edge::new(7, 0, 2),
    ];

    assert!(Region2D::new(test_lines(), edges).is_none());
}

#[test]
fn nonintersecting_edges_region_invalid() {
    let edges = vec![Edge::new(4, 1, 2), Edge::new(5, 0, 2), Edge::new(6, 1, 2)];

    assert!(Region2D::new(test_lines(), edges).is_none());
}

#[test]
fn inconsistent_edges_region_invalid() {
    let edges = vec![
        Edge::new(0, 1, 3),
        Edge::new(1, 0, 2),
        Edge::new(2, 1, 3),
        Edge::new(7, 0, 2),
    ];

    assert!(Region2D::new(test_lines(), edges).is_none());
}

#[test]
fn out_of_range_edge_refs_invalid() {
    // A reference outside the arrays cannot describe a valid region.
    let edges = vec![Edge::new(99, 1, 3), Edge::new(1, 0, 2)];
    assert!(Region2D::new(test_lines(), edges).is_none());
}

#[test]
fn region_with_hole_valid() {
    let edges = vec![
        Edge::new(0, 1, 3),
        Edge::new(1, 0, 2),
        Edge::new(2, 1, 3),
        Edge::new(3, 0, 2),
        Edge::new(4, 5, 7),
        Edge::new(5, 4, 6),
        Edge::new(6, 5, 7),
        Edge::new(7, 4, 6),
    ];

    let region = Region2D::new(test_lines(), edges).unwrap();

    assert!(region.inside(&pt(q(1, 2), q(1, 2))).unwrap());
    assert!(!region.inside(&pt(q(3, 2), q(3, 2))).unwrap());
    assert!(!region.inside(&pt(q(7, 2), q(1, 2))).unwrap());
}

/// Exact rotations by Pythagorean-triple angles.
const ROTS: [(i64, i64, i64); 4] = [(1, 0, 1), (3, 4, 5), (5, 12, 13), (8, 15, 17)];

fn rot_pt(k: usize, x: Scalar, y: Scalar) -> Point2 {
    let (c, sn, d) = ROTS[k % 4];
    let cos = q(c, d);
    let sin = q(sn, d);
    pt(cos.mul(&x).sub(&sin.mul(&y)), sin.mul(&x).add(&cos.mul(&y)))
}

fn rot_vec(k: usize, x: Scalar, y: Scalar) -> Vec2 {
    let p = rot_pt(k, x, y);
    Vec2 { x: p.x, y: p.y }
}

#[test]
fn cut_regions_corner_stable() {
    for k in 0..60usize {
        let val = q(10316314 + k as i64, 1000000);

        let p1 = rot_pt(k, s(3), q(3, 10));
        let p2 = rot_pt(k, q(10532, 1000), val.dup());
        let p3 = rot_pt(k, q(25123, 1000).add(&val), q(7, 100));

        let l1 = Line::from_two_points(&p1, &p2);
        let l2 = Line::from_two_points(&p2, &p3);
        let l3 = Line::from_two_points(&p3, &p1);

        let region = Region2D::new(
            vec![l1, l2, l3],
            vec![
                Edge { line: 0, x1: 1, x2: 2 },
                Edge { line: 1, x1: 0, x2: 2 },
                Edge { line: 2, x1: 0, x2: 1 },
            ],
        )
        .unwrap();

        // A line that touches the top corner but stays outside otherwise.
        let ray_line_1 = Line::from_point_dir(&p2, &rot_vec(k, s(1), s(0)));
        // A line through the same corner that passes through the inside.
        let ray_line_2 = Line::from_point_dir(&p2, &rot_vec(k, s(0), s(1)));

        let r1 = region.cut_region(&ray_line_1).unwrap();
        assert!(r1.len() == 0 || r1.len() == 2);

        let r2 = region.cut_region(&ray_line_2).unwrap();
        assert_eq!(r2.len(), 2);
    }
}

#[test]
fn cut_region_idempotent() {
    let edges = vec![
        Edge::new(0, 1, 3),
        Edge::new(1, 0, 2),
        Edge::new(2, 1, 3),
        Edge::new(3, 0, 2),
    ];
    let region = Region2D::new(test_lines(), edges).unwrap();
    let probe = Line::from_point_dir(&pt(q(1, 2), q(1, 2)), &Vec2 { x: s(2), y: s(1) });

    let a = region.cut_region(&probe).unwrap();
    let b = region.cut_region(&probe).unwrap();

    assert_eq!(a.len(), b.len());
    for (x, y) in a.points().iter().zip(b.points().iter()) {
        assert!(x.pos.eq_val(&y.pos));
        assert_eq!(x.dir, y.dir);
    }
}

#[test]
fn edge_region_and_queries() {
    let edges = vec![
        Edge::new(0, 1, 3),
        Edge::new(1, 0, 2),
        Edge::new(2, 1, 3),
        Edge::new(3, 0, 2),
    ];
    let region = Region2D::new(test_lines(), edges).unwrap();
    assert_eq!(region.edges().len(), 4);
    assert_eq!(region.lines().len(), 8);
    // Each edge of a validated region derives a proper two-point region.
    for e in 0..4 {
        let r = region.edge_region(e);
        assert_eq!(r.len(), 2);
        let pts = r.points();
        assert!(pts[0].dir && !pts[1].dir);
    }
    // The bottom edge is crossed by a vertical line through the square and
    // missed by one far outside it.
    let crossing = Line::from_point_dir(&pt(q(1, 2), q(1, 2)), &Vec2 { x: s(0), y: s(1) });
    let missing = Line::from_point_dir(&pt(s(50), s(0)), &Vec2 { x: s(0), y: s(1) });
    assert!(region.edge_intersects(0, &crossing));
    assert!(!region.edge_intersects(0, &missing));
}
