use cad_kernel::scalar::Scalar;
use cad_kernel::geometry::LinePoint;
use cad_kernel::brep_1d::Region1D;

fn s(v: i64) -> Scalar {
    Scalar::from_int(v)
}

fn lp(pos: i64, dir: bool) -> LinePoint {
    LinePoint::new(s(pos), dir)
}

#[test]
fn region1d_alternation_law() {
    // One interval, entering then exiting: valid.
    assert!(Region1D::new(vec![lp(10, true), lp(20, false)]).is_some());
    // Two entering crossings in a row: invalid.
    assert!(Region1D::new(vec![lp(10, true), lp(20, true)]).is_none());
    // Wrong leading direction: invalid.
    assert!(Region1D::new(vec![lp(10, false), lp(20, true)]).is_none());
    // The empty region is valid.
    assert!(Region1D::new(Vec::new()).is_some());
    // A single unmatched point is invalid.
    assert!(Region1D::new(vec![lp(10, true)]).is_none());
    // Odd count is invalid even when the directions alternate.
    assert!(Region1D::new(vec![lp(1, true), lp(2, false), lp(3, true)]).is_none());
}

#[test]
fn region1d_new_sorts_its_input() {
    let r = Region1D::new(vec![lp(20, false), lp(10, true)]).unwrap();
    let pts = r.points();
    assert_eq!(pts.len(), 2);
    assert!(pts[0].pos.eq_val(&s(10)) && pts[0].dir);
    assert!(pts[1].pos.eq_val(&s(20)) && !pts[1].dir);
    // Exact ties sort the exiting point first, so two intervals touching at
    // a point still alternate correctly and form a valid region.
    assert!(
        Region1D::new(vec![lp(0, true), lp(5, false), lp(5, true), lp(9, false)]).is_some()
    );
    // A duplicated entering point cannot alternate.
    assert!(Region1D::new(vec![lp(5, true), lp(5, true)]).is_none());
}

#[test]
fn region1d_inside_rule() {
    let r = Region1D::new(
        vec![lp(10, true), lp(20, false), lp(30, true), lp(40, false)],
    )
    .unwrap();
    // Strictly inside an interval.
    assert!(r.inside(&s(15)));
    assert!(r.inside(&s(35)));
    // Between the intervals and outside both ends.
    assert!(!r.inside(&s(25)));
    assert!(!r.inside(&s(5)));
    assert!(!r.inside(&s(45)));
    // Cells are closed intervals: both endpoints of each cell are inside.
    assert!(r.inside(&s(10)));
    assert!(r.inside(&s(20)));
    assert!(r.inside(&s(30)));
    assert!(r.inside(&s(40)));
}

#[test]
fn region1d_cells_pair_up() {
    let r = Region1D::new(
        vec![lp(10, true), lp(20, false), lp(30, true), lp(40, false)],
    )
    .unwrap();
    let cells = r.cells();
    assert_eq!(cells.len(), 2);
    assert_eq!(cells[0], (0, 1));
    assert_eq!(cells[1], (2, 3));
    assert_eq!(Region1D::empty().cells().len(), 0);
}

#[test]
fn region1d_intersection_reports_both_sides() {
    let big = Region1D::new(vec![lp(0, true), lp(10, false)]).unwrap();
    let small = Region1D::new(vec![lp(2, true), lp(3, false)]).unwrap();
    let x = big.intersection(&small);
    // No boundary point of `big` lies inside `small`.
    assert!(x.r1_inside.is_empty());
    // The entering point of `small` lies inside `big`; its exiting point
    // sits exactly on an exit-free spot of `big`'s interior too.
    assert_eq!(x.r2_inside, vec![0, 1]);
}

#[test]
fn region1d_contains_is_the_literal_rule() {
    let big = Region1D::new(vec![lp(0, true), lp(10, false)]).unwrap();
    let small = Region1D::new(vec![lp(2, true), lp(3, false)]).unwrap();
    // `contains` asks whether none of the receiver's own points lie inside
    // the argument — the kernel's literal, deliberately preserved rule.
    assert!(big.contains(&small));
    assert!(!small.contains(&big));
    // Disjoint regions "contain" each other under this rule.
    let other = Region1D::new(vec![lp(20, true), lp(30, false)]).unwrap();
    assert!(big.contains(&other));
    assert!(other.contains(&big));
}
