//! 1-dimensional boundary regions: a validated union of intervals on a line.
//!
//! A `Region1D` is a sequence of `LinePoint`s, sorted by position (with the
//! direction flag as tie-breaker) and strictly alternating in direction,
//! entering first and exiting last.  Construction sorts and validates; a
//! value that exists is always valid.

use vstd::prelude::*;
use crate::scalar::{Scalar, RatV, rat_wf, rat_lt, rat_le, rat_eqv};
use crate::geometry::{LinePoint, LinePointV};

verus! {

/// The views of a sequence of points.
pub open spec fn lps_view(s: Seq<LinePoint>) -> Seq<LinePointV> {
    s.map_values(|p: LinePoint| p@)
}

/// The sort order of boundary points: by position, exiting before entering
/// on exact ties.
pub open spec fn lp_key_lt(a: LinePointV, b: LinePointV) -> bool {
    rat_lt(a.pos, b.pos) || (rat_eqv(a.pos, b.pos) && !a.dir && b.dir)
}

/// Stable insertion of `x` into `s`: before the first element it precedes.
pub open spec fn spec_insert(s: Seq<LinePointV>, x: LinePointV) -> Seq<LinePointV>
    decreases s.len(),
{
    if s.len() == 0 {
        seq![x]
    } else if lp_key_lt(x, s[0]) {
        seq![x] + s
    } else {
        seq![s[0]] + spec_insert(s.subrange(1, s.len() as int), x)
    }
}

/// The stable sort of a point sequence by `lp_key_lt`.
pub open spec fn spec_sort(s: Seq<LinePointV>) -> Seq<LinePointV>
    decreases s.len(),
{
    if s.len() == 0 {
        Seq::<LinePointV>::empty()
    } else {
        spec_insert(spec_sort(s.subrange(1, s.len() as int)), s[0])
    }
}

/// A valid 1-dimensional region: even length, directions strictly
/// alternating, entering first (and therefore exiting last).
pub open spec fn region1d_valid(s: Seq<LinePointV>) -> bool {
    s.len() % 2 == 0 && (forall|i: int| 0 <= i < s.len() ==> s[i].dir == (i % 2 == 0))
}

/// Whether some boundary point of `s` sits exactly at position `p`.
pub open spec fn has_boundary(s: Seq<LinePointV>, p: RatV) -> bool {
    exists|i: int| 0 <= i < s.len() && rat_eqv(s[i].pos, p)
}

/// How many points of `s` lie strictly before position `p`.
pub open spec fn count_below(s: Seq<LinePointV>, p: RatV) -> int
    decreases s.len(),
{
    if s.len() == 0 {
        0
    } else {
        count_below(s.drop_last(), p) + if rat_lt(s.last().pos, p) {
            1int
        } else {
            0int
        }
    }
}

/// The containment rule of a sorted region.  Cells are closed intervals, so
/// an exact match on any boundary point — entering or exiting — is inside;
/// any other position takes the direction of the nearest strictly-preceding
/// point, and is outside when none precedes it.
pub open spec fn spec_r1_inside(s: Seq<LinePointV>, p: RatV) -> bool {
    if has_boundary(s, p) {
        true
    } else {
        let c = count_below(s, p);
        if c > 0 {
            s[c - 1].dir
        } else {
            false
        }
    }
}

/// The indices, among the first `n` points of `a`, of those lying inside
/// the region `b`.
pub open spec fn inside_indices(a: Seq<LinePointV>, b: Seq<LinePointV>, n: int) -> Seq<usize>
    decreases n,
{
    if n <= 0 {
        Seq::<usize>::empty()
    } else {
        inside_indices(a, b, n - 1) + if spec_r1_inside(b, a[n - 1].pos) {
            seq![(n - 1) as usize]
        } else {
            Seq::<usize>::empty()
        }
    }
}

/// What `Region1D::new` produces: the sorted input when it is a valid
/// region, nothing otherwise.
pub open spec fn spec_region1d_new(pts: Seq<LinePointV>) -> Option<Seq<LinePointV>> {
    if region1d_valid(spec_sort(pts)) {
        Some(spec_sort(pts))
    } else {
        None
    }
}

/// The kernel's literal containment rule between two regions: none of `a`'s
/// boundary points lies inside `b`.
pub open spec fn spec_r1_contains(a: Seq<LinePointV>, b: Seq<LinePointV>) -> bool {
    inside_indices(a, b, a.len() as int).len() == 0
}

/// The view of an optional region.
pub open spec fn opt_region_view(r: Option<Region1D>) -> Option<Seq<LinePointV>> {
    match r {
        None => None,
        Some(reg) => Some(reg@),
    }
}

/// A sequence sorted by the boundary-point order: no later element sorts
/// strictly before an earlier one.
pub open spec fn lp_sorted(s: Seq<LinePointV>) -> bool {
    forall|i: int, j: int| 0 <= i < j < s.len() ==> !lp_key_lt(s[j], s[i])
}

proof fn lemma_lp_key_lt_trans(a: LinePointV, b: LinePointV, c: LinePointV)
    requires
        rat_wf(a.pos),
        rat_wf(b.pos),
        rat_wf(c.pos),
        lp_key_lt(a, b),
        lp_key_lt(b, c),
    ensures
        lp_key_lt(a, c),
{
    let x = a.pos;
    let y = b.pos;
    let z = c.pos;
    if rat_lt(x, y) && rat_lt(y, z) {
        assert(rat_lt(x, z)) by (nonlinear_arith)
            requires
                x.d > 0,
                y.d > 0,
                z.d > 0,
                x.n * y.d < y.n * x.d,
                y.n * z.d < z.n * y.d,
        {
        }
    } else if rat_lt(x, y) && rat_eqv(y, z) {
        assert(rat_lt(x, z)) by (nonlinear_arith)
            requires
                x.d > 0,
                y.d > 0,
                z.d > 0,
                x.n * y.d < y.n * x.d,
                y.n * z.d == z.n * y.d,
        {
        }
    } else if rat_eqv(x, y) && rat_lt(y, z) {
        assert(rat_lt(x, z)) by (nonlinear_arith)
            requires
                x.d > 0,
                y.d > 0,
                z.d > 0,
                x.n * y.d == y.n * x.d,
                y.n * z.d < z.n * y.d,
        {
        }
    } else {
        assert(rat_eqv(x, y) && rat_eqv(y, z) && !a.dir && b.dir && !b.dir);
    }
}

proof fn lemma_insert_sorted_keeps(s: Seq<LinePointV>, x: LinePointV)
    requires
        forall|i: int| 0 <= i < s.len() ==> rat_wf(#[trigger] s[i].pos),
        rat_wf(x.pos),
        lp_sorted(s),
    ensures
        lp_sorted(spec_insert(s, x)),
        spec_insert(s, x).to_multiset() == s.to_multiset().insert(x),
    decreases s.len(),
{
    broadcast use vstd::seq_lib::group_to_multiset_ensures;
    broadcast use vstd::multiset::group_multiset_axioms;

    let r = spec_insert(s, x);
    if s.len() == 0 {
        assert(seq![x] =~= s.insert(0, x));
    } else if lp_key_lt(x, s[0]) {
        // x goes first; everything in s must not sort before x.
        assert forall|j: int| 1 <= j < r.len() implies !lp_key_lt(r[j], r[0]) by {
            if lp_key_lt(s[j - 1], x) {
                lemma_lp_key_lt_trans(s[j - 1], x, s[0]);
            }
        }
        assert(seq![x] + s =~= s.insert(0, x));
    } else {
        let rest = s.subrange(1, s.len() as int);
        assert forall|i: int| 0 <= i < rest.len() implies rat_wf(#[trigger] rest[i].pos) by {
            assert(rest[i] == s[i + 1]);
        }
        lemma_insert_sorted_keeps(rest, x);
        let ri = spec_insert(rest, x);
        // Every element of the recursive insertion is an element of `rest`
        // or `x` itself, so `s[0]` sorts no later than any of them.
        assert forall|j: int| 1 <= j < r.len() implies !lp_key_lt(r[j], r[0]) by {
            assert(r[j] == ri[j - 1]);
            assert(ri.to_multiset().contains(ri[j - 1]));
            assert(rest.to_multiset().insert(x).contains(ri[j - 1]));
            if ri[j - 1] == x {
                assert(!lp_key_lt(x, s[0]));
            } else {
                assert(rest.to_multiset().contains(ri[j - 1]));
                let k = choose|k: int| 0 <= k < rest.len() && rest[k] == ri[j - 1];
                assert(s[k + 1] == rest[k]);
                assert(!lp_key_lt(s[k + 1], s[0]));
            }
        }
        assert(lp_sorted(r)) by {
            assert forall|i: int, j: int| 0 <= i < j < r.len() implies !lp_key_lt(r[j], r[i]) by {
                if i > 0 {
                    assert(r[i] == ri[i - 1] && r[j] == ri[j - 1]);
                }
            }
        }
        assert(r =~= ri.insert(0, s[0]));
        assert(s =~= rest.insert(0, s[0]));
        assert(r.to_multiset() == rest.to_multiset().insert(x).insert(s[0]));
        assert(s.to_multiset().insert(x) == rest.to_multiset().insert(s[0]).insert(x));
        assert(rest.to_multiset().insert(x).insert(s[0]) =~= rest.to_multiset().insert(
            s[0],
        ).insert(x));
    }
}

/// **The sort is a sort.**  The sequence a `Region1D` is built from is a
/// permutation of the input points, ordered by position with the exiting
/// flag breaking exact ties.
pub proof fn lemma_spec_sort_sorted(s: Seq<LinePointV>)
    requires
        forall|i: int| 0 <= i < s.len() ==> rat_wf(#[trigger] s[i].pos),
    ensures
        lp_sorted(spec_sort(s)),
        spec_sort(s).to_multiset() == s.to_multiset(),
    decreases s.len(),
{
    broadcast use vstd::seq_lib::group_to_multiset_ensures;
    broadcast use vstd::multiset::group_multiset_axioms;

    if s.len() == 0 {
        assert(spec_sort(s) =~= s);
    } else {
        let rest = s.subrange(1, s.len() as int);
        assert forall|i: int| 0 <= i < rest.len() implies rat_wf(#[trigger] rest[i].pos) by {
            assert(rest[i] == s[i + 1]);
        }
        lemma_spec_sort_sorted(rest);
        let sorted_rest = spec_sort(rest);
        assert forall|i: int| 0 <= i < sorted_rest.len() implies rat_wf(
            #[trigger] sorted_rest[i].pos,
        ) by {
            assert(sorted_rest.to_multiset().contains(sorted_rest[i]));
            assert(rest.to_multiset().contains(sorted_rest[i]));
            let k = choose|k: int| 0 <= k < rest.len() && rest[k] == sorted_rest[i];
        }
        lemma_insert_sorted_keeps(sorted_rest, s[0]);
        assert(s =~= rest.insert(0, s[0]));
    }
}

proof fn lemma_count_below_split(s: Seq<LinePointV>, p: RatV, k: int)
    requires
        0 <= k <= s.len(),
        forall|j: int| 0 <= j < k ==> rat_lt(#[trigger] s[j].pos, p),
        forall|j: int| k <= j < s.len() ==> !rat_lt(#[trigger] s[j].pos, p),
    ensures
        count_below(s, p) == k,
    decreases s.len(),
{
    if s.len() > 0 {
        let t = s.drop_last();
        assert(forall|j: int| 0 <= j < t.len() ==> t[j] == s[j]);
        if k == s.len() {
            lemma_count_below_split(t, p, k - 1);
        } else {
            lemma_count_below_split(t, p, k);
        }
    }
}

proof fn lemma_rat_le_lt_trans(a: RatV, b: RatV, c: RatV)
    requires
        rat_wf(a),
        rat_wf(b),
        rat_wf(c),
        rat_le(a, b),
        rat_lt(b, c),
    ensures
        rat_lt(a, c),
{
    assert(a.n * c.d < c.n * a.d) by (nonlinear_arith)
        requires
            a.d > 0,
            b.d > 0,
            c.d > 0,
            a.n * b.d <= b.n * a.d,
            b.n * c.d < c.n * b.d,
    {
    }
}

/// **Cells are closed intervals.**  Any position between the entering and
/// the exiting point of a cell of a valid region — endpoints included — is
/// reported inside.
pub proof fn lemma_closed_cell_inside(s: Seq<LinePointV>, p: RatV, i: int)
    requires
        region1d_valid(s),
        lp_sorted(s),
        rat_wf(p),
        forall|j: int| 0 <= j < s.len() ==> rat_wf(#[trigger] s[j].pos),
        0 <= 2 * i && 2 * i + 1 < s.len(),
        rat_le(s[2 * i].pos, p),
        rat_le(p, s[2 * i + 1].pos),
    ensures
        spec_r1_inside(s, p),
{
    if !has_boundary(s, p) {
        // No boundary point matches p, so both bounds are strict.
        assert(!rat_eqv(s[2 * i].pos, p));
        assert(!rat_eqv(s[2 * i + 1].pos, p));
        assert(rat_lt(s[2 * i].pos, p));
        assert(rat_lt(p, s[2 * i + 1].pos));
        // Everything at or before the entering point lies strictly below p,
        // everything at or after the exiting point does not.
        assert forall|j: int| 0 <= j < 2 * i + 1 implies rat_lt(#[trigger] s[j].pos, p) by {
            if j < 2 * i {
                assert(!lp_key_lt(s[2 * i], s[j]));
                lemma_rat_le_lt_trans(s[j].pos, s[2 * i].pos, p);
            }
        }
        assert forall|j: int| 2 * i + 1 <= j < s.len() implies !rat_lt(
            #[trigger] s[j].pos,
            p,
        ) by {
            if j > 2 * i + 1 {
                assert(!lp_key_lt(s[j], s[2 * i + 1]));
            }
            assert(rat_le(s[2 * i + 1].pos, s[j].pos));
            if rat_lt(s[j].pos, p) {
                lemma_rat_le_lt_trans(s[2 * i + 1].pos, s[j].pos, p);
            }
        }
        lemma_count_below_split(s, p, 2 * i + 1);
        assert(s[2 * i].dir == ((2 * i) % 2 == 0));
    }
}

proof fn lemma_rat_eqv_le_trans(a: RatV, b: RatV, c: RatV)
    requires
        rat_wf(a),
        rat_wf(b),
        rat_wf(c),
        rat_eqv(a, b),
        rat_le(b, c),
    ensures
        rat_le(a, c),
{
    assert(a.n * c.d <= c.n * a.d) by (nonlinear_arith)
        requires
            a.d > 0,
            b.d > 0,
            c.d > 0,
            a.n * b.d == b.n * a.d,
            b.n * c.d <= c.n * b.d,
    {
    }
}

proof fn lemma_rat_le_eqv_trans(a: RatV, b: RatV, c: RatV)
    requires
        rat_wf(a),
        rat_wf(b),
        rat_wf(c),
        rat_le(a, b),
        rat_eqv(b, c),
    ensures
        rat_le(a, c),
{
    assert(a.n * c.d <= c.n * a.d) by (nonlinear_arith)
        requires
            a.d > 0,
            b.d > 0,
            c.d > 0,
            a.n * b.d <= b.n * a.d,
            b.n * c.d == c.n * b.d,
    {
    }
}

/// For a sorted sequence, the points counted below `p` are exactly a
/// prefix: everything before index `count_below` lies strictly below `p`
/// and everything from it on does not.
proof fn lemma_count_below_inverse(s: Seq<LinePointV>, p: RatV)
    requires
        forall|j: int| 0 <= j < s.len() ==> rat_wf(#[trigger] s[j].pos),
        rat_wf(p),
        lp_sorted(s),
    ensures
        0 <= count_below(s, p) <= s.len(),
        forall|j: int| 0 <= j < count_below(s, p) ==> rat_lt(#[trigger] s[j].pos, p),
        forall|j: int| count_below(s, p) <= j < s.len() ==> !rat_lt(#[trigger] s[j].pos, p),
    decreases s.len(),
{
    if s.len() > 0 {
        let last = s[s.len() - 1];
        if rat_lt(last.pos, p) {
            // Everything sorts at or below the last point, hence below p.
            assert forall|j: int| 0 <= j < s.len() implies rat_lt(#[trigger] s[j].pos, p) by {
                if j < s.len() - 1 {
                    assert(!lp_key_lt(s[s.len() - 1], s[j]));
                    lemma_rat_le_lt_trans(s[j].pos, last.pos, p);
                }
            }
            lemma_count_below_split(s, p, s.len() as int);
        } else {
            let t = s.drop_last();
            assert(forall|j: int| 0 <= j < t.len() ==> t[j] == s[j]);
            lemma_count_below_inverse(t, p);
        }
    }
}

/// **Inside positions lie in a closed cell.**  Any position a valid region
/// reports inside lies between the entering and the exiting point of one of
/// its cells, endpoints included.
pub proof fn lemma_inside_closed_cell(s: Seq<LinePointV>, p: RatV)
    requires
        region1d_valid(s),
        lp_sorted(s),
        rat_wf(p),
        forall|j: int| 0 <= j < s.len() ==> rat_wf(#[trigger] s[j].pos),
        spec_r1_inside(s, p),
    ensures
        exists|i: int|
            0 <= 2 * i && 2 * i + 1 < s.len() && rat_le(#[trigger] s[2 * i].pos, p) && rat_le(
                p,
                s[2 * i + 1].pos,
            ),
{
    if has_boundary(s, p) {
        let j = choose|j: int| 0 <= j < s.len() && rat_eqv(s[j].pos, p);
        if j % 2 == 0 {
            let i = j / 2;
            assert(2 * i == j);
            assert(j + 1 < s.len());
            assert(!lp_key_lt(s[j + 1], s[j]));
            assert(rat_le(s[j].pos, s[j + 1].pos));
            assert(rat_le(s[j].pos, p));
            lemma_rat_eqv_le_trans(p, s[j].pos, s[j + 1].pos);
            assert(rat_le(s[2 * i].pos, p) && rat_le(p, s[2 * i + 1].pos));
        } else {
            let i = (j - 1) / 2;
            assert(2 * i == j - 1);
            assert(!lp_key_lt(s[j], s[j - 1]));
            assert(rat_le(s[j - 1].pos, s[j].pos));
            lemma_rat_le_eqv_trans(s[j - 1].pos, s[j].pos, p);
            assert(rat_le(p, s[j].pos));
            assert(rat_le(s[2 * i].pos, p) && rat_le(p, s[2 * i + 1].pos));
        }
    } else {
        let c = count_below(s, p);
        lemma_count_below_inverse(s, p);
        assert(c > 0 && s[c - 1].dir);
        assert((c - 1) % 2 == 0);
        if c == s.len() {
            assert(s[c - 1].dir == ((c - 1) % 2 == 0));
            assert((s.len() - 1) % 2 == 1int);
            assert(false);
        }
        let i = (c - 1) / 2;
        assert(2 * i == c - 1);
        assert(rat_lt(s[c - 1].pos, p));
        assert(!rat_lt(s[c].pos, p));
        assert(rat_le(s[2 * i].pos, p) && rat_le(p, s[2 * i + 1].pos));
    }
}

/// Exec comparison in the sort order.
fn lp_lt(a: &LinePoint, b: &LinePoint) -> (r: bool)
    ensures
        r == lp_key_lt(a@, b@),
{
    a.pos.lt(&b.pos) || (a.pos.eq_val(&b.pos) && !a.dir && b.dir)
}

fn insert_sorted(v: Vec<LinePoint>, x: LinePoint) -> (r: Vec<LinePoint>)
    ensures
        lps_view(r@) == spec_insert(lps_view(v@), x@),
    decreases v@.len(),
{
    let ghost orig = lps_view(v@);
    let mut v = v;
    if v.len() == 0 {
        v.push(x);
        proof {
            assert(orig =~= Seq::<LinePointV>::empty());
            assert(lps_view(v@) =~= spec_insert(orig, x@));
        }
        v
    } else if lp_lt(&x, &v[0]) {
        v.insert(0, x);
        proof {
            assert(lps_view(v@) =~= spec_insert(orig, x@));
        }
        v
    } else {
        let ghost s0 = lps_view(v@);
        let h = v.remove(0);
        proof {
            assert(lps_view(v@) =~= s0.subrange(1, s0.len() as int));
        }
        let mut r = insert_sorted(v, x);
        r.insert(0, h);
        proof {
            assert(lps_view(r@) =~= spec_insert(s0, x@));
        }
        r
    }
}

fn sort_points(v: Vec<LinePoint>) -> (r: Vec<LinePoint>)
    ensures
        lps_view(r@) == spec_sort(lps_view(v@)),
    decreases v@.len(),
{
    let mut v = v;
    if v.len() == 0 {
        proof {
            assert(lps_view(v@) =~= Seq::<LinePointV>::empty());
        }
        v
    } else {
        let ghost s0 = lps_view(v@);
        let h = v.remove(0);
        proof {
            assert(lps_view(v@) =~= s0.subrange(1, s0.len() as int));
        }
        let rest = sort_points(v);
        insert_sorted(rest, h)
    }
}

/// A 1-dimensional boundary region: a sorted, alternating sequence of
/// boundary points, one entering/exiting pair per interval.
pub struct Region1D {
    points: Vec<LinePoint>,
}

/// Which boundary points of each of two regions lie inside the other.
pub struct RegionIntersection1D {
    pub r1_inside: Vec<usize>,
    pub r2_inside: Vec<usize>,
}

impl View for Region1D {
    type V = Seq<LinePointV>;

    closed spec fn view(&self) -> Seq<LinePointV> {
        lps_view(self.points@)
    }
}

impl Region1D {
    #[verifier::type_invariant]
    pub open spec fn type_inv(self) -> bool {
        region1d_valid(self@)
    }

    /// The empty region.
    pub fn empty() -> (r: Region1D)
        ensures
            r@ == Seq::<LinePointV>::empty(),
    {
        let points: Vec<LinePoint> = Vec::new();
        proof {
            assert(lps_view(points@) =~= Seq::<LinePointV>::empty());
        }
        Region1D { points }
    }

    /// Sort the given boundary points and validate the alternation rule;
    /// succeeds exactly when the sorted sequence is a valid region, and the
    /// region then holds exactly that sorted sequence.
    pub fn new(points: Vec<LinePoint>) -> (r: Option<Region1D>)
        ensures
            opt_region_view(r) == spec_region1d_new(lps_view(points@)),
    {
        let sorted = sort_points(points);
        let ghost s = lps_view(sorted@);
        let n = sorted.len();
        let mut i: usize = 0;
        while i < n
            invariant
                n == s.len(),
                s == lps_view(sorted@),
                s == spec_sort(lps_view(points@)),
                0 <= i <= n,
                forall|j: int| 0 <= j < i ==> s[j].dir == (j % 2 == 0),
            decreases n - i,
        {
            let expect = i % 2 == 0;
            if sorted[i].dir != expect {
                proof {
                    assert(s[i as int].dir != ((i as int) % 2 == 0));
                    assert(!region1d_valid(s));
                }
                return None;
            }
            i += 1;
        }
        if n % 2 != 0 {
            proof {
                assert(s == spec_sort(lps_view(points@)));
                assert(s.len() % 2 != 0);
                assert(!region1d_valid(s));
            }
            return None;
        }
        Some(Region1D { points: sorted })
    }

    /// The boundary points, sorted and alternating.
    pub fn points(&self) -> (r: &Vec<LinePoint>)
        ensures
            lps_view(r@) == self@,
    {
        &self.points
    }

    /// The number of boundary points.
    pub fn len(&self) -> (r: usize)
        ensures
            r == self@.len(),
    {
        self.points.len()
    }

    /// The index pairs of the region's intervals: `(2i, 2i + 1)` for each
    /// interval `i`.
    pub fn cells(&self) -> (r: Vec<(usize, usize)>)
        ensures
            r@.len() == self@.len() / 2,
            forall|i: int|
                0 <= i < r@.len() ==> r@[i].0 == 2 * i && r@[i].1 == 2 * i + 1,
    {
        proof {
            use_type_invariant(self);
        }
        let half = self.points.len() / 2;
        let mut r: Vec<(usize, usize)> = Vec::new();
        let mut i: usize = 0;
        while i < half
            invariant
                half == self@.len() / 2,
                2 * half <= usize::MAX,
                0 <= i <= half,
                r@.len() == i,
                forall|j: int| 0 <= j < i ==> r@[j].0 == 2 * j && r@[j].1 == 2 * j + 1,
            decreases half - i,
        {
            r.push((2 * i, 2 * i + 1));
            i += 1;
        }
        r
    }

    /// Whether the 1-dimensional position `pos` lies inside the region.
    pub fn inside(&self, pos: &Scalar) -> (r: bool)
        ensures
            r == spec_r1_inside(self@, pos@),
    {
        let ghost s = self@;
        let n = self.points.len();
        let mut i: usize = 0;
        while i < n
            invariant
                n == s.len(),
                s == self@,
                0 <= i <= n,
                forall|j: int| 0 <= j < i ==> !rat_eqv(s[j].pos, pos@),
            decreases n - i,
        {
            if self.points[i].pos.eq_val(pos) {
                proof {
                    assert(rat_eqv(s[i as int].pos, pos@));
                    assert(has_boundary(s, pos@));
                }
                return true;
            }
            i += 1;
        }
        assert(!has_boundary(s, pos@));
        let mut c: usize = 0;
        let mut i: usize = 0;
        while i < n
            invariant
                n == s.len(),
                s == self@,
                0 <= i <= n,
                c <= i,
                c == count_below(s.take(i as int), pos@),
            decreases n - i,
        {
            proof {
                assert(s.take(i + 1).drop_last() =~= s.take(i as int));
                assert(s.take(i + 1).last() == s[i as int]);
            }
            if self.points[i].pos.lt(pos) {
                c += 1;
            }
            i += 1;
        }
        proof {
            assert(s.take(n as int) =~= s);
        }
        if c > 0 {
            self.points[c - 1].dir
        } else {
            false
        }
    }

    /// Which of this region's boundary points lie inside `other`, and which
    /// of `other`'s lie inside this region.
    pub fn intersection(&self, other: &Region1D) -> (r: RegionIntersection1D)
        ensures
            r.r1_inside@ == inside_indices(self@, other@, self@.len() as int),
            r.r2_inside@ == inside_indices(other@, self@, other@.len() as int),
    {
        let r1_inside = inside_points(self, other);
        let r2_inside = inside_points(other, self);
        RegionIntersection1D { r1_inside, r2_inside }
    }

    /// The literal containment rule of this kernel: `other` is counted as
    /// contained when none of `self`'s own boundary points lies inside
    /// `other`.
    pub fn contains(&self, other: &Region1D) -> (r: bool)
        ensures
            r == spec_r1_contains(self@, other@),
    {
        self.intersection(other).r1_inside.len() == 0
    }
}

fn inside_points(a: &Region1D, b: &Region1D) -> (r: Vec<usize>)
    ensures
        r@ == inside_indices(a@, b@, a@.len() as int),
{
    let pts = a.points();
    let n = pts.len();
    let mut r: Vec<usize> = Vec::new();
    let mut i: usize = 0;
    while i < n
        invariant
            n == a@.len(),
            lps_view(pts@) == a@,
            r@ == inside_indices(a@, b@, i as int),
            0 <= i <= n,
        decreases n - i,
    {
        if b.inside(&pts[i].pos) {
            r.push(i);
        }
        proof {
            if spec_r1_inside(b@, a@[i as int].pos) {
                assert(r@ =~= inside_indices(a@, b@, i as int) + seq![i]);
            } else {
                assert(r@ =~= inside_indices(a@, b@, i as int) + Seq::<usize>::empty());
            }
        }
        i += 1;
    }
    r
}

} // verus!
