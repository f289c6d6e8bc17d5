//! One round of Chaikin corner cutting, for open paths and closed polygons.

use vstd::prelude::*;
use crate::geometry::{
    copy_points, cut, lemma_cut_on_grid, lemma_on_finer_grid, on_grid, spec_cut, Pt,
};

verus! {

/// One round of corner cutting around a closed polygon: every edge, the one
/// from the last point back to the first included, gives its two quarter
/// points, in the order of the edges.
pub open spec fn chaikin_closed(s: Seq<Pt>) -> Seq<Pt> {
    Seq::new(
        (2 * s.len()) as nat,
        |j: int|
            {
                let p0 = s[j / 2];
                let p1 = s[(j / 2 + 1) % (s.len() as int)];
                if j % 2 == 0 {
                    spec_cut(p0, p1)
                } else {
                    spec_cut(p1, p0)
                }
            },
    )
}

/// One round of corner cutting along an open path: the first point, the two
/// quarter points of every edge in order, and the last point.
pub open spec fn chaikin_open(s: Seq<Pt>) -> Seq<Pt> {
    Seq::new(
        (2 * s.len()) as nat,
        |j: int|
            if j == 0 {
                s[0]
            } else if j == 2 * s.len() - 1 {
                s[s.len() - 1]
            } else if (j - 1) % 2 == 0 {
                spec_cut(s[(j - 1) / 2], s[(j - 1) / 2 + 1])
            } else {
                spec_cut(s[(j - 1) / 2 + 1], s[(j - 1) / 2])
            },
    )
}

/// One round of corner cutting. Fewer than two points have no edge to cut,
/// and an open path of two points is a straight segment with no corner: both
/// come back unchanged.
pub open spec fn chaikin(s: Seq<Pt>, closed: bool) -> Seq<Pt> {
    if s.len() < 2 {
        s
    } else if closed {
        chaikin_closed(s)
    } else if s.len() == 2 {
        s
    } else {
        chaikin_open(s)
    }
}

/// `s` read cyclically from its second point on: the first point moves to
/// the end.
pub open spec fn rotate_left(s: Seq<Pt>) -> Seq<Pt> {
    if s.len() == 0 {
        s
    } else {
        s.subrange(1, s.len() as int).push(s[0])
    }
}

/// The number of points after one round of corner cutting: twice as many,
/// except where the points come back unchanged.
pub proof fn lemma_chaikin_len(s: Seq<Pt>, closed: bool)
    ensures
        chaikin(s, closed).len() == if s.len() < 2 || (!closed && s.len() == 2) {
            s.len()
        } else {
            2 * s.len()
        },
{
}

/// What one round makes of edge `i` of a closed polygon, the edge from point
/// `i` to the next one around: the quarter point near its start, then the
/// quarter point near its end, at positions `2 * i` and `2 * i + 1`.
pub proof fn lemma_closed_edge(s: Seq<Pt>, i: int)
    requires
        s.len() >= 2,
        0 <= i < s.len(),
    ensures
        chaikin(s, true).len() == 2 * s.len(),
        chaikin(s, true)[2 * i] == spec_cut(s[i], s[(i + 1) % (s.len() as int)]),
        chaikin(s, true)[2 * i + 1] == spec_cut(s[(i + 1) % (s.len() as int)], s[i]),
{
}

/// What one round makes of edge `i` of an open path of three points or more,
/// the edge from point `i` to point `i + 1`: the quarter point near its
/// start, then the quarter point near its end, at positions `2 * i + 1` and
/// `2 * i + 2`, after the first point of the path.
pub proof fn lemma_open_edge(s: Seq<Pt>, i: int)
    requires
        s.len() >= 3,
        0 <= i < s.len() - 1,
    ensures
        chaikin(s, false).len() == 2 * (s.len() - 1) + 2,
        chaikin(s, false)[2 * i + 1] == spec_cut(s[i], s[i + 1]),
        chaikin(s, false)[2 * i + 2] == spec_cut(s[i + 1], s[i]),
{
}

/// Corner cutting of an open path keeps its two end points.
pub proof fn lemma_open_keeps_endpoints(s: Seq<Pt>)
    requires
        s.len() >= 1,
    ensures
        chaikin(s, false).len() >= 1,
        chaikin(s, false)[0] == s[0],
        chaikin(s, false).last() == s.last(),
{
}

proof fn lemma_succ_mod(i: int, n: int)
    requires
        0 <= i < n,
    ensures
        (i + 1) % n == if i + 1 < n {
            i + 1
        } else {
            0
        },
{
    if i + 1 < n {
        vstd::arithmetic::div_mod::lemma_small_mod((i + 1) as nat, n as nat);
    } else {
        vstd::arithmetic::div_mod::lemma_mod_self_0(n);
    }
}

/// Corner cutting of a closed polygon has no privileged start: cutting the
/// polygon read from its second point on gives the same cut polygon, read
/// from its third point on.
pub proof fn lemma_closed_rotation(s: Seq<Pt>)
    ensures
        chaikin(rotate_left(s), true) == rotate_left(rotate_left(chaikin(s, true))),
{
    let n = s.len() as int;
    let r = rotate_left(s);
    if n < 2 {
        assert(r =~= s);
    } else {
        let c = chaikin_closed(s);
        let lhs = chaikin_closed(r);
        let rc = rotate_left(c);
        let rhs = rotate_left(rc);
        assert forall|j: int| 0 <= j < 2 * n implies lhs[j] == rhs[j] by {
            let i = j / 2;
            let i1 = if i + 1 < n {
                i + 1
            } else {
                0
            };
            let i2 = if i1 + 1 < n {
                i1 + 1
            } else {
                0
            };
            lemma_succ_mod(i, n);
            lemma_succ_mod(i1, n);
            assert(r[i] == s[i1]);
            assert(r[i1] == s[i2]);
            let j1 = if j + 1 < 2 * n {
                j + 1
            } else {
                0
            };
            let j2 = if j1 + 1 < 2 * n {
                j1 + 1
            } else {
                0
            };
            assert(rhs[j] == rc[j1]);
            assert(rc[j1] == c[j2]);
            assert(j2 / 2 == i1);
            assert(j2 % 2 == j % 2);
        }
        assert(lhs =~= rhs);
    }
}

/// Rotating a sequence keeps its set of points.
pub proof fn lemma_rotate_same_points(s: Seq<Pt>)
    ensures
        rotate_left(s).to_set() == s.to_set(),
{
    let r = rotate_left(s);
    let n = s.len() as int;
    assert forall|x: Pt| r.to_set().contains(x) <==> s.to_set().contains(x) by {
        if r.contains(x) {
            let i = choose|i: int| 0 <= i < r.len() && r[i] == x;
            if i + 1 < n {
                assert(s[i + 1] == x);
            } else {
                assert(s[0] == x);
            }
        }
        if s.contains(x) {
            let i = choose|i: int| 0 <= i < s.len() && s[i] == x;
            if i == 0 {
                assert(r[n - 1] == x);
            } else {
                assert(r[i - 1] == x);
            }
        }
    }
    assert(r.to_set() =~= s.to_set());
}

/// Rotating a closed polygon by one position before cutting its corners
/// gives the same set of points.
pub proof fn lemma_closed_rotation_same_points(s: Seq<Pt>)
    ensures
        chaikin(rotate_left(s), true).to_set() == chaikin(s, true).to_set(),
{
    lemma_closed_rotation(s);
    lemma_rotate_same_points(chaikin(s, true));
    lemma_rotate_same_points(rotate_left(chaikin(s, true)));
}

/// Whether every point of `s` lies on the grid of `grid` coordinate steps.
pub open spec fn all_on_grid(s: Seq<Pt>, grid: int) -> bool {
    forall|i: int| 0 <= i < s.len() ==> on_grid(#[trigger] s[i], grid)
}

/// One round of corner cutting uses up a factor four of the grid: points on
/// a grid of four times `grid` are cut without rounding, into points on the
/// grid of `grid`.
pub proof fn lemma_chaikin_on_grid(s: Seq<Pt>, closed: bool, grid: int)
    requires
        grid >= 1,
        all_on_grid(s, 4 * grid),
    ensures
        all_on_grid(chaikin(s, closed), grid),
{
    let n = s.len() as int;
    let out = chaikin(s, closed);
    assert forall|j: int| 0 <= j < out.len() implies on_grid(#[trigger] out[j], grid) by {
        if n < 2 || (!closed && n == 2) {
            lemma_on_finer_grid(s[j], grid);
        } else if closed {
            let i = j / 2;
            lemma_succ_mod(i, n);
            let i1 = (i + 1) % n;
            lemma_cut_on_grid(s[i], s[i1], grid);
            lemma_cut_on_grid(s[i1], s[i], grid);
        } else if j == 0 || j == 2 * n - 1 {
            lemma_on_finer_grid(s[0], grid);
            lemma_on_finer_grid(s[n - 1], grid);
        } else {
            let i = (j - 1) / 2;
            lemma_cut_on_grid(s[i], s[i + 1], grid);
            lemma_cut_on_grid(s[i + 1], s[i], grid);
        }
    }
}

fn step_closed(points: &[Pt]) -> (out: Vec<Pt>)
    requires
        points@.len() >= 2,
    ensures
        out@ == chaikin_closed(points@),
{
    let n: usize = points.len();
    let mut out: Vec<Pt> = Vec::new();
    let mut i: usize = 0;
    while i < n
        invariant
            n == points@.len(),
            n >= 2,
            i <= n,
            out@.len() == 2 * i,
            forall|j: int| 0 <= j < 2 * i ==> out@[j] == chaikin_closed(points@)[j],
        decreases n - i,
    {
        let p0: Pt = points[i];
        let p1: Pt = points[(i + 1) % n];
        out.push(cut(p0, p1));
        out.push(cut(p1, p0));
        i += 1;
    }
    out
}

fn step_open(points: &[Pt]) -> (out: Vec<Pt>)
    requires
        points@.len() >= 3,
    ensures
        out@ == chaikin_open(points@),
{
    let n: usize = points.len();
    let mut out: Vec<Pt> = Vec::new();
    out.push(points[0]);
    let mut i: usize = 0;
    while i < n - 1
        invariant
            n == points@.len(),
            n >= 3,
            i <= n - 1,
            out@.len() == 2 * i + 1,
            forall|j: int| 0 <= j < 2 * i + 1 ==> out@[j] == chaikin_open(points@)[j],
        decreases n - i,
    {
        let p0: Pt = points[i];
        let p1: Pt = points[i + 1];
        out.push(cut(p0, p1));
        out.push(cut(p1, p0));
        i += 1;
    }
    out.push(points[n - 1]);
    out
}

/// One round of Chaikin corner cutting of `points`, as a closed polygon when
/// `closed` is set and as an open path otherwise.
pub fn chaikin_step(points: &[Pt], closed: bool) -> (out: Vec<Pt>)
    ensures
        out@ == chaikin(points@, closed),
        !closed && points@.len() >= 1 ==> out@.len() >= 1 && out@[0] == points@[0] && out@[out@.len()
            - 1] == points@[points@.len() - 1],
{
    let n: usize = points.len();
    if n < 2 {
        copy_points(points)
    } else if closed {
        step_closed(points)
    } else if n == 2 {
        copy_points(points)
    } else {
        step_open(points)
    }
}

} // verus!
