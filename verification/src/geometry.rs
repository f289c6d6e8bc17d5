//! Points of the canvas and the two measurements the curve engine takes of
//! them: squared distance and the quarter point of a segment.

use vstd::arithmetic::div_mod::{
    lemma_fundamental_div_mod, lemma_mod_breakdown, lemma_mod_multiples_basic,
};
use vstd::prelude::*;

verus! {

/// Coordinate steps per canvas unit.
///
/// Coordinates are fixed-point numbers with fourteen fractional bits. One
/// round of corner cutting divides by four, so it uses up two of them; seven
/// rounds on control points placed at whole canvas units never round.
pub const UNIT: u32 = 16384;

/// Width of the canvas, 1024 canvas units.
pub const WIDTH: u32 = 1024 * UNIT;

/// Height of the canvas, 860 canvas units.
pub const HEIGHT: u32 = 860 * UNIT;

/// Radius, 10 canvas units, within which a click hits a control point and
/// within which the last control point closes the curve onto the first.
pub const CLICK_RADIUS: u32 = 10 * UNIT;

/// A point of the canvas, in coordinate steps.
#[derive(Clone, Copy, Debug, PartialEq, Eq, Structural)]
pub struct Pt {
    pub x: u32,
    pub y: u32,
}

/// The square of `d`.
pub open spec fn sq(d: int) -> int {
    d * d
}

/// How far `a` and `b` lie apart on the number line.
pub open spec fn spec_abs_diff(a: int, b: int) -> int {
    if a >= b {
        a - b
    } else {
        b - a
    }
}

/// The squared Euclidean distance between `a` and `b`.
pub open spec fn spec_dist2(a: Pt, b: Pt) -> int {
    sq(spec_abs_diff(a.x as int, b.x as int)) + sq(spec_abs_diff(a.y as int, b.y as int))
}

/// The coordinate a quarter of the way from `a` to `b`, rounded down.
pub open spec fn quarter(a: int, b: int) -> int {
    (3 * a + b) / 4
}

/// The point a quarter of the way from `p0` to `p1`.
pub open spec fn spec_cut(p0: Pt, p1: Pt) -> Pt {
    Pt { x: quarter(p0.x as int, p1.x as int) as u32, y: quarter(p0.y as int, p1.y as int) as u32 }
}

/// A quarter point lies between the two coordinates it is taken of, and
/// rounding moves it by less than one coordinate step.
pub proof fn lemma_quarter_between(a: int, b: int)
    ensures
        a <= b ==> a <= quarter(a, b) <= b,
        b <= a ==> b <= quarter(a, b) <= a,
        0 <= 3 * a + b - 4 * quarter(a, b) <= 3,
{
}

/// Whether both coordinates of `p` are multiples of `grid`.
pub open spec fn on_grid(p: Pt, grid: int) -> bool {
    (p.x as int) % grid == 0 && (p.y as int) % grid == 0
}

/// Whether `q` is the quarter point from `p0` to `p1` with nothing rounded
/// away.
pub open spec fn is_exact_cut(p0: Pt, p1: Pt, q: Pt) -> bool {
    4 * q.x == 3 * p0.x + p1.x && 4 * q.y == 3 * p0.y + p1.y
}

proof fn lemma_quarter_on_grid(a: int, b: int, grid: int)
    requires
        grid >= 1,
        a % (4 * grid) == 0,
        b % (4 * grid) == 0,
    ensures
        4 * quarter(a, b) == 3 * a + b,
        quarter(a, b) % grid == 0,
{
    let ka = a / (4 * grid);
    let kb = b / (4 * grid);
    lemma_fundamental_div_mod(a, 4 * grid);
    lemma_fundamental_div_mod(b, 4 * grid);
    let m = (3 * ka + kb) * grid;
    assert(3 * a + b == 4 * m) by (nonlinear_arith)
        requires
            a == (4 * grid) * ka,
            b == (4 * grid) * kb,
            m == (3 * ka + kb) * grid,
    ;
    lemma_mod_multiples_basic(3 * ka + kb, grid);
}

proof fn lemma_on_coarser_multiple(p: Pt, grid: int, times: int)
    requires
        grid >= 1,
        times >= 1,
        on_grid(p, grid * times),
    ensures
        on_grid(p, grid),
{
    lemma_mod_breakdown(p.x as int, grid, times);
    lemma_mod_breakdown(p.y as int, grid, times);
    assert((p.x as int) % grid >= 0 && (p.y as int) % grid >= 0);
    assert(grid * (((p.x as int) / grid) % times) >= 0 && grid * (((p.y as int) / grid) % times)
        >= 0) by (nonlinear_arith)
        requires
            grid >= 1,
            ((p.x as int) / grid) % times >= 0,
            ((p.y as int) / grid) % times >= 0,
    ;
}

/// A point on a grid of four times `grid` lies on the grid of `grid`.
pub proof fn lemma_on_finer_grid(p: Pt, grid: int)
    requires
        grid >= 1,
        on_grid(p, 4 * grid),
    ensures
        on_grid(p, grid),
{
    assert(grid * 4 == 4 * grid);
    lemma_on_coarser_multiple(p, grid, 4);
}

/// Between points on a grid of four times `grid` the quarter point is exact
/// and lies on the grid of `grid`.
pub proof fn lemma_cut_on_grid(p0: Pt, p1: Pt, grid: int)
    requires
        grid >= 1,
        on_grid(p0, 4 * grid),
        on_grid(p1, 4 * grid),
    ensures
        is_exact_cut(p0, p1, spec_cut(p0, p1)),
        on_grid(spec_cut(p0, p1), grid),
{
    lemma_quarter_on_grid(p0.x as int, p1.x as int, grid);
    lemma_quarter_on_grid(p0.y as int, p1.y as int, grid);
    lemma_quarter_between(p0.x as int, p1.x as int);
    lemma_quarter_between(p0.y as int, p1.y as int);
}

impl Pt {
    /// The point at `x` steps across and `y` steps down.
    pub fn new(x: u32, y: u32) -> (p: Pt)
        ensures
            p == (Pt { x, y }),
    {
        Pt { x, y }
    }
}

/// A copy of the first `n` of `points`.
pub(crate) fn copy_prefix(points: &[Pt], n: usize) -> (out: Vec<Pt>)
    requires
        n <= points@.len(),
    ensures
        out@ == points@.take(n as int),
{
    let mut out: Vec<Pt> = Vec::new();
    let mut i: usize = 0;
    while i < n
        invariant
            i <= n <= points@.len(),
            out@ == points@.take(i as int),
        decreases n - i,
    {
        out.push(points[i]);
        i += 1;
    }
    out
}

/// A copy of `points`.
pub(crate) fn copy_points(points: &[Pt]) -> (out: Vec<Pt>)
    ensures
        out@ == points@,
{
    copy_prefix(points, points.len())
}

fn abs_diff(a: u32, b: u32) -> (d: u64)
    ensures
        d == spec_abs_diff(a as int, b as int),
{
    if a >= b {
        (a - b) as u64
    } else {
        (b - a) as u64
    }
}

/// Squared distance between two points. Radius tests compare it with a
/// squared radius, so no square root is ever taken.
pub fn dist2(a: Pt, b: Pt) -> (d: u128)
    ensures
        d == spec_dist2(a, b),
{
    let dx: u64 = abs_diff(a.x, b.x);
    let dy: u64 = abs_diff(a.y, b.y);
    assert(dx * dx <= 0xFFFF_FFFF * 0xFFFF_FFFF) by (nonlinear_arith)
        requires
            dx <= 0xFFFF_FFFF,
    ;
    assert(dy * dy <= 0xFFFF_FFFF * 0xFFFF_FFFF) by (nonlinear_arith)
        requires
            dy <= 0xFFFF_FFFF,
    ;
    (dx * dx) as u128 + (dy * dy) as u128
}

/// Whether `a` and `b` lie within `radius` of each other, the rim included.
pub open spec fn spec_within(a: Pt, b: Pt, radius: u32) -> bool {
    spec_dist2(a, b) <= sq(radius as int)
}

/// Whether `a` and `b` lie within `radius` of each other, the rim included.
pub fn within(a: Pt, b: Pt, radius: u32) -> (hit: bool)
    ensures
        hit == spec_within(a, b, radius),
{
    assert(radius * radius <= 0xFFFF_FFFF * 0xFFFF_FFFF) by (nonlinear_arith)
        requires
            0 <= radius <= 0xFFFF_FFFF,
    ;
    let r2: u64 = (radius as u64) * (radius as u64);
    dist2(a, b) <= r2 as u128
}

/// The point a quarter of the way from `p0` to `p1`: three parts `p0`, one
/// part `p1`.
pub fn cut(p0: Pt, p1: Pt) -> (q: Pt)
    ensures
        q == spec_cut(p0, p1),
        q.x == quarter(p0.x as int, p1.x as int),
        q.y == quarter(p0.y as int, p1.y as int),
{
    proof {
        lemma_quarter_between(p0.x as int, p1.x as int);
        lemma_quarter_between(p0.y as int, p1.y as int);
    }
    let x: u64 = (3 * (p0.x as u64) + p1.x as u64) / 4;
    let y: u64 = (3 * (p0.y as u64) + p1.y as u64) / 4;
    Pt { x: x as u32, y: y as u32 }
}

} // verus!
