//! Closedness detection and the cache of refinement levels.
//!
//! A curve is treated as closed when its last control point has been brought
//! onto its first. The cache holds the control points, without that duplicate
//! closing point, and every refinement of them up to a fixed depth.

use vstd::arithmetic::power::{lemma_pow0, lemma_pow_adds, lemma_pow_positive, pow};
use vstd::arithmetic::power2::{lemma2_to64, lemma_pow2_pos, lemma_pow2_unfold, pow2};
use vstd::prelude::*;
use crate::geometry::{copy_points, copy_prefix, spec_within, within, Pt, CLICK_RADIUS, UNIT};
use crate::subdivision::{
    all_on_grid, chaikin, chaikin_step, lemma_chaikin_on_grid, lemma_closed_rotation,
    lemma_rotate_same_points, rotate_left,
};

verus! {

/// Number of refinement rounds the editor keeps; its cache has one level more.
pub const MAX_STEPS: usize = 7;

/// Whether the last point of `s` lies within the click radius of the first.
pub open spec fn ends_near(s: Seq<Pt>) -> bool {
    s.len() > 0 && spec_within(s[0], s[s.len() - 1], CLICK_RADIUS)
}

/// Whether `s` closes on itself: at least three points, the last of them
/// within the click radius of the first.
pub open spec fn closes(s: Seq<Pt>) -> bool {
    s.len() >= 3 && ends_near(s)
}

/// Whether `base` is refined as a closed polygon: when the caller says so
/// with `hint`, and also, whatever the hint, when `base` closes on itself.
pub open spec fn detected_closed(base: Seq<Pt>, hint: bool) -> bool {
    hint || closes(base)
}

/// The points that are refined: `base`, without its last point where the
/// curve is closed and that point only repeats the first.
pub open spec fn normalized(base: Seq<Pt>, hint: bool) -> Seq<Pt> {
    if detected_closed(base, hint) && base.len() >= 2 && ends_near(base) {
        base.take(base.len() - 1)
    } else {
        base
    }
}

/// `start` after `k` rounds of corner cutting.
pub open spec fn level(start: Seq<Pt>, closed: bool, k: nat) -> Seq<Pt>
    decreases k,
{
    if k == 0 {
        start
    } else {
        chaikin(level(start, closed, (k - 1) as nat), closed)
    }
}

/// The refinement levels `0..=max_steps` of `base`: level 0 is the normalized
/// base, each further level is one round of corner cutting of the one before.
pub open spec fn cache_levels(base: Seq<Pt>, max_steps: nat, hint: bool) -> Seq<Seq<Pt>> {
    Seq::new(
        max_steps + 1,
        |k: int| level(normalized(base, hint), detected_closed(base, hint), k as nat),
    )
}

/// The levels held by a cache, each as a sequence of points.
pub open spec fn levels_view(cache: Seq<Vec<Pt>>) -> Seq<Seq<Pt>> {
    Seq::new(cache.len(), |k: int| cache[k]@)
}

/// `s` rotated left `m` times.
pub open spec fn rotate_left_by(s: Seq<Pt>, m: nat) -> Seq<Pt>
    decreases m,
{
    if m == 0 {
        s
    } else {
        rotate_left(rotate_left_by(s, (m - 1) as nat))
    }
}

/// Two caches built of the same points, to the same depth and with the same
/// hint, hold the same points at every level.
pub proof fn lemma_cache_determined(
    first: Seq<Vec<Pt>>,
    second: Seq<Vec<Pt>>,
    base: Seq<Pt>,
    max_steps: nat,
    hint: bool,
)
    requires
        levels_view(first) == cache_levels(base, max_steps, hint),
        levels_view(second) == cache_levels(base, max_steps, hint),
    ensures
        first.len() == second.len(),
        forall|k: int| 0 <= k < first.len() ==> (#[trigger] first[k])@ == second[k]@,
{
    assert(levels_view(first).len() == first.len());
    assert(levels_view(second).len() == second.len());
    assert forall|k: int| 0 <= k < first.len() implies (#[trigger] first[k])@ == second[k]@ by {
        assert(levels_view(first)[k] == first[k]@);
        assert(levels_view(second)[k] == second[k]@);
    }
}

/// Normalizing what has been normalized changes nothing more: no further
/// point is dropped and the closedness stays. The one exception, left out
/// here, is a closed curve whose remaining points still end within the click
/// radius of their first.
pub proof fn lemma_normalize_idempotent(base: Seq<Pt>, hint: bool)
    requires
        !(detected_closed(base, hint) && normalized(base, hint).len() >= 2 && ends_near(
            normalized(base, hint),
        )),
    ensures
        normalized(normalized(base, hint), detected_closed(base, hint)) == normalized(base, hint),
        detected_closed(normalized(base, hint), detected_closed(base, hint)) == detected_closed(
            base,
            hint,
        ),
{
}

/// Every refinement level of an open path starts and ends where the path
/// does.
pub proof fn lemma_open_levels_keep_endpoints(start: Seq<Pt>, k: nat)
    requires
        start.len() >= 1,
    ensures
        level(start, false, k).len() >= 1,
        level(start, false, k)[0] == start[0],
        level(start, false, k).last() == start.last(),
    decreases k,
{
    if k > 0 {
        lemma_open_levels_keep_endpoints(start, (k - 1) as nat);
    }
}

/// Every round of corner cutting doubles the points of a closed polygon:
/// level `k` has `2^k` times the points of level 0. A single point is no
/// polygon and stays a single point.
pub proof fn lemma_closed_levels_double(start: Seq<Pt>, k: nat)
    requires
        start.len() != 1,
    ensures
        level(start, true, k).len() == start.len() * pow2(k),
    decreases k,
{
    if k == 0 {
        lemma2_to64();
    } else {
        lemma_closed_levels_double(start, (k - 1) as nat);
        lemma_pow2_unfold(k);
        lemma_pow2_pos((k - 1) as nat);
        let m = pow2((k - 1) as nat);
        assert(start.len() * (2 * m) == 2 * (start.len() * m)) by (nonlinear_arith);
        assert(start.len() >= 2 ==> start.len() * m >= 2) by (nonlinear_arith)
            requires
                m >= 1,
        ;
        assert(start.len() == 0 ==> start.len() * m == 0) by (nonlinear_arith);
    }
}

proof fn lemma_rotate_by_same_points(s: Seq<Pt>, m: nat)
    ensures
        rotate_left_by(s, m).to_set() == s.to_set(),
    decreases m,
{
    if m > 0 {
        lemma_rotate_by_same_points(s, (m - 1) as nat);
        lemma_rotate_same_points(rotate_left_by(s, (m - 1) as nat));
    }
}

proof fn lemma_closed_rotation_by(s: Seq<Pt>, m: nat)
    ensures
        chaikin(rotate_left_by(s, m), true) == rotate_left_by(chaikin(s, true), 2 * m),
    decreases m,
{
    if m > 0 {
        lemma_closed_rotation_by(s, (m - 1) as nat);
        lemma_closed_rotation(rotate_left_by(s, (m - 1) as nat));
        assert(rotate_left_by(chaikin(s, true), 2 * m) == rotate_left(
            rotate_left_by(chaikin(s, true), (2 * m - 1) as nat),
        ));
        assert(rotate_left_by(chaikin(s, true), (2 * m - 1) as nat) == rotate_left(
            rotate_left_by(chaikin(s, true), (2 * m - 2) as nat),
        ));
    }
}

/// Rotating a closed polygon by one position rotates its `k`-th refinement
/// by `2^k` positions.
pub proof fn lemma_closed_levels_rotation(start: Seq<Pt>, k: nat)
    ensures
        level(rotate_left(start), true, k) == rotate_left_by(level(start, true, k), pow2(k)),
    decreases k,
{
    lemma2_to64();
    if k == 0 {
        assert(rotate_left_by(start, 1) == rotate_left(rotate_left_by(start, 0)));
    } else {
        lemma_closed_levels_rotation(start, (k - 1) as nat);
        lemma_pow2_unfold(k);
        lemma_closed_rotation_by(level(start, true, (k - 1) as nat), pow2((k - 1) as nat));
    }
}

/// Rotating a closed polygon by one position leaves the set of points of
/// every refinement level as it was.
pub proof fn lemma_closed_levels_rotation_same_points(start: Seq<Pt>, k: nat)
    ensures
        level(rotate_left(start), true, k).to_set() == level(start, true, k).to_set(),
{
    lemma_closed_levels_rotation(start, k);
    lemma_rotate_by_same_points(level(start, true, k), pow2(k));
}

/// The cache of a curve that closes on itself: its base is the control
/// points without the closing one, and level `k` has `2^k` times as many
/// points.
pub proof fn lemma_closed_cache_doubles(base: Seq<Pt>, max_steps: nat, k: nat)
    requires
        closes(base),
        k <= max_steps,
    ensures
        cache_levels(base, max_steps, false)[k as int].len() == (base.len() - 1) * pow2(k),
{
    lemma_closed_levels_double(normalized(base, false), k);
}

/// The cache of a curve that does not close on itself: every level starts
/// and ends where the control points do.
pub proof fn lemma_open_cache_keeps_endpoints(base: Seq<Pt>, max_steps: nat, k: nat)
    requires
        base.len() >= 1,
        !closes(base),
        k <= max_steps,
    ensures
        cache_levels(base, max_steps, false)[k as int].len() >= 1,
        cache_levels(base, max_steps, false)[k as int][0] == base[0],
        cache_levels(base, max_steps, false)[k as int].last() == base.last(),
{
    lemma_open_levels_keep_endpoints(base, k);
}

/// Every round of corner cutting uses up a factor four of the grid: the
/// `k`-th level of points on a grid of `4^k` times `grid` lies on the grid of
/// `grid`, and no quarter point on the way there was rounded.
pub proof fn lemma_levels_on_grid(start: Seq<Pt>, closed: bool, k: nat, grid: int)
    requires
        grid >= 1,
        all_on_grid(start, pow(4, k) * grid),
    ensures
        all_on_grid(level(start, closed, k), grid),
    decreases k,
{
    if k == 0 {
        lemma_pow0(4);
    } else {
        let j = (k - 1) as nat;
        assert(pow(4, k) == 4 * pow(4, j)) by {
            reveal(pow);
        }
        assert(pow(4, k) * grid == pow(4, j) * (4 * grid)) by (nonlinear_arith)
            requires
                pow(4, k) == 4 * pow(4, j),
        ;
        lemma_levels_on_grid(start, closed, j, 4 * grid);
        lemma_chaikin_on_grid(level(start, closed, j), closed, grid);
    }
}

/// Control points at whole canvas units are refined without rounding: level
/// `k` lies on the grid of `4^(MAX_STEPS - k)` coordinate steps, so each of
/// the `MAX_STEPS` rounds cuts points on a grid of four steps or more.
pub proof fn lemma_whole_unit_levels_exact(start: Seq<Pt>, closed: bool, k: nat)
    requires
        all_on_grid(start, UNIT as int),
        k <= MAX_STEPS,
    ensures
        all_on_grid(level(start, closed, k), pow(4, (MAX_STEPS - k) as nat)),
{
    let rest = (MAX_STEPS - k) as nat;
    lemma_pow_positive(4, rest);
    assert(pow(4, 7) == 16384) by {
        reveal_with_fuel(pow, 8);
    }
    lemma_pow_adds(4, k, rest);
    lemma_levels_on_grid(start, closed, k, pow(4, rest));
}

fn ends_near_exec(points: &[Pt]) -> (near: bool)
    ensures
        near == ends_near(points@),
{
    let n: usize = points.len();
    n > 0 && within(points[0], points[n - 1], CLICK_RADIUS)
}

/// Whether `points` close on themselves.
pub fn is_closed(points: &[Pt]) -> (closed: bool)
    ensures
        closed == closes(points@),
{
    points.len() >= 3 && ends_near_exec(points)
}

/// Decides whether `base` is refined as a closed polygon and strips the
/// closing point that only repeats the first.
///
/// Returns the points to refine and the closedness. Nothing is remembered
/// between calls: the answer depends on `base` and `hint` alone.
pub fn detect_and_normalize(base: &[Pt], hint: bool) -> (r: (Vec<Pt>, bool))
    ensures
        r.0@ == normalized(base@, hint),
        r.1 == detected_closed(base@, hint),
{
    let near: bool = ends_near_exec(base);
    let closed: bool = hint || (base.len() >= 3 && near);
    if closed && base.len() >= 2 && near {
        (copy_prefix(base, base.len() - 1), closed)
    } else {
        (copy_points(base), closed)
    }
}

/// Builds the cache of refinement levels of `base`: `max_steps + 1` levels,
/// from the normalized base to its `max_steps`-th refinement.
///
/// `closed` is only a hint: a base that closes on itself is refined as a
/// closed polygon whatever the hint says.
pub fn precompute_iterations(base: &[Pt], max_steps: usize, closed: bool) -> (iters: Vec<Vec<Pt>>)
    ensures
        iters@.len() == max_steps + 1,
        levels_view(iters@) == cache_levels(base@, max_steps as nat, closed),
{
    let (start, as_polygon) = detect_and_normalize(base, closed);
    let ghost start_view = start@;
    let mut iters: Vec<Vec<Pt>> = Vec::new();
    iters.push(start);
    let mut k: usize = 0;
    while k < max_steps
        invariant
            k <= max_steps,
            iters@.len() == k + 1,
            forall|j: int|
                0 <= j <= k ==> (#[trigger] iters@[j])@ == level(start_view, as_polygon, j as nat),
        decreases max_steps - k,
    {
        let next: Vec<Pt> = chaikin_step(iters[k].as_slice(), as_polygon);
        iters.push(next);
        k += 1;
    }
    assert(levels_view(iters@) =~= cache_levels(base@, max_steps as nat, closed));
    iters
}

} // verus!
