//! The raster of a line segment: which pixels stand for it, and why the
//! error-accumulating walk visits exactly those.

use vstd::prelude::*;
use vstd::arithmetic::div_mod::{
    lemma_fundamental_div_mod, lemma_fundamental_div_mod_converse, lemma_mod_bound,
};
use crate::shapes::Point;

verus! {

/// How far apart two coordinates are.
pub open spec fn distance(a: int, b: int) -> int {
    if a <= b {
        b - a
    } else {
        a - b
    }
}

/// The coordinate `d` steps from `from` in the direction of `to`.
pub open spec fn toward(from: int, to: int, d: int) -> int {
    if from < to {
        from + d
    } else {
        from - d
    }
}

/// The number of steps from `a` to `b`: the longer of the two extents.
pub open spec fn line_steps(a: Point, b: Point) -> int {
    let adx = distance(a.x as int, b.x as int);
    let ady = distance(a.y as int, b.y as int);
    if adx >= ady {
        adx
    } else {
        ady
    }
}

/// `k * minor / major`, rounded to the nearest integer, a half upwards.
pub open spec fn rounded_share(k: int, major: int, minor: int) -> int {
    (2 * k * minor + major) / (2 * major)
}

/// The `k`-th point of the raster of the segment from `a` to `b`, for `k`
/// from zero to `line_steps(a, b)`: `k` steps from `a` along the longer
/// extent, and along the other as near to the true line as a pixel gets.
pub open spec fn line_point(a: Point, b: Point, k: int) -> (int, int) {
    let adx = distance(a.x as int, b.x as int);
    let ady = distance(a.y as int, b.y as int);
    if adx >= ady {
        if adx == 0 {
            (a.x as int, a.y as int)
        } else {
            (toward(a.x as int, b.x as int, k), toward(a.y as int, b.y as int, rounded_share(k, adx, ady)))
        }
    } else {
        (toward(a.x as int, b.x as int, rounded_share(k, ady, adx)), toward(a.y as int, b.y as int, k))
    }
}

/// The rounded share of a step count within the major extent lies within
/// the minor extent.
pub proof fn lemma_rounded_share_bounds(k: int, major: int, minor: int)
    requires
        major > 0,
        0 <= minor <= major,
        0 <= k <= major,
    ensures
        0 <= rounded_share(k, major, minor) <= minor,
        rounded_share(0, major, minor) == 0,
{
    let n = 2 * k * minor + major;
    let d = 2 * major;
    let q = n / d;
    lemma_fundamental_div_mod(n, d);
    lemma_mod_bound(n, d);
    assert(d * (q + 1) == d * q + d) by (nonlinear_arith);
    assert(n >= 0) by (nonlinear_arith)
        requires
            n == 2 * k * minor + major,
            k >= 0,
            minor >= 0,
            major > 0,
    ;
    assert(q >= 0) by (nonlinear_arith)
        requires
            n < d * (q + 1),
            n >= 0,
            d > 0,
    ;
    assert(q <= minor) by (nonlinear_arith)
        requires
            d * q <= n,
            n == 2 * k * minor + major,
            d == 2 * major,
            0 <= k <= major,
            0 <= minor,
            major > 0,
    ;
    assert(2 * 0 * minor + major == 0 * d + major) by (nonlinear_arith);
    lemma_fundamental_div_mod_converse(2 * 0 * minor + major, d, 0, major);
}

/// Every point of a line lies between its two ends, in x and in y, and the
/// first point is the near end.
pub proof fn lemma_line_point_between(a: Point, b: Point, k: int)
    requires
        0 <= k <= line_steps(a, b),
    ensures
        a.x <= b.x ==> a.x <= line_point(a, b, k).0 <= b.x,
        b.x <= a.x ==> b.x <= line_point(a, b, k).0 <= a.x,
        a.y <= b.y ==> a.y <= line_point(a, b, k).1 <= b.y,
        b.y <= a.y ==> b.y <= line_point(a, b, k).1 <= a.y,
        line_point(a, b, 0) == (a.x as int, a.y as int),
{
    let adx = distance(a.x as int, b.x as int);
    let ady = distance(a.y as int, b.y as int);
    if adx >= ady {
        if adx > 0 {
            lemma_rounded_share_bounds(k, adx, ady);
        }
    } else {
        lemma_rounded_share_bounds(k, ady, adx);
    }
}

/// The walk is in step: after `k` steps along an extent of `major` and `m`
/// along one of `minor`, the accumulated error `e` is what the steps add up
/// to and lies in the window that keeps `m` the rounded share of `k`.
pub open spec fn balanced(major: int, minor: int, k: int, m: int, e: int) -> bool {
    &&& 0 <= k <= major
    &&& e == (m + 1) * major - (k + 1) * minor
    &&& major - 2 * minor < 2 * e <= 3 * major - 2 * minor
}

/// The state of a walk from one end of a segment to the other, `i` steps
/// along an extent of `adx` and `j` along one of `ady`, with error `err`.
pub open spec fn on_track(adx: int, ady: int, i: int, j: int, err: int) -> bool {
    if adx >= ady {
        if adx == 0 {
            i == 0 && j == 0 && err == 0
        } else {
            balanced(adx, ady, i, j, err)
        }
    } else {
        balanced(ady, adx, j, i, -err)
    }
}

/// In a balanced walk the minor index is the rounded share of the major
/// one, stays within its extent and reaches its end with the major one.
pub proof fn lemma_balanced_minor(major: int, minor: int, k: int, m: int, e: int)
    requires
        major > 0,
        0 <= minor <= major,
        balanced(major, minor, k, m, e),
    ensures
        m == rounded_share(k, major, minor),
        0 <= m <= minor,
        k == major ==> m == minor,
{
    let n = 2 * k * minor + major;
    let d = 2 * major;
    assert(d * m <= n && n < d * (m + 1)) by (nonlinear_arith)
        requires
            e == (m + 1) * major - (k + 1) * minor,
            major - 2 * minor < 2 * e <= 3 * major - 2 * minor,
            n == 2 * k * minor + major,
            d == 2 * major,
    ;
    assert(d * (m + 1) == d * m + d) by (nonlinear_arith);
    assert(m * d == d * m) by (nonlinear_arith);
    lemma_fundamental_div_mod_converse(n, d, m, n - d * m);
    assert(m >= 0) by (nonlinear_arith)
        requires
            n < d * (m + 1),
            n >= 0,
            d > 0,
    ;
    assert(n >= 0) by (nonlinear_arith)
        requires
            n == 2 * k * minor + major,
            k >= 0,
            minor >= 0,
            major > 0,
    ;
    assert(m <= minor) by (nonlinear_arith)
        requires
            d * m <= n,
            n == 2 * k * minor + major,
            d == 2 * major,
            0 <= k <= major,
            0 <= minor,
            major > 0,
    ;
    if k == major {
        assert(m >= minor) by (nonlinear_arith)
            requires
                n < d * (m + 1),
                n == 2 * k * minor + major,
                d == 2 * major,
                k == major,
                0 <= minor,
                major > 0,
        ;
    }
}

/// A balanced walk that has not reached the end of its major extent takes
/// a major step, with a minor step exactly when twice the error is at most
/// `major`, and is balanced again.
pub proof fn lemma_balanced_step(major: int, minor: int, k: int, m: int, e: int)
    requires
        major > 0,
        0 <= minor <= major,
        balanced(major, minor, k, m, e),
        k < major,
    ensures
        2 * e >= -minor,
        2 * e <= major ==> balanced(major, minor, k + 1, m + 1, e - minor + major),
        2 * e > major ==> balanced(major, minor, k + 1, m, e - minor),
{
    assert((m + 2) * major == (m + 1) * major + major) by (nonlinear_arith);
    assert((k + 2) * minor == (k + 1) * minor + minor) by (nonlinear_arith);
}

/// A walk starts on track.
pub proof fn lemma_on_track_start(adx: int, ady: int)
    requires
        adx >= 0,
        ady >= 0,
    ensures
        on_track(adx, ady, 0, 0, adx - ady),
{
}

/// The current point of a walk on track is the point of the raster that
/// its step count names, and it is the far end exactly at the last step.
pub proof fn lemma_on_track_point(a: Point, b: Point, i: int, j: int, err: int)
    requires
        on_track(distance(a.x as int, b.x as int), distance(a.y as int, b.y as int), i, j, err),
    ensures
        ({
            let adx = distance(a.x as int, b.x as int);
            let ady = distance(a.y as int, b.y as int);
            let k = if adx >= ady { i } else { j };
            &&& 0 <= i <= adx
            &&& 0 <= j <= ady
            &&& 0 <= k <= line_steps(a, b)
            &&& line_point(a, b, k) == (toward(a.x as int, b.x as int, i), toward(a.y as int, b.y as int, j))
            &&& (k == line_steps(a, b) <==> (toward(a.x as int, b.x as int, i) == b.x && toward(
                a.y as int,
                b.y as int,
                j,
            ) == b.y))
        }),
{
    let adx = distance(a.x as int, b.x as int);
    let ady = distance(a.y as int, b.y as int);
    if adx >= ady {
        if adx > 0 {
            lemma_balanced_minor(adx, ady, i, j, err);
        }
    } else {
        lemma_balanced_minor(ady, adx, j, i, -err);
    }
}

/// One step of the walk: along x when twice the error is at least `-ady`,
/// along y when it is at most `adx`. Short of the far end, the walk is on
/// track again and one step further along its longer extent.
pub proof fn lemma_on_track_step(adx: int, ady: int, i: int, j: int, err: int)
    requires
        adx >= 0,
        ady >= 0,
        on_track(adx, ady, i, j, err),
        (if adx >= ady { i } else { j }) < (if adx >= ady { adx } else { ady }),
    ensures
        ({
            let step_x = 2 * err >= -ady;
            let step_y = 2 * err <= adx;
            let i2 = if step_x { i + 1 } else { i };
            let j2 = if step_y { j + 1 } else { j };
            let err2 = err + (if step_x { -ady } else { 0 }) + (if step_y { adx } else { 0 });
            &&& on_track(adx, ady, i2, j2, err2)
            &&& (if adx >= ady { i2 == i + 1 } else { j2 == j + 1 })
        }),
{
    if adx >= ady {
        lemma_balanced_step(adx, ady, i, j, err);
    } else {
        lemma_balanced_step(ady, adx, j, i, -err);
    }
}

} // verus!
