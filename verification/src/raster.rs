//! Tracing a straight path between two points of the grid.
//!
//! The path advances one pixel at a time along the axis on which the two
//! points lie furthest apart, and follows the ideal line on the other axis to
//! within half a pixel.

use crate::Point;
use vstd::arithmetic::div_mod::{lemma_fundamental_div_mod, lemma_fundamental_div_mod_converse};
use vstd::prelude::*;

verus! {

/// The distance between two coordinates.
pub open spec fn span(from: int, to: int) -> int {
    if from <= to {
        to - from
    } else {
        from - to
    }
}

/// The coordinate reached from `from` after `count` unit steps towards `to`.
pub open spec fn advance(from: int, to: int, count: int) -> int {
    if from < to {
        from + count
    } else if from > to {
        from - count
    } else {
        from
    }
}

/// Whether the path between the two points is taller than it is wide.
pub open spec fn is_steep(start: Point, end: Point) -> bool {
    span(start.x as int, end.x as int) < span(start.y as int, end.y as int)
}

/// The extent of the path along the axis on which it advances at every step.
pub open spec fn major_span(start: Point, end: Point) -> int {
    if is_steep(start, end) {
        span(start.y as int, end.y as int)
    } else {
        span(start.x as int, end.x as int)
    }
}

/// The extent of the path along the other axis.
pub open spec fn minor_span(start: Point, end: Point) -> int {
    if is_steep(start, end) {
        span(start.x as int, end.x as int)
    } else {
        span(start.y as int, end.y as int)
    }
}

/// The quotient `minor * k / major` rounded to the nearest whole number, a tie
/// going down: how far the path has moved along its minor axis after `k` steps.
pub open spec fn minor_progress(k: int, minor: int, major: int) -> int {
    if major == 0 {
        0
    } else {
        (2 * minor * k + major - 1) / (2 * major)
    }
}

/// The pixel that the path from `start` to `end` reaches after `k` steps.
pub open spec fn traced_point(start: Point, end: Point, k: int) -> Point {
    let lag = minor_progress(k, minor_span(start, end), major_span(start, end));
    if is_steep(start, end) {
        Point {
            x: advance(start.x as int, end.x as int, lag) as i32,
            y: advance(start.y as int, end.y as int, k) as i32,
        }
    } else {
        Point {
            x: advance(start.x as int, end.x as int, k) as i32,
            y: advance(start.y as int, end.y as int, lag) as i32,
        }
    }
}

/// Every pixel of the path from `start` to `end`, both included.
pub open spec fn traced(start: Point, end: Point) -> Seq<Point> {
    Seq::new((major_span(start, end) + 1) as nat, |k: int| traced_point(start, end, k))
}

/// Two pixels that touch: they differ by at most one step on each axis.
pub open spec fn adjacent(p: Point, q: Point) -> bool {
    span(p.x as int, q.x as int) <= 1 && span(p.y as int, q.y as int) <= 1
}

/// A run of pixels without gaps.
pub open spec fn connected(points: Seq<Point>) -> bool {
    forall|i: int| 0 <= i < points.len() - 1 ==> adjacent(#[trigger] points[i], points[i + 1])
}

/// After `k` of `major` steps the minor axis has moved by `lag`, once the
/// error against the ideal line is known to be at most one half.
pub proof fn lemma_minor_progress(k: int, lag: int, minor: int, major: int)
    requires
        major > 0,
        -major < 2 * (minor * k) - 2 * (major * lag) <= major,
    ensures
        minor_progress(k, minor, major) == lag,
{
    let x = 2 * minor * k + major - 1;
    let r = x - 2 * (major * lag);
    assert(2 * minor * k == 2 * (minor * k)) by (nonlinear_arith);
    assert(lag * (2 * major) == 2 * (major * lag)) by (nonlinear_arith);
    lemma_fundamental_div_mod_converse(x, 2 * major, lag, r);
}

/// The minor axis never moves further than its span.
pub proof fn lemma_lag_bounded(k: int, lag: int, minor: int, major: int)
    requires
        major > 0,
        minor >= 0,
        0 <= k <= major,
        -major < 2 * (minor * k) - 2 * (major * lag) <= major,
    ensures
        k == major ==> lag == minor,
        lag <= minor,
        k == 0 ==> lag == 0,
        lag >= 0,
{
    assert(lag <= minor) by (nonlinear_arith)
        requires
            major > 0,
            minor >= 0,
            0 <= k <= major,
            2 * (major * lag) < 2 * (minor * k) + major,
    ;
    assert(lag >= 0) by (nonlinear_arith)
        requires
            major > 0,
            minor >= 0,
            0 <= k,
            2 * (minor * k) - 2 * (major * lag) <= major,
    ;
    if k == major {
        assert(lag >= minor) by (nonlinear_arith)
            requires
                major > 0,
                k == major,
                2 * (minor * k) - 2 * (major * lag) <= major,
        ;
    }
    if k == 0 {
        assert(lag <= 0) by (nonlinear_arith)
            requires
                major > 0,
                k == 0,
                2 * (major * lag) < 2 * (minor * k) + major,
        ;
    }
}

/// After `k` steps the path is at most half a pixel away from the ideal line
/// along its minor axis: on the line the minor axis would have moved by
/// `minor * k / major`.
pub proof fn lemma_progress_error(k: int, minor: int, major: int)
    requires
        major > 0,
    ensures
        -major < 2 * (minor * k) - 2 * (major * minor_progress(k, minor, major)) <= major,
{
    let d = 2 * major;
    let x = 2 * minor * k + major - 1;
    lemma_fundamental_div_mod(x, d);
    assert(2 * minor * k == 2 * (minor * k)) by (nonlinear_arith);
    assert(d * (x / d) == 2 * (major * (x / d))) by (nonlinear_arith)
        requires
            d == 2 * major,
    ;
}

/// From one step to the next the minor axis stays or moves by one, and it
/// never leaves its span.
pub proof fn lemma_progress_step(k: int, minor: int, major: int)
    requires
        0 <= minor <= major,
        0 <= k < major,
    ensures
        0 <= minor_progress(k, minor, major) <= minor_progress(k + 1, minor, major) <= minor,
        minor_progress(k + 1, minor, major) <= minor_progress(k, minor, major) + 1,
{
    let d = 2 * major;
    let x = 2 * minor * k + major - 1;
    let q = x / d;
    let r = x % d;
    lemma_fundamental_div_mod(x, d);
    assert(2 * minor * k == 2 * (minor * k)) by (nonlinear_arith);
    assert(d * q == 2 * (major * q)) by (nonlinear_arith)
        requires
            d == 2 * major,
    ;
    lemma_lag_bounded(k, q, minor, major);
    assert(minor * (k + 1) == minor * k + minor) by (nonlinear_arith);
    assert(major * (q + 1) == major * q + major) by (nonlinear_arith);
    if r + 2 * minor < d {
        lemma_minor_progress(k + 1, q, minor, major);
        lemma_lag_bounded(k + 1, q, minor, major);
    } else {
        lemma_minor_progress(k + 1, q + 1, minor, major);
        lemma_lag_bounded(k + 1, q + 1, minor, major);
    }
}

/// After `k` steps the minor axis has moved by at most its span.
pub proof fn lemma_progress_range(k: int, minor: int, major: int)
    requires
        0 <= minor <= major,
        0 <= k <= major,
    ensures
        0 <= minor_progress(k, minor, major) <= minor,
        k == 0 ==> minor_progress(k, minor, major) == 0,
        k == major ==> minor_progress(k, minor, major) == minor,
{
    if major > 0 {
        let d = 2 * major;
        let x = 2 * minor * k + major - 1;
        let q = x / d;
        lemma_fundamental_div_mod(x, d);
        assert(2 * minor * k == 2 * (minor * k)) by (nonlinear_arith);
        assert(d * q == 2 * (major * q)) by (nonlinear_arith)
            requires
                d == 2 * major,
        ;
        lemma_lag_bounded(k, q, minor, major);
    }
}

/// A traced path starts on its first end point, ends on its second, and takes
/// one step along its longer axis per pixel.
pub proof fn lemma_traced_ends(start: Point, end: Point)
    ensures
        traced(start, end).len() == major_span(start, end) + 1,
        traced(start, end)[0] == start,
        traced(start, end)[major_span(start, end)] == end,
{
    let major = major_span(start, end);
    let minor = minor_span(start, end);
    lemma_progress_range(0, minor, major);
    lemma_progress_range(major, minor, major);
}

/// A traced path has no gaps: each of its pixels touches the next.
pub proof fn lemma_traced_connected(start: Point, end: Point)
    ensures
        connected(traced(start, end)),
{
    let major = major_span(start, end);
    let minor = minor_span(start, end);
    let path = traced(start, end);
    assert forall|i: int| 0 <= i < path.len() - 1 implies adjacent(
        #[trigger] path[i],
        path[i + 1],
    ) by {
        lemma_progress_step(i, minor, major);
    }
}

/// Traces the path from `start` to `end` with the midpoint algorithm.
pub fn trace(start: Point, end: Point) -> (points: Vec<Point>)
    ensures
        points@ == traced(start, end),
        points@.len() == major_span(start, end) + 1,
        points@[0] == start,
        points@[points@.len() - 1] == end,
        connected(points@),
{
    let dx: i64 = if start.x <= end.x {
        end.x as i64 - start.x as i64
    } else {
        start.x as i64 - end.x as i64
    };
    let dy: i64 = if start.y <= end.y {
        end.y as i64 - start.y as i64
    } else {
        start.y as i64 - end.y as i64
    };
    let step_x: i64 = if start.x < end.x {
        1
    } else if start.x > end.x {
        -1
    } else {
        0
    };
    let step_y: i64 = if start.y < end.y {
        1
    } else if start.y > end.y {
        -1
    } else {
        0
    };
    let swapped = dx < dy;
    let major: i64 = if swapped {
        dy
    } else {
        dx
    };
    let minor: i64 = if swapped {
        dx
    } else {
        dy
    };
    let mut decision: i64 = 2 * minor - major;
    let mut x: i64 = start.x as i64;
    let mut y: i64 = start.y as i64;
    let mut remaining: i64 = major;
    let mut points: Vec<Point> = Vec::new();
    points.push(start);
    let ghost mut k: int = 0;
    let ghost mut lag: int = 0;
    proof {
        assert(minor * 0 == 0) by (nonlinear_arith);
        assert(major * 0 == 0) by (nonlinear_arith);
        if major > 0 {
            lemma_minor_progress(0, 0, minor as int, major as int);
        }
    }
    while remaining > 0
        invariant
            swapped == is_steep(start, end),
            major == major_span(start, end),
            minor == minor_span(start, end),
            0 <= minor <= major <= 0xffff_ffff,
            step_x == advance(0, end.x as int - start.x as int, 1),
            step_y == advance(0, end.y as int - start.y as int, 1),
            0 <= k <= major,
            remaining == major - k,
            0 <= lag <= minor,
            decision == 2 * minor - major + 2 * (minor * k) - 2 * (major * lag),
            major > 0 ==> 2 * minor - 2 * major < decision <= 2 * minor,
            swapped ==> x == advance(start.x as int, end.x as int, lag) && y == advance(
                start.y as int,
                end.y as int,
                k,
            ),
            !swapped ==> x == advance(start.x as int, end.x as int, k) && y == advance(
                start.y as int,
                end.y as int,
                lag,
            ),
            points@.len() == k + 1,
            forall|j: int| 0 <= j <= k ==> #[trigger] points@[j] == traced_point(start, end, j),
            points@[0] == start,
            points@[k] == (Point { x: x as i32, y: y as i32 }),
            i32::MIN <= x <= i32::MAX,
            i32::MIN <= y <= i32::MAX,
            connected(points@),
        decreases remaining,
    {
        let ghost before = points@;
        let ghost new_lag = if decision > 0 {
            lag + 1
        } else {
            lag
        };
        proof {
            assert(minor * (k + 1) == minor * k + minor) by (nonlinear_arith);
            assert(major * (lag + 1) == major * lag + major) by (nonlinear_arith);
            lemma_lag_bounded(k + 1, new_lag, minor as int, major as int);
            lemma_minor_progress(k + 1, new_lag, minor as int, major as int);
        }
        if decision > 0 {
            if swapped {
                x += step_x;
            } else {
                y += step_y;
            }
            decision -= 2 * major;
        }
        if swapped {
            y += step_y;
        } else {
            x += step_x;
        }
        decision += 2 * minor;
        remaining -= 1;
        proof {
            k = k + 1;
            lag = new_lag;
        }
        points.push(Point::new(x as i32, y as i32));
        proof {
            assert(points@[k] == traced_point(start, end, k));
            assert(adjacent(before[k - 1], points@[k]));
            assert forall|i: int| 0 <= i < points@.len() - 1 implies adjacent(
                #[trigger] points@[i],
                points@[i + 1],
            ) by {
                if i < k - 1 {
                    assert(adjacent(before[i], before[i + 1]));
                }
            }
        }
    }
    proof {
        if major > 0 {
            lemma_lag_bounded(k, lag, minor as int, major as int);
        }
        assert(points@ =~= traced(start, end));
    }
    points
}

/// Whether the number of steps along `x` from `start` to `end`, with its
/// sign, is a number of 32 bits.
pub open spec fn steps_fit(start: Point, end: Point) -> bool {
    i32::MIN <= end.x - start.x <= i32::MAX
}

/// Whether the path from `start` to `end` runs towards growing `x` and falls
/// by at most one pixel per step.
pub open spec fn is_shallow(start: Point, end: Point) -> bool {
    0 <= start.y - end.y <= end.x - start.x
}

/// Traces a shallow path with the midpoint algorithm in its plain form, which
/// never exchanges the axes.
pub fn trace_shallow(start: Point, end: Point) -> (points: Vec<Point>)
    requires
        is_shallow(start, end),
    ensures
        points@ == traced(start, end),
        points@.len() == end.x - start.x + 1,
        points@[0] == start,
        points@[points@.len() - 1] == end,
        connected(points@),
{
    let distance_x: i64 = end.x as i64 - start.x as i64;
    let distance_y: i64 = start.y as i64 - end.y as i64;
    let mut decision: i64 = 2 * distance_y - distance_x;
    let mut x: i64 = start.x as i64;
    let mut y: i64 = start.y as i64;
    let mut remaining: i64 = distance_x;
    let mut points: Vec<Point> = Vec::new();
    points.push(start);
    let ghost mut k: int = 0;
    let ghost mut lag: int = 0;
    proof {
        assert(distance_y * 0 == 0) by (nonlinear_arith);
        assert(distance_x * 0 == 0) by (nonlinear_arith);
        if distance_x > 0 {
            lemma_minor_progress(0, 0, distance_y as int, distance_x as int);
        }
    }
    while remaining > 0
        invariant
            !is_steep(start, end),
            distance_x == major_span(start, end),
            distance_y == minor_span(start, end),
            distance_x == end.x - start.x,
            distance_y == start.y - end.y,
            0 <= distance_y <= distance_x <= 0xffff_ffff,
            0 <= k <= distance_x,
            remaining == distance_x - k,
            0 <= lag <= distance_y,
            decision == 2 * distance_y - distance_x + 2 * (distance_y * k) - 2 * (distance_x
                * lag),
            distance_x > 0 ==> 2 * distance_y - 2 * distance_x < decision <= 2 * distance_y,
            x == start.x + k,
            y == start.y - lag,
            points@.len() == k + 1,
            forall|j: int| 0 <= j <= k ==> #[trigger] points@[j] == traced_point(start, end, j),
            points@[0] == start,
            points@[k] == (Point { x: x as i32, y: y as i32 }),
            connected(points@),
        decreases remaining,
    {
        let ghost before = points@;
        let ghost new_lag = if decision > 0 {
            lag + 1
        } else {
            lag
        };
        proof {
            assert(distance_y * (k + 1) == distance_y * k + distance_y) by (nonlinear_arith);
            assert(distance_x * (lag + 1) == distance_x * lag + distance_x) by (nonlinear_arith);
            lemma_lag_bounded(k + 1, new_lag, distance_y as int, distance_x as int);
            lemma_minor_progress(k + 1, new_lag, distance_y as int, distance_x as int);
        }
        if decision > 0 {
            y -= 1;
            decision += 2 * (distance_y - distance_x);
        } else {
            decision += 2 * distance_y;
        }
        x += 1;
        remaining -= 1;
        proof {
            k = k + 1;
            lag = new_lag;
        }
        points.push(Point::new(x as i32, y as i32));
        proof {
            assert(points@[k] == traced_point(start, end, k));
            assert(adjacent(before[k - 1], points@[k]));
            assert forall|i: int| 0 <= i < points@.len() - 1 implies adjacent(
                #[trigger] points@[i],
                points@[i + 1],
            ) by {
                if i < k - 1 {
                    assert(adjacent(before[i], before[i + 1]));
                }
            }
        }
    }
    proof {
        if distance_x > 0 {
            lemma_lag_bounded(k, lag, distance_y as int, distance_x as int);
        }
        assert(points@ =~= traced(start, end));
    }
    points
}

} // verus!
