//! Containment of a point in a closed outline, and the part of a segment that
//! lies inside one.
//!
//! An outline is given by its vertices in order; its edges join each vertex to
//! the next, and the last vertex to the first.

use crate::rounding::{lemma_round_div_between, round_div, wide_product};
use crate::segment::{lemma_grid_product, CutSegmentInsidePolygonError, Line};
use crate::Point;
use vstd::prelude::*;

verus! {

/// The index of the vertex that follows vertex `i` on an outline of `len`
/// vertices.
pub open spec fn following(i: int, len: int) -> int {
    if i + 1 == len {
        0
    } else {
        i + 1
    }
}

/// Whether the edge from `first` to `last` passes the height of `point`: one
/// of its ends lies above it and the other does not.
pub open spec fn straddles(first: Point, last: Point, point: Point) -> bool {
    (first.y > point.y) != (last.y > point.y)
}

/// Whether the ray that leaves `point` towards growing `x` meets the edge from
/// `first` to `last`: the edge passes the height of `point`, and does so at an
/// `x` greater than that of `point`.
///
/// The edge reaches that height at `first.x + (point.y - first.y) * run / rise`,
/// which is compared with `point.x` exactly, by cross-multiplication.
pub open spec fn ray_meets(first: Point, last: Point, point: Point) -> bool {
    let rise = last.y - first.y;
    let run = last.x - first.x;
    let reach = (point.y - first.y) * run;
    let offset = (point.x - first.x) * rise;
    straddles(first, last, point) && if rise > 0 {
        offset < reach
    } else {
        reach < offset
    }
}

/// How many of the first `upto` edges of the outline the ray from `point`
/// meets.
pub open spec fn crossings(vertices: Seq<Point>, point: Point, upto: int) -> nat
    decreases upto,
{
    if upto <= 0 {
        0
    } else {
        let edge = upto - 1;
        let met: nat = if ray_meets(
            vertices[edge],
            vertices[following(edge, vertices.len() as int)],
            point,
        ) {
            1
        } else {
            0
        };
        crossings(vertices, point, edge) + met
    }
}

/// The even-odd rule: a point is inside the outline when the ray from it
/// meets an odd number of edges.
pub open spec fn encloses(vertices: Seq<Point>, point: Point) -> bool {
    crossings(vertices, point, vertices.len() as int) % 2 == 1
}

/// Decides whether the ray from `point` meets the edge from `first` to `last`.
fn meets_edge(first: Point, last: Point, point: Point) -> (met: bool)
    ensures
        met == ray_meets(first, last, point),
{
    if (first.y > point.y) == (last.y > point.y) {
        return false;
    }
    let rise: i64 = last.y as i64 - first.y as i64;
    let run: i64 = last.x as i64 - first.x as i64;
    let reach = wide_product(point.y as i64 - first.y as i64, run);
    let offset = wide_product(point.x as i64 - first.x as i64, rise);
    if rise > 0 {
        offset < reach
    } else {
        reach < offset
    }
}

/// Tests a point against an outline with the even-odd rule.
pub fn contains_point(vertices: &[Point], point: Point) -> (inside: bool)
    ensures
        inside == encloses(vertices@, point),
{
    let len = vertices.len();
    let mut odd = false;
    let mut i: usize = 0;
    while i < len
        invariant
            len == vertices@.len(),
            0 <= i <= len,
            odd == (crossings(vertices@, point, i as int) % 2 == 1),
        decreases len - i,
    {
        let next: usize = if i + 1 == len {
            0
        } else {
            i + 1
        };
        if meets_edge(vertices[i], vertices[next], point) {
            odd = !odd;
        }
        i += 1;
    }
    odd
}

/// The side of a line on which a point lies: 1, -1, or 0 on the line itself.
pub open spec fn side_sign(line: Line, point: Point) -> int {
    if line.side(point) > 0 {
        1
    } else if line.side(point) < 0 {
        -1
    } else {
        0
    }
}

/// Whether every vertex lies on the same side of the line as the first.
pub open spec fn one_sided(line: Line, vertices: Seq<Point>) -> bool {
    forall|i: int|
        0 <= i < vertices.len() ==> side_sign(line, #[trigger] vertices[i]) == side_sign(
            line,
            vertices[0],
        )
}

/// Whether the line passes between vertex `i` and the one that follows it.
pub open spec fn is_crossed(line: Line, vertices: Seq<Point>, i: int) -> bool {
    side_sign(line, vertices[i]) != side_sign(
        line,
        vertices[following(i, vertices.len() as int)],
    )
}

/// Where the line meets the edge that leaves vertex `i`.
pub open spec fn crossing(line: Line, vertices: Seq<Point>, i: int) -> Option<Point> {
    line.meet(Line::through(vertices[i], vertices[following(i, vertices.len() as int)]))
}

/// Where the line meets those of the first `upto` edges that it crosses, in
/// the order of the edges.
pub open spec fn crossing_points(line: Line, vertices: Seq<Point>, upto: int) -> Seq<Point>
    decreases upto,
{
    if upto <= 0 {
        Seq::<Point>::empty()
    } else if is_crossed(line, vertices, upto - 1) {
        crossing_points(line, vertices, upto - 1).push(crossing(line, vertices, upto - 1)->0)
    } else {
        crossing_points(line, vertices, upto - 1)
    }
}

/// The part of the segment from `start` to `end` that lies inside the outline.
///
/// A segment with both end points inside the outline is left whole. Any other
/// is outside where every vertex lies on the same side of its line. Else an
/// end point inside the outline is kept, and one outside it is replaced by a
/// point where the segment's line crosses the outline: the start by the first
/// such point in the order of the edges, the end by the second.
pub open spec fn clipped(start: Point, end: Point, vertices: Seq<Point>) -> Result<
    (Point, Point),
    CutSegmentInsidePolygonError,
> {
    let line = Line::through(start, end);
    let found = crossing_points(line, vertices, vertices.len() as int);
    let start_inside = encloses(vertices, start);
    let end_inside = encloses(vertices, end);
    if start_inside && end_inside {
        Ok((start, end))
    } else if one_sided(line, vertices) {
        Err(CutSegmentInsidePolygonError::Outside)
    } else {
        Ok(
            (
                if start_inside {
                    start
                } else {
                    found[0]
                },
                if end_inside {
                    end
                } else {
                    found[1]
                },
            ),
        )
    }
}

/// The lesser of two numbers.
pub open spec fn lesser(a: int, b: int) -> int {
    if a <= b {
        a
    } else {
        b
    }
}

/// The greater of two numbers.
pub open spec fn greater(a: int, b: int) -> int {
    if a <= b {
        b
    } else {
        a
    }
}

/// A weighted mean of two numbers, the weights having opposite signs in the
/// difference `s1 - s0`, lies between the two numbers when rounded.
proof fn lemma_mean_between(v0: int, v1: int, s0: int, s1: int)
    requires
        (s0 <= 0 <= s1) || (s1 <= 0 <= s0),
        s0 != s1,
    ensures
        lesser(v0, v1) <= round_div(v0 * s1 - v1 * s0, s1 - s0) <= greater(v0, v1),
{
    let low = lesser(v0, v1);
    let high = greater(v0, v1);
    let num = v0 * s1 - v1 * s0;
    let den = s1 - s0;
    assert(num - low * den == (v0 - low) * s1 - (v1 - low) * s0) by (nonlinear_arith)
        requires
            num == v0 * s1 - v1 * s0,
            den == s1 - s0,
    ;
    assert(high * den - num == (high - v0) * s1 - (high - v1) * s0) by (nonlinear_arith)
        requires
            num == v0 * s1 - v1 * s0,
            den == s1 - s0,
    ;
    if s0 <= 0 <= s1 {
        assert((v0 - low) * s1 >= 0 && (v1 - low) * s0 <= 0 && (high - v0) * s1 >= 0 && (high - v1)
            * s0 <= 0) by (nonlinear_arith)
            requires
                v0 - low >= 0,
                v1 - low >= 0,
                high - v0 >= 0,
                high - v1 >= 0,
                s0 <= 0 <= s1,
        ;
    } else {
        assert((v0 - low) * s1 <= 0 && (v1 - low) * s0 >= 0 && (high - v0) * s1 <= 0 && (high - v1)
            * s0 >= 0) by (nonlinear_arith)
            requires
                v0 - low >= 0,
                v1 - low >= 0,
                high - v0 >= 0,
                high - v1 >= 0,
                s1 <= 0 <= s0,
        ;
    }
    lemma_round_div_between(num, den, low, high);
}

/// The numerators of the point where a line meets the line through two
/// points, written with the values of the line at the two points.
proof fn lemma_crossing_numerators(a: int, b: int, c: int, x0: int, y0: int, x1: int, y1: int)
    ensures
        ({
            let s0 = a * x0 + b * y0 + c;
            let s1 = a * x1 + b * y1 + c;
            let ec = x1 * y0 - x0 * y1;
            &&& c * (x0 - x1) - ec * b == x0 * s1 - x1 * s0
            &&& c * (y1 - y0) - ec * a == y0 * (-s1) - y1 * (-s0)
        }),
{
    let s0 = a * x0 + b * y0 + c;
    let s1 = a * x1 + b * y1 + c;
    let ec = x1 * y0 - x0 * y1;
    assert(x0 * s1 == x0 * (a * x1) + x0 * (b * y1) + x0 * c) by (nonlinear_arith)
        requires
            s1 == a * x1 + b * y1 + c,
    ;
    assert(x1 * s0 == x1 * (a * x0) + x1 * (b * y0) + x1 * c) by (nonlinear_arith)
        requires
            s0 == a * x0 + b * y0 + c,
    ;
    assert(y0 * s1 == y0 * (a * x1) + y0 * (b * y1) + y0 * c) by (nonlinear_arith)
        requires
            s1 == a * x1 + b * y1 + c,
    ;
    assert(y1 * s0 == y1 * (a * x0) + y1 * (b * y0) + y1 * c) by (nonlinear_arith)
        requires
            s0 == a * x0 + b * y0 + c,
    ;
    assert(x0 * (a * x1) == x1 * (a * x0)) by (nonlinear_arith);
    assert(y0 * (b * y1) == y1 * (b * y0)) by (nonlinear_arith);
    assert(ec * b == x1 * (b * y0) - x0 * (b * y1)) by (nonlinear_arith)
        requires
            ec == x1 * y0 - x0 * y1,
    ;
    assert(ec * a == y0 * (a * x1) - y1 * (a * x0)) by (nonlinear_arith)
        requires
            ec == x1 * y0 - x0 * y1,
    ;
    assert(c * (x0 - x1) == x0 * c - x1 * c) by (nonlinear_arith);
    assert(c * (y1 - y0) == y1 * c - y0 * c) by (nonlinear_arith);
    assert(y0 * (-s1) == -(y0 * s1)) by (nonlinear_arith);
    assert(y1 * (-s0) == -(y1 * s0)) by (nonlinear_arith);
}

/// A line that passes between the two ends of an edge meets the edge's line
/// at a point of the grid, which lies between the two ends on each axis.
pub proof fn lemma_crossing_on_grid(line: Line, first: Point, last: Point)
    requires
        side_sign(line, first) != side_sign(line, last),
    ensures
        line.meet(Line::through(first, last)) is Some,
        lesser(first.x as int, last.x as int) <= line.meet(Line::through(first, last))->0.x
            <= greater(first.x as int, last.x as int),
        lesser(first.y as int, last.y as int) <= line.meet(Line::through(first, last))->0.y
            <= greater(first.y as int, last.y as int),
{
    let edge = Line::through(first, last);
    let (a, b, c) = (line.a as int, line.b as int, line.c as int);
    let (x0, y0, x1, y1) = (first.x as int, first.y as int, last.x as int, last.y as int);
    let s0 = line.side(first);
    let s1 = line.side(last);
    lemma_grid_product(x1, y0);
    lemma_grid_product(x0, y1);
    let (ea, eb, ec) = (edge.a as int, edge.b as int, edge.c as int);
    assert(ea == y1 - y0 && eb == x0 - x1 && ec == x1 * y0 - x0 * y1);
    assert(ea * b - a * eb == s1 - s0) by (nonlinear_arith)
        requires
            ea == y1 - y0,
            eb == x0 - x1,
            s0 == a * x0 + b * y0 + c,
            s1 == a * x1 + b * y1 + c,
    ;
    lemma_crossing_numerators(a, b, c, x0, y0, x1, y1);
    lemma_mean_between(x0, x1, s0, s1);
    lemma_mean_between(y0, y1, -s0, -s1);
}

/// A segment whose two end points lie inside the outline is left as it is.
pub proof fn lemma_inside_unchanged(start: Point, end: Point, vertices: Seq<Point>)
    requires
        encloses(vertices, start),
        encloses(vertices, end),
    ensures
        clipped(start, end, vertices) == Ok::<(Point, Point), CutSegmentInsidePolygonError>(
            (start, end),
        ),
{
}

/// Each crossed edge among the first `upto` adds a point to those found
/// before it.
pub proof fn lemma_crossing_counted(line: Line, vertices: Seq<Point>, edge: int, upto: int)
    requires
        0 <= edge < upto,
        is_crossed(line, vertices, edge),
    ensures
        crossing_points(line, vertices, upto).len() > crossing_points(line, vertices, edge).len(),
    decreases upto,
{
    if edge + 1 < upto {
        lemma_crossing_counted(line, vertices, edge, upto - 1);
    }
}

/// A line that has vertices of the outline on different sides crosses at
/// least two of its edges.
pub proof fn lemma_two_crossings(line: Line, vertices: Seq<Point>)
    requires
        !one_sided(line, vertices),
    ensures
        crossing_points(line, vertices, vertices.len() as int).len() >= 2,
{
    let len = vertices.len() as int;
    let base = side_sign(line, vertices[0]);
    let other = choose|i: int|
        0 <= i < len && side_sign(line, #[trigger] vertices[i]) != side_sign(line, vertices[0]);
    let first = lemma_first_change(line, vertices, other);
    let last = lemma_last_change(line, vertices, other);
    lemma_crossing_counted(line, vertices, first, last);
    lemma_crossing_counted(line, vertices, last, len);
}

/// Before the first vertex that lies on another side than vertex 0 there is
/// a crossed edge.
proof fn lemma_first_change(line: Line, vertices: Seq<Point>, other: int) -> (edge: int)
    requires
        0 <= other < vertices.len(),
        side_sign(line, vertices[other]) != side_sign(line, vertices[0]),
    ensures
        0 <= edge < other,
        is_crossed(line, vertices, edge),
    decreases other,
{
    if side_sign(line, vertices[other - 1]) == side_sign(line, vertices[0]) {
        other - 1
    } else {
        lemma_first_change(line, vertices, other - 1)
    }
}

/// At or after any vertex that lies on another side than vertex 0 there is a
/// crossed edge.
proof fn lemma_last_change(line: Line, vertices: Seq<Point>, other: int) -> (edge: int)
    requires
        0 <= other < vertices.len(),
        side_sign(line, vertices[other]) != side_sign(line, vertices[0]),
    ensures
        other <= edge < vertices.len(),
        is_crossed(line, vertices, edge),
    decreases vertices.len() - other,
{
    if other + 1 == vertices.len() {
        other
    } else if side_sign(line, vertices[other + 1]) == side_sign(line, vertices[0]) {
        other
    } else {
        lemma_last_change(line, vertices, other + 1)
    }
}

/// Trimming a run of pixels to its own first and last pixel leaves it whole.
pub proof fn lemma_trim_whole(kept: Seq<Point>, points: Seq<Point>)
    requires
        points.len() > 0,
        is_trim_of(kept, points, points[0], points[points.len() - 1]),
    ensures
        kept == points,
{
    let a = points[0];
    let b = points[points.len() - 1];
    let (first, last) = choose|first: int, last: int|
        {
            &&& 0 <= first <= last < points.len()
            &&& is_either(points[first], a, b)
            &&& is_either(points[last], a, b)
            &&& forall|j: int| 0 <= j < first ==> !is_either(#[trigger] points[j], a, b)
            &&& forall|j: int| last < j < points.len() ==> !is_either(#[trigger] points[j], a, b)
            &&& kept == #[trigger] points.subrange(first, last + 1)
        };
    if first > 0 {
        assert(is_either(points[0], a, b));
    }
    if last < points.len() - 1 {
        assert(is_either(points[points.len() - 1], a, b));
    }
    assert(points.subrange(0, points.len() as int) =~= points);
}

/// The side of the line on which a point lies.
fn side_of(line: &Line, point: Point) -> (sign: i8)
    ensures
        sign == side_sign(*line, point),
{
    proof {
        lemma_scaled(line.a as int, point.x as int);
        lemma_scaled(line.b as int, point.y as int);
    }
    let value: i128 = wide_product(line.a, point.x as i64) + wide_product(line.b, point.y as i64)
        + line.c as i128;
    if value > 0 {
        1
    } else if value < 0 {
        -1
    } else {
        0
    }
}

/// A coefficient times a coordinate stays within 95 bits.
proof fn lemma_scaled(coefficient: int, coordinate: int)
    requires
        i64::MIN <= coefficient <= i64::MAX,
        i32::MIN <= coordinate <= i32::MAX,
    ensures
        -0x4000_0000_0000_0000_0000_0000 <= coefficient * coordinate
            <= 0x4000_0000_0000_0000_0000_0000,
{
    assert(-0x4000_0000_0000_0000_0000_0000 <= coefficient * coordinate
        <= 0x4000_0000_0000_0000_0000_0000) by (nonlinear_arith)
        requires
            -0x8000_0000_0000_0000 <= coefficient <= 0x8000_0000_0000_0000,
            -0x8000_0000 <= coordinate <= 0x8000_0000,
    ;
}

/// Finds the end points of the part of a segment that lies inside an outline.
pub fn clip_endpoints(start: Point, end: Point, vertices: &[Point]) -> (outcome: Result<
    (Point, Point),
    CutSegmentInsidePolygonError,
>)
    ensures
        outcome == clipped(start, end, vertices@),
        outcome matches Err(error) ==> error == CutSegmentInsidePolygonError::Outside,
{
    let start_inside = contains_point(vertices, start);
    let end_inside = contains_point(vertices, end);
    if start_inside && end_inside {
        return Ok((start, end));
    }
    let line = Line::new_from_points(start, end);
    let len = vertices.len();
    let mut signs: Vec<i8> = Vec::new();
    let mut all_same = true;
    let mut i: usize = 0;
    while i < len
        invariant
            len == vertices@.len(),
            0 <= i <= len,
            signs@.len() == i,
            forall|j: int| 0 <= j < i ==> #[trigger] signs@[j] == side_sign(line, vertices@[j]),
            all_same == forall|j: int|
                0 <= j < i ==> side_sign(line, #[trigger] vertices@[j]) == side_sign(
                    line,
                    vertices@[0],
                ),
        decreases len - i,
    {
        let sign = side_of(&line, vertices[i]);
        signs.push(sign);
        if sign != signs[0] {
            all_same = false;
        }
        i += 1;
    }
    if all_same {
        return Err(CutSegmentInsidePolygonError::Outside);
    }
    assert(!one_sided(line, vertices@));
    let mut found: Vec<Point> = Vec::new();
    let mut i: usize = 0;
    while i < len
        invariant
            line == Line::through(start, end),
            !one_sided(line, vertices@),
            start_inside == encloses(vertices@, start),
            end_inside == encloses(vertices@, end),
            !(start_inside && end_inside),
            len == vertices@.len(),
            0 <= i <= len,
            signs@.len() == len,
            forall|j: int| 0 <= j < len ==> #[trigger] signs@[j] == side_sign(line, vertices@[j]),
            found@ == crossing_points(line, vertices@, i as int),
        decreases len - i,
    {
        let next: usize = if i + 1 == len {
            0
        } else {
            i + 1
        };
        if signs[i] != signs[next] {
            let edge = Line::new_from_points(vertices[i], vertices[next]);
            match line.intersection(&edge) {
                Some(point) => {
                    found.push(point);
                },
                None => {
                    proof {
                        lemma_crossing_on_grid(line, vertices@[i as int], vertices@[next as int]);
                    }
                    return Err(CutSegmentInsidePolygonError::InvalidSegments);
                },
            }
        }
        i += 1;
    }
    proof {
        lemma_two_crossings(line, vertices@);
    }
    let new_start = if start_inside {
        start
    } else {
        if found.len() < 1 {
            return Err(CutSegmentInsidePolygonError::NotEnoughIntersections);
        }
        found[0]
    };
    let new_end = if end_inside {
        end
    } else {
        if found.len() < 2 {
            return Err(CutSegmentInsidePolygonError::NotEnoughIntersections);
        }
        found[1]
    };
    Ok((new_start, new_end))
}

/// Whether `point` is one of the two given points.
pub open spec fn is_either(point: Point, a: Point, b: Point) -> bool {
    point == a || point == b
}

/// Whether `kept` is what is left of `points` once everything before the
/// first and after the last occurrence of either `a` or `b` is dropped.
pub open spec fn is_trim_of(kept: Seq<Point>, points: Seq<Point>, a: Point, b: Point) -> bool {
    exists|first: int, last: int|
        {
            &&& 0 <= first <= last < points.len()
            &&& is_either(points[first], a, b)
            &&& is_either(points[last], a, b)
            &&& forall|j: int| 0 <= j < first ==> !is_either(#[trigger] points[j], a, b)
            &&& forall|j: int| last < j < points.len() ==> !is_either(#[trigger] points[j], a, b)
            &&& kept == #[trigger] points.subrange(first, last + 1)
        }
}

/// The index of the first of the points that is either `a` or `b`.
pub fn find_first(points: &[Point], a: Point, b: Point) -> (found: Option<usize>)
    ensures
        match found {
            Some(index) => {
                &&& index < points@.len()
                &&& is_either(points@[index as int], a, b)
                &&& forall|j: int| 0 <= j < index ==> !is_either(#[trigger] points@[j], a, b)
            },
            None => forall|j: int|
                0 <= j < points@.len() ==> !is_either(#[trigger] points@[j], a, b),
        },
{
    let mut i: usize = 0;
    while i < points.len()
        invariant
            0 <= i <= points@.len(),
            forall|j: int| 0 <= j < i ==> !is_either(#[trigger] points@[j], a, b),
        decreases points@.len() - i,
    {
        let point = points[i];
        if point == a || point == b {
            return Some(i);
        }
        i += 1;
    }
    None
}

/// The index of the last of the points that is either `a` or `b`.
pub fn find_last(points: &[Point], a: Point, b: Point) -> (found: Option<usize>)
    ensures
        match found {
            Some(index) => {
                &&& index < points@.len()
                &&& is_either(points@[index as int], a, b)
                &&& forall|j: int|
                    index < j < points@.len() ==> !is_either(#[trigger] points@[j], a, b)
            },
            None => forall|j: int|
                0 <= j < points@.len() ==> !is_either(#[trigger] points@[j], a, b),
        },
{
    let mut i: usize = points.len();
    while i > 0
        invariant
            0 <= i <= points@.len(),
            forall|j: int| i <= j < points@.len() ==> !is_either(#[trigger] points@[j], a, b),
        decreases i,
    {
        i -= 1;
        let point = points[i];
        if point == a || point == b {
            return Some(i);
        }
    }
    None
}

} // verus!
