//! Straight segments, the lines that carry them, and the shared interface of
//! everything that is made of pixels.

use crate::clip::{
    clip_endpoints, clipped, encloses, find_first, find_last, is_either, is_trim_of,
    lemma_trim_whole,
};
use crate::polygon::Polygon;
use crate::raster::{connected, major_span, steps_fit, trace, trace_shallow, traced};
use crate::rounding::{
    as_coordinate, lemma_round_div_whole, round_div, rounded_quotient, wide_product,
};
use crate::{painted, Color, Point, Renderable, Renderer};
use vstd::prelude::*;
use vstd::std_specs::convert::FromSpecImpl;

verus! {

/// A line in general form: the points `(x, y)` with `a * x + b * y + c == 0`.
#[derive(Debug, Clone, Copy, PartialEq, Eq, Structural)]
pub struct Line {
    pub a: i64,
    pub b: i64,
    pub c: i64,
}

impl Line {
    /// The line through two points.
    pub open spec fn through(start: Point, end: Point) -> Line {
        Line {
            a: (end.y - start.y) as i64,
            b: (start.x - end.x) as i64,
            c: (end.x * start.y - start.x * end.y) as i64,
        }
    }

    /// The value of `a * x + b * y + c` at a point: zero on the line,
    /// positive on one side of it and negative on the other.
    pub open spec fn side(self, point: Point) -> int {
        self.a * point.x + self.b * point.y + self.c
    }

    /// The determinant of the two lines' directions: zero where they are
    /// parallel.
    pub open spec fn determinant(self, other: Line) -> int {
        other.a * self.b - self.a * other.b
    }

    /// The grid point nearest to where the two lines meet; `None` where they
    /// are parallel or meet outside the grid.
    pub open spec fn meet(self, other: Line) -> Option<Point> {
        let along = self.determinant(other);
        let x = as_coordinate(round_div(self.c * other.b - other.c * self.b, along));
        let y = as_coordinate(round_div(self.c * other.a - other.c * self.a, -along));
        if along != 0 && x is Some && y is Some {
            Some(Point { x: x->0, y: y->0 })
        } else {
            None
        }
    }

    /// The line with the given coefficients.
    #[must_use]
    #[inline]
    pub fn new(a: i64, b: i64, c: i64) -> (line: Self)
        ensures
            line == (Line { a, b, c }),
    {
        Self { a, b, c }
    }

    /// The line through two points.
    #[must_use]
    #[inline]
    pub fn new_from_points(start: Point, end: Point) -> (line: Self)
        ensures
            line == Line::through(start, end),
            line.a == end.y - start.y,
            line.b == start.x - end.x,
            line.c == end.x * start.y - start.x * end.y,
    {
        let first = wide_product(end.x as i64, start.y as i64);
        let second = wide_product(start.x as i64, end.y as i64);
        proof {
            lemma_grid_product(end.x as int, start.y as int);
            lemma_grid_product(start.x as int, end.y as int);
        }
        Self::new(
            end.y as i64 - start.y as i64,
            start.x as i64 - end.x as i64,
            (first - second) as i64,
        )
    }

    /// Where this line meets another, rounded to the grid.
    #[must_use]
    #[inline]
    pub fn intersection(&self, other: &Self) -> (point: Option<Point>)
        ensures
            point == self.meet(*other),
            self.determinant(*other) == 0 ==> point is None,
    {
        let along = wide_product(other.a, self.b) - wide_product(self.a, other.b);
        if along == 0 {
            return None;
        }
        let x = rounded_quotient(
            wide_product(self.c, other.b) - wide_product(other.c, self.b),
            along,
        );
        let y = rounded_quotient(
            wide_product(self.c, other.a) - wide_product(other.c, self.a),
            -along,
        );
        match (x, y) {
            (Some(x), Some(y)) => Some(Point::new(x, y)),
            _ => None,
        }
    }
}

/// A grid point that lies on both of two lines that are not parallel is the
/// point at which they are found to meet.
pub proof fn lemma_common_point_is_met(first: Line, second: Line, point: Point)
    requires
        first.side(point) == 0,
        second.side(point) == 0,
        first.determinant(second) != 0,
    ensures
        first.meet(second) == Some(point),
{
    let (a1, b1, c1) = (first.a as int, first.b as int, first.c as int);
    let (a2, b2, c2) = (second.a as int, second.b as int, second.c as int);
    let (x, y) = (point.x as int, point.y as int);
    let along = first.determinant(second);
    let (m1, n1) = ((a1 * x) * b2, (b1 * y) * b2);
    let (m2, n2) = ((a2 * x) * b1, (b2 * y) * b1);
    let (r1, s1) = ((a1 * x) * a2, (b1 * y) * a2);
    let (r2, s2) = ((a2 * x) * a1, (b2 * y) * a1);
    assert(c1 * b2 == -m1 - n1) by (nonlinear_arith)
        requires
            a1 * x + b1 * y + c1 == 0,
            m1 == (a1 * x) * b2,
            n1 == (b1 * y) * b2,
    ;
    assert(c2 * b1 == -m2 - n2) by (nonlinear_arith)
        requires
            a2 * x + b2 * y + c2 == 0,
            m2 == (a2 * x) * b1,
            n2 == (b2 * y) * b1,
    ;
    assert(c1 * a2 == -r1 - s1) by (nonlinear_arith)
        requires
            a1 * x + b1 * y + c1 == 0,
            r1 == (a1 * x) * a2,
            s1 == (b1 * y) * a2,
    ;
    assert(c2 * a1 == -r2 - s2) by (nonlinear_arith)
        requires
            a2 * x + b2 * y + c2 == 0,
            r2 == (a2 * x) * a1,
            s2 == (b2 * y) * a1,
    ;
    assert(n1 == n2) by (nonlinear_arith)
        requires
            n1 == (b1 * y) * b2,
            n2 == (b2 * y) * b1,
    ;
    assert(r1 == r2) by (nonlinear_arith)
        requires
            r1 == (a1 * x) * a2,
            r2 == (a2 * x) * a1,
    ;
    assert(x * along == m2 - m1) by (nonlinear_arith)
        requires
            along == a2 * b1 - a1 * b2,
            m1 == (a1 * x) * b2,
            m2 == (a2 * x) * b1,
    ;
    assert(y * (-along) == s2 - s1) by (nonlinear_arith)
        requires
            along == a2 * b1 - a1 * b2,
            s1 == (b1 * y) * a2,
            s2 == (b2 * y) * a1,
    ;
    lemma_round_div_whole(x, along);
    lemma_round_div_whole(y, -along);
}

/// Anything that is made of pixels, from a first to a last.
pub trait GeometricPrimitve {
    /// The pixels of the primitive, in order.
    spec fn path(&self) -> Seq<Point>;

    /// The pixels of the primitive, in order.
    fn points(&self) -> (points: &[Point])
        ensures
            points@ == self.path(),
    ;

    /// The first pixel of a primitive that is not empty.
    #[inline]
    fn first_point(&self) -> (point: Point)
        requires
            self.path().len() > 0,
        ensures
            point == self.path()[0],
    {
        self.points()[0]
    }

    /// The last pixel of a primitive that is not empty.
    #[inline]
    fn last_point(&self) -> (point: Point)
        requires
            self.path().len() > 0,
        ensures
            point == self.path()[self.path().len() - 1],
    {
        let points = self.points();
        points[points.len() - 1]
    }

    /// The number of pixels.
    #[inline]
    fn length(&self) -> (length: usize)
        ensures
            length == self.path().len(),
    {
        self.points().len()
    }
}

/// A primitive that runs straight from its first to its last pixel.
pub trait LineSegment: GeometricPrimitve {

}

/// A straight run of pixels in one colour. It always holds at least one pixel.
#[derive(Debug, PartialEq)]
pub struct OneColorSegment {
    color: Color,
    points: Vec<Point>,
}

impl Clone for OneColorSegment {
    #[inline]
    fn clone(&self) -> (copy: Self)
        ensures
            copy.path() == self.path(),
            copy.tint() == self.tint(),
    {
        proof {
            use_type_invariant(self);
        }
        let points = self.points.clone();
        assert(points@ =~= self.points@);
        Self { color: self.color, points }
    }
}

impl GeometricPrimitve for OneColorSegment {
    closed spec fn path(&self) -> Seq<Point> {
        self.points@
    }

    #[inline]
    fn points(&self) -> (points: &[Point]) {
        self.points.as_slice()
    }
}

impl LineSegment for OneColorSegment {

}

impl OneColorSegment {
    #[verifier::type_invariant]
    spec fn inhabited(&self) -> bool {
        self.points@.len() > 0
    }

    /// The colour of the segment.
    pub closed spec fn tint(&self) -> Color {
        self.color
    }

    /// Traces the segment from `start` to `end`, both included, unless the
    /// two lie further apart along `x` than a number of 32 bits can count.
    ///
    /// A shallow segment, one that runs towards growing `x` and falls by at
    /// most one pixel per step, is traced by the plain form of the algorithm,
    /// which never exchanges the axes.
    #[inline]
    pub fn new_45_deg(start: Point, end: Point, color: Color) -> (segment: Result<
        Self,
        InvalidPoints,
    >)
        ensures
            segment is Err <==> !steps_fit(start, end),
            segment matches Ok(segment) ==> {
                &&& segment.path() == traced(start, end)
                &&& segment.tint() == color
                &&& segment.path().len() == major_span(start, end) + 1
                &&& segment.path()[0] == start
                &&& segment.path()[segment.path().len() - 1] == end
                &&& connected(segment.path())
            },
    {
        let distance_x: i64 = end.x as i64 - start.x as i64;
        let distance_y: i64 = start.y as i64 - end.y as i64;
        if distance_x > 0x7fff_ffff || distance_x < -0x8000_0000 {
            return Err(InvalidPoints);
        }
        let points = if 0 <= distance_y && distance_y <= distance_x {
            trace_shallow(start, end)
        } else {
            trace(start, end)
        };
        Ok(Self { color, points })
    }

    /// Traces the segment from `start` to `end`, both included.
    #[must_use]
    #[inline]
    pub fn new(start: Point, end: Point, color: Color) -> (segment: Self)
        ensures
            segment.path() == traced(start, end),
            segment.tint() == color,
            segment.path().len() == major_span(start, end) + 1,
            segment.path()[0] == start,
            segment.path()[segment.path().len() - 1] == end,
            connected(segment.path()),
    {
        Self { color, points: trace(start, end) }
    }

    /// Traces the part of the segment from `start` to `end` that lies inside
    /// the polygon.
    #[inline]
    pub fn new_inside_polygon<T>(
        start: Point,
        end: Point,
        color: Color,
        polygon: &Polygon<'_, T>,
    ) -> (segment: Result<Self, CutSegmentInsidePolygonError>) where T: LineSegment
        ensures
            match clipped(start, end, polygon.outline()) {
                Ok((first, last)) => segment is Ok && segment->Ok_0.path() == traced(first, last)
                    && segment->Ok_0.tint() == color,
                Err(error) => segment == Err::<Self, _>(error),
            },
    {
        match Self::get_start_end_inside_polygon(start, end, polygon) {
            Ok((first, last)) => Ok(Self::new(first, last, color)),
            Err(error) => Err(error),
        }
    }

    /// The colour of the segment.
    #[must_use]
    #[inline]
    pub fn color(&self) -> (color: Color)
        ensures
            color == self.tint(),
    {
        self.color
    }

    /// Drops the pixels of the segment that lie before and after its part
    /// inside the polygon. The segment is left as it was where that fails.
    #[inline]
    pub fn cut_inside_polygon<T>(&mut self, polygon: &Polygon<'_, T>) -> (outcome: Result<
        (),
        CutSegmentInsidePolygonError,
    >) where T: LineSegment
        ensures
            old(self).path().len() > 0,
            final(self).tint() == old(self).tint(),
            match clipped(
                old(self).path()[0],
                old(self).path()[old(self).path().len() - 1],
                polygon.outline(),
            ) {
                Ok((first, last)) => {
                    if exists|i: int|
                        0 <= i < old(self).path().len() && is_either(
                            #[trigger] old(self).path()[i],
                            first,
                            last,
                        ) {
                        &&& outcome is Ok
                        &&& is_trim_of(final(self).path(), old(self).path(), first, last)
                    } else {
                        outcome == Err::<(), _>(CutSegmentInsidePolygonError::InvalidIntersection)
                            && final(self).path() == old(self).path()
                    }
                },
                Err(error) => {
                    &&& outcome == Err::<(), _>(error)
                    &&& final(self).path() == old(self).path()
                },
            },
            encloses(polygon.outline(), old(self).path()[0]) && encloses(
                polygon.outline(),
                old(self).path()[old(self).path().len() - 1],
            ) ==> outcome is Ok && final(self).path() == old(self).path(),
    {
        proof {
            use_type_invariant(&*self);
        }
        let ends = Self::get_start_end_inside_polygon(
            self.first_point(),
            self.last_point(),
            polygon,
        );
        let (start, end) = match ends {
            Ok(ends) => ends,
            Err(error) => {
                return Err(error);
            },
        };
        let first = match find_first(self.points.as_slice(), start, end) {
            Some(index) => index,
            None => {
                return Err(CutSegmentInsidePolygonError::InvalidIntersection);
            },
        };
        let last = match find_last(self.points.as_slice(), end, start) {
            Some(index) => index,
            None => {
                return Err(CutSegmentInsidePolygonError::InvalidIntersection);
            },
        };
        let ghost whole = self.points@;
        assert(first <= last) by {
            if last < first {
                assert(!is_either(whole[last as int], start, end));
            }
        }
        let mut kept: Vec<Point> = Vec::new();
        let mut i: usize = first;
        while i <= last
            invariant
                first <= i <= last + 1,
                last < self.points.len(),
                self.points@ == whole,
                kept@ == whole.subrange(first as int, i as int),
            decreases last + 1 - i,
        {
            kept.push(self.points[i]);
            assert(whole.subrange(first as int, i + 1) == whole.subrange(
                first as int,
                i as int,
            ).push(whole[i as int]));
            i += 1;
        }
        self.points = kept;
        proof {
            let (low, high) = (first as int, last as int);
            assert(is_either(whole[low], start, end));
            assert(is_either(whole[high], start, end));
            assert(kept@ == whole.subrange(low, high + 1));
            assert(is_trim_of(kept@, whole, start, end));
            if start == whole[0] && end == whole[whole.len() - 1] {
                lemma_trim_whole(kept@, whole);
            }
        }
        Ok(())
    }

    /// Finds the end points of the part of the segment from `start` to `end`
    /// that lies inside the polygon.
    pub fn get_start_end_inside_polygon<T>(
        start: Point,
        end: Point,
        polygon: &Polygon<'_, T>,
    ) -> (ends: Result<(Point, Point), CutSegmentInsidePolygonError>) where T: LineSegment
        ensures
            ends == clipped(start, end, polygon.outline()),
            ends matches Err(error) ==> error == CutSegmentInsidePolygonError::Outside,
    {
        let vertices = polygon.vertices();
        clip_endpoints(start, end, vertices.as_slice())
    }
}

impl From<(Point, Point)> for Line {
    #[inline]
    fn from(value: (Point, Point)) -> (line: Self) {
        Self::new_from_points(value.0, value.1)
    }
}

impl FromSpecImpl<(Point, Point)> for Line {
    open spec fn obeys_from_spec() -> bool {
        true
    }

    open spec fn from_spec(value: (Point, Point)) -> Self {
        Line::through(value.0, value.1)
    }
}

impl From<OneColorSegment> for Line {
    /// The line through the first and the last pixel of the segment.
    #[inline]
    fn from(value: OneColorSegment) -> (line: Self) {
        proof {
            use_type_invariant(&value);
        }
        Self::new_from_points(value.first_point(), value.last_point())
    }
}

impl FromSpecImpl<OneColorSegment> for Line {
    open spec fn obeys_from_spec() -> bool {
        true
    }

    open spec fn from_spec(value: OneColorSegment) -> Self {
        Line::through(value.path()[0], value.path()[value.path().len() - 1])
    }
}

/// Why a segment could not be drawn.
#[non_exhaustive]
#[derive(Debug)]
pub enum SegmentDrawError<T> where T: Renderer {
    /// The renderer refused a point.
    Draw(T::DrawError),
    /// The segment has no points.
    Empty,
}

impl<T> Renderable<T> for OneColorSegment where T: Renderer {
    type Error = SegmentDrawError<T>;

    open spec fn rendering(&self) -> Seq<(Point, Color)> {
        painted(self.path(), self.tint())
    }

    /// Paints every pixel in the colour of the primitive. Nothing is painted,
    /// and the renderer is left alone, where there is no pixel to paint.
    #[inline]
    fn render(&self, renderer: &mut T) -> (outcome: Result<(), Self::Error>)
        ensures
            outcome matches Err(SegmentDrawError::Empty) <==> self.path().len() == 0,
            outcome matches Err(SegmentDrawError::Empty) ==> *final(renderer) == *old(renderer),
            outcome matches Err(SegmentDrawError::Draw(_)) ==> final(renderer).color()
                == self.tint(),
    {
        let old_color = renderer.current_color();
        if self.points.len() == 0 {
            proof {
                let painting = Renderable::<T>::rendering(self);
                assert(renderer.drawn() =~= old(renderer).drawn() + painting.take(0));
            }
            return Err(SegmentDrawError::Empty);
        }
        renderer.set_color(self.color);
        let ghost before = renderer.drawn();
        match renderer.draw_points(self.points.as_slice()) {
            Ok(()) => {},
            Err(error) => {
                proof {
                    let painting = Renderable::<T>::rendering(self);
                    let count = choose|count: int|
                        0 <= count <= self.points@.len() && renderer.drawn() == before + painted(
                            #[trigger] self.points@.take(count),
                            self.color,
                        );
                    assert(painted(self.points@.take(count), self.color) =~= painting.take(count));
                }
                return Err(SegmentDrawError::Draw(error));
            },
        }
        renderer.set_color(old_color);
        Ok(())
    }
}

/// The end points lie further apart along `x` than a number of 32 bits can
/// count: the difference of their `x` is less than `i32::MIN` or greater than
/// `i32::MAX`.
#[non_exhaustive]
#[derive(Debug, Clone, Copy, PartialEq, Eq, Structural, PartialOrd, Ord, Hash)]
pub struct InvalidPoints;

/// Why a segment could not be cut to the inside of a polygon.
#[non_exhaustive]
#[derive(Debug, Clone, Copy, PartialEq, Eq, Structural)]
pub enum CutSegmentInsidePolygonError {
    /// The segment lies wholly outside the polygon: its end points are not
    /// both inside, and every corner lies on the same side of its line.
    Outside,
    /// The segment's line crosses fewer than two of the polygon's edges. A
    /// line that has corners on different sides always crosses two, so this
    /// is never returned.
    NotEnoughIntersections,
    /// A crossing with the polygon is not among the segment's points.
    InvalidIntersection,
    /// A crossing with one of the polygon's edges is no point of the grid. A
    /// crossing lies between the two ends of its edge, so this is never
    /// returned.
    InvalidSegments,
}

/// The product of two grid coordinates stays well inside 64 bits.
pub proof fn lemma_grid_product(x: int, y: int)
    requires
        i32::MIN <= x <= i32::MAX,
        i32::MIN <= y <= i32::MAX,
    ensures
        -0x4000_0000_0000_0000 < x * y <= 0x4000_0000_0000_0000,
{
    assert((x + 0x8000_0000) * (0x7fff_ffff - y) >= 0) by (nonlinear_arith)
        requires
            x + 0x8000_0000 >= 0,
            0x7fff_ffff - y >= 0,
    ;
    assert((0x7fff_ffff - x) * (y + 0x8000_0000) >= 0) by (nonlinear_arith)
        requires
            0x7fff_ffff - x >= 0,
            y + 0x8000_0000 >= 0,
    ;
    assert((x + 0x8000_0000) * (y + 0x8000_0000) >= 0) by (nonlinear_arith)
        requires
            x + 0x8000_0000 >= 0,
            y + 0x8000_0000 >= 0,
    ;
    assert((0x7fff_ffff - x) * (0x7fff_ffff - y) >= 0) by (nonlinear_arith)
        requires
            0x7fff_ffff - x >= 0,
            0x7fff_ffff - y >= 0,
    ;
    assert((0x7fff_ffff - x) * (0x7fff_ffff - y) == 0x7fff_ffff * 0x7fff_ffff - 0x7fff_ffff * y
        - x * 0x7fff_ffff + x * y) by (nonlinear_arith);
    assert((x + 0x8000_0000) * (0x7fff_ffff - y) == x * 0x7fff_ffff - x * y + 0x8000_0000
        * 0x7fff_ffff - 0x8000_0000 * y) by (nonlinear_arith);
    assert((0x7fff_ffff - x) * (y + 0x8000_0000) == 0x7fff_ffff * y + 0x7fff_ffff * 0x8000_0000
        - x * y - x * 0x8000_0000) by (nonlinear_arith);
    assert((x + 0x8000_0000) * (y + 0x8000_0000) == x * y + x * 0x8000_0000 + 0x8000_0000 * y
        + 0x8000_0000 * 0x8000_0000) by (nonlinear_arith);
}

} // verus!
