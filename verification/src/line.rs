//! Lines: a line in general form, and a straight run of pixels that can be
//! cut to the inside of a polygon.

use crate::clip::{clipped, encloses, is_either, is_trim_of};
use crate::polygon::Polygon;
use crate::raster::{connected, major_span, steps_fit, traced};
use crate::segment::{
    CutSegmentInsidePolygonError, GeometricPrimitve, Line, OneColorSegment, SegmentDrawError,
};
use crate::{painted, Color, Point, Renderable, Renderer};
use vstd::prelude::*;
use vstd::std_specs::convert::FromSpecImpl;

verus! {

/// A line in general form: the points `(x, y)` with `a * x + b * y + c == 0`.
#[derive(Debug, Clone, Copy, PartialEq, Eq, Structural)]
pub struct LineGeneralForm {
    pub a: i64,
    pub b: i64,
    pub c: i64,
}

impl LineGeneralForm {
    /// The same line as a [`Line`].
    pub open spec fn line(self) -> Line {
        Line { a: self.a, b: self.b, c: self.c }
    }

    /// The line with the given coefficients.
    #[must_use]
    #[inline]
    pub fn new(a: i64, b: i64, c: i64) -> (form: Self)
        ensures
            form == (LineGeneralForm { a, b, c }),
    {
        Self { a, b, c }
    }

    /// The line through two points.
    #[must_use]
    #[inline]
    pub fn new_from_points(start: Point, end: Point) -> (form: Self)
        ensures
            form.line() == Line::through(start, end),
    {
        let line = Line::new_from_points(start, end);
        Self::new(line.a, line.b, line.c)
    }

    /// Where this line meets another, rounded to the grid; `None` where the
    /// two are parallel or meet outside the grid.
    #[must_use]
    #[inline]
    pub fn intersection(&self, other: &Self) -> (point: Option<Point>)
        ensures
            point == self.line().meet(other.line()),
    {
        Line::new(self.a, self.b, self.c).intersection(&Line::new(other.a, other.b, other.c))
    }
}

impl From<(Point, Point)> for LineGeneralForm {
    #[inline]
    fn from(value: (Point, Point)) -> (form: Self) {
        Self::new_from_points(value.0, value.1)
    }
}

impl FromSpecImpl<(Point, Point)> for LineGeneralForm {
    open spec fn obeys_from_spec() -> bool {
        true
    }

    open spec fn from_spec(value: (Point, Point)) -> Self {
        let line = Line::through(value.0, value.1);
        LineGeneralForm { a: line.a, b: line.b, c: line.c }
    }
}

/// A straight run of pixels.
pub trait LineSegment {
    /// The pixels of the line, in order.
    spec fn track(&self) -> Seq<Point>;

    /// The pixels of the line, in order.
    fn points(&self) -> (points: &[Point])
        ensures
            points@ == self.track(),
    ;

    /// The first pixel of a line that is not empty.
    fn first_point(&self) -> (point: Point)
        requires
            self.track().len() > 0,
        ensures
            point == self.track()[0],
    ;

    /// The last pixel of a line that is not empty.
    fn last_point(&self) -> (point: Point)
        requires
            self.track().len() > 0,
        ensures
            point == self.track()[self.track().len() - 1],
    ;
}

/// A straight run of pixels in one colour. It always holds at least one pixel.
#[derive(Debug, Clone, PartialEq)]
pub struct OneColorLine {
    segment: OneColorSegment,
}

/// The end points lie further apart along `x` than a number of 32 bits can
/// count: the difference of their `x` is less than `i32::MIN` or greater than
/// `i32::MAX`.
#[non_exhaustive]
#[derive(Debug, Copy, Clone, PartialEq, Eq, Structural)]
pub struct InvalidPoints;

/// Why a line could not be cut to the inside of a polygon.
#[non_exhaustive]
#[derive(Debug, Clone, Copy, PartialEq, Eq, Structural)]
pub enum CutLineInsidePolygonError {
    /// The line lies wholly outside the polygon: its end points are not both
    /// inside, and every corner lies on the same side of it.
    Outside,
    /// The line crosses fewer than two of the polygon's edges. This is never
    /// returned.
    NotEnoughIntersections,
    /// A crossing with the polygon is not among the line's points.
    InvalidIntersection,
    /// A crossing with one of the polygon's edges is no point of the grid.
    /// This is never returned.
    InvalidLines,
}

/// The failure of a line that corresponds to the failure of a segment.
pub open spec fn line_failure(error: CutSegmentInsidePolygonError) -> CutLineInsidePolygonError {
    match error {
        CutSegmentInsidePolygonError::Outside => CutLineInsidePolygonError::Outside,
        CutSegmentInsidePolygonError::NotEnoughIntersections => {
            CutLineInsidePolygonError::NotEnoughIntersections
        },
        CutSegmentInsidePolygonError::InvalidIntersection => {
            CutLineInsidePolygonError::InvalidIntersection
        },
        CutSegmentInsidePolygonError::InvalidSegments => CutLineInsidePolygonError::InvalidLines,
    }
}

impl From<CutSegmentInsidePolygonError> for CutLineInsidePolygonError {
    fn from(error: CutSegmentInsidePolygonError) -> (failure: Self) {
        match error {
            CutSegmentInsidePolygonError::Outside => CutLineInsidePolygonError::Outside,
            CutSegmentInsidePolygonError::NotEnoughIntersections => {
                CutLineInsidePolygonError::NotEnoughIntersections
            },
            CutSegmentInsidePolygonError::InvalidIntersection => {
                CutLineInsidePolygonError::InvalidIntersection
            },
            CutSegmentInsidePolygonError::InvalidSegments => {
                CutLineInsidePolygonError::InvalidLines
            },
        }
    }
}

impl FromSpecImpl<CutSegmentInsidePolygonError> for CutLineInsidePolygonError {
    open spec fn obeys_from_spec() -> bool {
        true
    }

    open spec fn from_spec(error: CutSegmentInsidePolygonError) -> Self {
        line_failure(error)
    }
}

/// Why a line could not be drawn.
#[non_exhaustive]
#[derive(Debug)]
pub enum LineDrawError<T> where T: Renderer {
    /// The renderer refused a point.
    Draw(T::DrawError),
    /// The line has no points.
    Empty,
}

impl LineSegment for OneColorLine {
    closed spec fn track(&self) -> Seq<Point> {
        self.segment.path()
    }

    #[inline]
    fn points(&self) -> (points: &[Point]) {
        self.segment.points()
    }

    #[inline]
    fn first_point(&self) -> (point: Point) {
        self.segment.first_point()
    }

    #[inline]
    fn last_point(&self) -> (point: Point) {
        self.segment.last_point()
    }
}

impl OneColorLine {
    /// The colour of the line.
    pub closed spec fn tint(&self) -> Color {
        self.segment.tint()
    }

    /// Traces the line from `start` to `end`, both included, unless the two
    /// lie further apart along `x` than a number of 32 bits can count.
    #[inline]
    pub fn new_45_deg(start: Point, end: Point, color: Color) -> (line: Result<Self, InvalidPoints>)
        ensures
            line is Err <==> !steps_fit(start, end),
            line matches Ok(line) ==> {
                &&& line.track() == traced(start, end)
                &&& line.tint() == color
                &&& line.track().len() == major_span(start, end) + 1
                &&& line.track()[0] == start
                &&& line.track()[line.track().len() - 1] == end
                &&& connected(line.track())
            },
    {
        match OneColorSegment::new_45_deg(start, end, color) {
            Ok(segment) => Ok(Self { segment }),
            Err(_) => Err(InvalidPoints),
        }
    }

    /// Traces the line from `start` to `end`, both included.
    #[must_use]
    #[inline]
    pub fn new(start: Point, end: Point, color: Color) -> (line: Self)
        ensures
            line.track() == traced(start, end),
            line.tint() == color,
            line.track().len() == major_span(start, end) + 1,
            line.track()[0] == start,
            line.track()[line.track().len() - 1] == end,
            connected(line.track()),
    {
        Self { segment: OneColorSegment::new(start, end, color) }
    }

    /// Traces the part of the line from `start` to `end` that lies inside the
    /// polygon.
    #[inline]
    pub fn new_inside_polygon<T>(
        start: Point,
        end: Point,
        color: Color,
        polygon: &Polygon<'_, T>,
    ) -> (line: Result<Self, CutLineInsidePolygonError>) where T: crate::segment::LineSegment
        ensures
            match clipped(start, end, polygon.outline()) {
                Ok((first, last)) => line is Ok && line->Ok_0.track() == traced(first, last)
                    && line->Ok_0.tint() == color,
                Err(error) => line == Err::<Self, _>(line_failure(error)),
            },
    {
        match OneColorSegment::new_inside_polygon(start, end, color, polygon) {
            Ok(segment) => Ok(Self { segment }),
            Err(error) => Err(CutLineInsidePolygonError::from(error)),
        }
    }

    /// The colour of the line.
    #[must_use]
    #[inline]
    pub fn color(&self) -> (color: Color)
        ensures
            color == self.tint(),
    {
        self.segment.color()
    }

    /// Drops the pixels of the line that lie before and after its part
    /// inside the polygon. The line is left as it was where that fails.
    #[inline]
    pub fn cut_inside_polygon<T>(&mut self, polygon: &Polygon<'_, T>) -> (outcome: Result<
        (),
        CutLineInsidePolygonError,
    >) where T: crate::segment::LineSegment
        ensures
            old(self).track().len() > 0,
            final(self).tint() == old(self).tint(),
            match clipped(
                old(self).track()[0],
                old(self).track()[old(self).track().len() - 1],
                polygon.outline(),
            ) {
                Ok((first, last)) => {
                    if exists|i: int|
                        0 <= i < old(self).track().len() && is_either(
                            #[trigger] old(self).track()[i],
                            first,
                            last,
                        ) {
                        outcome is Ok && is_trim_of(
                            final(self).track(),
                            old(self).track(),
                            first,
                            last,
                        )
                    } else {
                        outcome == Err::<(), _>(CutLineInsidePolygonError::InvalidIntersection)
                            && final(self).track() == old(self).track()
                    }
                },
                Err(error) => outcome == Err::<(), _>(line_failure(error)) && final(self).track()
                    == old(self).track(),
            },
            encloses(polygon.outline(), old(self).track()[0]) && encloses(
                polygon.outline(),
                old(self).track()[old(self).track().len() - 1],
            ) ==> outcome is Ok && final(self).track() == old(self).track(),
    {
        match self.segment.cut_inside_polygon(polygon) {
            Ok(()) => Ok(()),
            Err(error) => Err(CutLineInsidePolygonError::from(error)),
        }
    }
}

impl From<OneColorLine> for LineGeneralForm {
    /// The line through the first and the last pixel.
    #[inline]
    fn from(value: OneColorLine) -> (form: Self) {
        let line = Line::from(value.segment);
        Self::new(line.a, line.b, line.c)
    }
}

impl FromSpecImpl<OneColorLine> for LineGeneralForm {
    open spec fn obeys_from_spec() -> bool {
        true
    }

    open spec fn from_spec(value: OneColorLine) -> Self {
        let line = Line::through(value.track()[0], value.track()[value.track().len() - 1]);
        LineGeneralForm { a: line.a, b: line.b, c: line.c }
    }
}

impl<T> Renderable<T> for OneColorLine where T: Renderer {
    type Error = LineDrawError<T>;

    open spec fn rendering(&self) -> Seq<(Point, Color)> {
        painted(self.track(), self.tint())
    }

    /// Paints every pixel in the colour of the line. Nothing is painted, and
    /// the renderer is left alone, where there is no pixel to paint.
    #[inline]
    fn render(&self, renderer: &mut T) -> (outcome: Result<(), Self::Error>)
        ensures
            outcome matches Err(LineDrawError::Empty) <==> self.track().len() == 0,
            outcome matches Err(LineDrawError::Empty) ==> *final(renderer) == *old(renderer),
            outcome matches Err(LineDrawError::Draw(_)) ==> final(renderer).color() == self.tint(),
    {
        let outcome = self.segment.render(renderer);
        proof {
            let painting = Renderable::<T>::rendering(&self.segment);
            assert(painting == Renderable::<T>::rendering(self));
            if outcome is Err {
                let count = choose|count: int|
                    0 <= count <= painting.len() && renderer.drawn() == old(renderer).drawn()
                        + #[trigger] painting.take(count);
            }
        }
        match outcome {
            Ok(()) => Ok(()),
            Err(SegmentDrawError::Draw(error)) => Err(LineDrawError::Draw(error)),
            Err(SegmentDrawError::Empty) => Err(LineDrawError::Empty),
        }
    }
}

} // verus!
