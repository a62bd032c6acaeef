//! Curves: runs of pixels that follow a sampled function, the zero set of a
//! function on the grid, or a chain of other primitives.

use crate::polygon::{joins, touches};
use crate::raster::{lemma_traced_ends, trace, traced};
use crate::rounding::{
    clamp_coordinate, clamped_quotient, lemma_round_div_exact, round_div, wide_product,
};
use crate::segment::{lemma_grid_product, GeometricPrimitve};
use crate::vector::Vector2;
use crate::{painted, Color, Point, Renderable, Renderer};
use vstd::prelude::*;
use vstd::std_specs::convert::TryFromSpecImpl;

verus! {

/// The number of segments of a sampled curve where none is asked for.
pub const DEFAULT_SEGMENTS: i32 = 500;

/// A run of pixels in one colour.
#[derive(Debug, Clone, PartialEq)]
pub struct OneColorCurve {
    points: Vec<Point>,
    color: Color,
}

/// The interval of a sampled curve does not end after it starts.
#[non_exhaustive]
#[derive(Debug, Clone, Copy, PartialEq, Eq, Structural, PartialOrd, Ord, Hash)]
pub struct WrongInterval;

/// Why a list of primitives is no curve.
#[non_exhaustive]
#[derive(Debug, Clone, Copy, PartialEq, Eq, Structural, PartialOrd, Ord, Hash)]
pub enum CurveFromSegmentsError {
    /// Fewer than two primitives were given.
    NotEnough,
    /// A primitive does not end where the next begins.
    NotTouching,
}

/// Why a curve could not be drawn.
#[non_exhaustive]
#[derive(Debug)]
pub enum CurveDrawError<T> where T: Renderer {
    /// The renderer refused a point.
    Draw(T::DrawError),
    /// The curve has no points.
    Empty,
}

/// The pixels of the first `upto` segments of the path that runs through the
/// samples in order. The pixel on which two segments meet occurs twice.
pub open spec fn polyline(samples: Seq<Point>, upto: int) -> Seq<Point>
    decreases upto,
{
    if upto <= 0 {
        Seq::<Point>::empty()
    } else {
        polyline(samples, upto - 1) + traced(samples[upto - 1], samples[upto])
    }
}

/// The number of segments that a sampled curve is made of.
pub open spec fn segment_count(num_segments: Option<i32>) -> int {
    match num_segments {
        Some(count) => count as int,
        None => DEFAULT_SEGMENTS as int,
    }
}

/// The numerator of sample `k` of `count`: the parameter of that sample is
/// `start + k * (end - start) / count`, which is this number over `count`.
pub open spec fn sample_numerator(start: int, end: int, count: int, k: int) -> int {
    start * (count - k) + end * k
}

/// Whether the two functions may give the coordinates of `point` at the
/// parameter `numerator / denominator`.
pub open spec fn is_sample<X: Fn(i64, i64) -> i32, Y: Fn(i64, i64) -> i32>(
    point: Point,
    x_fn: X,
    y_fn: Y,
    numerator: int,
    denominator: int,
) -> bool {
    &&& x_fn.ensures((numerator as i64, denominator as i64), point.x)
    &&& y_fn.ensures((numerator as i64, denominator as i64), point.y)
}

/// Whether `samples` holds what the two functions gave for each of the
/// `count + 1` parameters from `start` to `end`.
pub open spec fn is_sampling<X: Fn(i64, i64) -> i32, Y: Fn(i64, i64) -> i32>(
    samples: Seq<Point>,
    x_fn: X,
    y_fn: Y,
    start: int,
    end: int,
    count: int,
) -> bool {
    &&& samples.len() == count + 1
    &&& forall|k: int|
        0 <= k <= count ==> {
            &&& x_fn.ensures(
                (sample_numerator(start, end, count, k) as i64, count as i64),
                (#[trigger] samples[k]).x,
            )
            &&& y_fn.ensures(
                (sample_numerator(start, end, count, k) as i64, count as i64),
                samples[k].y,
            )
        }
}

/// Whether `first` comes before `second` when the grid is scanned column by
/// column: by `x`, then by `y`.
pub open spec fn scanned_before(first: Point, second: Point) -> bool {
    first.x < second.x || (first.x == second.x && first.y < second.y)
}

/// Whether the cell `(x, y)` lies on a grid of the given width and height.
pub open spec fn on_grid(x: i32, y: i32, width: i32, height: i32) -> bool {
    0 <= x < width && 0 <= y < height
}

/// Whether the function may give something other than zero at `(x, y)`.
pub open spec fn rejects<F: Fn(i32, i32) -> i64>(curve: F, x: i32, y: i32) -> bool {
    exists|value: i64| value != 0 && curve.ensures((x, y), value)
}

/// Whether the cell `(x, y)` is either among the points or one at which the
/// function may differ from zero.
pub open spec fn accounted<F: Fn(i32, i32) -> i64>(
    points: Seq<Point>,
    curve: F,
    x: i32,
    y: i32,
) -> bool {
    points.contains(Point { x, y }) || rejects(curve, x, y)
}

/// Whether `points` holds, in the order of the scan, the cells of the grid at
/// which the function gave zero, and no others.
pub open spec fn is_zero_scan<F: Fn(i32, i32) -> i64>(
    points: Seq<Point>,
    curve: F,
    width: i32,
    height: i32,
) -> bool {
    &&& forall|k: int|
        0 <= k < points.len() ==> on_grid(
            (#[trigger] points[k]).x,
            points[k].y,
            width,
            height,
        ) && curve.ensures((points[k].x, points[k].y), 0)
    &&& forall|k: int, l: int|
        0 <= k < l < points.len() ==> scanned_before(#[trigger] points[k], #[trigger] points[l])
    &&& forall|x: i32, y: i32|
        on_grid(x, y, width, height) ==> #[trigger] accounted(points, curve, x, y)
}

/// Whether primitive `i` ends where primitive `i + 1` begins.
pub open spec fn joins_next<T: GeometricPrimitve>(segments: Seq<T>, i: int) -> bool {
    joins(segments[i], segments[i + 1])
}

/// Whether each primitive but the last ends where the next begins.
pub open spec fn is_chain<T: GeometricPrimitve>(segments: Seq<T>) -> bool {
    forall|i: int| 0 <= i < segments.len() - 1 ==> #[trigger] joins_next(segments, i)
}

/// The pixels of the first `upto` primitives, one primitive after the other.
pub open spec fn chained<T: GeometricPrimitve>(segments: Seq<T>, upto: int) -> Seq<Point>
    decreases upto,
{
    if upto <= 0 {
        Seq::<Point>::empty()
    } else {
        chained(segments, upto - 1) + segments[upto - 1].path()
    }
}

/// The numerator of the parameter of sample `k`.
fn parameter(start: i32, end: i32, count: i32, k: i32) -> (numerator: i64)
    requires
        0 <= k <= count,
    ensures
        numerator == sample_numerator(start as int, end as int, count as int, k as int),
{
    let rest: i64 = count as i64 - k as i64;
    assert(-0x8000_0000 * rest <= start * rest <= 0x8000_0000 * rest) by (nonlinear_arith)
        requires
            -0x8000_0000 <= start <= 0x8000_0000,
            rest >= 0,
    ;
    assert(-0x8000_0000 * k <= end * k <= 0x8000_0000 * k) by (nonlinear_arith)
        requires
            -0x8000_0000 <= end <= 0x8000_0000,
            k >= 0,
    ;
    let numerator = wide_product(start as i64, rest) + wide_product(end as i64, k as i64);
    numerator as i64
}

impl GeometricPrimitve for OneColorCurve {
    closed spec fn path(&self) -> Seq<Point> {
        self.points@
    }

    #[inline]
    fn points(&self) -> (points: &[Point]) {
        self.points.as_slice()
    }
}

impl OneColorCurve {
    /// The colour of the curve.
    pub closed spec fn tint(&self) -> Color {
        self.color
    }

    /// The curve that runs through the samples in order, a straight segment
    /// from each to the next.
    pub fn new_from_samples(samples: &[Point], color: Color) -> (curve: Self)
        ensures
            curve.path() == polyline(samples@, samples@.len() - 1),
            curve.tint() == color,
            samples@.len() >= 2 ==> curve.path().len() > 0 && curve.path()[0] == samples@[0]
                && curve.path()[curve.path().len() - 1] == samples@[samples@.len() - 1],
    {
        proof {
            if samples@.len() >= 2 {
                lemma_polyline_ends(samples@, samples@.len() - 1);
            }
        }
        let mut points: Vec<Point> = Vec::new();
        let mut k: usize = 1;
        while k < samples.len()
            invariant
                1 <= k,
                k <= samples@.len() || k == 1,
                points@ == polyline(samples@, k - 1),
            decreases samples@.len() - k,
        {
            let mut piece = trace(samples[k - 1], samples[k]);
            points.append(&mut piece);
            k += 1;
        }
        assert(polyline(samples@, -1) == polyline(samples@, 0));
        Self { points, color }
    }

    /// Samples the curve `(x_fn(t), y_fn(t))` at evenly spaced parameters from
    /// `start` to `end` and joins each sample to the next by a segment.
    ///
    /// The two functions receive each parameter as an exact fraction, its
    /// numerator and its denominator.
    #[inline]
    pub fn new_parametric<X, Y>(
        color: Color,
        x_fn: X,
        y_fn: Y,
        start: i32,
        end: i32,
        num_segments: Option<i32>,
    ) -> (curve: Result<Self, WrongInterval>) where X: Fn(i64, i64) -> i32, Y: Fn(i64, i64) -> i32
        requires
            segment_count(num_segments) > 0,
            start < end ==> forall|k: int|
                0 <= k <= segment_count(num_segments) ==> {
                    &&& x_fn.requires(
                        (
                            #[trigger] sample_numerator(
                                start as int,
                                end as int,
                                segment_count(num_segments),
                                k,
                            ) as i64,
                            segment_count(num_segments) as i64,
                        ),
                    )
                    &&& y_fn.requires(
                        (
                            sample_numerator(
                                start as int,
                                end as int,
                                segment_count(num_segments),
                                k,
                            ) as i64,
                            segment_count(num_segments) as i64,
                        ),
                    )
                },
        ensures
            curve is Err <==> end <= start,
            curve matches Ok(curve) ==> {
                &&& curve.tint() == color
                &&& exists|samples: Seq<Point>|
                    {
                        &&& is_sampling(
                            samples,
                            x_fn,
                            y_fn,
                            start as int,
                            end as int,
                            segment_count(num_segments),
                        )
                        &&& curve.path() == #[trigger] polyline(
                            samples,
                            segment_count(num_segments),
                        )
                    }
                &&& curve.path().len() > 0
                &&& is_sample(
                    curve.path()[0],
                    x_fn,
                    y_fn,
                    sample_numerator(start as int, end as int, segment_count(num_segments), 0),
                    segment_count(num_segments),
                )
                &&& is_sample(
                    curve.path()[curve.path().len() - 1],
                    x_fn,
                    y_fn,
                    sample_numerator(
                        start as int,
                        end as int,
                        segment_count(num_segments),
                        segment_count(num_segments),
                    ),
                    segment_count(num_segments),
                )
            },
    {
        if end <= start {
            return Err(WrongInterval);
        }
        let count: i32 = match num_segments {
            Some(count) => count,
            None => DEFAULT_SEGMENTS,
        };
        let mut samples: Vec<Point> = Vec::new();
        let mut k: i64 = 0;
        while k <= count as i64
            invariant
                count == segment_count(num_segments),
                0 <= k <= count + 1,
                start < end,
                samples@.len() == k,
                forall|j: int|
                    0 <= j <= count ==> {
                        &&& x_fn.requires(
                            (
                                #[trigger] sample_numerator(
                                    start as int,
                                    end as int,
                                    count as int,
                                    j,
                                ) as i64,
                                count as i64,
                            ),
                        )
                        &&& y_fn.requires(
                            (
                                sample_numerator(start as int, end as int, count as int, j) as i64,
                                count as i64,
                            ),
                        )
                    },
                forall|j: int|
                    0 <= j < k ==> {
                        &&& x_fn.ensures(
                            (
                                sample_numerator(start as int, end as int, count as int, j) as i64,
                                count as i64,
                            ),
                            (#[trigger] samples@[j]).x,
                        )
                        &&& y_fn.ensures(
                            (
                                sample_numerator(start as int, end as int, count as int, j) as i64,
                                count as i64,
                            ),
                            samples@[j].y,
                        )
                    },
            decreases count + 1 - k,
        {
            let t = parameter(start, end, count, k as i32);
            let x = x_fn(t, count as i64);
            let y = y_fn(t, count as i64);
            samples.push(Point::new(x, y));
            k += 1;
        }
        let curve = Self::new_from_samples(samples.as_slice(), color);
        proof {
            assert(is_sampling(samples@, x_fn, y_fn, start as int, end as int, count as int));
        }
        Ok(curve)
    }

    /// Scans the grid column by column and keeps each cell at which the
    /// function is zero.
    #[inline]
    pub fn new_implicit<F>(curve: F, color: Color, width: i32, height: i32) -> (found: Self) where
        F: Fn(i32, i32) -> i64,
        requires
            forall|x: i32, y: i32|
                on_grid(x, y, width, height) ==> #[trigger] curve.requires((x, y)),
        ensures
            found.tint() == color,
            is_zero_scan(found.path(), curve, width, height),
    {
        let mut points: Vec<Point> = Vec::new();
        let mut i: i32 = 0;
        while i < width
            invariant
                0 <= i,
                i <= width || width < 0,
                forall|x: i32, y: i32|
                    on_grid(x, y, width, height) ==> #[trigger] curve.requires((x, y)),
                forall|k: int|
                    0 <= k < points@.len() ==> on_grid(
                        (#[trigger] points@[k]).x,
                        points@[k].y,
                        width,
                        height,
                    ) && curve.ensures((points@[k].x, points@[k].y), 0) && points@[k].x < i,
                forall|k: int, l: int|
                    0 <= k < l < points@.len() ==> scanned_before(
                        #[trigger] points@[k],
                        #[trigger] points@[l],
                    ),
                forall|x: i32, y: i32|
                    on_grid(x, y, width, height) && x < i ==> #[trigger] accounted(
                        points@,
                        curve,
                        x,
                        y,
                    ),
            decreases width - i,
        {
            let mut j: i32 = 0;
            while j < height
                invariant
                    0 <= i < width,
                    0 <= j,
                    j <= height || height < 0,
                    forall|x: i32, y: i32|
                        on_grid(x, y, width, height) ==> #[trigger] curve.requires((x, y)),
                    forall|k: int|
                        0 <= k < points@.len() ==> on_grid(
                            (#[trigger] points@[k]).x,
                            points@[k].y,
                            width,
                            height,
                        ) && curve.ensures((points@[k].x, points@[k].y), 0) && (points@[k].x < i
                            || (points@[k].x == i && points@[k].y < j)),
                    forall|k: int, l: int|
                        0 <= k < l < points@.len() ==> scanned_before(
                            #[trigger] points@[k],
                            #[trigger] points@[l],
                        ),
                    forall|x: i32, y: i32|
                        on_grid(x, y, width, height) && (x < i || (x == i && y < j))
                            ==> #[trigger] accounted(points@, curve, x, y),
                decreases height - j,
            {
                let ghost before = points@;
                let value = curve(i, j);
                if value == 0 {
                    points.push(Point::new(i, j));
                    proof {
                        let cell = Point { x: i, y: j };
                        assert(points@[before.len() as int] == cell);
                        assert forall|x: i32, y: i32|
                            on_grid(x, y, width, height) && (x < i || (x == i && y < j + 1))
                            implies #[trigger] accounted(points@, curve, x, y) by {
                            if x == i && y == j {
                            } else {
                                assert(accounted(before, curve, x, y));
                                if before.contains(Point { x, y }) {
                                    let k = choose|k: int|
                                        0 <= k < before.len() && before[k] == (Point { x, y });
                                    assert(points@[k] == (Point { x, y }));
                                }
                            }
                        }
                    }
                } else {
                    proof {
                        assert(rejects(curve, i, j));
                        assert forall|x: i32, y: i32|
                            on_grid(x, y, width, height) && (x < i || (x == i && y < j + 1))
                            implies #[trigger] accounted(points@, curve, x, y) by {
                            if x == i && y == j {
                            } else {
                                assert(accounted(before, curve, x, y));
                            }
                        }
                    }
                }
                j += 1;
            }
            i += 1;
        }
        Self { points, color }
    }

    /// The curve that runs through the primitives in order, each of which
    /// must end where the next begins.
    #[inline]
    pub fn new_from_segments<T>(segments: &[T], color: Color) -> (curve: Result<
        Self,
        CurveFromSegmentsError,
    >) where T: GeometricPrimitve
        ensures
            segments@.len() < 2 ==> curve == Err::<Self, _>(CurveFromSegmentsError::NotEnough),
            segments@.len() >= 2 && !is_chain(segments@) ==> curve == Err::<Self, _>(
                CurveFromSegmentsError::NotTouching,
            ),
            segments@.len() >= 2 && is_chain(segments@) ==> curve is Ok && curve->Ok_0.path()
                == chained(segments@, segments@.len() as int) && curve->Ok_0.tint() == color,
    {
        let len = segments.len();
        if len < 2 {
            return Err(CurveFromSegmentsError::NotEnough);
        }
        let mut i: usize = 0;
        while i + 1 < len
            invariant
                len == segments@.len(),
                0 <= i < len,
                forall|j: int| 0 <= j < i ==> #[trigger] joins_next(segments@, j),
            decreases len - i,
        {
            if !touches(&segments[i], &segments[i + 1]) {
                assert(!joins_next(segments@, i as int));
                return Err(CurveFromSegmentsError::NotTouching);
            }
            i += 1;
        }
        let mut points: Vec<Point> = Vec::new();
        let mut i: usize = 0;
        while i < len
            invariant
                len == segments@.len(),
                0 <= i <= len,
                points@ == chained(segments@, i as int),
            decreases len - i,
        {
            let piece = segments[i].points();
            let ghost before = points@;
            let mut j: usize = 0;
            while j < piece.len()
                invariant
                    0 <= j <= piece@.len(),
                    points@ == before + piece@.take(j as int),
                decreases piece@.len() - j,
            {
                points.push(piece[j]);
                assert(piece@.take(j + 1) == piece@.take(j as int).push(piece@[j as int]));
                j += 1;
            }
            assert(piece@.take(piece@.len() as int) == piece@);
            i += 1;
        }
        Ok(Self { points, color })
    }

    /// Draws the Hermite arc between two points with the given tangents.
    #[inline]
    pub fn new_hermite_arc(
        color: Color,
        start: Vector2,
        start_tangent: Vector2,
        end: Vector2,
        end_tangent: Vector2,
        num_segments: Option<i32>,
    ) -> (curve: Result<Self, WrongInterval>)
        requires
            segment_count(num_segments) > 0,
        ensures
            curve is Ok,
            curve->Ok_0.tint() == color,
            curve->Ok_0.path() == polyline(
                arc_samples(
                    ArcShape { color, start, start_tangent, end, end_tangent, num_segments },
                ),
                segment_count(num_segments),
            ),
            curve->Ok_0.path().len() > 0,
            curve->Ok_0.path()[0] == (Point { x: start.x, y: start.y }),
            curve->Ok_0.path()[curve->Ok_0.path().len() - 1] == (Point { x: end.x, y: end.y }),
    {
        Self::try_from(HermiteArc::new(color, start, start_tangent, end, end_tangent, num_segments))
    }

    /// The colour of the curve.
    #[must_use]
    #[inline]
    pub fn color(&self) -> (color: Color)
        ensures
            color == self.tint(),
    {
        self.color
    }
}

impl TryFrom<HermiteArc> for OneColorCurve {
    type Error = WrongInterval;

    /// Samples the arc over the unit interval.
    #[inline]
    fn try_from(value: HermiteArc) -> (curve: Result<Self, Self::Error>)
        ensures
            curve is Ok,
            curve->Ok_0.tint() == value@.color,
            curve->Ok_0.path() == polyline(arc_samples(value@), segment_count(value@.num_segments)),
            curve->Ok_0.path().len() > 0,
            curve->Ok_0.path()[0] == (Point { x: value@.start.x, y: value@.start.y }),
            curve->Ok_0.path()[curve->Ok_0.path().len() - 1] == (Point {
                x: value@.end.x,
                y: value@.end.y,
            }),
    {
        proof {
            use_type_invariant(&value);
        }
        let ghost count = segment_count(value.num_segments);
        let x_fn = |num: i64, den: i64| -> (x: i32)
            requires
                0 <= num <= den,
                0 < den <= i32::MAX,
            ensures
                x == hermite_coordinate(
                    num as int,
                    den as int,
                    value.start.x as int,
                    value.start_tangent.x as int,
                    value.end.x as int,
                    value.end_tangent.x as int,
                ),
            {
                hermite_at(
                    num as i32,
                    den as i32,
                    value.start.x,
                    value.start_tangent.x,
                    value.end.x,
                    value.end_tangent.x,
                )
            };
        let y_fn = |num: i64, den: i64| -> (y: i32)
            requires
                0 <= num <= den,
                0 < den <= i32::MAX,
            ensures
                y == hermite_coordinate(
                    num as int,
                    den as int,
                    value.start.y as int,
                    value.start_tangent.y as int,
                    value.end.y as int,
                    value.end_tangent.y as int,
                ),
            {
                hermite_at(
                    num as i32,
                    den as i32,
                    value.start.y,
                    value.start_tangent.y,
                    value.end.y,
                    value.end_tangent.y,
                )
            };
        assert forall|k: int| 0 <= k <= count implies #[trigger] sample_numerator(0, 1, count, k)
            == k by {
            assert(0 * (count - k) == 0 && 1 * k == k) by (nonlinear_arith);
        }
        let curve = Self::new_parametric(value.color, x_fn, y_fn, 0, 1, value.num_segments);
        proof {
            let made = curve->Ok_0;
            let samples = choose|samples: Seq<Point>|
                is_sampling(samples, x_fn, y_fn, 0, 1, count) && made.path() == #[trigger] polyline(
                    samples,
                    count,
                );
            assert forall|k: int| 0 <= k <= count implies samples[k] == arc_sample(
                value@,
                k,
                count,
            ) by {
                assert(sample_numerator(0, 1, count, k) == k);
            }
            assert(samples =~= arc_samples(value@));
            lemma_arc_ends(value@);
            lemma_polyline_ends(arc_samples(value@), count);
        }
        curve
    }
}

/// The conversion is described by what `try_from` itself ensures: the pixels
/// and the colour of the curve. No formula names the curve as a whole.
impl TryFromSpecImpl<HermiteArc> for OneColorCurve {
    open spec fn obeys_try_from_spec() -> bool {
        false
    }

    open spec fn try_from_spec(value: HermiteArc) -> Result<Self, Self::Error> {
        arbitrary()
    }
}

impl<R> Renderable<R> for OneColorCurve where R: Renderer {
    type Error = CurveDrawError<R>;

    open spec fn rendering(&self) -> Seq<(Point, Color)> {
        painted(self.path(), self.tint())
    }

    /// Paints every pixel in the colour of the primitive. Nothing is painted,
    /// and the renderer is left alone, where there is no pixel to paint.
    #[inline]
    fn render(&self, renderer: &mut R) -> (outcome: Result<(), Self::Error>)
        ensures
            outcome matches Err(CurveDrawError::Empty) <==> self.path().len() == 0,
            outcome matches Err(CurveDrawError::Empty) ==> *final(renderer) == *old(renderer),
            outcome matches Err(CurveDrawError::Draw(_)) ==> final(renderer).color() == self.tint(),
    {
        let old_color = renderer.current_color();
        if self.points.len() == 0 {
            proof {
                let painting = Renderable::<R>::rendering(self);
                assert(renderer.drawn() =~= old(renderer).drawn() + painting.take(0));
            }
            return Err(CurveDrawError::Empty);
        }
        renderer.set_color(self.color);
        let ghost before = renderer.drawn();
        match renderer.draw_points(self.points.as_slice()) {
            Ok(()) => {},
            Err(error) => {
                proof {
                    let painting = Renderable::<R>::rendering(self);
                    let count = choose|count: int|
                        0 <= count <= self.points@.len() && renderer.drawn() == before + painted(
                            #[trigger] self.points@.take(count),
                            self.color,
                        );
                    assert(painted(self.points@.take(count), self.color) =~= painting.take(count));
                }
                return Err(CurveDrawError::Draw(error));
            },
        }
        renderer.set_color(old_color);
        Ok(())
    }
}

/// The first basis function of a cubic Hermite arc, `2t^3 - 3t^2 + 1`, at
/// `t = num / den`, as a numerator over `den^3`.
pub open spec fn hermite_h0(num: int, den: int) -> int {
    2 * (num * num * num) - 3 * (num * num * den) + den * den * den
}

/// The second basis function, `-2t^3 + 3t^2`, as a numerator over `den^3`.
pub open spec fn hermite_h1(num: int, den: int) -> int {
    3 * (num * num * den) - 2 * (num * num * num)
}

/// The third basis function, `t^3 - 2t^2 + t`, as a numerator over `den^3`.
pub open spec fn hermite_h2(num: int, den: int) -> int {
    num * num * num - 2 * (num * num * den) + num * den * den
}

/// The fourth basis function, `t^3 - t^2`, as a numerator over `den^3`.
pub open spec fn hermite_h3(num: int, den: int) -> int {
    num * num * num - num * num * den
}

/// One coordinate of the arc at `t = num / den`, as a numerator over `den^3`:
/// the basis functions weigh the two ends and the two tangents.
pub open spec fn hermite_blend(
    num: int,
    den: int,
    start: int,
    start_tangent: int,
    end: int,
    end_tangent: int,
) -> int {
    hermite_h0(num, den) * start + hermite_h1(num, den) * end + hermite_h2(num, den)
        * start_tangent + hermite_h3(num, den) * end_tangent
}

/// One coordinate of the arc at `t = num / den`, rounded to the grid.
pub open spec fn hermite_coordinate(
    num: int,
    den: int,
    start: int,
    start_tangent: int,
    end: int,
    end_tangent: int,
) -> i32 {
    clamp_coordinate(
        round_div(
            hermite_blend(num, den, start, start_tangent, end, end_tangent),
            den * den * den,
        ),
    )
}

/// On the unit interval the first two basis functions are weights that add
/// up to one, and the other two stay within one of zero.
pub proof fn lemma_basis_range(num: int, den: int)
    requires
        0 <= num <= den,
    ensures
        hermite_h0(num, den) + hermite_h1(num, den) == den * den * den,
        0 <= hermite_h0(num, den) <= den * den * den,
        0 <= hermite_h1(num, den) <= den * den * den,
        0 <= hermite_h2(num, den) <= den * den * den,
        -(den * den * den) <= hermite_h3(num, den) <= 0,
{
    let u = num;
    let v = den - num;
    let uu = u * u;
    let vv = v * v;
    assert(uu >= 0) by (nonlinear_arith)
        requires
            uu == u * u,
    ;
    assert(vv >= 0) by (nonlinear_arith)
        requires
            vv == v * v,
    ;
    assert(hermite_h0(num, den) == vv * (v + 3 * u)) by (nonlinear_arith)
        requires
            v == den - num,
            u == num,
            vv == v * v,
    ;
    assert(hermite_h1(num, den) == uu * (3 * v + u)) by (nonlinear_arith)
        requires
            v == den - num,
            u == num,
            uu == u * u,
    ;
    assert(hermite_h2(num, den) == u * vv) by (nonlinear_arith)
        requires
            v == den - num,
            u == num,
            vv == v * v,
    ;
    assert(hermite_h3(num, den) == -(uu * v)) by (nonlinear_arith)
        requires
            v == den - num,
            u == num,
            uu == u * u,
    ;
    assert(vv * (v + 3 * u) >= 0) by (nonlinear_arith)
        requires
            vv >= 0,
            v + 3 * u >= 0,
    ;
    assert(uu * (3 * v + u) >= 0) by (nonlinear_arith)
        requires
            uu >= 0,
            3 * v + u >= 0,
    ;
    assert(u * vv >= 0) by (nonlinear_arith)
        requires
            vv >= 0,
            u >= 0,
    ;
    assert(uu * v >= 0) by (nonlinear_arith)
        requires
            uu >= 0,
            v >= 0,
    ;
    assert(den * den * den == vv * (v + 3 * u) + uu * (3 * v + u)) by (nonlinear_arith)
        requires
            v == den - num,
            u == num,
            uu == u * u,
            vv == v * v,
    ;
    assert(vv * (v + 3 * u) == vv * v + 3 * (u * vv)) by (nonlinear_arith);
    assert(uu * (3 * v + u) == 3 * (uu * v) + uu * u) by (nonlinear_arith);
    assert(vv * v >= 0) by (nonlinear_arith)
        requires
            vv >= 0,
            v >= 0,
    ;
    assert(uu * u >= 0) by (nonlinear_arith)
        requires
            uu >= 0,
            u >= 0,
    ;
}

/// A path through samples starts on the first of them and ends on the last.
pub proof fn lemma_polyline_ends(samples: Seq<Point>, upto: int)
    requires
        1 <= upto < samples.len(),
    ensures
        polyline(samples, upto).len() > 0,
        polyline(samples, upto)[0] == samples[0],
        polyline(samples, upto)[polyline(samples, upto).len() - 1] == samples[upto],
    decreases upto,
{
    lemma_traced_ends(samples[upto - 1], samples[upto]);
    if upto > 1 {
        lemma_polyline_ends(samples, upto - 1);
    } else {
        assert(polyline(samples, 0) =~= Seq::<Point>::empty());
    }
}

/// At `t = 0` the arc is at its start, and at `t = 1` at its end, whatever
/// the tangents.
pub proof fn lemma_hermite_ends(
    den: int,
    start: int,
    start_tangent: int,
    end: int,
    end_tangent: int,
)
    requires
        den > 0,
        i32::MIN <= start <= i32::MAX,
        i32::MIN <= end <= i32::MAX,
    ensures
        hermite_coordinate(0, den, start, start_tangent, end, end_tangent) == start,
        hermite_coordinate(den, den, start, start_tangent, end, end_tangent) == end,
{
    let cube = den * den * den;
    assert(cube > 0) by (nonlinear_arith)
        requires
            den > 0,
            cube == den * den * den,
    ;
    assert(0 * 0 * 0 == 0 && 0 * 0 * den == 0 && 0 * den * den == 0) by (nonlinear_arith);
    assert(hermite_h0(0, den) == cube);
    assert(hermite_h1(0, den) == 0);
    assert(hermite_h2(0, den) == 0);
    assert(hermite_h3(0, den) == 0);
    assert(hermite_blend(0, den, start, start_tangent, end, end_tangent) == start * cube)
        by (nonlinear_arith)
        requires
            hermite_blend(0, den, start, start_tangent, end, end_tangent) == cube * start + 0 * end
                + 0 * start_tangent + 0 * end_tangent,
    ;
    lemma_round_div_exact(start, cube);
    assert(hermite_h0(den, den) == 0);
    assert(hermite_h1(den, den) == cube);
    assert(hermite_h2(den, den) == 0);
    assert(hermite_h3(den, den) == 0);
    assert(hermite_blend(den, den, start, start_tangent, end, end_tangent) == end * cube)
        by (nonlinear_arith)
        requires
            hermite_blend(den, den, start, start_tangent, end, end_tangent) == 0 * start + cube
                * end + 0 * start_tangent + 0 * end_tangent,
    ;
    lemma_round_div_exact(end, cube);
}

/// The cube of a denominator is positive and stays within 94 bits.
pub proof fn lemma_cube_range(den: int)
    requires
        0 < den <= i32::MAX,
    ensures
        0 < den * den * den <= 0x2000_0000_0000_0000_0000_0000,
{
    assert(0 < den * den <= 0x4000_0000_0000_0000) by (nonlinear_arith)
        requires
            0 < den <= 0x8000_0000,
    ;
    assert(0 < den * den * den <= 0x2000_0000_0000_0000_0000_0000) by (nonlinear_arith)
        requires
            0 < den <= 0x8000_0000,
            0 < den * den <= 0x4000_0000_0000_0000,
    ;
}

/// The exact product of three grid coordinates.
fn triple_product(a: i32, b: i32, c: i32) -> (product: i128)
    ensures
        product == a * b * c,
        -0x2000_0000_0000_0000_0000_0000 <= product <= 0x2000_0000_0000_0000_0000_0000,
{
    proof {
        lemma_grid_product(a as int, b as int);
    }
    let pair = wide_product(a as i64, b as i64);
    assert(-0x2000_0000_0000_0000_0000_0000 <= pair * c <= 0x2000_0000_0000_0000_0000_0000)
        by (nonlinear_arith)
        requires
            -0x4000_0000_0000_0000 <= pair <= 0x4000_0000_0000_0000,
            -0x8000_0000 <= c <= 0x8000_0000,
    ;
    pair * (c as i128)
}

/// A weight of at most 94 bits times a grid coordinate.
fn weighted(weight: i128, coordinate: i32) -> (product: i128)
    requires
        -0x2000_0000_0000_0000_0000_0000 <= weight <= 0x2000_0000_0000_0000_0000_0000,
    ensures
        product == weight * coordinate,
        -0x1000_0000_0000_0000_0000_0000_0000_0000 <= product
            <= 0x1000_0000_0000_0000_0000_0000_0000_0000,
{
    assert(-0x1000_0000_0000_0000_0000_0000_0000_0000 <= weight * coordinate
        <= 0x1000_0000_0000_0000_0000_0000_0000_0000) by (nonlinear_arith)
        requires
            -0x2000_0000_0000_0000_0000_0000 <= weight <= 0x2000_0000_0000_0000_0000_0000,
            -0x8000_0000 <= coordinate <= 0x8000_0000,
    ;
    weight * (coordinate as i128)
}

/// One coordinate of a Hermite arc at `t = num / den` on the unit interval.
pub fn hermite_at(
    num: i32,
    den: i32,
    start: i32,
    start_tangent: i32,
    end: i32,
    end_tangent: i32,
) -> (coordinate: i32)
    requires
        0 <= num <= den,
        0 < den,
    ensures
        coordinate == hermite_coordinate(
            num as int,
            den as int,
            start as int,
            start_tangent as int,
            end as int,
            end_tangent as int,
        ),
{
    proof {
        lemma_basis_range(num as int, den as int);
        lemma_cube_range(den as int);
    }
    let cube = triple_product(den, den, den);
    let h0 = HermiteArc::basis_h0(num, den);
    let h1 = HermiteArc::basis_h1(num, den);
    let h2 = HermiteArc::basis_h2(num, den);
    let h3 = HermiteArc::basis_h3(num, den);
    let blend = weighted(h0, start) + weighted(h1, end) + weighted(h2, start_tangent) + weighted(
        h3,
        end_tangent,
    );
    clamped_quotient(blend, cube)
}

/// A cubic arc between two points, bent by a tangent at each of them, and the
/// number of segments in which it is to be drawn.
#[derive(Debug, Clone, Copy, PartialEq)]
pub struct HermiteArc {
    color: Color,
    start: Vector2,
    start_tangent: Vector2,
    end: Vector2,
    end_tangent: Vector2,
    num_segments: Option<i32>,
}

/// What a Hermite arc is made of.
pub struct ArcShape {
    pub color: Color,
    pub start: Vector2,
    pub start_tangent: Vector2,
    pub end: Vector2,
    pub end_tangent: Vector2,
    pub num_segments: Option<i32>,
}

impl View for HermiteArc {
    type V = ArcShape;

    closed spec fn view(&self) -> ArcShape {
        ArcShape {
            color: self.color,
            start: self.start,
            start_tangent: self.start_tangent,
            end: self.end,
            end_tangent: self.end_tangent,
            num_segments: self.num_segments,
        }
    }
}

/// The point of the arc at `t = k / count`, rounded to the grid.
pub open spec fn arc_sample(shape: ArcShape, k: int, count: int) -> Point {
    Point {
        x: hermite_coordinate(
            k,
            count,
            shape.start.x as int,
            shape.start_tangent.x as int,
            shape.end.x as int,
            shape.end_tangent.x as int,
        ),
        y: hermite_coordinate(
            k,
            count,
            shape.start.y as int,
            shape.start_tangent.y as int,
            shape.end.y as int,
            shape.end_tangent.y as int,
        ),
    }
}

/// The points of the arc at the ends of its segments.
pub open spec fn arc_samples(shape: ArcShape) -> Seq<Point> {
    Seq::new(
        (segment_count(shape.num_segments) + 1) as nat,
        |k: int| arc_sample(shape, k, segment_count(shape.num_segments)),
    )
}

/// The drawing of an arc starts on its start and ends on its end.
pub proof fn lemma_arc_ends(shape: ArcShape)
    requires
        segment_count(shape.num_segments) > 0,
    ensures
        arc_samples(shape).len() == segment_count(shape.num_segments) + 1,
        arc_samples(shape)[0] == (Point { x: shape.start.x, y: shape.start.y }),
        arc_samples(shape)[segment_count(shape.num_segments)] == (Point {
            x: shape.end.x,
            y: shape.end.y,
        }),
{
    let count = segment_count(shape.num_segments);
    lemma_hermite_ends(
        count,
        shape.start.x as int,
        shape.start_tangent.x as int,
        shape.end.x as int,
        shape.end_tangent.x as int,
    );
    lemma_hermite_ends(
        count,
        shape.start.y as int,
        shape.start_tangent.y as int,
        shape.end.y as int,
        shape.end_tangent.y as int,
    );
}

impl HermiteArc {
    #[verifier::type_invariant]
    pub(crate) closed spec fn drawable(&self) -> bool {
        segment_count(self@.num_segments) > 0
    }

    /// Describes an arc. The number of segments, where one is given, must be
    /// positive.
    #[must_use]
    #[inline]
    pub fn new(
        color: Color,
        start: Vector2,
        start_tangent: Vector2,
        end: Vector2,
        end_tangent: Vector2,
        num_segments: Option<i32>,
    ) -> (arc: Self)
        requires
            segment_count(num_segments) > 0,
        ensures
            arc@ == (ArcShape { color, start, start_tangent, end, end_tangent, num_segments }),
    {
        Self { color, start, start_tangent, end, end_tangent, num_segments }
    }

    /// The colour in which the arc is drawn.
    #[inline]
    #[must_use]
    pub fn color(&self) -> (color: &Color)
        ensures
            *color == self@.color,
    {
        &self.color
    }

    /// Where the arc starts.
    #[inline]
    #[must_use]
    pub fn start(&self) -> (start: &Vector2)
        ensures
            *start == self@.start,
    {
        &self.start
    }

    /// The direction in which the arc leaves its start.
    #[inline]
    #[must_use]
    pub fn start_tangent(&self) -> (tangent: &Vector2)
        ensures
            *tangent == self@.start_tangent,
    {
        &self.start_tangent
    }

    /// Where the arc ends.
    #[inline]
    #[must_use]
    pub fn end(&self) -> (end: &Vector2)
        ensures
            *end == self@.end,
    {
        &self.end
    }

    /// The direction in which the arc reaches its end.
    #[inline]
    #[must_use]
    pub fn end_tangent(&self) -> (tangent: &Vector2)
        ensures
            *tangent == self@.end_tangent,
    {
        &self.end_tangent
    }

    /// The number of segments in which the arc is drawn, where one was given.
    #[inline]
    #[must_use]
    pub fn num_segments(&self) -> (count: &Option<i32>)
        ensures
            *count == self@.num_segments,
            segment_count(*count) > 0,
    {
        proof {
            use_type_invariant(self);
        }
        &self.num_segments
    }

    /// `2t^3 - 3t^2 + 1` at `t = num / den`, as a numerator over `den^3`.
    #[inline]
    #[must_use]
    pub fn basis_h0(num: i32, den: i32) -> (value: i128)
        ensures
            value == hermite_h0(num as int, den as int),
    {
        2 * triple_product(num, num, num) - 3 * triple_product(num, num, den) + triple_product(
            den,
            den,
            den,
        )
    }

    /// `-2t^3 + 3t^2` at `t = num / den`, as a numerator over `den^3`.
    #[inline]
    #[must_use]
    pub fn basis_h1(num: i32, den: i32) -> (value: i128)
        ensures
            value == hermite_h1(num as int, den as int),
    {
        3 * triple_product(num, num, den) - 2 * triple_product(num, num, num)
    }

    /// `t^3 - 2t^2 + t` at `t = num / den`, as a numerator over `den^3`.
    #[inline]
    #[must_use]
    pub fn basis_h2(num: i32, den: i32) -> (value: i128)
        ensures
            value == hermite_h2(num as int, den as int),
    {
        triple_product(num, num, num) - 2 * triple_product(num, num, den) + triple_product(
            num,
            den,
            den,
        )
    }

    /// `t^3 - t^2` at `t = num / den`, as a numerator over `den^3`.
    #[inline]
    #[must_use]
    pub fn basis_h3(num: i32, den: i32) -> (value: i128)
        ensures
            value == hermite_h3(num as int, den as int),
    {
        triple_product(num, num, num) - triple_product(num, num, den)
    }
}

} // verus!
