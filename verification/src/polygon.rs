//! Closed outlines made of segments.

use crate::clip::{contains_point, encloses, following};
use crate::raster::traced;
use crate::segment::{GeometricPrimitve, LineSegment, OneColorSegment};
use crate::{Color, Point, Renderable, Renderer};
use vstd::prelude::*;

verus! {

/// Whether `last` ends on the pixel on which `next` begins. An empty primitive
/// joins nothing.
pub open spec fn joins<T: GeometricPrimitve>(last: T, next: T) -> bool {
    &&& last.path().len() > 0
    &&& next.path().len() > 0
    &&& last.path()[last.path().len() - 1] == next.path()[0]
}

/// Whether primitive `i` joins the one that follows it, the last being
/// followed by the first.
pub open spec fn joins_following<T: GeometricPrimitve>(edges: Seq<T>, i: int) -> bool {
    joins(edges[i], edges[following(i, edges.len() as int)])
}

/// Whether each primitive ends where the next begins, and the last where the
/// first begins.
pub open spec fn is_ring<T: GeometricPrimitve>(edges: Seq<T>) -> bool {
    forall|i: int| 0 <= i < edges.len() ==> #[trigger] joins_following(edges, i)
}

/// The first pixel of each primitive, in order.
pub open spec fn corners<T: GeometricPrimitve>(edges: Seq<T>) -> Seq<Point> {
    Seq::new(edges.len(), |i: int| edges[i].path()[0])
}

/// What rendering the first `upto` primitives paints, one after the other.
pub open spec fn joint_rendering<R: Renderer, T: Renderable<R>>(edges: Seq<T>, upto: int) -> Seq<
    (Point, Color),
>
    decreases upto,
{
    if upto <= 0 {
        Seq::<(Point, Color)>::empty()
    } else {
        joint_rendering::<R, T>(edges, upto - 1) + edges[upto - 1].rendering()
    }
}

/// What the first primitives paint is the beginning of what more of them
/// paint.
pub proof fn lemma_joint_rendering_grows<R: Renderer, T: Renderable<R>>(
    edges: Seq<T>,
    part: int,
    whole: int,
)
    requires
        0 <= part <= whole,
    ensures
        joint_rendering::<R, T>(edges, part).len() <= joint_rendering::<R, T>(edges, whole).len(),
        joint_rendering::<R, T>(edges, whole).take(
            joint_rendering::<R, T>(edges, part).len() as int,
        ) == joint_rendering::<R, T>(edges, part),
    decreases whole,
{
    let small = joint_rendering::<R, T>(edges, part);
    if part < whole {
        lemma_joint_rendering_grows::<R, T>(edges, part, whole - 1);
        let before = joint_rendering::<R, T>(edges, whole - 1);
        let last = edges[whole - 1].rendering();
        assert((before + last).take(small.len() as int) =~= before.take(small.len() as int));
    } else {
        assert(small.take(small.len() as int) =~= small);
    }
}

/// Draws the primitives in order and stops at the first that fails.
pub fn render_all<R: Renderer, T: Renderable<R>>(edges: &[T], renderer: &mut R) -> (outcome:
    Result<(), T::Error>)
    ensures
        outcome.is_ok() ==> final(renderer).color() == old(renderer).color(),
        outcome.is_ok() ==> final(renderer).drawn() == old(renderer).drawn() + joint_rendering::<
            R,
            T,
        >(edges@, edges@.len() as int),
        outcome.is_err() ==> exists|count: int|
            0 <= count <= joint_rendering::<R, T>(edges@, edges@.len() as int).len()
                && final(renderer).drawn() == old(renderer).drawn() + #[trigger] joint_rendering::<
                R,
                T,
            >(edges@, edges@.len() as int).take(count),
{
    let mut i: usize = 0;
    while i < edges.len()
        invariant
            0 <= i <= edges@.len(),
            renderer.color() == old(renderer).color(),
            renderer.drawn() == old(renderer).drawn() + joint_rendering::<R, T>(
                edges@,
                i as int,
            ),
        decreases edges@.len() - i,
    {
        let ghost before = renderer.drawn();
        match edges[i].render(renderer) {
            Ok(()) => {},
            Err(error) => {
                proof {
                    let len = edges@.len() as int;
                    let edge = edges@[i as int].rendering();
                    let done = joint_rendering::<R, T>(edges@, i as int);
                    let all = joint_rendering::<R, T>(edges@, len);
                    let count = choose|count: int|
                        0 <= count <= edge.len() && renderer.drawn() == before
                            + #[trigger] edge.take(count);
                    lemma_joint_rendering_grows::<R, T>(edges@, i + 1, len);
                    assert(joint_rendering::<R, T>(edges@, i + 1) == done + edge);
                    assert(all.take((done.len() + edge.len()) as int) == done + edge);
                    assert(all.take(done.len() + count) =~= done + edge.take(count)) by {
                        assert forall|j: int| 0 <= j < done.len() + count implies all[j] == (done
                            + edge.take(count))[j] by {
                            assert(all[j] == all.take((done.len() + edge.len()) as int)[j]);
                        }
                    }
                    assert(renderer.drawn() =~= old(renderer).drawn() + all.take(
                        done.len() + count,
                    ));
                }
                return Err(error);
            },
        }
        i += 1;
    }
    Ok(())
}

/// The edges of a shape: its own, or those of its maker.
#[derive(Debug)]
pub(crate) enum Edges<'edges, T> {
    Owned(Vec<T>),
    Borrowed(&'edges [T]),
}

impl<'edges, T> Edges<'edges, T> {
    /// The edges, in order.
    pub(crate) open spec fn all(&self) -> Seq<T> {
        match self {
            Edges::Owned(edges) => edges@,
            Edges::Borrowed(edges) => edges@,
        }
    }

    pub(crate) fn as_slice(&self) -> (edges: &[T])
        ensures
            edges@ == self.all(),
    {
        match self {
            Edges::Owned(edges) => edges.as_slice(),
            Edges::Borrowed(edges) => edges,
        }
    }
}

/// A closed outline of at least three edges.
#[derive(Debug)]
pub struct Polygon<'edges, T> where T: LineSegment {
    edges: Edges<'edges, T>,
}

/// Fewer than three points were given.
#[non_exhaustive]
#[derive(Debug, Clone, Copy, PartialEq, Eq, Structural, PartialOrd, Ord, Hash)]
pub struct NotEnoughPointsError;

/// Why a list of segments is no polygon.
#[non_exhaustive]
#[derive(Debug, Clone, PartialEq, Eq, Structural, PartialOrd, Ord, Hash)]
pub enum PolygonFromSegmentsError {
    /// Fewer than three segments were given.
    NotEnough,
    /// A segment does not end where the next begins.
    NotTouching,
}

/// Whether the primitive `last` ends where `next` begins.
pub fn touches<T: GeometricPrimitve>(last: &T, next: &T) -> (touching: bool)
    ensures
        touching == joins(*last, *next),
{
    if last.length() == 0 || next.length() == 0 {
        return false;
    }
    let end = last.last_point();
    let start = next.first_point();
    end.x == start.x && end.y == start.y
}

/// Whether the primitives form a ring.
pub fn forms_ring<T: GeometricPrimitve>(edges: &[T]) -> (closed: bool)
    ensures
        closed == is_ring(edges@),
{
    let len = edges.len();
    let mut i: usize = 0;
    while i < len
        invariant
            len == edges@.len(),
            0 <= i <= len,
            forall|j: int| 0 <= j < i ==> #[trigger] joins_following(edges@, j),
        decreases len - i,
    {
        let next: usize = if i + 1 == len {
            0
        } else {
            i + 1
        };
        if !touches(&edges[i], &edges[next]) {
            assert(!joins_following(edges@, i as int));
            return false;
        }
        i += 1;
    }
    true
}

/// Collects the first pixel of each primitive of a ring.
pub fn first_points<T: GeometricPrimitve>(edges: &[T]) -> (vertices: Vec<Point>)
    requires
        is_ring(edges@),
    ensures
        vertices@ == corners(edges@),
{
    let mut vertices: Vec<Point> = Vec::new();
    let mut i: usize = 0;
    while i < edges.len()
        invariant
            0 <= i <= edges@.len(),
            is_ring(edges@),
            vertices@.len() == i,
            forall|j: int| 0 <= j < i ==> #[trigger] vertices@[j] == edges@[j].path()[0],
        decreases edges@.len() - i,
    {
        assert(joins_following(edges@, i as int));
        vertices.push(edges[i].first_point());
        i += 1;
    }
    assert(vertices@ =~= corners(edges@));
    vertices
}

/// Traces the closed outline through the points: one segment from each point
/// to the next, and one from the last back to the first.
pub fn outline_segments(points: &[Point], color: Color) -> (edges: Vec<OneColorSegment>)
    requires
        points@.len() > 0,
    ensures
        edges@.len() == points@.len(),
        forall|i: int|
            0 <= i < points@.len() ==> (#[trigger] edges@[i]).path() == traced(
                points@[i],
                points@[following(i, points@.len() as int)],
            ) && edges@[i].tint() == color,
        is_ring(edges@),
        corners(edges@) == points@,
{
    let len = points.len();
    let mut edges: Vec<OneColorSegment> = Vec::new();
    let mut i: usize = 0;
    while i < len
        invariant
            len == points@.len(),
            0 <= i <= len,
            edges@.len() == i,
            forall|j: int|
                0 <= j < i ==> (#[trigger] edges@[j]).path() == traced(
                    points@[j],
                    points@[following(j, len as int)],
                ) && edges@[j].tint() == color && edges@[j].path().len() > 0 && edges@[j].path()[0]
                    == points@[j] && edges@[j].path()[edges@[j].path().len() - 1]
                    == points@[following(j, len as int)],
        decreases len - i,
    {
        let next: usize = if i + 1 == len {
            0
        } else {
            i + 1
        };
        edges.push(OneColorSegment::new(points[i], points[next], color));
        i += 1;
    }
    assert(corners(edges@) =~= points@);
    assert forall|j: int| 0 <= j < edges@.len() implies #[trigger] joins_following(edges@, j) by {
        let after = following(j, len as int);
        assert(edges@[j].path().len() > 0);
        assert(edges@[after].path()[0] == points@[after]);
    }
    edges
}

impl Polygon<'_, OneColorSegment> {
    /// The polygon with the given corners, closed by an edge from the last
    /// corner back to the first.
    #[inline]
    pub fn new(points: &[Point], color: Color) -> (polygon: Result<Self, NotEnoughPointsError>)
        ensures
            polygon is Err <==> points@.len() < 3,
            polygon matches Ok(polygon) ==> {
                &&& polygon.outline() == points@
                &&& polygon.sides().len() == points@.len()
                &&& forall|i: int|
                    0 <= i < points@.len() ==> (#[trigger] polygon.sides()[i]).path() == traced(
                        points@[i],
                        points@[following(i, points@.len() as int)],
                    ) && polygon.sides()[i].tint() == color
            },
    {
        if points.len() < 3 {
            return Err(NotEnoughPointsError);
        }
        Ok(Self { edges: Edges::Owned(outline_segments(points, color)) })
    }
}

impl<'edges, T> Polygon<'edges, T> where T: LineSegment {
    #[verifier::type_invariant]
    spec fn closed(&self) -> bool {
        self.edges.all().len() >= 3 && is_ring(self.edges.all())
    }

    /// The edges of the polygon, in order.
    pub closed spec fn sides(&self) -> Seq<T> {
        self.edges.all()
    }

    /// The corners of the polygon: the first pixel of each edge, in order.
    pub open spec fn outline(&self) -> Seq<Point> {
        corners(self.sides())
    }

    /// The polygon with the given edges, which must form a ring.
    #[inline]
    pub fn new_from_segments(segments: &'edges [T]) -> (polygon: Result<
        Self,
        PolygonFromSegmentsError,
    >)
        ensures
            segments@.len() < 3 ==> polygon == Err::<Self, _>(PolygonFromSegmentsError::NotEnough),
            segments@.len() >= 3 && !is_ring(segments@) ==> polygon == Err::<Self, _>(
                PolygonFromSegmentsError::NotTouching,
            ),
            segments@.len() >= 3 && is_ring(segments@) ==> polygon is Ok && polygon->Ok_0.sides()
                == segments@,
    {
        if segments.len() < 3 {
            return Err(PolygonFromSegmentsError::NotEnough);
        }
        if !forms_ring(segments) {
            return Err(PolygonFromSegmentsError::NotTouching);
        }
        Ok(Self { edges: Edges::Borrowed(segments) })
    }

    /// The edges of the polygon, in order: a ring of at least three.
    #[must_use]
    #[inline]
    pub fn edges(&self) -> (edges: &[T])
        ensures
            edges@ == self.sides(),
            edges@.len() >= 3,
            is_ring(edges@),
    {
        proof {
            use_type_invariant(self);
        }
        self.edges.as_slice()
    }

    /// The corners of the polygon, in order.
    #[must_use]
    #[inline]
    pub fn vertices(&self) -> (vertices: Vec<Point>)
        ensures
            vertices@ == self.outline(),
            vertices@.len() >= 3,
    {
        proof {
            use_type_invariant(self);
        }
        first_points(self.edges.as_slice())
    }

    /// Whether the point lies inside the polygon, by the even-odd rule.
    #[must_use]
    #[inline]
    pub fn contains(&self, point: Point) -> (inside: bool)
        ensures
            inside == encloses(self.outline(), point),
    {
        let vertices = self.vertices();
        contains_point(vertices.as_slice(), point)
    }
}

impl<T, R> Renderable<R> for Polygon<'_, T> where T: LineSegment + Renderable<R>, R: Renderer {
    type Error = T::Error;

    open spec fn rendering(&self) -> Seq<(Point, Color)> {
        joint_rendering::<R, T>(self.sides(), self.sides().len() as int)
    }

    /// Draws the edges in order and stops at the first that fails.
    #[inline]
    fn render(&self, renderer: &mut R) -> (outcome: Result<(), Self::Error>) {
        let outcome = render_all(self.edges.as_slice(), renderer);
        proof {
            if outcome is Err {
                let painting = Renderable::<R>::rendering(self);
                let count = choose|count: int|
                    0 <= count <= painting.len() && renderer.drawn() == old(renderer).drawn()
                        + #[trigger] painting.take(count);
                assert(painting == joint_rendering::<R, T>(
                    self.edges.all(),
                    self.edges.all().len() as int,
                ));
            }
        }
        outcome
    }
}

} // verus!
