//! Closed paths made of any primitives, and a builder that joins Hermite arcs
//! into one.

use crate::clip::{contains_point, encloses, following};
use crate::curve::{
    arc_samples, lemma_arc_ends, lemma_polyline_ends, polyline, segment_count, ArcShape,
    HermiteArc, OneColorCurve, WrongInterval,
};
use crate::polygon::{
    corners, first_points, forms_ring, is_ring, joins_following, joint_rendering,
    outline_segments, render_all, Edges, NotEnoughPointsError,
};
use crate::raster::traced;
use crate::segment::{GeometricPrimitve, OneColorSegment};
use crate::{Color, Point, Renderable, Renderer};
use vstd::prelude::*;
use vstd::std_specs::convert::FromSpecImpl;

verus! {

/// A closed path of at least one primitive.
#[derive(Debug)]
pub struct Figure<'edges, T> where T: GeometricPrimitve {
    edges: Edges<'edges, T>,
}

/// Why a list of primitives is no figure.
#[non_exhaustive]
#[derive(Debug, Clone, Copy, PartialEq, Eq, Structural, PartialOrd, Ord, Hash)]
pub enum FigureFromPrimitivesError {
    /// A primitive does not end where the next begins, or the last does not
    /// end where the first begins.
    NotTouching,
    /// No primitive was given.
    Empty,
}

impl Figure<'_, OneColorSegment> {
    /// The figure with the given corners, closed by an edge from the last
    /// corner back to the first.
    #[inline]
    pub fn from_points(points: &[Point], color: Color) -> (figure: Result<
        Self,
        NotEnoughPointsError,
    >)
        ensures
            figure is Err <==> points@.len() < 3,
            figure matches Ok(figure) ==> {
                &&& figure.outline() == points@
                &&& figure.sides().len() == points@.len()
                &&& forall|i: int|
                    0 <= i < points@.len() ==> (#[trigger] figure.sides()[i]).path() == traced(
                        points@[i],
                        points@[following(i, points@.len() as int)],
                    ) && figure.sides()[i].tint() == color
            },
    {
        if points.len() < 3 {
            return Err(NotEnoughPointsError);
        }
        Ok(Self { edges: Edges::Owned(outline_segments(points, color)) })
    }
}

impl<'edges, T> Figure<'edges, T> where T: GeometricPrimitve {
    #[verifier::type_invariant]
    spec fn closed(&self) -> bool {
        self.edges.all().len() >= 1 && is_ring(self.edges.all())
    }

    /// The primitives of the figure, in order.
    pub closed spec fn sides(&self) -> Seq<T> {
        self.edges.all()
    }

    /// The corners of the figure: the first pixel of each primitive, in order.
    pub open spec fn outline(&self) -> Seq<Point> {
        corners(self.sides())
    }

    /// The figure made of the given primitives, which must form a ring.
    #[inline]
    pub fn from_primitives(curves: &'edges [T]) -> (figure: Result<Self, FigureFromPrimitivesError>)
        ensures
            curves@.len() == 0 ==> figure == Err::<Self, _>(FigureFromPrimitivesError::Empty),
            curves@.len() > 0 && !is_ring(curves@) ==> figure == Err::<Self, _>(
                FigureFromPrimitivesError::NotTouching,
            ),
            curves@.len() > 0 && is_ring(curves@) ==> figure is Ok && figure->Ok_0.sides()
                == curves@,
    {
        if curves.len() == 0 {
            return Err(FigureFromPrimitivesError::Empty);
        }
        if !forms_ring(curves) {
            return Err(FigureFromPrimitivesError::NotTouching);
        }
        Ok(Self { edges: Edges::Borrowed(curves) })
    }

    /// The primitives of the figure, in order: a ring of at least one.
    #[inline]
    #[must_use]
    pub fn edges(&self) -> (edges: &[T])
        ensures
            edges@ == self.sides(),
            edges@.len() >= 1,
            is_ring(edges@),
    {
        proof {
            use_type_invariant(self);
        }
        self.edges.as_slice()
    }

    /// The corners of the figure, in order.
    #[inline]
    #[must_use]
    pub fn vertices(&self) -> (vertices: Vec<Point>)
        ensures
            vertices@ == self.outline(),
            vertices@.len() >= 1,
    {
        proof {
            use_type_invariant(self);
        }
        first_points(self.edges.as_slice())
    }

    /// Whether the point lies inside the outline through the corners of the
    /// figure, by the even-odd rule.
    #[inline]
    #[must_use]
    pub fn contains(&self, point: Point) -> (inside: bool)
        ensures
            inside == encloses(self.outline(), point),
    {
        let vertices = self.vertices();
        contains_point(vertices.as_slice(), point)
    }
}

impl<T, R> Renderable<R> for Figure<'_, T> where
    T: GeometricPrimitve + Renderable<R>,
    R: Renderer,
 {
    type Error = T::Error;

    open spec fn rendering(&self) -> Seq<(Point, Color)> {
        joint_rendering::<R, T>(self.sides(), self.sides().len() as int)
    }

    /// Draws the edges in order and stops at the first that fails.
    #[inline]
    fn render(&self, renderer: &mut R) -> (outcome: Result<(), Self::Error>) {
        let outcome = render_all(self.edges.as_slice(), renderer);
        proof {
            if outcome is Err {
                let painting = Renderable::<R>::rendering(self);
                let count = choose|count: int|
                    0 <= count <= painting.len() && renderer.drawn() == old(renderer).drawn()
                        + #[trigger] painting.take(count);
                assert(painting == joint_rendering::<R, T>(
                    self.edges.all(),
                    self.edges.all().len() as int,
                ));
            }
        }
        outcome
    }
}

/// Collects Hermite arcs and joins them into a closed figure.
#[derive(Debug, Clone, PartialEq)]
pub struct HermiteArcFigureBuilder {
    arcs: Vec<HermiteArc>,
}

/// Why the arcs of a builder are no figure.
#[non_exhaustive]
#[derive(Debug, Clone, Copy, PartialEq, Eq, Structural, PartialOrd, Ord, Hash)]
pub enum HermiteArcFigureBuildError {
    /// An arc could not be sampled.
    WrongInterval(WrongInterval),
    /// Fewer than two arcs were added.
    NotEnoughArcs,
    /// An arc does not end where the next begins.
    NotTouching,
}

impl From<WrongInterval> for HermiteArcFigureBuildError {
    fn from(value: WrongInterval) -> (error: Self) {
        HermiteArcFigureBuildError::WrongInterval(value)
    }
}

impl FromSpecImpl<WrongInterval> for HermiteArcFigureBuildError {
    open spec fn obeys_from_spec() -> bool {
        true
    }

    open spec fn from_spec(value: WrongInterval) -> Self {
        HermiteArcFigureBuildError::WrongInterval(value)
    }
}

/// The arc that leads from the end of `last` back to the start of `first`,
/// leaving and arriving along their tangents there.
pub open spec fn closing_arc(last: ArcShape, first: ArcShape) -> ArcShape {
    ArcShape {
        color: last.color,
        start: last.end,
        start_tangent: last.end_tangent,
        end: first.start,
        end_tangent: first.start_tangent,
        num_segments: last.num_segments,
    }
}

/// The arcs followed by the arc that closes them.
pub open spec fn closed_arcs(arcs: Seq<ArcShape>) -> Seq<ArcShape> {
    arcs.push(closing_arc(arcs[arcs.len() - 1], arcs[0]))
}

/// The pixels in which an arc is drawn.
pub open spec fn arc_path(arc: ArcShape) -> Seq<Point> {
    polyline(arc_samples(arc), segment_count(arc.num_segments))
}

/// Whether the curve is the drawing of the arc.
pub open spec fn draws(curve: OneColorCurve, arc: ArcShape) -> bool {
    curve.path() == arc_path(arc) && curve.tint() == arc.color
}

/// Whether curve `i` is the drawing of arc `i`.
pub open spec fn draws_at(curves: Seq<OneColorCurve>, arcs: Seq<ArcShape>, i: int) -> bool {
    draws(curves[i], arcs[i])
}

/// Whether the curves are the drawings of the arcs, one for one.
pub open spec fn draw_all(curves: Seq<OneColorCurve>, arcs: Seq<ArcShape>) -> bool {
    curves.len() == arcs.len() && forall|i: int|
        0 <= i < arcs.len() ==> #[trigger] draws_at(curves, arcs, i)
}

/// Whether the drawing of arc `i` ends on the pixel on which the drawing of
/// the arc that follows it begins.
pub open spec fn arc_joins_following(arcs: Seq<ArcShape>, i: int) -> bool {
    let path = arc_path(arcs[i]);
    let next = arc_path(arcs[following(i, arcs.len() as int)]);
    path.len() > 0 && next.len() > 0 && path[path.len() - 1] == next[0]
}

/// Whether the drawings of the arcs form a ring.
pub open spec fn arcs_form_ring(arcs: Seq<ArcShape>) -> bool {
    forall|i: int| 0 <= i < arcs.len() ==> #[trigger] arc_joins_following(arcs, i)
}

/// Whether arc `i` ends at the point at which arc `i + 1` starts.
pub open spec fn arc_meets_next(arcs: Seq<ArcShape>, i: int) -> bool {
    arcs[i].end == arcs[i + 1].start
}

/// Whether each arc but the last ends at the point at which the next starts.
pub open spec fn arcs_touch(arcs: Seq<ArcShape>) -> bool {
    forall|i: int| 0 <= i < arcs.len() - 1 ==> #[trigger] arc_meets_next(arcs, i)
}

/// The drawing of an arc starts on its start and ends on its end.
pub proof fn lemma_arc_path_ends(arc: ArcShape)
    requires
        segment_count(arc.num_segments) > 0,
    ensures
        arc_path(arc).len() > 0,
        arc_path(arc)[0] == (Point { x: arc.start.x, y: arc.start.y }),
        arc_path(arc)[arc_path(arc).len() - 1] == (Point { x: arc.end.x, y: arc.end.y }),
{
    lemma_arc_ends(arc);
    lemma_polyline_ends(arc_samples(arc), segment_count(arc.num_segments));
}

/// The drawings of the arcs and of the arc that closes them form a ring
/// exactly when each arc ends where the next starts.
pub proof fn lemma_ring_of_arcs(arcs: Seq<ArcShape>)
    requires
        arcs.len() >= 1,
        forall|i: int| 0 <= i < arcs.len() ==> segment_count((#[trigger] arcs[i]).num_segments) > 0,
    ensures
        arcs_form_ring(closed_arcs(arcs)) <==> arcs_touch(arcs),
{
    let all = closed_arcs(arcs);
    let len = arcs.len() as int;
    assert forall|i: int| 0 <= i < all.len() implies arc_path(#[trigger] all[i]).len() > 0
        && arc_path(all[i])[0] == (Point { x: all[i].start.x, y: all[i].start.y }) && arc_path(
        all[i],
    )[arc_path(all[i]).len() - 1] == (Point { x: all[i].end.x, y: all[i].end.y }) by {
        lemma_arc_path_ends(all[i]);
    }
    if arcs_form_ring(all) {
        assert forall|i: int| 0 <= i < len - 1 implies #[trigger] arc_meets_next(arcs, i) by {
            assert(arc_joins_following(all, i));
            assert(all[i] == arcs[i] && all[i + 1] == arcs[i + 1]);
        }
    }
    if arcs_touch(arcs) {
        assert forall|i: int| 0 <= i < all.len() implies #[trigger] arc_joins_following(all, i) by {
            let next = following(i, all.len() as int);
            if i < len - 1 {
                assert(arc_meets_next(arcs, i));
                assert(all[i] == arcs[i] && all[next] == arcs[i + 1]);
            }
        }
    }
}

impl HermiteArcFigureBuilder {
    /// The arcs added so far, in order.
    pub closed spec fn shapes(&self) -> Seq<ArcShape> {
        Seq::new(self.arcs@.len(), |i: int| self.arcs@[i]@)
    }

    /// A builder without arcs.
    #[inline]
    #[must_use]
    pub fn new() -> (builder: Self)
        ensures
            builder.shapes() == Seq::<ArcShape>::empty(),
    {
        let builder = Self { arcs: Vec::new() };
        assert(builder.shapes() =~= Seq::<ArcShape>::empty());
        builder
    }

    /// Adds an arc behind those added before.
    #[inline]
    #[must_use]
    pub fn add_arc(self, arc: HermiteArc) -> (builder: Self)
        ensures
            builder.shapes() == self.shapes().push(arc@),
    {
        let mut arcs = self.arcs;
        arcs.push(arc);
        let builder = Self { arcs };
        assert(builder.shapes() =~= self.shapes().push(arc@));
        builder
    }

    /// Draws every arc, and one more that leads from the end of the last arc
    /// back to the start of the first, and joins the drawings into a figure.
    /// Each arc must end at the point at which the next starts.
    #[inline]
    pub fn build(self) -> (figure: Result<
        Figure<'static, OneColorCurve>,
        HermiteArcFigureBuildError,
    >)
        ensures
            self.shapes().len() < 2 ==> figure == Err::<Figure<'static, OneColorCurve>, _>(
                HermiteArcFigureBuildError::NotEnoughArcs,
            ),
            self.shapes().len() >= 2 && !arcs_touch(self.shapes()) ==> figure == Err::<
                Figure<'static, OneColorCurve>,
                _,
            >(HermiteArcFigureBuildError::NotTouching),
            self.shapes().len() >= 2 && arcs_touch(self.shapes()) ==> figure is Ok && draw_all(
                figure->Ok_0.sides(),
                closed_arcs(self.shapes()),
            ),
    {
        let len = self.arcs.len();
        if len < 2 {
            return Err(HermiteArcFigureBuildError::NotEnoughArcs);
        }
        let last_given_arc = self.arcs[len - 1];
        let first_given_arc = self.arcs[0];
        let last_arc = HermiteArc::new(
            *last_given_arc.color(),
            *last_given_arc.end(),
            *last_given_arc.end_tangent(),
            *first_given_arc.start(),
            *first_given_arc.start_tangent(),
            *last_given_arc.num_segments(),
        );
        let ghost all = closed_arcs(self.shapes());
        let mut curves: Vec<OneColorCurve> = Vec::new();
        let mut i: usize = 0;
        while i < len
            invariant
                len == self.arcs@.len(),
                len >= 2,
                0 <= i <= len,
                all == closed_arcs(self.shapes()),
                all.len() == len + 1,
                curves@.len() == i,
                forall|j: int| 0 <= j < i ==> #[trigger] draws_at(curves@, all, j),
                forall|j: int|
                    0 <= j < i ==> segment_count((#[trigger] self.shapes()[j]).num_segments) > 0,
            decreases len - i,
        {
            let arc = self.arcs[i];
            proof {
                use_type_invariant(&arc);
            }
            assert(arc@ == all[i as int]);
            let ghost before = curves@;
            match OneColorCurve::try_from(arc) {
                Ok(curve) => {
                    curves.push(curve);
                },
                Err(error) => {
                    return Err(HermiteArcFigureBuildError::from(error));
                },
            }
            proof {
                assert forall|j: int| 0 <= j < i + 1 implies #[trigger] draws_at(
                    curves@,
                    all,
                    j,
                ) by {
                    if j < i {
                        assert(draws_at(before, all, j));
                    }
                }
            }
            i += 1;
        }
        let ghost before = curves@;
        assert(last_arc@ == all[len as int]);
        match OneColorCurve::try_from(last_arc) {
            Ok(curve) => {
                curves.push(curve);
            },
            Err(error) => {
                return Err(HermiteArcFigureBuildError::from(error));
            },
        }
        proof {
            assert forall|j: int| 0 <= j < len + 1 implies #[trigger] draws_at(curves@, all, j) by {
                if j < len {
                    assert(draws_at(before, all, j));
                }
            }
        }
        proof {
            lemma_ring_of_arcs(self.shapes());
            assert(draw_all(curves@, all));
            if is_ring(curves@) {
                assert forall|j: int| 0 <= j < all.len() implies #[trigger] arc_joins_following(
                    all,
                    j,
                ) by {
                    assert(joins_following(curves@, j));
                    assert(draws_at(curves@, all, j));
                    assert(draws_at(curves@, all, following(j, all.len() as int)));
                }
            }
            if arcs_form_ring(all) {
                assert forall|j: int| 0 <= j < curves@.len() implies #[trigger] joins_following(
                    curves@,
                    j,
                ) by {
                    assert(arc_joins_following(all, j));
                    assert(draws_at(curves@, all, j));
                    assert(draws_at(curves@, all, following(j, all.len() as int)));
                }
            }
        }
        if !forms_ring(curves.as_slice()) {
            return Err(HermiteArcFigureBuildError::NotTouching);
        }
        Ok(Figure { edges: Edges::Owned(curves) })
    }
}

impl Default for HermiteArcFigureBuilder {
    fn default() -> (builder: Self)
        ensures
            builder.shapes() == Seq::<ArcShape>::empty(),
    {
        Self::new()
    }
}

} // verus!
