use graphics_introduction::curve::{HermiteArc, OneColorCurve};
use graphics_introduction::figure::{
    Figure, FigureFromPrimitivesError, HermiteArcFigureBuildError, HermiteArcFigureBuilder,
};
use graphics_introduction::polygon::{
    forms_ring, touches, NotEnoughPointsError, Polygon, PolygonFromSegmentsError,
};
use graphics_introduction::segment::{GeometricPrimitve, OneColorSegment};
use graphics_introduction::vector::Vector2;
use graphics_introduction::{Color, Point};

fn segment(from: (i32, i32), to: (i32, i32)) -> OneColorSegment {
    OneColorSegment::new(from.into(), to.into(), Color::red())
}

#[test]
fn open_chain_of_segments_is_no_polygon() {
    let segments = [
        segment((100, 100), (100, 200)),
        segment((100, 200), (200, 200)),
        segment((200, 200), (200, 100)),
        segment((200, 100), (150, 100)),
    ];

    let polygon = Polygon::new_from_segments(&segments);

    assert_eq!(polygon.unwrap_err(), PolygonFromSegmentsError::NotTouching);
}

#[test]
fn two_segments_are_no_polygon() {
    let segments = [segment((0, 0), (5, 5)), segment((5, 5), (0, 0))];

    let polygon = Polygon::new_from_segments(&segments);

    assert_eq!(polygon.unwrap_err(), PolygonFromSegmentsError::NotEnough);
}

#[test]
fn polygon_from_segments_keeps_every_segment() {
    let segments = [segment((0, 0), (4, 0)), segment((4, 0), (0, 3)), segment((0, 3), (0, 0))];

    let polygon = Polygon::new_from_segments(&segments).unwrap();

    assert_eq!(polygon.edges(), segments);
    assert_eq!(polygon.vertices(), vec![Point::new(0, 0), Point::new(4, 0), Point::new(0, 3)]);
}

#[test]
fn touching_is_tested_on_the_last_and_the_first_pixel() {
    assert!(touches(&segment((0, 0), (4, 0)), &segment((4, 0), (9, 9))));
    assert!(!touches(&segment((0, 0), (4, 0)), &segment((4, 1), (9, 9))));
    assert!(!touches(&segment((0, 0), (4, 0)), &segment((0, 0), (4, 0))));
    assert!(forms_ring(&[segment((0, 0), (4, 0)), segment((4, 0), (0, 0))]));
    assert!(!forms_ring(&[segment((0, 0), (4, 0)), segment((4, 0), (1, 0))]));
    assert!(forms_ring::<OneColorSegment>(&[]));
}

#[test]
fn figure_from_no_primitive_is_refused() {
    let nothing: [OneColorSegment; 0] = [];

    let figure = Figure::from_primitives(&nothing);

    assert_eq!(figure.unwrap_err(), FigureFromPrimitivesError::Empty);
}

#[test]
fn figure_from_an_open_chain_is_refused() {
    let segments = [segment((0, 0), (4, 0)), segment((4, 0), (4, 4)), segment((4, 4), (0, 1))];

    let figure = Figure::from_primitives(&segments);

    assert_eq!(figure.unwrap_err(), FigureFromPrimitivesError::NotTouching);
}

#[test]
fn figure_from_one_open_primitive_is_refused() {
    let segments = [segment((0, 0), (4, 0))];

    let figure = Figure::from_primitives(&segments);

    assert_eq!(figure.unwrap_err(), FigureFromPrimitivesError::NotTouching);
}

#[test]
fn figure_from_one_closed_primitive_is_accepted() {
    let segments = [segment((3, 3), (3, 3))];

    let figure = Figure::from_primitives(&segments).unwrap();

    assert_eq!(figure.edges().len(), 1);
    assert_eq!(figure.vertices(), vec![Point::new(3, 3)]);
}

#[test]
fn figure_from_a_ring_keeps_every_primitive() {
    let segments = [segment((0, 0), (4, 0)), segment((4, 0), (0, 0))];

    let figure = Figure::from_primitives(&segments).unwrap();

    assert_eq!(figure.edges(), segments);
    assert!(!figure.contains(Point::new(2, 0)));
}

#[test]
fn figure_of_two_points_is_refused() {
    let figure = Figure::from_points(&[Point::new(0, 0), Point::new(5, 0)], Color::red());

    assert!(matches!(figure, Err(NotEnoughPointsError { .. })));
}

fn arc(start: (i32, i32), end: (i32, i32)) -> HermiteArc {
    HermiteArc::new(
        Color::blue(),
        Vector2::new(start.0, start.1),
        Vector2::new(end.0 - start.0, end.1 - start.1),
        Vector2::new(end.0, end.1),
        Vector2::new(end.0 - start.0, end.1 - start.1),
        Some(4),
    )
}

#[test]
fn builder_without_two_arcs_is_refused() {
    assert_eq!(
        HermiteArcFigureBuilder::new().build().unwrap_err(),
        HermiteArcFigureBuildError::NotEnoughArcs
    );
    assert_eq!(
        HermiteArcFigureBuilder::default().add_arc(arc((0, 0), (8, 0))).build().unwrap_err(),
        HermiteArcFigureBuildError::NotEnoughArcs
    );
}

#[test]
fn builder_closes_the_arcs_with_one_more() {
    let figure = HermiteArcFigureBuilder::new()
        .add_arc(arc((0, 0), (8, 0)))
        .add_arc(arc((8, 0), (8, 8)))
        .build()
        .unwrap();

    assert_eq!(figure.edges().len(), 3);
    assert_eq!(figure.vertices(), vec![Point::new(0, 0), Point::new(8, 0), Point::new(8, 8)]);
    assert_eq!(figure.edges()[2].first_point(), Point::new(8, 8));
    assert_eq!(figure.edges()[2].last_point(), Point::new(0, 0));
    assert_eq!(figure.edges()[2].color(), Color::blue());
}

#[test]
fn builder_refuses_arcs_that_do_not_touch() {
    let figure = HermiteArcFigureBuilder::new()
        .add_arc(arc((0, 0), (8, 0)))
        .add_arc(arc((9, 0), (8, 8)))
        .build();

    assert_eq!(figure.unwrap_err(), HermiteArcFigureBuildError::NotTouching);
}

#[test]
fn figure_of_curves_answers_containment_by_its_corners() {
    let figure = HermiteArcFigureBuilder::new()
        .add_arc(arc((0, 0), (8, 0)))
        .add_arc(arc((8, 0), (8, 8)))
        .add_arc(arc((8, 8), (0, 8)))
        .build()
        .unwrap();

    assert_eq!(figure.edges().len(), 4);
    assert!(figure.contains(Point::new(4, 4)));
    assert!(!figure.contains(Point::new(9, 4)));
}

#[test]
fn curve_of_touching_curves() {
    let first = OneColorCurve::new_from_samples(&[Point::new(0, 0), Point::new(2, 0)], Color::red());
    let second =
        OneColorCurve::new_from_samples(&[Point::new(2, 0), Point::new(2, 2)], Color::red());

    let curve = OneColorCurve::new_from_segments(&[first, second], Color::green()).unwrap();

    assert_eq!(
        curve.points(),
        vec![
            Point::new(0, 0),
            Point::new(1, 0),
            Point::new(2, 0),
            Point::new(2, 0),
            Point::new(2, 1),
            Point::new(2, 2)
        ]
    );
    assert_eq!(curve.color(), Color::green());
}
