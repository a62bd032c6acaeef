use graphics_introduction::polygon::{Polygon, PolygonFromSegmentsError};
use graphics_introduction::segment::{GeometricPrimitve, OneColorSegment};
use graphics_introduction::{Color, Point};

#[test]
fn polygon_from_one_segment_is_err() {
    let segments = [OneColorSegment::new((100, 100).into(), (200, 200).into(), Color::red())];

    let polygon = Polygon::new_from_segments(&segments);

    assert!(polygon.is_err());
    assert_eq!(polygon.unwrap_err(), PolygonFromSegmentsError::NotEnough);
}

#[test]
fn polygon_from_not_touching_segment_is_err() {
    let segments = [
        OneColorSegment::new((100, 100).into(), (100, 200).into(), Color::red()),
        OneColorSegment::new((200, 100).into(), (200, 200).into(), Color::red()),
        OneColorSegment::new((300, 100).into(), (300, 200).into(), Color::red()),
    ];

    let polygon = Polygon::new_from_segments(&segments);

    assert!(polygon.is_err());
    assert_eq!(polygon.unwrap_err(), PolygonFromSegmentsError::NotTouching);
}

#[test]
fn polygon_from_four_touching_segments_is_ok() {
    let segments = [
        OneColorSegment::new((100, 100).into(), (100, 200).into(), Color::red()),
        OneColorSegment::new((100, 200).into(), (200, 200).into(), Color::red()),
        OneColorSegment::new((200, 200).into(), (200, 100).into(), Color::red()),
        OneColorSegment::new((200, 100).into(), (100, 100).into(), Color::red()),
    ];

    let polygon = Polygon::new_from_segments(&segments);

    assert!(polygon.is_ok());
}

#[test]
fn polygon_from_four_touching_segments_has_correct_points() {
    let points: [Point; 4] =
        [(100, 100).into(), (100, 200).into(), (200, 200).into(), (200, 100).into()];

    let segments: Vec<OneColorSegment> = points
        .windows(2)
        .map(|points| (points[0], points[1]))
        .chain(core::iter::once((points[points.len() - 1], points[0])))
        .map(|(start, end)| OneColorSegment::new(start, end, Color::red()))
        .collect();

    let polygon = Polygon::new_from_segments(&segments).unwrap();

    assert_eq!(polygon.vertices(), points);
}

fn create_polygon() -> Polygon<'static, OneColorSegment> {
    Polygon::new(
        &[(100, 100).into(), (100, 200).into(), (200, 200).into(), (200, 100).into()],
        Color::red(),
    )
    .unwrap()
}

#[test]
fn segment_not_inside_polygon_is_err() {
    let square = create_polygon();

    let segment_inside_square = OneColorSegment::new_inside_polygon(
        (500, 500).into(),
        (500, 600).into(),
        Color::red(),
        &square,
    );

    assert!(segment_inside_square.is_err());
}

#[test]
fn segment_inside_polygon_is_ok() {
    let square = create_polygon();

    let segment_inside_square = OneColorSegment::new_inside_polygon(
        (50, 150).into(),
        (250, 150).into(),
        Color::red(),
        &square,
    );

    assert!(segment_inside_square.is_ok());
}

#[test]
fn segment_inside_polygon_cuts() {
    let square = create_polygon();

    let segment_inside_square = OneColorSegment::new_inside_polygon(
        (50, 150).into(),
        (250, 150).into(),
        Color::red(),
        &square,
    )
    .unwrap();

    assert_eq!(segment_inside_square.first_point(), Point::new(100, 150));
    assert_eq!(segment_inside_square.last_point(), Point::new(200, 150));
}

#[test]
fn segment_fully_inside_polygon_is_ok() {
    let square = create_polygon();

    let segment_inside_square = OneColorSegment::new_inside_polygon(
        (125, 150).into(),
        (175, 150).into(),
        Color::red(),
        &square,
    );

    assert!(segment_inside_square.is_ok());
}

#[test]
fn segment_fully_inside_polygon_doesnt_cut() {
    let square = create_polygon();

    let first = (125, 150).into();
    let second = (175, 150).into();
    let segment_inside_square =
        OneColorSegment::new_inside_polygon(first, second, Color::red(), &square).unwrap();

    assert_eq!(segment_inside_square.first_point(), first);
    assert_eq!(segment_inside_square.last_point(), second);
}

#[test]
fn segment_vertically_cut_works() {
    let square = create_polygon();

    let segment_inside_square = OneColorSegment::new_inside_polygon(
        (150, 50).into(),
        (150, 250).into(),
        Color::red(),
        &square,
    )
    .unwrap();

    assert_eq!(segment_inside_square.first_point(), Point::new(150, 200));
    assert_eq!(segment_inside_square.last_point(), Point::new(150, 100));
}

#[test]
fn segment_cut_after_creation_is_ok() {
    let square = create_polygon();

    let segment_inside_square =
        OneColorSegment::new((150, 50).into(), (150, 250).into(), Color::red())
            .cut_inside_polygon(&square);

    assert!(segment_inside_square.is_ok());
}

#[test]
fn segment_cut_after_creation_works() {
    let square = create_polygon();

    let mut segment_inside_square =
        OneColorSegment::new((150, 50).into(), (150, 250).into(), Color::red());

    let res = segment_inside_square.cut_inside_polygon(&square);

    assert!(res.is_ok());
    assert_eq!(segment_inside_square.first_point(), Point::new(150, 100));
    assert_eq!(segment_inside_square.last_point(), Point::new(150, 200));
}

#[test]
fn new_polygon_has_correct_vertices() {
    let points: [Point; 4] =
        [(100, 100).into(), (100, 200).into(), (200, 200).into(), (200, 100).into()];
    let polygon = Polygon::new(&points, Color::red()).unwrap();

    assert_eq!(polygon.vertices(), points);
}

#[test]
fn polygon_new_polygon_has_correct_edges() {
    let points: [Point; 4] =
        [(100, 100).into(), (100, 200).into(), (200, 200).into(), (200, 100).into()];
    let color = Color::red();
    let polygon = Polygon::new(&points, color).unwrap();

    let segments: Vec<OneColorSegment> = points
        .windows(2)
        .map(|points| (points[0], points[1]))
        .chain(core::iter::once((points[points.len() - 1], points[0])))
        .map(|(start, end)| OneColorSegment::new(start, end, color))
        .collect();

    for (i, edge) in polygon.edges().iter().enumerate() {
        assert_eq!(*edge, segments[i]);
    }
}

#[test]
fn polygon_contains_returns_false_if_not_inside() {
    let polygon = Polygon::new(
        &[(186, 14).into(), (186, 44).into(), (175, 115).into(), (175, 85).into()],
        Color::red(),
    )
    .unwrap();

    let point = (150, 85).into();

    assert!(!polygon.contains(point))
}

#[test]
fn polygon_contains_returns_true_if_inside() {
    let polygon = Polygon::new(
        &[(0, 0).into(), (5, 0).into(), (5, 5).into(), (0, 5).into()],
        Color::red(),
    )
    .unwrap();

    let point = (3, 3).into();

    assert!(polygon.contains(point))
}
