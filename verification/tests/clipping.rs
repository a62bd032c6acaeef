use graphics_introduction::clip::{clip_endpoints, contains_point};
use graphics_introduction::line::{CutLineInsidePolygonError, LineSegment, OneColorLine};
use graphics_introduction::polygon::{NotEnoughPointsError, Polygon};
use graphics_introduction::segment::{
    CutSegmentInsidePolygonError, GeometricPrimitve, OneColorSegment,
};
use graphics_introduction::{Color, Point};

fn square() -> Polygon<'static, OneColorSegment> {
    Polygon::new(
        &[Point::new(100, 100), Point::new(100, 200), Point::new(200, 200), Point::new(200, 100)],
        Color::red(),
    )
    .unwrap()
}

fn unit_square() -> Polygon<'static, OneColorSegment> {
    Polygon::new(
        &[Point::new(0, 0), Point::new(5, 0), Point::new(5, 5), Point::new(0, 5)],
        Color::red(),
    )
    .unwrap()
}

#[test]
fn point_in_the_middle_of_a_square_is_inside() {
    assert!(unit_square().contains(Point::new(3, 3)));
}

#[test]
fn point_beside_a_square_is_outside() {
    assert!(!unit_square().contains(Point::new(6, 3)));
    assert!(!unit_square().contains(Point::new(-1, 3)));
    assert!(!unit_square().contains(Point::new(3, 6)));
    assert!(!unit_square().contains(Point::new(3, -1)));
}

#[test]
fn the_lower_left_corner_of_a_square_is_inside() {
    assert!(unit_square().contains(Point::new(0, 0)));
}

#[test]
fn the_right_and_the_upper_edge_of_a_square_are_outside() {
    assert!(!unit_square().contains(Point::new(5, 3)));
    assert!(!unit_square().contains(Point::new(3, 5)));
    assert!(!unit_square().contains(Point::new(5, 5)));
    assert!(unit_square().contains(Point::new(0, 3)));
    assert!(unit_square().contains(Point::new(3, 0)));
}

#[test]
fn containment_in_a_triangle_compares_exactly() {
    let triangle = [Point::new(0, 0), Point::new(10, 0), Point::new(0, 7)];

    assert!(contains_point(&triangle, Point::new(4, 4)));
    assert!(!contains_point(&triangle, Point::new(5, 4)));
    assert!(contains_point(&triangle, Point::new(8, 1)));
    assert!(!contains_point(&triangle, Point::new(9, 1)));
}

#[test]
fn containment_in_a_concave_outline() {
    let outline = [
        Point::new(0, 0),
        Point::new(10, 0),
        Point::new(10, 10),
        Point::new(5, 3),
        Point::new(0, 10),
    ];

    assert!(contains_point(&outline, Point::new(2, 2)));
    assert!(contains_point(&outline, Point::new(8, 2)));
    assert!(!contains_point(&outline, Point::new(5, 6)));
    assert!(contains_point(&outline, Point::new(1, 6)));
}

#[test]
fn nothing_is_inside_an_outline_without_vertices() {
    assert!(!contains_point(&[], Point::new(0, 0)));
    assert!(!contains_point(&[Point::new(0, 0)], Point::new(0, 0)));
}

#[test]
fn containment_at_the_edge_of_the_grid() {
    let outline = [
        Point::new(i32::MIN, i32::MIN),
        Point::new(i32::MAX, i32::MIN),
        Point::new(i32::MAX, i32::MAX),
        Point::new(i32::MIN, i32::MAX),
    ];

    assert!(contains_point(&outline, Point::new(0, 0)));
    assert!(contains_point(&outline, Point::new(i32::MIN, i32::MIN)));
    assert!(!contains_point(&outline, Point::new(i32::MAX, 0)));
}

#[test]
fn polygon_of_two_points_is_refused() {
    let polygon = Polygon::new(&[Point::new(0, 0), Point::new(5, 0)], Color::red());

    assert!(matches!(polygon, Err(NotEnoughPointsError { .. })));
    assert!(Polygon::new(&[], Color::red()).is_err());
}

#[test]
fn polygon_of_three_points_is_closed_by_a_third_edge() {
    let polygon =
        Polygon::new(&[Point::new(0, 0), Point::new(4, 0), Point::new(0, 3)], Color::red())
            .unwrap();

    assert_eq!(polygon.edges().len(), 3);
    assert_eq!(polygon.edges()[2].first_point(), Point::new(0, 3));
    assert_eq!(polygon.edges()[2].last_point(), Point::new(0, 0));
}

#[test]
fn segment_inside_the_polygon_keeps_its_end_points() {
    let ends = OneColorSegment::get_start_end_inside_polygon(
        Point::new(125, 150),
        Point::new(175, 150),
        &square(),
    );

    assert_eq!(ends, Ok((Point::new(125, 150), Point::new(175, 150))));
}

#[test]
fn segment_across_the_polygon_is_cut_at_both_crossings() {
    let ends = OneColorSegment::get_start_end_inside_polygon(
        Point::new(50, 150),
        Point::new(250, 150),
        &square(),
    );

    assert_eq!(ends, Ok((Point::new(100, 150), Point::new(200, 150))));
}

#[test]
fn vertical_segment_is_cut_to_the_two_crossings_in_some_order() {
    let (first, last) = OneColorSegment::get_start_end_inside_polygon(
        Point::new(150, 50),
        Point::new(150, 250),
        &square(),
    )
    .unwrap();

    assert!(
        (first, last) == (Point::new(150, 100), Point::new(150, 200))
            || (first, last) == (Point::new(150, 200), Point::new(150, 100))
    );
}

#[test]
fn segment_beside_the_polygon_is_outside() {
    let ends = OneColorSegment::get_start_end_inside_polygon(
        Point::new(500, 500),
        Point::new(500, 600),
        &square(),
    );

    assert_eq!(ends, Err(CutSegmentInsidePolygonError::Outside));
}

#[test]
fn segment_of_a_single_point_outside_the_polygon_is_outside() {
    let ends = OneColorSegment::get_start_end_inside_polygon(
        Point::new(50, 50),
        Point::new(50, 50),
        &square(),
    );

    assert_eq!(ends, Err(CutSegmentInsidePolygonError::Outside));
}

#[test]
fn segment_that_leaves_the_polygon_keeps_its_start() {
    let ends = OneColorSegment::get_start_end_inside_polygon(
        Point::new(150, 150),
        Point::new(150, 250),
        &square(),
    );

    assert_eq!(ends, Ok((Point::new(150, 150), Point::new(150, 100))));
}

#[test]
fn slanted_segment_is_cut_at_rounded_crossings() {
    let ends = clip_endpoints(
        Point::new(50, 101),
        Point::new(250, 199),
        &[Point::new(100, 100), Point::new(100, 200), Point::new(200, 200), Point::new(200, 100)],
    );

    assert_eq!(ends, Ok((Point::new(100, 126), Point::new(200, 175))));
}

#[test]
fn line_beside_the_polygon_is_outside() {
    let line = OneColorLine::new_inside_polygon(
        Point::new(500, 500),
        Point::new(500, 600),
        Color::red(),
        &square(),
    );

    assert_eq!(line.unwrap_err(), CutLineInsidePolygonError::Outside);
}

#[test]
fn new_inside_polygon_traces_between_the_crossings() {
    let segment = OneColorSegment::new_inside_polygon(
        Point::new(50, 150),
        Point::new(250, 150),
        Color::green(),
        &square(),
    )
    .unwrap();

    assert_eq!(segment.length(), 101);
    assert_eq!(segment.color(), Color::green());
    assert_eq!(segment.points()[1], Point::new(101, 150));
}

#[test]
fn cutting_a_segment_inside_the_polygon_changes_nothing() {
    let mut segment =
        OneColorSegment::new(Point::new(125, 150), Point::new(175, 160), Color::red());
    let before = segment.clone();

    assert_eq!(segment.cut_inside_polygon(&square()), Ok(()));
    assert_eq!(segment, before);
}

#[test]
fn cutting_keeps_the_pixels_between_the_crossings() {
    let mut segment = OneColorSegment::new(Point::new(50, 150), Point::new(250, 150), Color::red());

    assert_eq!(segment.cut_inside_polygon(&square()), Ok(()));
    assert_eq!(segment.length(), 101);
    assert_eq!(segment.first_point(), Point::new(100, 150));
    assert_eq!(segment.last_point(), Point::new(200, 150));
    assert_eq!(segment.color(), Color::red());
}

#[test]
fn cutting_a_segment_outside_the_polygon_fails_and_changes_nothing() {
    let mut segment =
        OneColorSegment::new(Point::new(500, 500), Point::new(500, 600), Color::red());
    let before = segment.clone();

    assert_eq!(
        segment.cut_inside_polygon(&square()),
        Err(CutSegmentInsidePolygonError::Outside)
    );
    assert_eq!(segment, before);
}

#[test]
fn cutting_fails_where_no_crossing_is_among_the_pixels() {
    let mut segment = OneColorSegment::new(Point::new(50, 101), Point::new(250, 199), Color::red());
    let before = segment.clone();

    assert!(!segment.points().contains(&Point::new(100, 126)));
    assert!(!segment.points().contains(&Point::new(200, 175)));
    assert_eq!(
        segment.cut_inside_polygon(&square()),
        Err(CutSegmentInsidePolygonError::InvalidIntersection)
    );
    assert_eq!(segment, before);
}

#[test]
fn cutting_a_line_fails_where_no_crossing_is_among_the_pixels() {
    let mut line = OneColorLine::new(Point::new(50, 101), Point::new(250, 199), Color::red());

    assert_eq!(
        line.cut_inside_polygon(&square()),
        Err(CutLineInsidePolygonError::InvalidIntersection)
    );
    assert_eq!(line.points().len(), 201);
}
