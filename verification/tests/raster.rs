use graphics_introduction::line::{InvalidPoints as LineInvalidPoints, LineSegment, OneColorLine};
use graphics_introduction::raster::{trace, trace_shallow};
use graphics_introduction::segment::{
    GeometricPrimitve, InvalidPoints, Line, OneColorSegment,
};
use graphics_introduction::{Color, Point};

fn points(pairs: &[(i32, i32)]) -> Vec<Point> {
    pairs.iter().map(|&(x, y)| Point::new(x, y)).collect()
}

#[test]
fn shallow_segment_follows_the_line_within_half_a_pixel() {
    let segment = OneColorSegment::new(Point::new(0, 0), Point::new(5, 2), Color::red());

    assert_eq!(segment.points(), points(&[(0, 0), (1, 0), (2, 1), (3, 1), (4, 2), (5, 2)]));
    assert_eq!(segment.length(), 6);
    assert_eq!(segment.color(), Color::red());
}

#[test]
fn steep_segment_advances_along_y() {
    let segment = OneColorSegment::new(Point::new(0, 0), Point::new(2, 5), Color::red());

    assert_eq!(segment.points(), points(&[(0, 0), (0, 1), (1, 2), (1, 3), (2, 4), (2, 5)]));
}

#[test]
fn segment_towards_smaller_coordinates() {
    let segment = OneColorSegment::new(Point::new(3, 3), Point::new(-2, 1), Color::red());

    assert_eq!(segment.points(), points(&[(3, 3), (2, 3), (1, 2), (0, 2), (-1, 1), (-2, 1)]));
}

#[test]
fn a_tie_between_two_pixels_goes_to_the_nearer_to_the_start() {
    assert_eq!(
        trace(Point::new(0, 0), Point::new(4, 2)),
        points(&[(0, 0), (1, 0), (2, 1), (3, 1), (4, 2)])
    );
}

#[test]
fn segment_between_equal_points_is_one_pixel() {
    let segment = OneColorSegment::new(Point::new(7, -3), Point::new(7, -3), Color::red());

    assert_eq!(segment.points(), points(&[(7, -3)]));
    assert_eq!(segment.first_point(), segment.last_point());
}

#[test]
fn diagonal_segment_steps_on_both_axes() {
    assert_eq!(
        trace(Point::new(0, 0), Point::new(-3, 3)),
        points(&[(0, 0), (-1, 1), (-2, 2), (-3, 3)])
    );
}

#[test]
fn every_segment_starts_and_ends_on_its_end_points() {
    for x in -6..=6 {
        for y in -6..=6 {
            let start = Point::new(1, -2);
            let end = Point::new(x, y);
            let traced = trace(start, end);
            let steps = (x - 1).abs().max((y + 2).abs());
            assert_eq!(traced.len(), usize::try_from(steps).unwrap() + 1);
            assert_eq!(traced[0], start);
            assert_eq!(traced[traced.len() - 1], end);
        }
    }
}

#[test]
fn every_segment_is_without_gaps() {
    for x in -6..=6 {
        for y in -6..=6 {
            let traced = trace(Point::new(0, 0), Point::new(x, y));
            for pair in traced.windows(2) {
                assert!((pair[0].x - pair[1].x).abs() <= 1);
                assert!((pair[0].y - pair[1].y).abs() <= 1);
                assert_ne!(pair[0], pair[1]);
            }
        }
    }
}

#[test]
fn segment_at_the_edge_of_the_grid() {
    let traced = trace(Point::new(i32::MAX - 2, i32::MIN), Point::new(i32::MAX, i32::MIN + 1));

    assert_eq!(
        traced,
        points(&[
            (i32::MAX - 2, i32::MIN),
            (i32::MAX - 1, i32::MIN),
            (i32::MAX, i32::MIN + 1)
        ])
    );
}

#[test]
fn shallow_tracer_agrees_with_the_general_one() {
    for dx in 0..=8 {
        for dy in 0..=dx {
            let start = Point::new(2, 9);
            let end = Point::new(2 + dx, 9 - dy);
            assert_eq!(trace_shallow(start, end), trace(start, end));
        }
    }
}

#[test]
fn new_45_deg_traces_a_shallow_segment() {
    let segment =
        OneColorSegment::new_45_deg(Point::new(0, 5), Point::new(5, 3), Color::blue()).unwrap();

    assert_eq!(segment.points(), points(&[(0, 5), (1, 5), (2, 4), (3, 4), (4, 3), (5, 3)]));
    assert_eq!(segment.color(), Color::blue());
}

#[test]
fn new_45_deg_traces_the_diagonal() {
    let segment =
        OneColorSegment::new_45_deg(Point::new(0, 0), Point::new(3, -3), Color::blue()).unwrap();

    assert_eq!(segment.points(), points(&[(0, 0), (1, -1), (2, -2), (3, -3)]));
}

#[test]
fn new_45_deg_traces_a_rising_segment() {
    let segment =
        OneColorSegment::new_45_deg(Point::new(0, 0), Point::new(5, 1), Color::red()).unwrap();

    assert_eq!(segment.points(), points(&[(0, 0), (1, 0), (2, 0), (3, 1), (4, 1), (5, 1)]));
    assert_eq!(segment.color(), Color::red());
}

#[test]
fn new_45_deg_traces_a_steep_segment() {
    let segment =
        OneColorSegment::new_45_deg(Point::new(0, 0), Point::new(2, -3), Color::red()).unwrap();

    assert_eq!(segment.points(), points(&[(0, 0), (1, -1), (1, -2), (2, -3)]));
}

#[test]
fn new_45_deg_traces_a_segment_towards_smaller_x() {
    let segment =
        OneColorSegment::new_45_deg(Point::new(4, 4), Point::new(1, 6), Color::red()).unwrap();

    assert_eq!(segment.points(), points(&[(4, 4), (3, 5), (2, 5), (1, 6)]));
    assert_eq!(segment.first_point(), Point::new(4, 4));
    assert_eq!(segment.last_point(), Point::new(1, 6));
}

#[test]
fn new_45_deg_of_one_point_is_one_pixel() {
    let segment =
        OneColorSegment::new_45_deg(Point::new(7, 7), Point::new(7, 7), Color::red()).unwrap();

    assert_eq!(segment.points(), points(&[(7, 7)]));
}

#[test]
fn new_45_deg_agrees_with_new_wherever_it_succeeds() {
    for x in -5..=5 {
        for y in -5..=5 {
            let start = Point::new(1, -1);
            let end = Point::new(x, y);
            let segment = OneColorSegment::new_45_deg(start, end, Color::red()).unwrap();
            assert_eq!(segment, OneColorSegment::new(start, end, Color::red()));
        }
    }
}

#[test]
fn new_45_deg_refuses_points_too_far_apart() {
    let segment = OneColorSegment::new_45_deg(
        Point::new(i32::MIN, 0),
        Point::new(i32::MAX, 0),
        Color::red(),
    );

    assert!(matches!(segment, Err(InvalidPoints { .. })));
}

#[test]
fn new_45_deg_refuses_points_too_far_apart_towards_smaller_x() {
    let segment = OneColorSegment::new_45_deg(
        Point::new(i32::MAX, 0),
        Point::new(i32::MIN, 0),
        Color::red(),
    );

    assert!(matches!(segment, Err(InvalidPoints { .. })));
}

#[test]
fn new_45_deg_refuses_one_step_more_than_fits() {
    let right =
        OneColorSegment::new_45_deg(Point::new(-1, 0), Point::new(i32::MAX, 0), Color::red());
    let left =
        OneColorSegment::new_45_deg(Point::new(1, 0), Point::new(i32::MIN, 0), Color::red());

    assert!(matches!(right, Err(InvalidPoints { .. })));
    assert!(matches!(left, Err(InvalidPoints { .. })));
}

#[test]
fn new_45_deg_looks_at_the_distance_along_x_only() {
    let segment =
        OneColorSegment::new_45_deg(Point::new(-1, 9), Point::new(i32::MAX, -9), Color::red());

    assert!(matches!(segment, Err(InvalidPoints { .. })));
}

#[test]
fn line_new_45_deg_agrees_with_the_segment() {
    let line = OneColorLine::new_45_deg(Point::new(0, 5), Point::new(5, 3), Color::red()).unwrap();

    assert_eq!(line.points(), points(&[(0, 5), (1, 5), (2, 4), (3, 4), (4, 3), (5, 3)]));
    assert_eq!(line.color(), Color::red());
    let rising = OneColorLine::new_45_deg(Point::new(0, 0), Point::new(1, 1), Color::red());
    assert_eq!(rising.unwrap().points(), points(&[(0, 0), (1, 1)]));
    assert!(matches!(
        OneColorLine::new_45_deg(Point::new(i32::MIN, 0), Point::new(0, 0), Color::red()),
        Err(LineInvalidPoints { .. })
    ));
}

#[test]
fn line_through_two_points_has_the_stated_coefficients() {
    let line = Line::new_from_points(Point::new(1, 2), Point::new(4, 6));

    assert_eq!(line, Line::new(4, -3, 2));
    assert_eq!(Line::from((Point::new(1, 2), Point::new(4, 6))), line);
}

#[test]
fn line_through_the_corners_of_the_grid_does_not_overflow() {
    let line =
        Line::new_from_points(Point::new(i32::MIN, i32::MAX), Point::new(i32::MAX, i32::MIN));

    assert_eq!(line.a, i64::from(i32::MIN) - i64::from(i32::MAX));
    assert_eq!(line.b, i64::from(i32::MIN) - i64::from(i32::MAX));
    assert_eq!(
        line.c,
        i64::from(i32::MAX) * i64::from(i32::MAX) - i64::from(i32::MIN) * i64::from(i32::MIN)
    );
}

#[test]
fn intersection_of_two_lines() {
    let first = Line::new_from_points(Point::new(50, 150), Point::new(250, 150));
    let second = Line::new_from_points(Point::new(100, 100), Point::new(100, 200));

    assert_eq!(first.intersection(&second), Some(Point::new(100, 150)));
    assert_eq!(second.intersection(&first), Some(Point::new(100, 150)));
}

#[test]
fn intersection_is_rounded_away_from_zero_on_a_tie() {
    let x_axis = Line::new(0, 1, 0);

    assert_eq!(Line::new(2, 0, -1).intersection(&x_axis), Some(Point::new(1, 0)));
    assert_eq!(Line::new(2, 0, 1).intersection(&x_axis), Some(Point::new(-1, 0)));
    assert_eq!(Line::new(4, 0, -1).intersection(&x_axis), Some(Point::new(0, 0)));
    assert_eq!(Line::new(4, 0, -3).intersection(&x_axis), Some(Point::new(1, 0)));
    assert_eq!(Line::new(-4, 0, -7).intersection(&x_axis), Some(Point::new(-2, 0)));
}

#[test]
fn parallel_lines_do_not_intersect() {
    let first = Line::new_from_points(Point::new(0, 0), Point::new(4, 4));
    let second = Line::new_from_points(Point::new(0, 1), Point::new(4, 5));

    assert_eq!(first.intersection(&second), None);
    assert_eq!(first.intersection(&first), None);
}

#[test]
fn lines_that_meet_outside_the_grid_do_not_intersect() {
    let far = Line::new(1, 0, -(1_i64 << 40));
    let x_axis = Line::new(0, 1, 0);

    assert_eq!(far.intersection(&x_axis), None);
}

#[test]
fn intersection_with_the_widest_coefficients() {
    let first = Line::new(i64::MIN, i64::MAX, i64::MIN);
    let second = Line::new(i64::MAX, i64::MIN, i64::MAX);

    assert_eq!(first.intersection(&second), Some(Point::new(-1, 0)));
}
