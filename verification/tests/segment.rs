use graphics_introduction::line::{LineGeneralForm, LineSegment, OneColorLine};
use graphics_introduction::segment::{GeometricPrimitve, Line, OneColorSegment};
use graphics_introduction::{Color, Point};

#[test]
fn new_segment_has_correct_start_and_end_points() {
    let start: Point = (100, 100).into();
    let end: Point = (100, 200).into();

    let segment = OneColorSegment::new(start, end, Color::red());

    assert_eq!(segment.first_point(), start);
    assert_eq!(segment.last_point(), end);
}

#[test]
fn new_segment_has_correct_general_form() {
    let start: Point = (100, 100).into();
    let end: Point = (100, 200).into();

    let line = Line::new_from_points(start, end);
    let segment_line: Line = OneColorSegment::new(start, end, Color::red()).into();

    assert_eq!(segment_line, line);
}

#[test]
fn new_line_has_correct_start_and_end_points() {
    let start: Point = (100, 100).into();
    let end: Point = (100, 200).into();

    let line = OneColorLine::new(start, end, Color::red());

    assert_eq!(line.first_point(), start);
    assert_eq!(line.last_point(), end);
}

#[test]
fn new_line_has_correct_general_form() {
    let start: Point = (100, 100).into();
    let end: Point = (100, 200).into();

    let general_form = LineGeneralForm::new_from_points(start, end);
    let line: LineGeneralForm = OneColorLine::new(start, end, Color::red()).into();

    assert_eq!(line, general_form);
}
