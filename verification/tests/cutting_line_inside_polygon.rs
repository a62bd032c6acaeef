use graphics_introduction::line::{LineSegment, OneColorLine};
use graphics_introduction::polygon::Polygon;
use graphics_introduction::segment::OneColorSegment;
use graphics_introduction::{Color, Point};

fn create_polygon() -> Polygon<'static, OneColorSegment> {
    Polygon::new(
        &[(100, 100).into(), (100, 200).into(), (200, 200).into(), (200, 100).into()],
        Color::red(),
    )
    .unwrap()
}

#[test]
fn line_not_inside_polygon_is_err() {
    let square = create_polygon();

    let line_inside_square = OneColorLine::new_inside_polygon(
        (500, 500).into(),
        (500, 600).into(),
        Color::red(),
        &square,
    );

    assert!(line_inside_square.is_err());
}

#[test]
fn line_inside_polygon_is_ok() {
    let square = create_polygon();

    let line_inside_square = OneColorLine::new_inside_polygon(
        (50, 150).into(),
        (250, 150).into(),
        Color::red(),
        &square,
    );

    assert!(line_inside_square.is_ok());
}

#[test]
fn line_inside_polygon_cuts() {
    let square = create_polygon();

    let line_inside_square = OneColorLine::new_inside_polygon(
        (50, 150).into(),
        (250, 150).into(),
        Color::red(),
        &square,
    );

    assert!(line_inside_square.is_ok());
    let line_inside_square = line_inside_square.unwrap();
    assert_eq!(line_inside_square.first_point(), Point::new(100, 150));
    assert_eq!(line_inside_square.last_point(), Point::new(200, 150));
}

#[test]
fn line_fully_inside_polygon_is_ok() {
    let square = create_polygon();

    let line_inside_square = OneColorLine::new_inside_polygon(
        (125, 150).into(),
        (175, 150).into(),
        Color::red(),
        &square,
    );

    assert!(line_inside_square.is_ok());
}

#[test]
fn line_fully_inside_polygon_doesnt_cut() {
    let square = create_polygon();

    let first = (125, 150).into();
    let second = (175, 150).into();
    let line_inside_square = OneColorLine::new_inside_polygon(first, second, Color::red(), &square);

    let line_inside_square = line_inside_square.unwrap();
    assert_eq!(line_inside_square.first_point(), first);
    assert_eq!(line_inside_square.last_point(), second);
}

#[test]
fn line_vertically_cut_works() {
    let square = create_polygon();

    let line_inside_square = OneColorLine::new_inside_polygon(
        (150, 50).into(),
        (150, 250).into(),
        Color::red(),
        &square,
    );

    assert!(line_inside_square.is_ok());
    let line_inside_square = line_inside_square.unwrap();
    assert_eq!(line_inside_square.first_point(), Point::new(150, 200));
    assert_eq!(line_inside_square.last_point(), Point::new(150, 100));
}

#[test]
fn line_cut_after_creation_is_ok() {
    let square = create_polygon();

    let line_inside_square = OneColorLine::new((150, 50).into(), (150, 250).into(), Color::red())
        .cut_inside_polygon(&square);

    assert!(line_inside_square.is_ok());
}

#[test]
fn line_cut_after_creation_works() {
    let square = create_polygon();

    let mut line_inside_square =
        OneColorLine::new((150, 50).into(), (150, 250).into(), Color::red());

    let res = line_inside_square.cut_inside_polygon(&square);

    assert!(res.is_ok());
    assert_eq!(line_inside_square.first_point(), Point::new(150, 100));
    assert_eq!(line_inside_square.last_point(), Point::new(150, 200));
}
