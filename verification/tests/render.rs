use graphics_introduction::curve::{CurveDrawError, OneColorCurve};
use graphics_introduction::figure::Figure;
use graphics_introduction::line::{LineDrawError, OneColorLine};
use graphics_introduction::pixel::Pixel;
use graphics_introduction::polygon::Polygon;
use graphics_introduction::segment::{GeometricPrimitve, OneColorSegment, SegmentDrawError};
use graphics_introduction::{Color, Point, Renderable, Renderer};

struct Canvas {
    current: Color,
    pixels: Vec<(Point, Color)>,
    capacity: usize,
}

impl Canvas {
    fn with_capacity(capacity: usize) -> Self {
        Self { current: Color::new(1, 2, 3, 4), pixels: Vec::new(), capacity }
    }
}

impl Renderer for Canvas {
    type DrawError = String;

    fn draw_point(&mut self, point: Point) -> Result<(), String> {
        if self.pixels.len() >= self.capacity {
            return Err(String::from("full"));
        }
        self.pixels.push((point, self.current));
        Ok(())
    }

    fn set_color(&mut self, color: Color) {
        self.current = color;
    }

    fn current_color(&self) -> Color {
        self.current
    }
}

#[test]
fn rendering_a_segment_restores_the_color() {
    let mut canvas = Canvas::with_capacity(100);
    let segment = OneColorSegment::new(Point::new(0, 0), Point::new(3, 1), Color::red());

    assert!(segment.render(&mut canvas).is_ok());

    assert_eq!(canvas.current, Color::new(1, 2, 3, 4));
    assert_eq!(
        canvas.pixels,
        vec![
            (Point::new(0, 0), Color::red()),
            (Point::new(1, 0), Color::red()),
            (Point::new(2, 1), Color::red()),
            (Point::new(3, 1), Color::red())
        ]
    );
}

#[test]
fn a_failed_draw_is_reported() {
    let mut canvas = Canvas::with_capacity(2);
    let segment = OneColorSegment::new(Point::new(0, 0), Point::new(3, 1), Color::red());

    let outcome = segment.render(&mut canvas);

    assert!(matches!(outcome, Err(SegmentDrawError::Draw(message)) if message == "full"));
    assert_eq!(canvas.pixels.len(), 2);
    assert_eq!(canvas.current, Color::red());
}

#[test]
fn draw_points_draws_each_point_in_the_current_color() {
    let mut canvas = Canvas::with_capacity(3);

    assert_eq!(canvas.draw_points(&[Point::new(1, 1), Point::new(2, 2)]), Ok(()));
    assert_eq!(
        canvas.draw_points(&[Point::new(3, 3), Point::new(4, 4)]),
        Err(String::from("full"))
    );

    assert_eq!(
        canvas.pixels,
        vec![
            (Point::new(1, 1), Color::new(1, 2, 3, 4)),
            (Point::new(2, 2), Color::new(1, 2, 3, 4)),
            (Point::new(3, 3), Color::new(1, 2, 3, 4))
        ]
    );
    assert_eq!(canvas.current, Color::new(1, 2, 3, 4));
}

#[test]
fn rendering_a_pixel_restores_the_color() {
    let mut canvas = Canvas::with_capacity(1);

    assert_eq!(Pixel::new(Point::new(5, 6), Color::green()).render(&mut canvas), Ok(()));

    assert_eq!(canvas.pixels, vec![(Point::new(5, 6), Color::green())]);
    assert_eq!(canvas.current, Color::new(1, 2, 3, 4));
    assert_eq!(
        Pixel::new(Point::new(5, 6), Color::green()).render(&mut canvas),
        Err(String::from("full"))
    );
    assert_eq!(canvas.current, Color::green());
}

#[test]
fn rendering_a_line_restores_the_color() {
    let mut canvas = Canvas::with_capacity(2);
    let line = OneColorLine::new(Point::new(0, 0), Point::new(0, 1), Color::white());

    assert!(line.render(&mut canvas).is_ok());
    assert_eq!(canvas.current, Color::new(1, 2, 3, 4));
    assert_eq!(
        canvas.pixels,
        vec![(Point::new(0, 0), Color::white()), (Point::new(0, 1), Color::white())]
    );
    assert!(matches!(line.render(&mut canvas), Err(LineDrawError::Draw(_))));
}

#[test]
fn rendering_a_curve_restores_the_color() {
    let mut canvas = Canvas::with_capacity(100);
    let curve = OneColorCurve::new_from_samples(&[Point::new(0, 0), Point::new(2, 0)], Color::blue());

    assert!(curve.render(&mut canvas).is_ok());

    assert_eq!(canvas.current, Color::new(1, 2, 3, 4));
    assert_eq!(canvas.pixels.len(), 3);
    assert!(canvas.pixels.iter().all(|pixel| pixel.1 == Color::blue()));
}

#[test]
fn rendering_an_empty_curve_is_an_error() {
    let mut canvas = Canvas::with_capacity(100);
    let curve = OneColorCurve::new_implicit(|_, _| 1, Color::blue(), 4, 4);

    let outcome = curve.render(&mut canvas);

    assert!(matches!(outcome, Err(CurveDrawError::Empty)));
    assert_eq!(canvas.current, Color::new(1, 2, 3, 4));
    assert!(canvas.pixels.is_empty());
}

#[test]
fn a_curve_reports_a_failed_draw() {
    let mut canvas = Canvas::with_capacity(1);
    let curve = OneColorCurve::new_from_samples(&[Point::new(0, 0), Point::new(2, 0)], Color::blue());

    assert!(matches!(curve.render(&mut canvas), Err(CurveDrawError::Draw(_))));
    assert_eq!(canvas.current, Color::blue());
}

#[test]
fn rendering_a_polygon_draws_every_edge() {
    let mut canvas = Canvas::with_capacity(100);
    let polygon =
        Polygon::new(&[Point::new(0, 0), Point::new(2, 0), Point::new(0, 2)], Color::yellow())
            .unwrap();

    assert!(polygon.render(&mut canvas).is_ok());

    let expected: Vec<(Point, Color)> = polygon
        .edges()
        .iter()
        .flat_map(|edge| edge.points().iter().map(|point| (*point, Color::yellow())))
        .collect();
    assert_eq!(canvas.pixels, expected);
    assert_eq!(canvas.pixels.len(), 9);
    assert_eq!(canvas.current, Color::new(1, 2, 3, 4));
}

#[test]
fn rendering_a_polygon_stops_at_the_first_failure() {
    let mut canvas = Canvas::with_capacity(4);
    let polygon =
        Polygon::new(&[Point::new(0, 0), Point::new(2, 0), Point::new(0, 2)], Color::yellow())
            .unwrap();

    assert!(matches!(polygon.render(&mut canvas), Err(SegmentDrawError::Draw(_))));
    assert_eq!(canvas.pixels.len(), 4);
}

#[test]
fn rendering_a_figure_draws_every_primitive() {
    let mut canvas = Canvas::with_capacity(100);
    let figure =
        Figure::from_points(&[Point::new(0, 0), Point::new(2, 0), Point::new(0, 2)], Color::cyan())
            .unwrap();

    assert!(figure.render(&mut canvas).is_ok());

    assert_eq!(canvas.pixels.len(), 9);
    assert_eq!(canvas.pixels[3], (Point::new(2, 0), Color::cyan()));
    assert_eq!(canvas.current, Color::new(1, 2, 3, 4));
}
