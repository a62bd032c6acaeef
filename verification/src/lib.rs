//! Rasterization of two-dimensional primitives onto an integer pixel grid.
//!
//! Every coordinate is a whole pixel. Segments are traced with the midpoint
//! algorithm, polygons answer containment queries with the even-odd rule, and
//! segments can be clipped against a polygon. All primitives are drawn through
//! the [`Renderer`] capability.

pub mod clip;
pub mod curve;
pub mod figure;
pub mod line;
pub mod pixel;
pub mod polygon;
pub mod raster;
pub mod rounding;
pub mod segment;
pub mod vector;

use crate::rounding::{round_div, rounded_quotient};
use crate::vector::fits;
use core::ops::{Add, AddAssign, Div, DivAssign, Mul, MulAssign, Sub, SubAssign};
use vstd::prelude::*;
use vstd::std_specs::convert::FromSpecImpl;
use vstd::std_specs::ops::{
    AddSpec, AddSpecImpl, DivSpec, DivSpecImpl, MulSpec, MulSpecImpl, SubSpec, SubSpecImpl,
};

verus! {

/// A position on the pixel grid. Points are ordered by `x`, then by `y`.
#[derive(Debug, Clone, Copy, PartialEq, Eq, Structural, Hash, PartialOrd, Ord)]
pub struct Point {
    pub x: i32,
    pub y: i32,
}

impl Point {
    #[must_use]
    #[inline]
    pub fn new(x: i32, y: i32) -> (point: Self)
        ensures
            point.x == x,
            point.y == y,
    {
        Self { x, y }
    }
}

impl From<(i32, i32)> for Point {
    #[inline]
    fn from(value: (i32, i32)) -> (point: Self) {
        Self::new(value.0, value.1)
    }
}

impl FromSpecImpl<(i32, i32)> for Point {
    open spec fn obeys_from_spec() -> bool {
        true
    }

    open spec fn from_spec(value: (i32, i32)) -> Self {
        Point { x: value.0, y: value.1 }
    }
}

impl From<Point> for (i32, i32) {
    #[inline]
    fn from(value: Point) -> (pair: Self) {
        (value.x, value.y)
    }
}

impl FromSpecImpl<Point> for (i32, i32) {
    open spec fn obeys_from_spec() -> bool {
        true
    }

    open spec fn from_spec(value: Point) -> Self {
        (value.x, value.y)
    }
}

impl Add for Point {
    type Output = Self;

    #[inline]
    fn add(self, rhs: Self) -> (sum: Self) {
        Self { x: self.x + rhs.x, y: self.y + rhs.y }
    }
}

impl AddSpecImpl for Point {
    open spec fn obeys_add_spec() -> bool {
        true
    }

    open spec fn add_req(self, rhs: Self) -> bool {
        fits(self.x + rhs.x) && fits(self.y + rhs.y)
    }

    open spec fn add_spec(self, rhs: Self) -> Self {
        Point { x: (self.x + rhs.x) as i32, y: (self.y + rhs.y) as i32 }
    }
}

impl Sub for Point {
    type Output = Self;

    #[inline]
    fn sub(self, rhs: Self) -> (difference: Self) {
        Self { x: self.x - rhs.x, y: self.y - rhs.y }
    }
}

impl SubSpecImpl for Point {
    open spec fn obeys_sub_spec() -> bool {
        true
    }

    open spec fn sub_req(self, rhs: Self) -> bool {
        fits(self.x - rhs.x) && fits(self.y - rhs.y)
    }

    open spec fn sub_spec(self, rhs: Self) -> Self {
        Point { x: (self.x - rhs.x) as i32, y: (self.y - rhs.y) as i32 }
    }
}

impl Mul<i32> for Point {
    type Output = Self;

    #[inline]
    fn mul(self, rhs: i32) -> (product: Self) {
        Self { x: self.x * rhs, y: self.y * rhs }
    }
}

impl MulSpecImpl<i32> for Point {
    open spec fn obeys_mul_spec() -> bool {
        true
    }

    open spec fn mul_req(self, rhs: i32) -> bool {
        fits(self.x * rhs) && fits(self.y * rhs)
    }

    open spec fn mul_spec(self, rhs: i32) -> Self {
        Point { x: (self.x * rhs) as i32, y: (self.y * rhs) as i32 }
    }
}

impl Div<i32> for Point {
    type Output = Self;

    /// Divides both coordinates and rounds each to the nearest pixel.
    #[inline]
    fn div(self, rhs: i32) -> (quotient: Self) {
        let x = rounded_quotient(self.x as i128, rhs as i128);
        let y = rounded_quotient(self.y as i128, rhs as i128);
        Self { x: x.unwrap(), y: y.unwrap() }
    }
}

impl DivSpecImpl<i32> for Point {
    open spec fn obeys_div_spec() -> bool {
        true
    }

    open spec fn div_req(self, rhs: i32) -> bool {
        rhs != 0 && fits(round_div(self.x as int, rhs as int)) && fits(
            round_div(self.y as int, rhs as int),
        )
    }

    open spec fn div_spec(self, rhs: i32) -> Self {
        Point {
            x: round_div(self.x as int, rhs as int) as i32,
            y: round_div(self.y as int, rhs as int) as i32,
        }
    }
}

impl AddAssign for Point {
    #[inline]
    fn add_assign(&mut self, rhs: Self)
        requires
            fits(old(self).x + rhs.x),
            fits(old(self).y + rhs.y),
        ensures
            final(self).x == old(self).x + rhs.x,
            final(self).y == old(self).y + rhs.y,
    {
        self.x = self.x + rhs.x;
        self.y = self.y + rhs.y;
    }
}

impl SubAssign for Point {
    #[inline]
    fn sub_assign(&mut self, rhs: Self)
        requires
            fits(old(self).x - rhs.x),
            fits(old(self).y - rhs.y),
        ensures
            final(self).x == old(self).x - rhs.x,
            final(self).y == old(self).y - rhs.y,
    {
        self.x = self.x - rhs.x;
        self.y = self.y - rhs.y;
    }
}

impl MulAssign<i32> for Point {
    #[inline]
    fn mul_assign(&mut self, rhs: i32)
        requires
            fits(old(self).x * rhs),
            fits(old(self).y * rhs),
        ensures
            final(self).x == old(self).x * rhs,
            final(self).y == old(self).y * rhs,
    {
        self.x = self.x * rhs;
        self.y = self.y * rhs;
    }
}

impl DivAssign<i32> for Point {
    /// Divides both coordinates and rounds each to the nearest pixel.
    #[inline]
    fn div_assign(&mut self, rhs: i32)
        requires
            rhs != 0,
            fits(round_div(old(self).x as int, rhs as int)),
            fits(round_div(old(self).y as int, rhs as int)),
        ensures
            final(self).x == round_div(old(self).x as int, rhs as int),
            final(self).y == round_div(old(self).y as int, rhs as int),
    {
        let x = rounded_quotient(self.x as i128, rhs as i128);
        let y = rounded_quotient(self.y as i128, rhs as i128);
        self.x = x.unwrap();
        self.y = y.unwrap();
    }
}

/// A colour with red, green, blue and alpha channels of eight bits each.
#[derive(Debug, Clone, Copy, PartialEq, Eq, Structural, Hash, PartialOrd, Ord)]
pub struct Color {
    pub r: u8,
    pub g: u8,
    pub b: u8,
    pub a: u8,
}

/// The product of a channel and a factor, held at the top of the channel's range.
pub open spec fn channel_mul(channel: u8, factor: u8) -> u8 {
    if channel * factor > u8::MAX {
        u8::MAX
    } else {
        (channel * factor) as u8
    }
}

fn scale_channel(channel: u8, factor: u8) -> (scaled: u8)
    ensures
        scaled == channel_mul(channel, factor),
{
    assert(channel * factor <= 255 * 255) by (nonlinear_arith)
        requires
            channel <= 255,
            factor <= 255,
    ;
    let wide: u16 = (channel as u16) * (factor as u16);
    if wide > 255 {
        u8::MAX
    } else {
        wide as u8
    }
}

impl Color {
    #[must_use]
    #[inline]
    pub fn new(r: u8, g: u8, b: u8, a: u8) -> (color: Self)
        ensures
            color == (Color { r, g, b, a }),
    {
        Self { r, g, b, a }
    }

    #[must_use]
    #[inline]
    pub fn new_rgb(r: u8, g: u8, b: u8) -> (color: Self)
        ensures
            color == (Color { r, g, b, a: 255 }),
    {
        Self { r, g, b, a: u8::MAX }
    }

    #[must_use]
    #[inline]
    pub fn black() -> (color: Self)
        ensures
            color == (Color { r: 0, g: 0, b: 0, a: 255 }),
    {
        Self::new(0, 0, 0, 255)
    }

    #[must_use]
    #[inline]
    pub fn blue() -> (color: Self)
        ensures
            color == (Color { r: 0, g: 0, b: 255, a: 255 }),
    {
        Self::new(0, 0, 255, 255)
    }

    #[must_use]
    #[inline]
    pub fn cyan() -> (color: Self)
        ensures
            color == (Color { r: 0, g: 255, b: 255, a: 255 }),
    {
        Self::new(0, 255, 255, 255)
    }

    #[must_use]
    #[inline]
    pub fn gray() -> (color: Self)
        ensures
            color == (Color { r: 128, g: 128, b: 128, a: 255 }),
    {
        Self::new(128, 128, 128, 255)
    }

    #[must_use]
    #[inline]
    pub fn green() -> (color: Self)
        ensures
            color == (Color { r: 0, g: 255, b: 0, a: 255 }),
    {
        Self::new(0, 255, 0, 255)
    }

    #[must_use]
    #[inline]
    pub fn grey() -> (color: Self)
        ensures
            color == (Color { r: 128, g: 128, b: 128, a: 255 }),
    {
        Self::gray()
    }

    #[must_use]
    #[inline]
    pub fn magenta() -> (color: Self)
        ensures
            color == (Color { r: 255, g: 0, b: 255, a: 255 }),
    {
        Self::new(255, 0, 255, 255)
    }

    #[must_use]
    #[inline]
    pub fn red() -> (color: Self)
        ensures
            color == (Color { r: 255, g: 0, b: 0, a: 255 }),
    {
        Self::new(255, 0, 0, 255)
    }

    #[must_use]
    #[inline]
    pub fn white() -> (color: Self)
        ensures
            color == (Color { r: 255, g: 255, b: 255, a: 255 }),
    {
        Self::new(255, 255, 255, 255)
    }

    #[must_use]
    #[inline]
    pub fn yellow() -> (color: Self)
        ensures
            color == (Color { r: 255, g: 255, b: 0, a: 255 }),
    {
        Self::new(255, 255, 0, 255)
    }
}

impl From<(u8, u8, u8, u8)> for Color {
    #[inline]
    fn from(value: (u8, u8, u8, u8)) -> (color: Self) {
        Self::new(value.0, value.1, value.2, value.3)
    }
}

impl FromSpecImpl<(u8, u8, u8, u8)> for Color {
    open spec fn obeys_from_spec() -> bool {
        true
    }

    open spec fn from_spec(value: (u8, u8, u8, u8)) -> Self {
        Color { r: value.0, g: value.1, b: value.2, a: value.3 }
    }
}

impl From<(u8, u8, u8)> for Color {
    #[inline]
    fn from(value: (u8, u8, u8)) -> (color: Self) {
        Self::new_rgb(value.0, value.1, value.2)
    }
}

impl FromSpecImpl<(u8, u8, u8)> for Color {
    open spec fn obeys_from_spec() -> bool {
        true
    }

    open spec fn from_spec(value: (u8, u8, u8)) -> Self {
        Color { r: value.0, g: value.1, b: value.2, a: 255 }
    }
}

impl Sub for Color {
    type Output = Self;

    #[inline]
    fn sub(self, rhs: Self) -> (difference: Self) {
        Self {
            r: self.r.saturating_sub(rhs.r),
            g: self.g.saturating_sub(rhs.g),
            b: self.b.saturating_sub(rhs.b),
            a: self.a.saturating_sub(rhs.a),
        }
    }
}

impl SubSpecImpl for Color {
    open spec fn obeys_sub_spec() -> bool {
        true
    }

    open spec fn sub_req(self, rhs: Self) -> bool {
        true
    }

    open spec fn sub_spec(self, rhs: Self) -> Self {
        Color {
            r: self.r.saturating_sub(rhs.r),
            g: self.g.saturating_sub(rhs.g),
            b: self.b.saturating_sub(rhs.b),
            a: self.a.saturating_sub(rhs.a),
        }
    }
}

impl Mul<u8> for Color {
    type Output = Self;

    #[inline]
    fn mul(self, rhs: u8) -> (product: Self) {
        Self {
            r: scale_channel(self.r, rhs),
            g: scale_channel(self.g, rhs),
            b: scale_channel(self.b, rhs),
            a: scale_channel(self.a, rhs),
        }
    }
}

impl MulSpecImpl<u8> for Color {
    open spec fn obeys_mul_spec() -> bool {
        true
    }

    open spec fn mul_req(self, rhs: u8) -> bool {
        true
    }

    open spec fn mul_spec(self, rhs: u8) -> Self {
        Color {
            r: channel_mul(self.r, rhs),
            g: channel_mul(self.g, rhs),
            b: channel_mul(self.b, rhs),
            a: channel_mul(self.a, rhs),
        }
    }
}

impl Div<u8> for Color {
    type Output = Self;

    #[inline]
    fn div(self, rhs: u8) -> (quotient: Self) {
        Self { r: self.r / rhs, g: self.g / rhs, b: self.b / rhs, a: self.a / rhs }
    }
}

impl DivSpecImpl<u8> for Color {
    open spec fn obeys_div_spec() -> bool {
        true
    }

    open spec fn div_req(self, rhs: u8) -> bool {
        rhs != 0
    }

    open spec fn div_spec(self, rhs: u8) -> Self {
        Color { r: self.r / rhs, g: self.g / rhs, b: self.b / rhs, a: self.a / rhs }
    }
}

impl Add for Color {
    type Output = Self;

    #[inline]
    fn add(self, rhs: Self) -> (sum: Self) {
        Self {
            r: self.r.saturating_add(rhs.r),
            g: self.g.saturating_add(rhs.g),
            b: self.b.saturating_add(rhs.b),
            a: self.a.saturating_add(rhs.a),
        }
    }
}

impl AddSpecImpl for Color {
    open spec fn obeys_add_spec() -> bool {
        true
    }

    open spec fn add_req(self, rhs: Self) -> bool {
        true
    }

    open spec fn add_spec(self, rhs: Self) -> Self {
        Color {
            r: self.r.saturating_add(rhs.r),
            g: self.g.saturating_add(rhs.g),
            b: self.b.saturating_add(rhs.b),
            a: self.a.saturating_add(rhs.a),
        }
    }
}

impl AddAssign for Color {
    #[inline]
    fn add_assign(&mut self, rhs: Self)
        ensures
            *final(self) == AddSpec::add_spec(*old(self), rhs),
    {
        self.r = self.r.saturating_add(rhs.r);
        self.g = self.g.saturating_add(rhs.g);
        self.b = self.b.saturating_add(rhs.b);
        self.a = self.a.saturating_add(rhs.a);
    }
}

impl SubAssign for Color {
    #[inline]
    fn sub_assign(&mut self, rhs: Self)
        ensures
            *final(self) == SubSpec::sub_spec(*old(self), rhs),
    {
        self.r = self.r.saturating_sub(rhs.r);
        self.g = self.g.saturating_sub(rhs.g);
        self.b = self.b.saturating_sub(rhs.b);
        self.a = self.a.saturating_sub(rhs.a);
    }
}

impl MulAssign<u8> for Color {
    #[inline]
    fn mul_assign(&mut self, rhs: u8)
        ensures
            *final(self) == MulSpec::mul_spec(*old(self), rhs),
    {
        self.r = scale_channel(self.r, rhs);
        self.g = scale_channel(self.g, rhs);
        self.b = scale_channel(self.b, rhs);
        self.a = scale_channel(self.a, rhs);
    }
}

impl DivAssign<u8> for Color {
    #[inline]
    fn div_assign(&mut self, rhs: u8)
        requires
            rhs != 0,
        ensures
            *final(self) == DivSpec::div_spec(*old(self), rhs),
    {
        self.r = self.r / rhs;
        self.g = self.g / rhs;
        self.b = self.b / rhs;
        self.a = self.a / rhs;
    }
}

/// The pixels that drawing `points` in one colour paints.
pub open spec fn painted(points: Seq<Point>, color: Color) -> Seq<(Point, Color)> {
    Seq::new(points.len(), |i: int| (points[i], color))
}

/// A drawing surface: it holds a current colour and accepts points, each of
/// which it paints in that colour.
pub trait Renderer: Sized {
    type DrawError;

    /// The colour in which the next point is painted.
    open spec fn color(&self) -> Color {
        arbitrary()
    }

    /// Every pixel painted so far, oldest first.
    open spec fn drawn(&self) -> Seq<(Point, Color)> {
        arbitrary()
    }

    /// Paints one point in the current colour.
    fn draw_point(&mut self, point: Point) -> (outcome: Result<(), Self::DrawError>)
        ensures
            final(self).color() == old(self).color(),
            outcome.is_ok() ==> final(self).drawn() == old(self).drawn().push(
                (point, old(self).color()),
            ),
            outcome.is_err() ==> final(self).drawn() == old(self).drawn(),
    ;

    /// Paints the points in order, and stops at the first that fails.
    #[inline]
    fn draw_points(&mut self, points: &[Point]) -> (outcome: Result<(), Self::DrawError>)
        ensures
            final(self).color() == old(self).color(),
            outcome.is_ok() ==> final(self).drawn() == old(self).drawn() + painted(
                points@,
                old(self).color(),
            ),
            outcome.is_err() ==> exists|count: int|
                0 <= count <= points@.len() && final(self).drawn() == old(self).drawn() + painted(
                    #[trigger] points@.take(count),
                    old(self).color(),
                ),
    {
        let mut i: usize = 0;
        while i < points.len()
            invariant
                0 <= i <= points@.len(),
                self.color() == old(self).color(),
                self.drawn() == old(self).drawn() + painted(
                    points@.take(i as int),
                    old(self).color(),
                ),
            decreases points@.len() - i,
        {
            let ghost before = self.drawn();
            match self.draw_point(points[i]) {
                Ok(()) => {},
                Err(error) => {
                    return Err(error);
                },
            }
            proof {
                assert(points@.take(i + 1) == points@.take(i as int).push(points@[i as int]));
                assert(painted(points@.take(i + 1), old(self).color()) == painted(
                    points@.take(i as int),
                    old(self).color(),
                ).push((points@[i as int], old(self).color())));
            }
            i += 1;
        }
        proof {
            assert(points@.take(points@.len() as int) == points@);
        }
        Ok(())
    }

    /// Makes `color` the current colour.
    fn set_color(&mut self, color: Color)
        ensures
            final(self).color() == color,
            final(self).drawn() == old(self).drawn(),
    ;

    /// The current colour.
    fn current_color(&self) -> (color: Color)
        ensures
            color == self.color(),
    ;
}

/// Something that can be drawn on a [`Renderer`].
pub trait Renderable<T> where T: Renderer {
    type Error;

    /// The pixels that a successful rendering paints, in order.
    spec fn rendering(&self) -> Seq<(Point, Color)>;

    /// Draws on the renderer and leaves its current colour as it was. Where
    /// that fails, what was painted is the beginning of the rendering.
    fn render(&self, renderer: &mut T) -> (outcome: Result<(), Self::Error>)
        ensures
            outcome.is_ok() ==> final(renderer).color() == old(renderer).color(),
            outcome.is_ok() ==> final(renderer).drawn() == old(renderer).drawn()
                + self.rendering(),
            outcome.is_err() ==> exists|count: int|
                0 <= count <= self.rendering().len() && final(renderer).drawn() == old(
                    renderer,
                ).drawn() + #[trigger] self.rendering().take(count),
    ;
}

} // verus!
