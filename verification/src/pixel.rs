//! A single coloured point.

use crate::{Color, Point, Renderable, Renderer};
use vstd::prelude::*;
use vstd::std_specs::convert::FromSpecImpl;

verus! {

/// A point of the grid and the colour in which it is painted.
#[derive(Debug, Clone, Copy)]
pub struct Pixel {
    pub point: Point,
    pub color: Color,
}

impl Pixel {
    #[must_use]
    #[inline]
    pub fn new(point: Point, color: Color) -> (pixel: Self)
        ensures
            pixel.point == point,
            pixel.color == color,
    {
        Self { point, color }
    }
}

impl From<(Point, Color)> for Pixel {
    #[inline]
    fn from(value: (Point, Color)) -> (pixel: Self) {
        Self::new(value.0, value.1)
    }
}

impl FromSpecImpl<(Point, Color)> for Pixel {
    open spec fn obeys_from_spec() -> bool {
        true
    }

    open spec fn from_spec(value: (Point, Color)) -> Self {
        Pixel { point: value.0, color: value.1 }
    }
}

impl From<(i32, i32, Color)> for Pixel {
    #[inline]
    fn from(value: (i32, i32, Color)) -> (pixel: Self) {
        Self::new(Point::new(value.0, value.1), value.2)
    }
}

impl FromSpecImpl<(i32, i32, Color)> for Pixel {
    open spec fn obeys_from_spec() -> bool {
        true
    }

    open spec fn from_spec(value: (i32, i32, Color)) -> Self {
        Pixel { point: Point { x: value.0, y: value.1 }, color: value.2 }
    }
}

impl<T> Renderable<T> for Pixel where T: Renderer {
    type Error = T::DrawError;

    open spec fn rendering(&self) -> Seq<(Point, Color)> {
        seq![(self.point, self.color)]
    }

    #[inline]
    fn render(&self, renderer: &mut T) -> (outcome: Result<(), Self::Error>)
        ensures
            outcome.is_ok() ==> final(renderer).drawn() == old(renderer).drawn().push(
                (self.point, self.color),
            ),
            outcome.is_err() ==> final(renderer).drawn() == old(renderer).drawn(),
            outcome.is_err() ==> final(renderer).color() == self.color,
    {
        let old_color = renderer.current_color();
        renderer.set_color(self.color);
        match renderer.draw_point(self.point) {
            Ok(()) => {},
            Err(error) => {
                proof {
                    let painting = Renderable::<T>::rendering(self);
                    assert(renderer.drawn() =~= old(renderer).drawn() + painting.take(0));
                }
                return Err(error);
            },
        }
        renderer.set_color(old_color);
        proof {
            assert(old(renderer).drawn().push((self.point, self.color)) =~= old(renderer).drawn()
                + seq![(self.point, self.color)]);
        }
        Ok(())
    }
}

} // verus!
