//! Directions and tangents on the grid.

use crate::Point;
use core::ops::{Add, Mul, Sub};
use vstd::prelude::*;
use vstd::std_specs::convert::FromSpecImpl;
use vstd::std_specs::ops::{AddSpecImpl, MulSpecImpl, SubSpecImpl};

verus! {

/// A direction on the grid, or the offset between two of its points.
#[non_exhaustive]
#[derive(Debug, Clone, Copy, PartialEq, Eq, Structural)]
pub struct Vector2 {
    pub x: i32,
    pub y: i32,
}

impl Vector2 {
    #[inline]
    #[must_use]
    pub fn new(x: i32, y: i32) -> (vector: Self)
        ensures
            vector.x == x,
            vector.y == y,
    {
        Self { x, y }
    }
}

impl From<(i32, i32)> for Vector2 {
    fn from(value: (i32, i32)) -> (vector: Self) {
        Self { x: value.0, y: value.1 }
    }
}

impl FromSpecImpl<(i32, i32)> for Vector2 {
    open spec fn obeys_from_spec() -> bool {
        true
    }

    open spec fn from_spec(value: (i32, i32)) -> Self {
        Vector2 { x: value.0, y: value.1 }
    }
}

impl From<Vector2> for (i32, i32) {
    fn from(value: Vector2) -> (pair: Self) {
        (value.x, value.y)
    }
}

impl FromSpecImpl<Vector2> for (i32, i32) {
    open spec fn obeys_from_spec() -> bool {
        true
    }

    open spec fn from_spec(value: Vector2) -> Self {
        (value.x, value.y)
    }
}

impl From<Vector2> for Point {
    #[inline]
    fn from(value: Vector2) -> (point: Self) {
        Self { x: value.x, y: value.y }
    }
}

impl FromSpecImpl<Vector2> for Point {
    open spec fn obeys_from_spec() -> bool {
        true
    }

    open spec fn from_spec(value: Vector2) -> Self {
        Point { x: value.x, y: value.y }
    }
}

impl From<Point> for Vector2 {
    #[inline]
    fn from(value: Point) -> (vector: Self) {
        Self { x: value.x, y: value.y }
    }
}

impl FromSpecImpl<Point> for Vector2 {
    open spec fn obeys_from_spec() -> bool {
        true
    }

    open spec fn from_spec(value: Point) -> Self {
        Vector2 { x: value.x, y: value.y }
    }
}

/// Whether a whole number is a coordinate of the grid.
pub open spec fn fits(value: int) -> bool {
    i32::MIN <= value <= i32::MAX
}

impl Add for Vector2 {
    type Output = Self;

    #[inline]
    fn add(self, rhs: Self) -> (sum: Self) {
        Self { x: self.x + rhs.x, y: self.y + rhs.y }
    }
}

impl AddSpecImpl for Vector2 {
    open spec fn obeys_add_spec() -> bool {
        true
    }

    open spec fn add_req(self, rhs: Self) -> bool {
        fits(self.x + rhs.x) && fits(self.y + rhs.y)
    }

    open spec fn add_spec(self, rhs: Self) -> Self {
        Vector2 { x: (self.x + rhs.x) as i32, y: (self.y + rhs.y) as i32 }
    }
}

impl Sub for Vector2 {
    type Output = Self;

    #[inline]
    fn sub(self, rhs: Self) -> (difference: Self) {
        Self { x: self.x - rhs.x, y: self.y - rhs.y }
    }
}

impl SubSpecImpl for Vector2 {
    open spec fn obeys_sub_spec() -> bool {
        true
    }

    open spec fn sub_req(self, rhs: Self) -> bool {
        fits(self.x - rhs.x) && fits(self.y - rhs.y)
    }

    open spec fn sub_spec(self, rhs: Self) -> Self {
        Vector2 { x: (self.x - rhs.x) as i32, y: (self.y - rhs.y) as i32 }
    }
}

impl Mul<i32> for Vector2 {
    type Output = Self;

    #[inline]
    fn mul(self, rhs: i32) -> (product: Self) {
        Self { x: self.x * rhs, y: self.y * rhs }
    }
}

impl MulSpecImpl<i32> for Vector2 {
    open spec fn obeys_mul_spec() -> bool {
        true
    }

    open spec fn mul_req(self, rhs: i32) -> bool {
        fits(self.x * rhs) && fits(self.y * rhs)
    }

    open spec fn mul_spec(self, rhs: i32) -> Self {
        Vector2 { x: (self.x * rhs) as i32, y: (self.y * rhs) as i32 }
    }
}

impl Mul<Vector2> for i32 {
    type Output = Vector2;

    #[inline]
    fn mul(self, rhs: Vector2) -> (product: Vector2) {
        rhs * self
    }
}

impl MulSpecImpl<Vector2> for i32 {
    open spec fn obeys_mul_spec() -> bool {
        true
    }

    open spec fn mul_req(self, rhs: Vector2) -> bool {
        fits(rhs.x * self) && fits(rhs.y * self)
    }

    open spec fn mul_spec(self, rhs: Vector2) -> Vector2 {
        Vector2 { x: (rhs.x * self) as i32, y: (rhs.y * self) as i32 }
    }
}

} // verus!
