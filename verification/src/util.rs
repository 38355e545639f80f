//! Plane vectors over fixed-point coordinates.

use vstd::prelude::*;

use crate::fx::{
    fx_add, fx_div, fx_hypot, fx_mul, fx_sub, spec_fx_add, spec_fx_div, spec_fx_hypot, spec_fx_mul,
    spec_fx_sub,
};

verus! {

/// A 2D point or displacement; both coordinates are fixed-point values.
#[derive(Clone, Copy, Debug, PartialEq, Eq, Structural)]
pub struct Vector2 {
    pub x: i64,
    pub y: i64,
}

impl Vector2 {
    /// Build a vector from its fixed-point coordinates.
    pub fn new(x: i64, y: i64) -> (r: Self)
        ensures
            r.x == x,
            r.y == y,
    {
        Vector2 { x, y }
    }

    /// Multiply both coordinates by a fixed-point factor.
    pub fn scale(&self, scale: i64) -> (r: Self)
        ensures
            r.x as int == spec_fx_mul(self.x as int, scale as int),
            r.y as int == spec_fx_mul(self.y as int, scale as int),
    {
        Vector2 { x: fx_mul(self.x, scale), y: fx_mul(self.y, scale) }
    }

    /// Divide both coordinates by a fixed-point divisor.
    pub fn div(self, divisor: i64) -> (r: Self)
        ensures
            r.x as int == spec_fx_div(self.x as int, divisor as int),
            r.y as int == spec_fx_div(self.y as int, divisor as int),
    {
        Vector2 { x: fx_div(self.x, divisor), y: fx_div(self.y, divisor) }
    }

    /// Fixed-point dot product.
    pub fn dot(self, other: Vector2) -> (r: i64)
        ensures
            r as int == spec_fx_add(
                spec_fx_mul(self.x as int, other.x as int),
                spec_fx_mul(self.y as int, other.y as int),
            ),
    {
        fx_add(fx_mul(self.x, other.x), fx_mul(self.y, other.y))
    }

    /// Coordinate-wise product.
    pub fn mul(self, other: Vector2) -> (r: Vector2)
        ensures
            r.x as int == spec_fx_mul(self.x as int, other.x as int),
            r.y as int == spec_fx_mul(self.y as int, other.y as int),
    {
        Vector2 { x: fx_mul(self.x, other.x), y: fx_mul(self.y, other.y) }
    }

    /// Euclidean length.
    pub fn len(&self) -> (r: i64)
        ensures
            r as int == spec_fx_hypot(self.x as int, self.y as int),
            r >= 0,
    {
        fx_hypot(self.x, self.y)
    }

    /// Euclidean distance to another point.
    pub fn distance(&self, other: Vector2) -> (r: i64)
        ensures
            r as int == spec_fx_hypot(
                spec_fx_sub(self.x as int, other.x as int),
                spec_fx_sub(self.y as int, other.y as int),
            ),
            r >= 0,
    {
        let dx: i64 = fx_sub(self.x, other.x);
        let dy: i64 = fx_sub(self.y, other.y);
        fx_hypot(dx, dy)
    }

    /// Coordinate-wise sum.
    pub fn add(self, other: Vector2) -> (r: Vector2)
        ensures
            r.x as int == spec_fx_add(self.x as int, other.x as int),
            r.y as int == spec_fx_add(self.y as int, other.y as int),
    {
        Vector2 { x: fx_add(self.x, other.x), y: fx_add(self.y, other.y) }
    }

    /// Coordinate-wise difference.
    pub fn sub(self, other: Vector2) -> (r: Vector2)
        ensures
            r.x as int == spec_fx_sub(self.x as int, other.x as int),
            r.y as int == spec_fx_sub(self.y as int, other.y as int),
    {
        Vector2 { x: fx_sub(self.x, other.x), y: fx_sub(self.y, other.y) }
    }
}

} // verus!
