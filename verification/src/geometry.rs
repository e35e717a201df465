//! Plane geometry for drawing: points, sizes, rectangles and pixels.
//!
//! Coordinates are signed so that shapes may lie partly off screen; every
//! consuming operation clips against the display bounds before touching
//! memory.

use vstd::prelude::*;

use crate::color::Rgb565;

verus! {

/// A point on the display plane.
#[derive(Clone, Copy, PartialEq, Eq, Structural, Debug)]
pub struct Point {
    /// Horizontal coordinate, growing to the right.
    pub x: i32,
    /// Vertical coordinate, growing downwards.
    pub y: i32,
}

impl Point {
    /// Build a point from its two coordinates.
    pub fn new(x: i32, y: i32) -> (p: Self)
        ensures
            p == (Point { x, y }),
    {
        Point { x, y }
    }
}

/// The extent of a rectangle in pixels.
#[derive(Clone, Copy, PartialEq, Eq, Structural, Debug)]
pub struct Size {
    /// Horizontal extent.
    pub width: u32,
    /// Vertical extent.
    pub height: u32,
}

impl Size {
    /// Build a size from its two extents.
    pub fn new(width: u32, height: u32) -> (s: Self)
        ensures
            s == (Size { width, height }),
    {
        Size { width, height }
    }
}

/// A rectangle given by its top-left corner and its size.
#[derive(Clone, Copy, PartialEq, Eq, Structural, Debug)]
pub struct Rectangle {
    /// The corner with the smallest coordinates.
    pub top_left: Point,
    /// The extent of the rectangle.
    pub size: Size,
}

impl Rectangle {
    /// Build a rectangle from its corner and size.
    pub fn new(top_left: Point, size: Size) -> (r: Self)
        ensures
            r == (Rectangle { top_left, size }),
    {
        Rectangle { top_left, size }
    }
}

/// One drawable pixel: a coordinate and a color.
#[derive(Clone, Copy, PartialEq, Eq, Structural, Debug)]
pub struct Pixel {
    /// Where the pixel lies; it is dropped when outside the display.
    pub position: Point,
    /// The color to store there.
    pub color: Rgb565,
}

impl Pixel {
    /// Build a pixel from a position and a color.
    pub fn new(position: Point, color: Rgb565) -> (p: Self)
        ensures
            p == (Pixel { position, color }),
    {
        Pixel { position, color }
    }
}

} // verus!
