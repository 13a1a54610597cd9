//! Plain geometry and colour values of the cell renderer.

use vstd::prelude::*;

verus! {

/// A point in cell or pixel units.
#[derive(Clone, Copy, Debug, PartialEq, Eq, Structural)]
pub struct Point {
    pub x: i32,
    pub y: i32,
}

impl Point {
    pub fn new(x: i32, y: i32) -> (p: Point)
        ensures
            p == (Point { x, y }),
    {
        Point { x, y }
    }
}

/// A size in cell or pixel units.
#[derive(Clone, Copy, Debug, PartialEq, Eq, Structural)]
pub struct Size {
    pub width: u32,
    pub height: u32,
}

impl Size {
    pub fn new(width: u32, height: u32) -> (s: Size)
        ensures
            s == (Size { width, height }),
    {
        Size { width, height }
    }

    /// A size with both sides equal to `v`.
    pub fn splat(v: u32) -> (s: Size)
        ensures
            s == (Size { width: v, height: v }),
    {
        Size { width: v, height: v }
    }
}

/// A rectangle: origin and size.
#[derive(Clone, Copy, Debug, PartialEq, Eq, Structural)]
pub struct Rect {
    pub origin: Point,
    pub size: Size,
}

impl Rect {
    pub fn new(x: i32, y: i32, width: u32, height: u32) -> (r: Rect)
        ensures
            r == (Rect { origin: Point { x, y }, size: Size { width, height } }),
    {
        Rect { origin: Point { x, y }, size: Size { width, height } }
    }
}

/// An 8-bit RGB colour.
#[derive(Clone, Copy, Debug, PartialEq, Eq, Structural)]
pub struct Color {
    pub r: u8,
    pub g: u8,
    pub b: u8,
}

/// Channel-wise average of two colours, rounding down.
pub open spec fn avg_color(a: Color, b: Color) -> Color {
    Color { r: ((a.r + b.r) / 2) as u8, g: ((a.g + b.g) / 2) as u8, b: ((a.b + b.b) / 2) as u8 }
}

impl Color {
    pub fn new(r: u8, g: u8, b: u8) -> (c: Color)
        ensures
            c == (Color { r, g, b }),
    {
        Color { r, g, b }
    }

    /// Channel-wise average with `other`, rounding down.
    pub fn avg_with(self, other: Color) -> (c: Color)
        ensures
            c == avg_color(self, other),
    {
        Color {
            r: ((self.r as u16 + other.r as u16) / 2) as u8,
            g: ((self.g as u16 + other.g as u16) / 2) as u8,
            b: ((self.b as u16 + other.b as u16) / 2) as u8,
        }
    }
}

} // verus!
