//! Geometry and colour primitives.

use vstd::prelude::*;

verus! {

/// An RGBA colour with 8-bit channels and straight (non-premultiplied) alpha.
#[derive(Debug, Clone, Copy, PartialEq, Eq, Structural)]
pub struct Color {
    pub r: u8,
    pub g: u8,
    pub b: u8,
    pub a: u8,
}

impl Color {
    pub fn new(r: u8, g: u8, b: u8, a: u8) -> (c: Color)
        ensures
            c == (Color { r, g, b, a }),
    {
        Color { r, g, b, a }
    }

    /// An opaque colour.
    pub fn rgb(r: u8, g: u8, b: u8) -> (c: Color)
        ensures
            c == (Color { r, g, b, a: 255 }),
    {
        Color::new(r, g, b, 255)
    }

    pub fn transparent() -> (c: Color)
        ensures
            c == (Color { r: 0, g: 0, b: 0, a: 0 }),
    {
        Color::new(0, 0, 0, 0)
    }

    pub fn black() -> (c: Color)
        ensures
            c == (Color { r: 0, g: 0, b: 0, a: 255 }),
    {
        Color::rgb(0, 0, 0)
    }

    pub fn white() -> (c: Color)
        ensures
            c == (Color { r: 255, g: 255, b: 255, a: 255 }),
    {
        Color::rgb(255, 255, 255)
    }

    pub fn red() -> (c: Color)
        ensures
            c == (Color { r: 255, g: 0, b: 0, a: 255 }),
    {
        Color::rgb(255, 0, 0)
    }

    pub fn green() -> (c: Color)
        ensures
            c == (Color { r: 0, g: 255, b: 0, a: 255 }),
    {
        Color::rgb(0, 255, 0)
    }

    pub fn blue() -> (c: Color)
        ensures
            c == (Color { r: 0, g: 0, b: 255, a: 255 }),
    {
        Color::rgb(0, 0, 255)
    }

    /// The colour as an `[r, g, b, a]` pixel.
    pub fn to_pixel(&self) -> (px: [u8; 4])
        ensures
            px@ == self.pixel(),
    {
        let px = [self.r, self.g, self.b, self.a];
        assert(px@ =~= self.pixel());
        px
    }

    pub open spec fn pixel(&self) -> Seq<u8> {
        seq![self.r, self.g, self.b, self.a]
    }
}

/// Width and height of a frame or image, in pixels.
#[derive(Debug, Clone, Copy, PartialEq, Eq, Structural)]
pub struct Size {
    pub width: u32,
    pub height: u32,
}

impl Size {
    pub fn new(width: u32, height: u32) -> (s: Size)
        ensures
            s.width == width,
            s.height == height,
    {
        Size { width, height }
    }
}

/// A 2D point with both coordinates in thousandths (fixed point, `1000` is one unit).
#[derive(Debug, Clone, Copy, PartialEq, Eq, Structural)]
pub struct Point {
    pub x: i32,
    pub y: i32,
}

/// One whole unit in the fixed-point coordinates of [`Point`] and [`Rect`].
pub const UNIT: i32 = 1000;

impl Point {
    pub fn new(x: i32, y: i32) -> (p: Point)
        ensures
            p == (Point { x, y }),
    {
        Point { x, y }
    }

    pub fn zero() -> (p: Point)
        ensures
            p == (Point { x: 0, y: 0 }),
    {
        Point::new(0, 0)
    }
}

/// An axis-aligned rectangle; all fields in thousandths, like [`Point`].
#[derive(Debug, Clone, Copy, PartialEq, Eq, Structural)]
pub struct Rect {
    pub x: i32,
    pub y: i32,
    pub width: i32,
    pub height: i32,
}

impl Rect {
    pub fn new(x: i32, y: i32, width: i32, height: i32) -> (r: Rect)
        ensures
            r == (Rect { x, y, width, height }),
    {
        Rect { x, y, width, height }
    }

    /// The point lies in the rectangle, edges included.
    pub open spec fn spec_contains(&self, p: Point) -> bool {
        self.x <= p.x <= self.x + self.width && self.y <= p.y <= self.y + self.height
    }

    /// The two rectangles overlap in an area (touching edges do not count).
    pub open spec fn spec_intersects(&self, o: Rect) -> bool {
        &&& self.x < o.x + o.width
        &&& self.x + self.width > o.x
        &&& self.y < o.y + o.height
        &&& self.y + self.height > o.y
    }

    pub fn contains(&self, point: Point) -> (r: bool)
        ensures
            r == self.spec_contains(point),
    {
        let (x, y, w, h) = (self.x as i64, self.y as i64, self.width as i64, self.height as i64);
        point.x as i64 >= x && point.x as i64 <= x + w && point.y as i64 >= y && point.y as i64
            <= y + h
    }

    pub fn intersects(&self, other: &Rect) -> (r: bool)
        ensures
            r == self.spec_intersects(*other),
    {
        let (x, y, w, h) = (self.x as i64, self.y as i64, self.width as i64, self.height as i64);
        let (ox, oy, ow, oh) = (
            other.x as i64,
            other.y as i64,
            other.width as i64,
            other.height as i64,
        );
        x < ox + ow && x + w > ox && y < oy + oh && y + h > oy
    }
}

} // verus!
