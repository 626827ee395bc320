//! Geometric primitives: colors, points, edge offsets, rectangles and the
//! shared rectangle-intersection operation used by layout and compositing.

use vstd::prelude::*;

verus! {

/// An RGBA color; the alpha channel is carried but never blended.
#[derive(Debug, Clone, Copy, PartialEq, Eq, Structural)]
pub struct Color {
    pub r: u8,
    pub g: u8,
    pub b: u8,
    pub a: u8,
}

impl Color {
    pub fn rgb(r: u8, g: u8, b: u8) -> (c: Color)
        ensures
            c == (Color { r, g, b, a: 255u8 }),
    {
        Color { r, g, b, a: 255 }
    }

    pub fn black() -> (c: Color)
        ensures
            c == (Color { r: 0u8, g: 0u8, b: 0u8, a: 255u8 }),
    {
        Color::rgb(0, 0, 0)
    }

    pub fn white() -> (c: Color)
        ensures
            c == (Color { r: 255u8, g: 255u8, b: 255u8, a: 255u8 }),
    {
        Color::rgb(255, 255, 255)
    }

    /// The color a monochrome pixel maps to: full white for an `on` pixel,
    /// full black otherwise.
    pub fn from_binary(on: bool) -> (c: Color)
        ensures
            c == (if on {
                Color { r: 255u8, g: 255u8, b: 255u8, a: 255u8 }
            } else {
                Color { r: 0u8, g: 0u8, b: 0u8, a: 255u8 }
            }),
    {
        if on {
            Color::white()
        } else {
            Color::black()
        }
    }

    /// Collapses the color back to one monochrome bit: a pixel is lit when
    /// its summed channels pass the brightness threshold of 300.
    pub fn to_binary(&self) -> (on: bool)
        ensures
            on == (self.r + self.g + self.b > 300),
    {
        self.r as u32 + self.g as u32 + self.b as u32 > 300
    }
}

/// Default color: transparent black.
impl Default for Color {
    fn default() -> (c: Color)
        ensures
            c == (Color { r: 0u8, g: 0u8, b: 0u8, a: 0u8 }),
    {
        Color { r: 0, g: 0, b: 0, a: 0 }
    }
}

/// Per-edge pixel offsets (resolved margins, borders or paddings).
#[derive(Debug, Clone, Copy, PartialEq, Eq, Structural)]
pub struct Edges {
    pub top: i32,
    pub right: i32,
    pub bottom: i32,
    pub left: i32,
}

impl Default for Edges {
    fn default() -> (e: Edges)
        ensures
            e == (Edges { top: 0i32, right: 0i32, bottom: 0i32, left: 0i32 }),
    {
        Edges { top: 0, right: 0, bottom: 0, left: 0 }
    }
}

/// An axis-aligned rectangle: a signed top-left corner and unsigned extent.
#[derive(Debug, Clone, Copy, PartialEq, Eq, Structural)]
pub struct Rectangle {
    pub x: i32,
    pub y: i32,
    pub width: u32,
    pub height: u32,
}

/// A point in signed pixel coordinates.
#[derive(Debug, Clone, Copy, PartialEq, Eq, Structural)]
pub struct Point {
    pub x: i32,
    pub y: i32,
}

/// The overlap of two rectangles, together with where the overlap sits
/// relative to each input's own origin.
#[derive(Debug, Clone, Copy, PartialEq, Eq, Structural)]
pub struct Intersection {
    /// The area common to both rectangles (zero-sized when they are disjoint).
    pub bounds: Rectangle,
    /// The offset of the overlap from the first rectangle's origin.
    pub offset_a: Point,
    /// The offset of the overlap from the second rectangle's origin.
    pub offset_b: Point,
}

/// A value clamped to the `i32` range.
pub open spec fn sat_i32(v: int) -> int {
    if v < i32::MIN {
        i32::MIN as int
    } else if v > i32::MAX {
        i32::MAX as int
    } else {
        v
    }
}

/// A size clamped to the `u32` range: negative results floor at zero.
pub open spec fn clamp_u32(v: int) -> int {
    if v < 0 {
        0
    } else if v > u32::MAX {
        u32::MAX as int
    } else {
        v
    }
}

/// Saturating conversion of an intermediate 64-bit coordinate to `i32`.
pub fn sat_to_i32(v: i64) -> (r: i32)
    ensures
        r as int == sat_i32(v as int),
{
    if v < i32::MIN as i64 {
        i32::MIN
    } else if v > i32::MAX as i64 {
        i32::MAX
    } else {
        v as i32
    }
}

/// Clamping conversion of an intermediate 64-bit size to `u32`.
pub fn clamp_to_u32(v: i64) -> (r: u32)
    ensures
        r as int == clamp_u32(v as int),
{
    if v < 0 {
        0
    } else if v > u32::MAX as i64 {
        u32::MAX
    } else {
        v as u32
    }
}

/// The rectangle grown outward by the given edge offsets, under the crate's
/// saturation policy.
pub open spec fn spec_expand(r: Rectangle, edges: Edges) -> Rectangle {
    Rectangle {
        x: sat_i32(r.x - edges.left) as i32,
        y: sat_i32(r.y - edges.top) as i32,
        width: clamp_u32(r.width + edges.left + edges.right) as u32,
        height: clamp_u32(r.height + edges.top + edges.bottom) as u32,
    }
}

/// The overlap of two rectangles: each axis independently intersected, the
/// extent floored at zero, plus the overlap's offset from each input origin.
pub open spec fn spec_intersect(a: Rectangle, b: Rectangle) -> Intersection {
    let x0 = if a.x >= b.x { a.x as int } else { b.x as int };
    let y0 = if a.y >= b.y { a.y as int } else { b.y as int };
    let ax1 = a.x + a.width;
    let bx1 = b.x + b.width;
    let ay1 = a.y + a.height;
    let by1 = b.y + b.height;
    let x1 = if ax1 <= bx1 { ax1 } else { bx1 };
    let y1 = if ay1 <= by1 { ay1 } else { by1 };
    let bounds = Rectangle {
        x: x0 as i32,
        y: y0 as i32,
        width: clamp_u32(x1 - x0) as u32,
        height: clamp_u32(y1 - y0) as u32,
    };
    Intersection {
        bounds,
        offset_a: Point { x: sat_i32(x0 - a.x) as i32, y: sat_i32(y0 - a.y) as i32 },
        offset_b: Point { x: sat_i32(x0 - b.x) as i32, y: sat_i32(y0 - b.y) as i32 },
    }
}

impl Rectangle {
    pub fn new(x: i32, y: i32, width: u32, height: u32) -> (r: Rectangle)
        ensures
            r == (Rectangle { x, y, width, height }),
    {
        Rectangle { x, y, width, height }
    }

    /// Grows the rectangle outward by the given edge offsets.
    pub fn expand(&self, edges: &Edges) -> (r: Rectangle)
        ensures
            r == spec_expand(*self, *edges),
    {
        Rectangle {
            x: sat_to_i32(self.x as i64 - edges.left as i64),
            y: sat_to_i32(self.y as i64 - edges.top as i64),
            width: clamp_to_u32(self.width as i64 + edges.left as i64 + edges.right as i64),
            height: clamp_to_u32(self.height as i64 + edges.top as i64 + edges.bottom as i64),
        }
    }

    /// The overlap of `self` and `b`, with the overlap's offset relative to
    /// each input; one routine serves clipping to a destination and clipping
    /// to a source.
    pub fn intersect(&self, b: Rectangle) -> (r: Intersection)
        ensures
            r == spec_intersect(*self, b),
    {
        let x0: i64 = if self.x >= b.x { self.x as i64 } else { b.x as i64 };
        let y0: i64 = if self.y >= b.y { self.y as i64 } else { b.y as i64 };
        let ax1: i64 = self.x as i64 + self.width as i64;
        let bx1: i64 = b.x as i64 + b.width as i64;
        let ay1: i64 = self.y as i64 + self.height as i64;
        let by1: i64 = b.y as i64 + b.height as i64;
        let x1: i64 = if ax1 <= bx1 { ax1 } else { bx1 };
        let y1: i64 = if ay1 <= by1 { ay1 } else { by1 };
        let bounds = Rectangle {
            x: x0 as i32,
            y: y0 as i32,
            width: clamp_to_u32(x1 - x0),
            height: clamp_to_u32(y1 - y0),
        };
        Intersection {
            bounds,
            offset_a: Point {
                x: sat_to_i32(x0 - self.x as i64),
                y: sat_to_i32(y0 - self.y as i64),
            },
            offset_b: Point { x: sat_to_i32(x0 - b.x as i64), y: sat_to_i32(y0 - b.y as i64) },
        }
    }
}

impl Default for Rectangle {
    fn default() -> (r: Rectangle)
        ensures
            r == (Rectangle { x: 0i32, y: 0i32, width: 0u32, height: 0u32 }),
    {
        Rectangle { x: 0, y: 0, width: 0, height: 0 }
    }
}

impl Point {
    pub fn new(x: i32, y: i32) -> (p: Point)
        ensures
            p == (Point { x, y }),
    {
        Point { x, y }
    }

    pub fn zero() -> (p: Point)
        ensures
            p == (Point { x: 0i32, y: 0i32 }),
    {
        Point { x: 0, y: 0 }
    }
}

impl Default for Point {
    fn default() -> (p: Point)
        ensures
            p == (Point { x: 0i32, y: 0i32 }),
    {
        Point { x: 0, y: 0 }
    }
}

} // verus!
