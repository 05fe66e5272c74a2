//! Fixed-point geometry.
//!
//! Every coordinate in this crate counts **subpixels**, 256 to the pixel: the
//! resolution Wayland itself delivers pointer positions in. Coordinates are
//! `i32` and extents `u32`, so a rectangle's far edges always fit an `i64` and
//! no operation below needs a bound on its arguments.
use vstd::prelude::*;

verus! {

/// Subpixels in one pixel.
pub const SUBPIXELS: i64 = 256;

/// Half a pixel, the offset of a pixel's centre from its top-left corner.
pub const HALF_PIXEL: i64 = 128;

/// A position, in subpixels.
#[derive(Debug, Clone, Copy, PartialEq, Eq, Structural)]
pub struct Point {
    pub x: i32,
    pub y: i32,
}

/// A pointer position as it arrives: a coordinate that is no finite number is
/// missing.
#[derive(Debug, Clone, Copy, PartialEq, Eq, Structural)]
pub struct RawPoint {
    pub x: Option<i32>,
    pub y: Option<i32>,
}

impl RawPoint {
    pub fn at(p: Point) -> (r: RawPoint)
        ensures
            r == (RawPoint { x: Some(p.x), y: Some(p.y) }),
    {
        RawPoint { x: Some(p.x), y: Some(p.y) }
    }
}

/// An axis-aligned rectangle, in subpixels.
#[derive(Debug, Clone, Copy, PartialEq, Eq, Structural)]
pub struct Rect {
    pub x: i32,
    pub y: i32,
    pub width: u32,
    pub height: u32,
}

/// A displacement, in subpixels.
#[derive(Debug, Clone, Copy, PartialEq, Eq, Structural)]
pub struct Offset {
    pub dx: i64,
    pub dy: i64,
}

/// A rectangle of whole pixels.
#[derive(Debug, Clone, Copy, PartialEq, Eq, Structural)]
pub struct PixelRect {
    pub x: u32,
    pub y: u32,
    pub width: u32,
    pub height: u32,
}

pub open spec fn spec_min(a: int, b: int) -> int {
    if a <= b {
        a
    } else {
        b
    }
}

pub open spec fn spec_max(a: int, b: int) -> int {
    if a >= b {
        a
    } else {
        b
    }
}

/// `v` brought into `lo..=hi`.
pub open spec fn spec_clamp(v: int, lo: int, hi: int) -> int {
    if v < lo {
        lo
    } else if v > hi {
        hi
    } else {
        v
    }
}

/// The coordinate nearest to `v` that an `i32` can hold.
pub open spec fn spec_coord(v: int) -> int {
    spec_clamp(v, i32::MIN as int, i32::MAX as int)
}

/// The whole pixel nearest to `v` subpixels, a tie going away from zero.
pub open spec fn spec_round_px(v: int) -> int {
    if v >= 0 {
        (v + 128) / 256
    } else {
        -((128 - v) / 256)
    }
}

/// The extent nearest to `v` that a `u32` can hold.
pub open spec fn spec_extent(v: int) -> int {
    spec_clamp(v, 0, u32::MAX as int)
}

/// The rectangle between four edges.
pub open spec fn spec_between(left: int, top: int, right: int, bottom: int) -> Rect {
    Rect {
        x: spec_coord(left) as i32,
        y: spec_coord(top) as i32,
        width: spec_extent(right - left) as u32,
        height: spec_extent(bottom - top) as u32,
    }
}

/// The absolute value.
pub open spec fn spec_abs(v: int) -> int {
    if v < 0 {
        -v
    } else {
        v
    }
}

/// `v` itself where an `i32` can hold it, else the nearest value that can.
pub fn coord(v: i64) -> (r: i32)
    ensures
        r == spec_coord(v as int),
{
    if v < i32::MIN as i64 {
        i32::MIN
    } else if v > i32::MAX as i64 {
        i32::MAX
    } else {
        v as i32
    }
}

/// `v` itself where a `u32` can hold it, else the nearest value that can.
pub fn extent(v: i64) -> (r: u32)
    ensures
        r == spec_extent(v as int),
{
    if v < 0 {
        0
    } else if v > u32::MAX as i64 {
        u32::MAX
    } else {
        v as u32
    }
}

/// `a + b`, held at the ends of the `i32` range.
pub fn shifted(a: i32, b: i64) -> (r: i32)
    ensures
        r == spec_coord(a + b),
{
    if b > 0x2_0000_0000 {
        i32::MAX
    } else if b < -0x2_0000_0000 {
        i32::MIN
    } else {
        coord(a as i64 + b)
    }
}

/// Rounds to the nearest pixel, ties away from zero.
pub fn round_px(v: i64) -> (r: i64)
    requires
        -0x1000_0000_0000_0000 <= v <= 0x1000_0000_0000_0000,
    ensures
        r == spec_round_px(v as int),
{
    if v >= 0 {
        (v + HALF_PIXEL) / SUBPIXELS
    } else {
        -((HALF_PIXEL - v) / SUBPIXELS)
    }
}

impl Point {
    pub fn new(x: i32, y: i32) -> (p: Point)
        ensures
            p.x == x,
            p.y == y,
    {
        Point { x, y }
    }

    /// The position `px`, `py` whole pixels from the origin.
    pub fn from_pixels(px: i16, py: i16) -> (p: Point)
        ensures
            p.x == px * 256,
            p.y == py * 256,
    {
        Point { x: px as i32 * 256, y: py as i32 * 256 }
    }

    /// The displacement that carries `from` to `self`.
    pub fn offset_from(self, from: Point) -> (d: Offset)
        ensures
            d.dx == self.x - from.x,
            d.dy == self.y - from.y,
    {
        Offset { dx: self.x as i64 - from.x as i64, dy: self.y as i64 - from.y as i64 }
    }

    pub open spec fn spec_translated(self, d: Offset) -> Point {
        Point { x: spec_coord(self.x + d.dx) as i32, y: spec_coord(self.y + d.dy) as i32 }
    }

    /// `self` moved by `d`, held at the ends of the coordinate range.
    pub fn translated(self, d: Offset) -> (p: Point)
        ensures
            p == self.spec_translated(d),
    {
        Point { x: shifted(self.x, d.dx), y: shifted(self.y, d.dy) }
    }
}

impl Rect {
    /// A rectangle of that size; a negative extent counts as none.
    pub fn new(x: i32, y: i32, width: i64, height: i64) -> (r: Rect)
        ensures
            r == (Rect {
                x,
                y,
                width: spec_extent(width as int) as u32,
                height: spec_extent(height as int) as u32,
            }),
    {
        Rect { x, y, width: extent(width), height: extent(height) }
    }

    /// The rectangle between four edges. Edges in the wrong order leave it
    /// empty, at the left and top ones.
    pub fn between(left: i64, top: i64, right: i64, bottom: i64) -> (r: Rect)
        requires
            -0x1000_0000_0000_0000 <= left <= 0x1000_0000_0000_0000,
            -0x1000_0000_0000_0000 <= top <= 0x1000_0000_0000_0000,
            -0x1000_0000_0000_0000 <= right <= 0x1000_0000_0000_0000,
            -0x1000_0000_0000_0000 <= bottom <= 0x1000_0000_0000_0000,
        ensures
            r == spec_between(left as int, top as int, right as int, bottom as int),
    {
        Rect::new(coord(left), coord(top), right - left, bottom - top)
    }

    pub open spec fn spec_right(self) -> int {
        self.x + self.width
    }

    pub open spec fn spec_bottom(self) -> int {
        self.y + self.height
    }

    pub fn right(self) -> (r: i64)
        ensures
            r == self.spec_right(),
    {
        self.x as i64 + self.width as i64
    }

    pub fn bottom(self) -> (r: i64)
        ensures
            r == self.spec_bottom(),
    {
        self.y as i64 + self.height as i64
    }
}

} // verus!
