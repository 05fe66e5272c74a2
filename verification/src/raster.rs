//! Rasterising: which pixels a shape covers, and what painting them does.
//!
//! Everything that is painted is a [`Region`]: a set of pixels, each tested at
//! its centre. Painting one blends a colour over exactly those pixels.
use vstd::prelude::*;

use crate::pixmap::{
    byte_x, byte_y, holds_pixel, lemma_byte_pixel, lemma_pixel_bytes, pixel_start, rgba_len,
    start_of_pixel, whole_pixel,
};
use crate::shapes::{Color, REACH, dist_sq, near_segment, spec_dist_sq, spec_near_segment};
use crate::units::{Point, Rect, spec_clamp, spec_max, spec_min};

verus! {

/// The least stroke that is drawn, in subpixels (one pixel).
pub const MIN_STROKE: u16 = 256;

/// The shortest arrow head, in subpixels (12 px).
pub const MIN_HEAD: i64 = 3072;

/// One channel of a translucent colour over what is there, to the nearest value.
pub open spec fn mixed(src: int, dst: int, alpha: int) -> int {
    (2 * (src * alpha + dst * (255 - alpha)) + 255) / 510
}

/// What blending `color` does to channel `c` of a pixel.
pub open spec fn blended(old: u8, c: int, color: Color) -> u8 {
    let src = if c == 0 {
        color.r
    } else if c == 1 {
        color.g
    } else {
        color.b
    };
    if color.a == 0 {
        old
    } else if c == 3 {
        255
    } else if color.a == 255 {
        src
    } else {
        mixed(src as int, old as int, color.a as int) as u8
    }
}

/// `color` blended over every pixel that `covers` holds of.
pub open spec fn painted(
    buf: Seq<u8>,
    width: int,
    height: int,
    color: Color,
    covers: spec_fn(int, int) -> bool,
) -> Seq<u8> {
    Seq::new(
        buf.len(),
        |i: int|
            if whole_pixel(buf.len() as int, i) && 0 <= byte_x(width, i) < width && byte_y(width, i)
                < height && covers(byte_x(width, i), byte_y(width, i)) {
                blended(buf[i], i % 4, color)
            } else {
                buf[i]
            },
    )
}

fn mix(src: u8, dst: u8, alpha: u8) -> (r: u8)
    ensures
        r == mixed(src as int, dst as int, alpha as int),
{
    proof {
        assert(0 <= src as int * alpha as int + dst as int * (255 - alpha as int) <= 255 * 255)
            by (nonlinear_arith)
            requires
                0 <= src <= 255,
                0 <= dst <= 255,
                0 <= alpha <= 255,
        ;
        assert(0 <= src as int * alpha as int <= 255 * 255) by (nonlinear_arith)
            requires
                0 <= src <= 255,
                0 <= alpha <= 255,
        ;
        assert(0 <= dst as int * (255 - alpha as int) <= 255 * 255) by (nonlinear_arith)
            requires
                0 <= dst <= 255,
                0 <= alpha <= 255,
        ;
    }
    let v: u32 = src as u32 * alpha as u32 + dst as u32 * (255 - alpha as u32);
    ((2 * v + 255) / 510) as u8
}

/// Blends `color` over pixel `(x, y)`; nothing happens off the canvas.
pub fn blend_pixel(buf: &mut Vec<u8>, width: u32, height: u32, x: i64, y: i64, color: Color)
    requires
        rgba_len(width as int, height as int) <= usize::MAX,
    ensures
        final(buf)@ == painted(
            old(buf)@,
            width as int,
            height as int,
            color,
            |px: int, py: int| px == x && py == y,
        ),
{
    let ghost start = buf@;
    let ghost len = buf@.len() as int;
    let ghost w = width as int;
    let ghost goal = painted(
        start,
        w,
        height as int,
        color,
        |px: int, py: int| px == x && py == y,
    );
    if x < 0 || y < 0 || x >= width as i64 || y >= height as i64 {
        proof {
            assert forall|i: int| 0 <= i < len implies buf@[i] == goal[i] by {
                if w > 0 {
                    lemma_byte_pixel(w, i);
                }
            }
            assert(buf@ =~= goal);
        }
        return;
    }
    let at: usize = start_of_pixel(width, height, x as u32, y as u32);
    if buf.len() >= 4 && at <= buf.len() - 4 && color.a != 0 {
        if color.a == 255 {
            buf[at] = color.r;
            buf[at + 1] = color.g;
            buf[at + 2] = color.b;
        } else {
            buf[at] = mix(color.r, buf[at], color.a);
            buf[at + 1] = mix(color.g, buf[at + 1], color.a);
            buf[at + 2] = mix(color.b, buf[at + 2], color.a);
        }
        buf[at + 3] = 255;
    }
    proof {
        assert forall|i: int| 0 <= i < len implies buf@[i] == goal[i] by {
            lemma_byte_pixel(w, i);
            if at <= i < at + 4 {
                lemma_pixel_bytes(w, x as int, y as int, i - at);
                assert(whole_pixel(len, pixel_start(w, x as int, y as int) + (i - at))
                    == holds_pixel(len, w, x as int, y as int));
            } else {
                assert(buf@[i] == start[i]);
                if byte_x(w, i) == x && byte_y(w, i) == y {
                    assert(i == at + i % 4);
                }
            }
        }
        assert(buf@ =~= goal);
    }
}

/// A set of pixels. Lengths are in subpixels, but for a block's, which are in
/// pixels.
#[derive(Debug, Clone, Copy, PartialEq, Eq, Structural)]
pub enum Region {
    /// Everything within half of `diameter` of a segment.
    Capsule { a: Point, b: Point, diameter: u16 },
    /// Everything within half of `diameter` of a point.
    Disc { center: Point, diameter: u16 },
    /// A rectangle's border, `stroke` wide and inside it.
    Border { rect: Rect, stroke: u16 },
    /// The border of the ellipse in a rectangle, `stroke` wide and inside it.
    Ring { rect: Rect, stroke: u16 },
    /// A triangle with its edges.
    Triangle { a: Point, b: Point, c: Point },
    /// Whole pixels.
    Block { x: i64, y: i64, width: i32, height: i32 },
}

/// Twice the signed area of a triangle.
pub open spec fn edge(ax: int, ay: int, zx: int, zy: int, px: int, py: int) -> int {
    (zx - ax) * (py - ay) - (zy - ay) * (px - ax)
}

/// Whether `(dx, dy)` lies within the ellipse with the half axes `rx`, `ry`.
pub open spec fn in_ellipse(dx: int, dy: int, rx: int, ry: int) -> bool {
    dx * dx * (ry * ry) + dy * dy * (rx * rx) <= rx * rx * (ry * ry)
}

/// The pixels that a region can reach: columns `x0..x1` and rows `y0..y1`.
pub struct Span {
    pub x0: int,
    pub x1: int,
    pub y0: int,
    pub y1: int,
}

/// The pixels that an area reaches, its edges given in half subpixels.
pub open spec fn span_of(left: int, right: int, top: int, bottom: int) -> Span {
    Span {
        x0: left / 512,
        x1: -((-right) / 512),
        y0: top / 512,
        y1: -((-bottom) / 512),
    }
}

impl Region {
    /// The pixels that the region can reach.
    pub open spec fn span(self) -> Span {
        match self {
            Region::Capsule { a, b, diameter } => span_of(
                2 * spec_min(a.x as int, b.x as int) - diameter,
                2 * spec_max(a.x as int, b.x as int) + diameter,
                2 * spec_min(a.y as int, b.y as int) - diameter,
                2 * spec_max(a.y as int, b.y as int) + diameter,
            ),
            Region::Disc { center, diameter } => span_of(
                2 * center.x - diameter,
                2 * center.x + diameter,
                2 * center.y - diameter,
                2 * center.y + diameter,
            ),
            Region::Border { rect, stroke } => span_of(
                2 * rect.x,
                2 * rect.spec_right(),
                2 * rect.y,
                2 * rect.spec_bottom(),
            ),
            Region::Ring { rect, stroke } => span_of(
                2 * rect.x,
                2 * rect.spec_right(),
                2 * rect.y,
                2 * rect.spec_bottom(),
            ),
            Region::Triangle { a, b, c } => span_of(
                2 * spec_min(spec_min(a.x as int, b.x as int), c.x as int),
                2 * spec_max(spec_max(a.x as int, b.x as int), c.x as int),
                2 * spec_min(spec_min(a.y as int, b.y as int), c.y as int),
                2 * spec_max(spec_max(a.y as int, b.y as int), c.y as int),
            ),
            Region::Block { x, y, width, height } => Span {
                x0: x as int,
                x1: x + width,
                y0: y as int,
                y1: y + height,
            },
        }
    }

    /// The test at one position, in subpixels.
    pub open spec fn includes(self, px: int, py: int) -> bool {
        match self {
            Region::Capsule { a, b, diameter } => diameter > 0 && spec_near_segment(
                px,
                py,
                a,
                b,
                diameter as int,
            ),
            Region::Disc { center, diameter } => diameter > 0 && 4 * spec_dist_sq(
                px,
                py,
                center.x as int,
                center.y as int,
            ) <= diameter * diameter,
            Region::Border { rect, stroke } => {
                let s = spec_max(stroke as int, MIN_STROKE as int);
                &&& rect.x <= px < rect.spec_right()
                &&& rect.y <= py < rect.spec_bottom()
                &&& !(rect.x + s <= px < rect.spec_right() - s && rect.y + s <= py
                    < rect.spec_bottom() - s)
            },
            Region::Ring { rect, stroke } => {
                let s = spec_max(stroke as int, MIN_STROKE as int);
                let rx = spec_max(rect.width as int, MIN_STROKE as int);
                let ry = spec_max(rect.height as int, MIN_STROKE as int);
                let dx = 2 * px - (2 * rect.x + rect.width);
                let dy = 2 * py - (2 * rect.y + rect.height);
                &&& in_ellipse(dx, dy, rx, ry)
                &&& !(rx - 2 * s > 0 && ry - 2 * s > 0 && in_ellipse(
                    dx,
                    dy,
                    rx - 2 * s,
                    ry - 2 * s,
                ))
            },
            Region::Triangle { a, b, c } => {
                let w0 = edge(b.x as int, b.y as int, c.x as int, c.y as int, px, py);
                let w1 = edge(c.x as int, c.y as int, a.x as int, a.y as int, px, py);
                let w2 = edge(a.x as int, a.y as int, b.x as int, b.y as int, px, py);
                &&& edge(a.x as int, a.y as int, b.x as int, b.y as int, c.x as int, c.y as int)
                    != 0
                &&& !((w0 < 0 || w1 < 0 || w2 < 0) && (w0 > 0 || w1 > 0 || w2 > 0))
            },
            Region::Block { x, y, width, height } => true,
        }
    }

    /// Whether the region takes in pixel `(x, y)`.
    pub open spec fn covers(self, x: int, y: int) -> bool {
        let s = self.span();
        &&& s.x0 <= x < s.x1
        &&& s.y0 <= y < s.y1
        &&& self.includes(256 * x + 128, 256 * y + 128)
    }

    fn test(&self, px: i64, py: i64) -> (r: bool)
        requires
            0 <= px <= REACH,
            0 <= py <= REACH,
        ensures
            r == self.includes(px as int, py as int),
    {
        match *self {
            Region::Capsule { a, b, diameter } => diameter > 0 && near_segment(
                px,
                py,
                a,
                b,
                diameter,
            ),
            Region::Disc { center, diameter } => {
                proof {
                    assert(0 <= diameter as int * diameter as int <= 0x1_0000_0000)
                        by (nonlinear_arith)
                        requires
                            0 <= diameter <= 0xffff,
                    ;
                }
                diameter > 0 && 4 * dist_sq(px, py, center.x as i64, center.y as i64)
                    <= diameter as u128 * diameter as u128
            },
            Region::Border { rect, stroke } => {
                let s: i64 = if stroke < MIN_STROKE {
                    MIN_STROKE as i64
                } else {
                    stroke as i64
                };
                let right: i64 = rect.right();
                let bottom: i64 = rect.bottom();
                let left: i64 = rect.x as i64;
                let top: i64 = rect.y as i64;
                left <= px && px < right && top <= py && py < bottom && !(left + s <= px && px
                    < right - s && top + s <= py && py < bottom - s)
            },
            Region::Ring { rect, stroke } => {
                let s: i64 = if stroke < MIN_STROKE {
                    MIN_STROKE as i64
                } else {
                    stroke as i64
                };
                let rx: i64 = if rect.width < MIN_STROKE as u32 {
                    MIN_STROKE as i64
                } else {
                    rect.width as i64
                };
                let ry: i64 = if rect.height < MIN_STROKE as u32 {
                    MIN_STROKE as i64
                } else {
                    rect.height as i64
                };
                let dx: i64 = 2 * px - (2 * rect.x as i64 + rect.width as i64);
                let dy: i64 = 2 * py - (2 * rect.y as i64 + rect.height as i64);
                if !inside_ellipse(dx, dy, rx, ry) {
                    return false;
                }
                let ix: i64 = rx - 2 * s;
                let iy: i64 = ry - 2 * s;
                !(ix > 0 && iy > 0 && inside_ellipse(dx, dy, ix, iy))
            },
            Region::Triangle { a, b, c } => {
                if signed_area(a, b, c.x as i64, c.y as i64) == 0 {
                    return false;
                }
                let w0: i128 = signed_area(b, c, px, py);
                let w1: i128 = signed_area(c, a, px, py);
                let w2: i128 = signed_area(a, b, px, py);
                !((w0 < 0 || w1 < 0 || w2 < 0) && (w0 > 0 || w1 > 0 || w2 > 0))
            },
            Region::Block { x, y, width, height } => true,
        }
    }

    /// The columns and rows to look at, cut to the canvas.
    fn clipped_span(&self, width: u32, height: u32) -> (r: (u32, u32, u32, u32))
        ensures
            forall|x: int|
                0 <= x < width ==> (r.0 <= x < r.1 <==> #[trigger] in_range(
                    x,
                    self.span().x0,
                    self.span().x1,
                )),
            forall|y: int|
                0 <= y < height ==> (r.2 <= y < r.3 <==> #[trigger] in_range(
                    y,
                    self.span().y0,
                    self.span().y1,
                )),
            r.1 <= width,
            r.3 <= height,
            r.1 <= 0x400_0000 || self is Block,
            r.3 <= 0x400_0000 || self is Block,
    {
        match *self {
            Region::Capsule { a, b, diameter } => {
                let d: i64 = diameter as i64;
                (
                    cut_low(2 * lesser(a.x, b.x) as i64 - d),
                    cut_high(2 * greater(a.x, b.x) as i64 + d, width),
                    cut_low(2 * lesser(a.y, b.y) as i64 - d),
                    cut_high(2 * greater(a.y, b.y) as i64 + d, height),
                )
            },
            Region::Disc { center, diameter } => {
                let d: i64 = diameter as i64;
                (
                    cut_low(2 * center.x as i64 - d),
                    cut_high(2 * center.x as i64 + d, width),
                    cut_low(2 * center.y as i64 - d),
                    cut_high(2 * center.y as i64 + d, height),
                )
            },
            Region::Border { rect, stroke } => (
                cut_low(2 * rect.x as i64),
                cut_high(2 * rect.right(), width),
                cut_low(2 * rect.y as i64),
                cut_high(2 * rect.bottom(), height),
            ),
            Region::Ring { rect, stroke } => (
                cut_low(2 * rect.x as i64),
                cut_high(2 * rect.right(), width),
                cut_low(2 * rect.y as i64),
                cut_high(2 * rect.bottom(), height),
            ),
            Region::Triangle { a, b, c } => (
                cut_low(2 * lesser(lesser(a.x, b.x), c.x) as i64),
                cut_high(2 * greater(greater(a.x, b.x), c.x) as i64, width),
                cut_low(2 * lesser(lesser(a.y, b.y), c.y) as i64),
                cut_high(2 * greater(greater(a.y, b.y), c.y) as i64, height),
            ),
            Region::Block { x, y, width: w, height: h } => (
                hold_low(x),
                hold_high(x as i128 + w as i128, width),
                hold_low(y),
                hold_high(y as i128 + h as i128, height),
            ),
        }
    }
}

/// Whether `v` lies in `lo..hi`.
pub open spec fn in_range(v: int, lo: int, hi: int) -> bool {
    lo <= v < hi
}

fn lesser(a: i32, b: i32) -> (r: i32)
    ensures
        r == spec_min(a as int, b as int),
{
    if a <= b {
        a
    } else {
        b
    }
}

fn greater(a: i32, b: i32) -> (r: i32)
    ensures
        r == spec_max(a as int, b as int),
{
    if a >= b {
        a
    } else {
        b
    }
}

/// The first pixel at or after zero that an area from `v` half subpixels on
/// reaches.
fn cut_low(v: i64) -> (r: u32)
    requires
        -0x4_0000_0000 <= v <= 0x4_0000_0000,
    ensures
        r == spec_max(v as int / 512, 0),
{
    if v <= 0 {
        0
    } else {
        (v / 512) as u32
    }
}

/// One past the last pixel that an area up to `v` half subpixels reaches, cut
/// at `limit`.
fn cut_high(v: i64, limit: u32) -> (r: u32)
    requires
        -0x4_0000_0000 <= v <= 0x4_0000_0000,
    ensures
        r == spec_clamp(-((-v) / 512), 0, limit as int),
        r <= limit,
        r <= 0x400_0000,
{
    if v <= 0 {
        0
    } else {
        let c: i64 = (v + 511) / 512;
        if c < limit as i64 {
            c as u32
        } else {
            limit
        }
    }
}

fn hold_low(v: i64) -> (r: u32)
    ensures
        r == spec_clamp(v as int, 0, u32::MAX as int),
{
    if v <= 0 {
        0
    } else if v >= u32::MAX as i64 {
        u32::MAX
    } else {
        v as u32
    }
}

fn hold_high(v: i128, limit: u32) -> (r: u32)
    ensures
        r == spec_clamp(v as int, 0, limit as int),
        r <= limit,
{
    if v <= 0 {
        0
    } else if v >= limit as i128 {
        limit
    } else {
        v as u32
    }
}

fn signed_area(a: Point, b: Point, px: i64, py: i64) -> (r: i128)
    requires
        -REACH <= px <= REACH,
        -REACH <= py <= REACH,
    ensures
        r == edge(a.x as int, a.y as int, b.x as int, b.y as int, px as int, py as int),
{
    let abx: i64 = b.x as i64 - a.x as i64;
    let aby: i64 = b.y as i64 - a.y as i64;
    let apx: i64 = px - a.x as i64;
    let apy: i64 = py - a.y as i64;
    proof {
        assert(-0x400_0000_0000_0000_0000 <= abx as int * apy as int <= 0x400_0000_0000_0000_0000)
            by (nonlinear_arith)
            requires
                -0x20_0000_0000 <= abx <= 0x20_0000_0000,
                -0x20_0000_0000 <= apy <= 0x20_0000_0000,
        ;
        assert(-0x400_0000_0000_0000_0000 <= aby as int * apx as int <= 0x400_0000_0000_0000_0000)
            by (nonlinear_arith)
            requires
                -0x20_0000_0000 <= aby <= 0x20_0000_0000,
                -0x20_0000_0000 <= apx <= 0x20_0000_0000,
        ;
    }
    abx as i128 * apy as i128 - aby as i128 * apx as i128
}

fn magnitude(v: i64) -> (r: u128)
    requires
        v > i64::MIN,
    ensures
        r == v || r == -v,
        r * r == v * v,
{
    if v < 0 {
        proof {
            assert((-v) * (-v) == v * v) by (nonlinear_arith);
        }
        (-v) as u128
    } else {
        v as u128
    }
}

fn inside_ellipse(dx: i64, dy: i64, rx: i64, ry: i64) -> (r: bool)
    requires
        0 < rx <= 0xffff_ffff,
        0 < ry <= 0xffff_ffff,
        dx > i64::MIN,
        dy > i64::MIN,
    ensures
        r == in_ellipse(dx as int, dy as int, rx as int, ry as int),
{
    let ax: u128 = magnitude(dx);
    let ay: u128 = magnitude(dy);
    let hx: u128 = rx as u128;
    let hy: u128 = ry as u128;
    let ghost (x, y, p, q) = (ax as int, ay as int, hx as int, hy as int);
    proof {
        assert(x * x * (q * q) >= 0 && y * y * (p * p) >= 0) by (nonlinear_arith);
    }
    if ax > hx || ay > hy {
        proof {
            assert(x > p ==> x * x * (q * q) > p * p * (q * q)) by (nonlinear_arith)
                requires
                    p > 0,
                    q > 0,
            ;
            assert(y > q ==> y * y * (p * p) > p * p * (q * q)) by (nonlinear_arith)
                requires
                    p > 0,
                    q > 0,
            ;
        }
        return false;
    }
    proof {
        assert(0 <= x * x <= p * p && p * p <= 0xffff_ffff * 0xffff_ffff) by (nonlinear_arith)
            requires
                0 <= x <= p <= 0xffff_ffff,
        ;
        assert(0 <= y * y <= q * q && q * q <= 0xffff_ffff * 0xffff_ffff) by (nonlinear_arith)
            requires
                0 <= y <= q <= 0xffff_ffff,
        ;
        assert(x * x * (q * q) <= (0xffff_ffff * 0xffff_ffff) * (0xffff_ffff * 0xffff_ffff))
            by (nonlinear_arith)
            requires
                0 <= x * x <= 0xffff_ffff * 0xffff_ffff,
                0 <= q * q <= 0xffff_ffff * 0xffff_ffff,
        ;
        assert(0 <= p * p * (q * q - y * y) <= (0xffff_ffff * 0xffff_ffff) * (0xffff_ffff
            * 0xffff_ffff)) by (nonlinear_arith)
            requires
                0 <= p * p <= 0xffff_ffff * 0xffff_ffff,
                0 <= q * q - y * y <= 0xffff_ffff * 0xffff_ffff,
        ;
        assert(p * p * (q * q - y * y) == p * p * (q * q) - y * y * (p * p)) by (nonlinear_arith);
    }
    ax * ax * (hy * hy) <= hx * hx * (hy * hy - ay * ay)
}

/// The pixels of a region.
pub open spec fn coverage(region: Region) -> spec_fn(int, int) -> bool {
    |x: int, y: int| region.covers(x, y)
}

/// `color` blended over every pixel of a region that lies on the canvas.
pub open spec fn region_painted(
    buf: Seq<u8>,
    width: int,
    height: int,
    region: Region,
    color: Color,
) -> Seq<u8> {
    painted(buf, width, height, color, coverage(region))
}

/// Blends `color` over every pixel of the region that lies on the canvas.
pub fn paint_region(buf: &mut Vec<u8>, width: u32, height: u32, region: &Region, color: Color)
    requires
        rgba_len(width as int, height as int) <= usize::MAX,
    ensures
        final(buf)@ == region_painted(old(buf)@, width as int, height as int, *region, color),
{
    let ghost w = width as int;
    let ghost h = height as int;
    let ghost start = buf@;
    let ghost len = buf@.len() as int;
    let ghost shape = *region;
    let ghost block = shape is Block;
    let ghost covers = coverage(shape);
    let ghost goal = painted(start, w, h, color, covers);
    let (x0, x1, y0, y1) = region.clipped_span(width, height);
    if x0 >= x1 {
        proof {
            assert forall|i: int| 0 <= i < len implies buf@[i] == goal[i] by {
                let x = byte_x(w, i);
                let y = byte_y(w, i);
                if 0 <= x < w && byte_y(w, i) < h {
                    assert(in_range(x, shape.span().x0, shape.span().x1) == (x0 <= x < x1));
                }
            }
            assert(buf@ =~= goal);
        }
        return;
    }
    let mut y: u32 = y0;
    proof {
        assert forall|i: int| 0 <= i < len implies #[trigger] buf@[i] == (if byte_y(w, i) < y {
            goal[i]
        } else {
            start[i]
        }) by {
            lemma_byte_pixel(w, i);
            let row = byte_y(w, i);
            if row < h {
                assert(in_range(row, shape.span().y0, shape.span().y1) == (y0 <= row < y1));
            }
        }
    }
    while y < y1
        invariant
            rgba_len(width as int, height as int) <= usize::MAX,
            w == width,
            h == height,
            x0 < x1 <= width,
            y0 <= y,
            y1 <= height,
            x1 <= 0x400_0000 || block,
            y1 <= 0x400_0000 || block,
            shape == *region,
            block == (shape is Block),
            covers == coverage(shape),
            goal == painted(start, w, h, color, covers),
            forall|x: int|
                0 <= x < width ==> (x0 <= x < x1 <==> #[trigger] in_range(
                    x,
                    shape.span().x0,
                    shape.span().x1,
                )),
            forall|yy: int|
                0 <= yy < height ==> (y0 <= yy < y1 <==> #[trigger] in_range(
                    yy,
                    shape.span().y0,
                    shape.span().y1,
                )),
            len == start.len(),
            buf@.len() == len,
            forall|i: int|
                0 <= i < len ==> #[trigger] buf@[i] == (if byte_y(w, i) < y {
                    goal[i]
                } else {
                    start[i]
                }),
        decreases y1 - y,
    {
        let mut x: u32 = x0;
        proof {
            assert forall|i: int| 0 <= i < len implies #[trigger] buf@[i] == (if byte_y(w, i) < y
                || (byte_y(w, i) == y && byte_x(w, i) < x) {
                goal[i]
            } else {
                start[i]
            }) by {
                lemma_byte_pixel(w, i);
                let col = byte_x(w, i);
                assert(in_range(col, shape.span().x0, shape.span().x1) == (x0 <= col < x1));
            }
        }
        while x < x1
            invariant
                rgba_len(width as int, height as int) <= usize::MAX,
                w == width,
                h == height,
                x0 <= x <= x1 <= width,
                x0 < x1,
                y0 <= y < y1 <= height,
                x1 <= 0x400_0000 || block,
                y1 <= 0x400_0000 || block,
                shape == *region,
            block == (shape is Block),
                covers == coverage(shape),
                goal == painted(start, w, h, color, covers),
                forall|x: int|
                    0 <= x < width ==> (x0 <= x < x1 <==> #[trigger] in_range(
                        x,
                        shape.span().x0,
                        shape.span().x1,
                    )),
                forall|yy: int|
                    0 <= yy < height ==> (y0 <= yy < y1 <==> #[trigger] in_range(
                        yy,
                        shape.span().y0,
                        shape.span().y1,
                    )),
                len == start.len(),
                buf@.len() == len,
                forall|i: int|
                    0 <= i < len ==> #[trigger] buf@[i] == (if byte_y(w, i) < y || (byte_y(w, i)
                        == y && byte_x(w, i) < x) {
                        goal[i]
                    } else {
                        start[i]
                    }),
            decreases x1 - x,
        {
            let ghost before = buf@;
            let ghost here = |px: int, py: int| px == x as i64 && py == y as i64;
            let inside: bool = match *region {
                Region::Block { .. } => true,
                _ => region.test(256 * x as i64 + 128, 256 * y as i64 + 128),
            };
            proof {
                assert(in_range(x as int, shape.span().x0, shape.span().x1));
                assert(in_range(y as int, shape.span().y0, shape.span().y1));
                assert(inside == covers(x as int, y as int));
            }
            if inside {
                blend_pixel(buf, width, height, x as i64, y as i64, color);
            }
            proof {
                assert forall|i: int| 0 <= i < len implies #[trigger] buf@[i] == (if byte_y(w, i)
                    < y || (byte_y(w, i) == y && byte_x(w, i) < x + 1) {
                    goal[i]
                } else {
                    start[i]
                }) by {
                    if byte_y(w, i) == y && byte_x(w, i) == x {
                        assert(before[i] == start[i]);
                        assert(covers(byte_x(w, i), byte_y(w, i)) == inside);
                    } else {
                        assert(buf@[i] == before[i]);
                    }
                }
            }
            x = x + 1;
        }
        proof {
            assert forall|i: int| 0 <= i < len implies #[trigger] buf@[i] == (if byte_y(w, i) < y
                + 1 {
                goal[i]
            } else {
                start[i]
            }) by {
                lemma_byte_pixel(w, i);
                let col = byte_x(w, i);
                assert(in_range(col, shape.span().x0, shape.span().x1) == (x0 <= col < x1));
            }
        }
        y = y + 1;
    }
    proof {
        assert forall|i: int| 0 <= i < len implies buf@[i] == goal[i] by {
            lemma_byte_pixel(w, i);
            let row = byte_y(w, i);
            if row < h {
                assert(in_range(row, shape.span().y0, shape.span().y1) == (y0 <= row < y1));
            }
        }
        assert(buf@ =~= goal);
    }
}

} // verus!
