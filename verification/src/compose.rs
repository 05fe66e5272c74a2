//! Flattening annotations into the pixels of a frame.
//!
//! Shapes are painted here. The glyphs of a text are shaped and rasterised by
//! the caller, with the fonts of the machine; they come in as [`TextRun`]s, and
//! where they are put and how they blend is decided here.
use vstd::prelude::*;

use crate::pixmap::{Frame, Picture, rgba_len, well_formed};
use crate::raster::{
    MIN_HEAD, MIN_STROKE, Region, blended, coverage, paint_region, painted, region_painted,
};
use crate::shapes::{AnnotationColor, Color, ColorPalette, Figure, Shape, distance_sq, spec_dist_sq};
use crate::text::{decimal, decimal_text, trimmed, trimmed_text};
use crate::units::{Point, Rect, spec_coord, spec_max, spec_min};

verus! {

/// How many of the units that text is measured in make a subpixel: there are
/// 1048576 of them to the pixel.
pub const FONT_UNITS: u64 = 4096;

/// The size of a step badge's numeral, in units of text: 1.05 times the radius,
/// in single precision.
pub const STEP_BADGE_FONT: u64 = 15414066;

/// The diameter of a step badge, in subpixels.
pub const STEP_BADGE_DIAMETER: u16 = 7168;

/// Below this squared length, in subpixels, an arrow is a dot (half a pixel).
pub const DOT_LENGTH_SQ: u128 = 16384;

pub type AnnotationId = u64;

/// One annotation: a shape with its style.
#[derive(Debug)]
pub struct Annotation {
    pub id: AnnotationId,
    pub shape: Shape,
    pub color: AnnotationColor,
    pub stroke_width: u16,
}

/// What an annotation is, apart from how it is held.
pub struct Mark {
    pub id: AnnotationId,
    pub shape: Figure,
    pub color: AnnotationColor,
    pub stroke_width: u16,
}

impl View for Annotation {
    type V = Mark;

    open spec fn view(&self) -> Mark {
        Mark {
            id: self.id,
            shape: self.shape@,
            color: self.color,
            stroke_width: self.stroke_width,
        }
    }
}

impl Clone for Annotation {
    fn clone(&self) -> (r: Self)
        ensures
            r@ == self@,
    {
        Annotation {
            id: self.id,
            shape: self.shape.clone(),
            color: self.color,
            stroke_width: self.stroke_width,
        }
    }
}

/// What a list of annotations shows.
pub open spec fn marks(annotations: Seq<Annotation>) -> Seq<Mark> {
    annotations.map_values(|a: Annotation| a@)
}

/// Which part of a text its position is.
#[derive(Debug, Clone, Copy, PartialEq, Eq, Structural)]
pub enum TextRasterAlign {
    TopLeft,
    Center,
}

/// A text to be drawn: what to shape, and where its glyphs go.
#[derive(Debug)]
pub struct TextRasterRequest {
    pub content: String,
    /// In units of text.
    pub size_px: u64,
    pub color: Color,
    pub position: Point,
    pub align: TextRasterAlign,
}

/// A block of pixels of one glyph, relative to the text's origin, with the
/// part of each pixel that the glyph covers.
#[derive(Debug, Clone, Copy, PartialEq, Eq, Structural)]
pub struct Glyph {
    pub x: i32,
    pub y: i32,
    pub width: i32,
    pub height: i32,
    pub r: u8,
    pub g: u8,
    pub b: u8,
    pub coverage: u8,
}

/// A shaped text: its widest line and the top and bottom of its lines, in
/// subpixels, and its glyphs in drawing order.
#[derive(Debug)]
pub struct TextRun {
    pub width: i32,
    pub top: i32,
    pub bottom: i32,
    pub glyphs: Vec<Glyph>,
}

/// The whole number nearest to `v / d`, a tie going away from zero.
pub open spec fn div_round(v: int, d: int) -> int {
    if v >= 0 {
        (2 * v + d) / (2 * d)
    } else {
        -((d - 2 * v) / (2 * d))
    }
}

fn rounded_quotient(v: i64, d: i64) -> (r: i64)
    requires
        -0x1000_0000_0000_0000 <= v <= 0x1000_0000_0000_0000,
        0 < d <= 0x1000_0000_0000_0000,
    ensures
        r == div_round(v as int, d as int),
        -0x3000_0000_0000_0000 <= r <= 0x3000_0000_0000_0000,
{
    if v >= 0 {
        let q: i64 = (2 * v + d) / (2 * d);
        assert(0 <= q <= 2 * v + d) by (nonlinear_arith)
            requires
                q as int == (2 * v + d) / (2 * d),
                v >= 0,
                d > 0,
        ;
        q
    } else {
        let q: i64 = (d - 2 * v) / (2 * d);
        assert(0 <= q <= d - 2 * v) by (nonlinear_arith)
            requires
                q as int == (d - 2 * v) / (2 * d),
                v < 0,
                d > 0,
        ;
        -q
    }
}

/// Whether `r` is the whole part of the square root of `n`.
pub open spec fn is_root(r: int, n: int) -> bool {
    0 <= r && r * r <= n < (r + 1) * (r + 1)
}

/// The whole part of the square root of `n`.
pub open spec fn floor_root(n: int) -> int {
    choose|r: int| is_root(r, n)
}

/// There is but one whole part of a square root.
pub proof fn lemma_root_unique(r: int, n: int)
    requires
        is_root(r, n),
    ensures
        floor_root(n) == r,
{
    let s = floor_root(n);
    assert(is_root(s, n));
    if s < r {
        assert((s + 1) * (s + 1) <= r * r) by (nonlinear_arith)
            requires
                0 <= s,
                s + 1 <= r,
        ;
    } else if r < s {
        assert((r + 1) * (r + 1) <= s * s) by (nonlinear_arith)
            requires
                0 <= r,
                r + 1 <= s,
        ;
    }
}

/// The whole part of a square root.
pub fn isqrt(n: u128) -> (r: u64)
    requires
        n < 0x1000_0000_0000_0000_0000,
    ensures
        is_root(r as int, n as int),
        r == floor_root(n as int),
{
    let mut lo: u64 = 0;
    let mut hi: u64 = 0x40_0000_0000;
    assert(0x40_0000_0000int * 0x40_0000_0000int == 0x1000_0000_0000_0000_0000int)
        by (nonlinear_arith);
    while lo + 1 < hi
        invariant
            lo < hi <= 0x40_0000_0000,
            lo * lo <= n < hi * hi,
        decreases hi - lo,
    {
        let mid: u64 = lo + (hi - lo) / 2;
        proof {
            assert(0 <= mid * mid <= 0x40_0000_0000 * 0x40_0000_0000) by (nonlinear_arith)
                requires
                    0 <= mid <= 0x40_0000_0000,
            ;
        }
        let sq: u128 = mid as u128 * mid as u128;
        if sq <= n {
            lo = mid;
        } else {
            hi = mid;
        }
    }
    proof {
        lemma_root_unique(lo as int, n as int);
    }
    lo
}

/// How thick a stroke is drawn: never under a pixel.
pub open spec fn drawn_width(stroke: u16) -> u16 {
    if stroke < MIN_STROKE {
        MIN_STROKE
    } else {
        stroke
    }
}

fn at_least_a_pixel(stroke: u16) -> (r: u16)
    ensures
        r == drawn_width(stroke),
{
    if stroke < MIN_STROKE {
        MIN_STROKE
    } else {
        stroke
    }
}

/// Where an arrow's shaft ends, and the two back corners of its head.
#[derive(Debug, Clone, Copy, PartialEq, Eq, Structural)]
pub struct ArrowHead {
    pub shaft_end: Point,
    pub left: Point,
    pub right: Point,
}

/// How long an arrow's head is: four strokes, at least 12 px, at most the
/// whole arrow.
pub open spec fn head_length(stroke: u32, length: int) -> int {
    spec_min(spec_max(4 * stroke, MIN_HEAD as int), length)
}

/// A point `(back / 10)` heads back from the tip along the arrow and
/// `(aside / 10)` heads to its side.
pub open spec fn head_point(
    tip: Point,
    dx: int,
    dy: int,
    head: int,
    length: int,
    back: int,
    aside: int,
) -> Point {
    Point {
        x: spec_coord(tip.x - div_round((back * dx + aside * dy) * head, 10 * length)) as i32,
        y: spec_coord(tip.y - div_round((back * dy - aside * dx) * head, 10 * length)) as i32,
    }
}

/// The shaft ends six tenths into the head; the head's base is its length back
/// and six tenths of it wide.
pub open spec fn arrow_head(start: Point, end: Point, stroke: u32) -> ArrowHead {
    let dx = end.x - start.x;
    let dy = end.y - start.y;
    let length = floor_root(
        spec_dist_sq(start.x as int, start.y as int, end.x as int, end.y as int),
    );
    let head = head_length(stroke, length);
    ArrowHead {
        shaft_end: head_point(end, dx, dy, head, length, 6, 0),
        left: head_point(end, dx, dy, head, length, 10, 3),
        right: head_point(end, dx, dy, head, length, 10, -3),
    }
}

fn place_head_point(
    tip: Point,
    dx: i64,
    dy: i64,
    head: u64,
    length: u64,
    back: i64,
    aside: i64,
) -> (p: Point)
    requires
        -0x1_0000_0000 <= dx <= 0x1_0000_0000,
        -0x1_0000_0000 <= dy <= 0x1_0000_0000,
        0 <= head <= 0x40_0000_0000,
        0 < length <= 0x40_0000_0000,
        0 <= back <= 10,
        -3 <= aside <= 3,
    ensures
        p == head_point(
            tip,
            dx as int,
            dy as int,
            head as int,
            length as int,
            back as int,
            aside as int,
        ),
{
    proof {
        lemma_small_product(back as int, dx as int);
        lemma_small_product(back as int, dy as int);
        lemma_small_product(aside as int, dx as int);
        lemma_small_product(aside as int, dy as int);
    }
    let along: i64 = back * dx + aside * dy;
    let across: i64 = back * dy - aside * dx;
    proof {
        lemma_head_product(along as int, head as int);
        lemma_head_product(across as int, head as int);
    }
    Point {
        x: moved_back(tip.x, along as i128 * head as i128, 10 * length as i128),
        y: moved_back(tip.y, across as i128 * head as i128, 10 * length as i128),
    }
}

/// The coordinate `v / d` before `c`, rounded.
fn moved_back(c: i32, v: i128, d: i128) -> (r: i32)
    requires
        -0x1000_0000_0000_0000_0000_0000 <= v <= 0x1000_0000_0000_0000_0000_0000,
        0 < d <= 0x1000_0000_0000,
    ensures
        r == spec_coord(c - div_round(v as int, d as int)),
{
    let q: i128 = if v >= 0 {
        (2 * v + d) / (2 * d)
    } else {
        -((d - 2 * v) / (2 * d))
    };
    proof {
        let n = if v >= 0 {
            2 * v + d
        } else {
            d - 2 * v
        };
        assert(0 <= n / (2 * d) <= n) by (nonlinear_arith)
            requires
                n >= 0,
                d > 0,
        ;
    }
    let moved: i128 = c as i128 - q;
    if moved < i32::MIN as i128 {
        i32::MIN
    } else if moved > i32::MAX as i128 {
        i32::MAX
    } else {
        moved as i32
    }
}

proof fn lemma_small_product(k: int, v: int)
    requires
        -10 <= k <= 10,
        -0x1_0000_0000 <= v <= 0x1_0000_0000,
    ensures
        -0xA_0000_0000 <= k * v <= 0xA_0000_0000,
{
    assert(-0xA_0000_0000 <= k * v <= 0xA_0000_0000) by (nonlinear_arith)
        requires
            -10 <= k <= 10,
            -0x1_0000_0000 <= v <= 0x1_0000_0000,
    ;
}

proof fn lemma_head_product(v: int, head: int)
    requires
        -0x14_0000_0000 <= v <= 0x14_0000_0000,
        0 <= head <= 0x40_0000_0000,
    ensures
        -0x1000_0000_0000_0000_0000_0000 <= v * head <= 0x1000_0000_0000_0000_0000_0000,
{
    assert(-0x14_0000_0000 * 0x40_0000_0000 <= v * head <= 0x14_0000_0000 * 0x40_0000_0000)
        by (nonlinear_arith)
        requires
            -0x14_0000_0000 <= v <= 0x14_0000_0000,
            0 <= head <= 0x40_0000_0000,
    ;
}

/// Whether an arrow is too short to have a head.
pub open spec fn headless(start: Point, end: Point) -> bool {
    spec_dist_sq(start.x as int, start.y as int, end.x as int, end.y as int) < DOT_LENGTH_SQ
}

/// The head of an arrow, if it is long enough to have one.
pub fn head_of_arrow(start: Point, end: Point, stroke: u32) -> (r: Option<ArrowHead>)
    ensures
        r == (if headless(start, end) {
            None
        } else {
            Some(arrow_head(start, end, stroke))
        }),
{
    let length_sq: u128 = distance_sq(start, end);
    if length_sq < DOT_LENGTH_SQ {
        return None;
    }
    proof {
        lemma_dist_bound(start, end);
    }
    let length: u64 = isqrt(length_sq);
    proof {
        assert(length > 0) by (nonlinear_arith)
            requires
                is_root(length as int, length_sq as int),
                length_sq >= 16384,
        ;
        assert(length < 0x40_0000_0000) by (nonlinear_arith)
            requires
                is_root(length as int, length_sq as int),
                length_sq < 0x1000_0000_0000_0000_0000,
        ;
    }
    let wanted: u64 = if 4 * stroke as u64 > MIN_HEAD as u64 {
        4 * stroke as u64
    } else {
        MIN_HEAD as u64
    };
    let head: u64 = if wanted < length {
        wanted
    } else {
        length
    };
    let dx: i64 = end.x as i64 - start.x as i64;
    let dy: i64 = end.y as i64 - start.y as i64;
    Some(
        ArrowHead {
            shaft_end: place_head_point(end, dx, dy, head, length, 6, 0),
            left: place_head_point(end, dx, dy, head, length, 10, 3),
            right: place_head_point(end, dx, dy, head, length, 10, -3),
        },
    )
}

/// An arrow painted: a dot where it has no length, else the shaft and over it
/// the head.
pub open spec fn arrow_painted(
    buf: Seq<u8>,
    width: int,
    height: int,
    start: Point,
    end: Point,
    color: Color,
    stroke: u16,
) -> Seq<u8> {
    let diameter = drawn_width(stroke);
    if headless(start, end) {
        region_painted(buf, width, height, Region::Disc { center: end, diameter }, color)
    } else {
        let head = arrow_head(start, end, stroke as u32);
        region_painted(
            region_painted(
                buf,
                width,
                height,
                Region::Capsule { a: start, b: head.shaft_end, diameter },
                color,
            ),
            width,
            height,
            Region::Triangle { a: end, b: head.left, c: head.right },
            color,
        )
    }
}

/// Paints an arrow.
pub fn paint_arrow(
    buf: &mut Vec<u8>,
    width: u32,
    height: u32,
    start: Point,
    end: Point,
    color: Color,
    stroke_width: u16,
)
    requires
        rgba_len(width as int, height as int) <= usize::MAX,
    ensures
        final(buf)@ == arrow_painted(
            old(buf)@,
            width as int,
            height as int,
            start,
            end,
            color,
            stroke_width,
        ),
{
    let diameter: u16 = at_least_a_pixel(stroke_width);
    match head_of_arrow(start, end, stroke_width as u32) {
        None => {
            fill_circle(buf, width, height, end, diameter, color);
        },
        Some(head) => {
            paint_segment_capsule(buf, width, height, start, head.shaft_end, diameter, color);
            fill_triangle(buf, width, height, end, head.left, head.right, color);
        },
    }
}

proof fn lemma_dist_bound(a: Point, b: Point)
    ensures
        0 <= spec_dist_sq(a.x as int, a.y as int, b.x as int, b.y as int)
            < 0x1000_0000_0000_0000_0000,
{
    let dx = a.x - b.x;
    let dy = a.y - b.y;
    assert(0 <= dx * dx + dy * dy < 0x1000_0000_0000_0000_0000) by (nonlinear_arith)
        requires
            -0x1_0000_0000 <= dx <= 0x1_0000_0000,
            -0x1_0000_0000 <= dy <= 0x1_0000_0000,
    ;
}

/// Paints everything within half of `diameter` of a segment.
pub fn paint_segment_capsule(
    buf: &mut Vec<u8>,
    width: u32,
    height: u32,
    a: Point,
    b: Point,
    diameter: u16,
    color: Color,
)
    requires
        rgba_len(width as int, height as int) <= usize::MAX,
    ensures
        final(buf)@ == region_painted(
            old(buf)@,
            width as int,
            height as int,
            (Region::Capsule { a, b, diameter }),
            color,
        ),
{
    paint_region(buf, width, height, &Region::Capsule { a, b, diameter }, color);
}

/// Paints a filled circle.
pub fn fill_circle(
    buf: &mut Vec<u8>,
    width: u32,
    height: u32,
    center: Point,
    diameter: u16,
    color: Color,
)
    requires
        rgba_len(width as int, height as int) <= usize::MAX,
    ensures
        final(buf)@ == region_painted(
            old(buf)@,
            width as int,
            height as int,
            (Region::Disc { center, diameter }),
            color,
        ),
{
    paint_region(buf, width, height, &Region::Disc { center, diameter }, color);
}

/// Paints a filled triangle, whichever way round its corners run.
pub fn fill_triangle(
    buf: &mut Vec<u8>,
    width: u32,
    height: u32,
    a: Point,
    b: Point,
    c: Point,
    color: Color,
)
    requires
        rgba_len(width as int, height as int) <= usize::MAX,
    ensures
        final(buf)@ == region_painted(
            old(buf)@,
            width as int,
            height as int,
            (Region::Triangle { a, b, c }),
            color,
        ),
{
    paint_region(buf, width, height, &Region::Triangle { a, b, c }, color);
}

/// Paints a rectangle's border.
pub fn paint_rect_outline(
    buf: &mut Vec<u8>,
    width: u32,
    height: u32,
    rect: Rect,
    color: Color,
    stroke_width: u16,
)
    requires
        rgba_len(width as int, height as int) <= usize::MAX,
    ensures
        final(buf)@ == region_painted(
            old(buf)@,
            width as int,
            height as int,
            (Region::Border { rect, stroke: stroke_width }),
            color,
        ),
{
    paint_region(buf, width, height, &Region::Border { rect, stroke: stroke_width }, color);
}

/// Paints the border of the ellipse in a rectangle.
pub fn paint_ellipse_outline(
    buf: &mut Vec<u8>,
    width: u32,
    height: u32,
    rect: Rect,
    color: Color,
    stroke_width: u16,
)
    requires
        rgba_len(width as int, height as int) <= usize::MAX,
    ensures
        final(buf)@ == region_painted(
            old(buf)@,
            width as int,
            height as int,
            (Region::Ring { rect, stroke: stroke_width }),
            color,
        ),
{
    paint_region(buf, width, height, &Region::Ring { rect, stroke: stroke_width }, color);
}

/// The first `n` segments of a line painted, one after the other.
pub open spec fn segments_painted(
    buf: Seq<u8>,
    width: int,
    height: int,
    points: Seq<Point>,
    diameter: u16,
    color: Color,
    n: int,
) -> Seq<u8>
    decreases n,
{
    if n <= 0 {
        buf
    } else {
        region_painted(
            segments_painted(buf, width, height, points, diameter, color, n - 1),
            width,
            height,
            Region::Capsule { a: points[n - 1], b: points[n], diameter },
            color,
        )
    }
}

/// The joints `1..=n` of a line painted, one after the other.
pub open spec fn joints_painted(
    buf: Seq<u8>,
    width: int,
    height: int,
    points: Seq<Point>,
    diameter: u16,
    color: Color,
    n: int,
) -> Seq<u8>
    decreases n,
{
    if n <= 0 {
        buf
    } else {
        region_painted(
            joints_painted(buf, width, height, points, diameter, color, n - 1),
            width,
            height,
            Region::Disc { center: points[n], diameter },
            color,
        )
    }
}

/// A line through points painted: its segments, and then its inner joints.
pub open spec fn polyline_painted(
    buf: Seq<u8>,
    width: int,
    height: int,
    points: Seq<Point>,
    color: Color,
    stroke: u16,
) -> Seq<u8> {
    let diameter = drawn_width(stroke);
    joints_painted(
        segments_painted(buf, width, height, points, diameter, color, points.len() - 1),
        width,
        height,
        points,
        diameter,
        color,
        points.len() - 2,
    )
}

/// Paints a line through points.
pub fn paint_polyline(
    buf: &mut Vec<u8>,
    width: u32,
    height: u32,
    points: &Vec<Point>,
    color: Color,
    stroke_width: u16,
)
    requires
        rgba_len(width as int, height as int) <= usize::MAX,
    ensures
        final(buf)@ == polyline_painted(
            old(buf)@,
            width as int,
            height as int,
            points@,
            color,
            stroke_width,
        ),
{
    let diameter: u16 = at_least_a_pixel(stroke_width);
    let ghost start = buf@;
    let ghost w = width as int;
    let ghost h = height as int;
    if points.len() < 2 {
        return;
    }
    let mut i: usize = 1;
    while i < points.len()
        invariant
            rgba_len(width as int, height as int) <= usize::MAX,
            w == width,
            h == height,
            1 <= i <= points@.len(),
            buf@ == segments_painted(start, w, h, points@, diameter, color, i - 1),
        decreases points@.len() - i,
    {
        paint_segment_capsule(buf, width, height, points[i - 1], points[i], diameter, color);
        i = i + 1;
    }
    let ghost lines = buf@;
    let mut k: usize = 1;
    while k < points.len() - 1
        invariant
            rgba_len(width as int, height as int) <= usize::MAX,
            w == width,
            h == height,
            2 <= points@.len(),
            1 <= k <= points@.len() - 1,
            buf@ == joints_painted(lines, w, h, points@, diameter, color, k - 1),
        decreases points@.len() - k,
    {
        fill_circle(buf, width, height, points[k], diameter, color);
        k = k + 1;
    }
}

/// Where a text's origin falls, in whole pixels.
pub open spec fn text_origin(position: Point, align: TextRasterAlign, run: TextRun) -> (int, int) {
    match align {
        TextRasterAlign::TopLeft => (
            div_round(2 * position.x, 512),
            div_round(2 * position.y, 512),
        ),
        TextRasterAlign::Center => (
            div_round(2 * position.x - run.width, 512),
            div_round(2 * position.y - (run.top + run.bottom), 512),
        ),
    }
}

/// A glyph's colour, its opacity being the coverage under the text's own.
pub open spec fn glyph_color(glyph: Glyph, alpha: u8) -> Color {
    Color {
        r: glyph.r,
        g: glyph.g,
        b: glyph.b,
        a: ((glyph.coverage as int * alpha as int) / 255) as u8,
    }
}

/// Where a glyph's block lies.
pub open spec fn glyph_block(glyph: Glyph, origin: (int, int)) -> Region {
    Region::Block {
        x: (origin.0 + glyph.x) as i64,
        y: (origin.1 + glyph.y) as i64,
        width: glyph.width,
        height: glyph.height,
    }
}

/// The first `n` glyphs painted, one after the other.
pub open spec fn glyphs_painted(
    buf: Seq<u8>,
    width: int,
    height: int,
    glyphs: Seq<Glyph>,
    origin: (int, int),
    alpha: u8,
    n: int,
) -> Seq<u8>
    decreases n,
{
    if n <= 0 {
        buf
    } else {
        region_painted(
            glyphs_painted(buf, width, height, glyphs, origin, alpha, n - 1),
            width,
            height,
            glyph_block(glyphs[n - 1], origin),
            glyph_color(glyphs[n - 1], alpha),
        )
    }
}

/// A size in subpixels, in units of text.
pub open spec fn in_font_units(size: u32) -> u64 {
    (size * FONT_UNITS) as u64
}

/// A text painted: nothing where it is blank, has no size, or nothing could be
/// shaped.
pub open spec fn text_painted(
    buf: Seq<u8>,
    width: int,
    height: int,
    content: Seq<char>,
    size: u64,
    color: Color,
    position: Point,
    align: TextRasterAlign,
    run: Option<TextRun>,
) -> Seq<u8> {
    if trimmed_text(content).len() == 0 || size == 0 {
        buf
    } else {
        match run {
            None => buf,
            Some(r) => glyphs_painted(
                buf,
                width,
                height,
                r.glyphs@,
                text_origin(position, align, r),
                color.a,
                r.glyphs@.len() as int,
            ),
        }
    }
}

/// Blends the glyphs of `run`, the shaped form of the request, over the canvas.
pub fn raster_text(
    buf: &mut Vec<u8>,
    width: u32,
    height: u32,
    request: &TextRasterRequest,
    run: &Option<TextRun>,
)
    requires
        rgba_len(width as int, height as int) <= usize::MAX,
    ensures
        final(buf)@ == text_painted(
            old(buf)@,
            width as int,
            height as int,
            request.content@,
            request.size_px,
            request.color,
            request.position,
            request.align,
            *run,
        ),
{
    let bare: String = trimmed(request.content.as_str());
    if bare.as_str().unicode_len() == 0 || request.size_px == 0 {
        return;
    }
    if let Some(r) = run {
        let (dx, dy): (i64, i64) = match request.align {
            TextRasterAlign::TopLeft => (0, 0),
            TextRasterAlign::Center => (r.width as i64, r.top as i64 + r.bottom as i64),
        };
        let ox: i64 = rounded_quotient(2 * request.position.x as i64 - dx, 512);
        let oy: i64 = rounded_quotient(2 * request.position.y as i64 - dy, 512);
        let ghost start = buf@;
        let ghost origin = (ox as int, oy as int);
        let ghost w = width as int;
        let ghost h = height as int;
        let ghost alpha = request.color.a;
        let mut i: usize = 0;
        while i < r.glyphs.len()
            invariant
                rgba_len(width as int, height as int) <= usize::MAX,
                w == width,
                h == height,
                origin == (ox as int, oy as int),
                alpha == request.color.a,
                i <= r.glyphs@.len(),
                -0x3000_0000_0000_0000 <= ox <= 0x3000_0000_0000_0000,
                -0x3000_0000_0000_0000 <= oy <= 0x3000_0000_0000_0000,
                buf@ == glyphs_painted(start, w, h, r.glyphs@, origin, alpha, i as int),
            decreases r.glyphs@.len() - i,
        {
            let glyph = r.glyphs[i];
            proof {
                assert(0 <= glyph.coverage as int * alpha as int <= 255 * 255) by (nonlinear_arith)
                    requires
                        0 <= glyph.coverage <= 255,
                        0 <= alpha <= 255,
                ;
            }
            let a: u32 = glyph.coverage as u32 * request.color.a as u32 / 255;
            let paint = Color { r: glyph.r, g: glyph.g, b: glyph.b, a: a as u8 };
            let block = Region::Block {
                x: ox + glyph.x as i64,
                y: oy + glyph.y as i64,
                width: glyph.width,
                height: glyph.height,
            };
            paint_region(buf, width, height, &block, paint);
            i = i + 1;
        }
    }
}

/// The text that a mark draws: what it reads, how large, in which colour,
/// where, and by which of its parts it is placed.
pub open spec fn mark_text(m: Mark, palette: ColorPalette) -> Option<
    (Seq<char>, u64, Color, Point, TextRasterAlign),
> {
    match m.shape {
        Figure::Text { position, content, size } => Some(
            (
                content,
                in_font_units(size),
                m.color.spec_resolve(palette),
                position,
                TextRasterAlign::TopLeft,
            ),
        ),
        Figure::Step { position, number } => Some(
            (
                decimal_text(number as nat),
                STEP_BADGE_FONT,
                palette.ivory,
                position,
                TextRasterAlign::Center,
            ),
        ),
        _ => None,
    }
}

/// The text that an annotation needs shaped: a caption's own, or a step
/// badge's number in its middle.
pub fn text_request(annotation: &Annotation, palette: ColorPalette) -> (r: Option<
    TextRasterRequest,
>)
    ensures
        r is Some <==> mark_text(annotation@, palette) is Some,
        r matches Some(t) ==> mark_text(annotation@, palette) == Some(
            (t.content@, t.size_px, t.color, t.position, t.align),
        ),
{
    match &annotation.shape {
        Shape::Text { position, content, size } => Some(
            TextRasterRequest {
                content: content.clone(),
                size_px: *size as u64 * FONT_UNITS,
                color: annotation.color.resolve(palette),
                position: *position,
                align: TextRasterAlign::TopLeft,
            },
        ),
        Shape::Step { position, number } => Some(
            TextRasterRequest {
                content: decimal(*number as u64),
                size_px: STEP_BADGE_FONT,
                color: palette.ivory,
                position: *position,
                align: TextRasterAlign::Center,
            },
        ),
        _ => None,
    }
}

/// A mark painted. `run` is its shaped text, where it has one.
pub open spec fn mark_painted(
    buf: Seq<u8>,
    width: int,
    height: int,
    m: Mark,
    palette: ColorPalette,
    run: Option<TextRun>,
) -> Seq<u8> {
    let color = m.color.spec_resolve(palette);
    match m.shape {
        Figure::Arrow { start, end } => arrow_painted(
            buf,
            width,
            height,
            start,
            end,
            color,
            m.stroke_width,
        ),
        Figure::Rectangle { rect } => region_painted(
            buf,
            width,
            height,
            Region::Border { rect, stroke: m.stroke_width },
            color,
        ),
        Figure::Ellipse { rect } => region_painted(
            buf,
            width,
            height,
            Region::Ring { rect, stroke: m.stroke_width },
            color,
        ),
        Figure::Freehand { points } => polyline_painted(
            buf,
            width,
            height,
            points,
            color,
            m.stroke_width,
        ),
        Figure::Text { position, content, size } => text_painted(
            buf,
            width,
            height,
            content,
            in_font_units(size),
            color,
            position,
            TextRasterAlign::TopLeft,
            run,
        ),
        Figure::Step { position, number } => text_painted(
            region_painted(
                buf,
                width,
                height,
                Region::Disc { center: position, diameter: STEP_BADGE_DIAMETER },
                palette.terracotta,
            ),
            width,
            height,
            decimal_text(number as nat),
            STEP_BADGE_FONT,
            palette.ivory,
            position,
            TextRasterAlign::Center,
            run,
        ),
    }
}

/// Paints a step badge: a disc with its number in the middle.
pub fn paint_step_badge(
    buf: &mut Vec<u8>,
    width: u32,
    height: u32,
    position: Point,
    number: u32,
    palette: ColorPalette,
    run: &Option<TextRun>,
)
    requires
        rgba_len(width as int, height as int) <= usize::MAX,
    ensures
        final(buf)@ == text_painted(
            region_painted(
                old(buf)@,
                width as int,
                height as int,
                (Region::Disc { center: position, diameter: STEP_BADGE_DIAMETER }),
                palette.terracotta,
            ),
            width as int,
            height as int,
            decimal_text(number as nat),
            STEP_BADGE_FONT,
            palette.ivory,
            position,
            TextRasterAlign::Center,
            *run,
        ),
{
    fill_circle(buf, width, height, position, STEP_BADGE_DIAMETER, palette.terracotta);
    let request = TextRasterRequest {
        content: decimal(number as u64),
        size_px: STEP_BADGE_FONT,
        color: palette.ivory,
        position,
        align: TextRasterAlign::Center,
    };
    raster_text(buf, width, height, &request, run);
}

/// Paints one annotation.
pub fn paint_shape(
    buf: &mut Vec<u8>,
    width: u32,
    height: u32,
    annotation: &Annotation,
    palette: ColorPalette,
    run: &Option<TextRun>,
)
    requires
        rgba_len(width as int, height as int) <= usize::MAX,
    ensures
        final(buf)@ == mark_painted(
            old(buf)@,
            width as int,
            height as int,
            annotation@,
            palette,
            *run,
        ),
{
    let color = annotation.color.resolve(palette);
    let stroke_width: u16 = annotation.stroke_width;
    match &annotation.shape {
        Shape::Arrow { start, end } => paint_arrow(
            buf,
            width,
            height,
            *start,
            *end,
            color,
            stroke_width,
        ),
        Shape::Rectangle { rect } => paint_rect_outline(
            buf,
            width,
            height,
            *rect,
            color,
            stroke_width,
        ),
        Shape::Ellipse { rect } => paint_ellipse_outline(
            buf,
            width,
            height,
            *rect,
            color,
            stroke_width,
        ),
        Shape::Freehand { points } => paint_polyline(
            buf,
            width,
            height,
            points,
            color,
            stroke_width,
        ),
        Shape::Text { position, content, size } => {
            let request = TextRasterRequest {
                content: content.clone(),
                size_px: *size as u64 * FONT_UNITS,
                color,
                position: *position,
                align: TextRasterAlign::TopLeft,
            };
            raster_text(buf, width, height, &request, run);
        },
        Shape::Step { position, number } => paint_step_badge(
            buf,
            width,
            height,
            *position,
            *number,
            palette,
            run,
        ),
    }
}

/// The shaped text for annotation `i`, where one was given.
pub open spec fn run_at(runs: Seq<Option<TextRun>>, i: int) -> Option<TextRun> {
    if 0 <= i < runs.len() {
        runs[i]
    } else {
        None
    }
}

/// The first `n` marks painted over a canvas, in order.
pub open spec fn marks_painted(
    buf: Seq<u8>,
    width: int,
    height: int,
    list: Seq<Mark>,
    palette: ColorPalette,
    runs: Seq<Option<TextRun>>,
    n: int,
) -> Seq<u8>
    decreases n,
{
    if n <= 0 {
        buf
    } else {
        mark_painted(
            marks_painted(buf, width, height, list, palette, runs, n - 1),
            width,
            height,
            list[n - 1],
            palette,
            run_at(runs, n - 1),
        )
    }
}

/// A picture with its marks painted in.
pub open spec fn composed(
    base: Picture,
    list: Seq<Mark>,
    palette: ColorPalette,
    runs: Seq<Option<TextRun>>,
) -> Picture {
    Picture {
        pixels: marks_painted(
            base.pixels,
            base.width as int,
            base.height as int,
            list,
            palette,
            runs,
            list.len() as int,
        ),
        ..base
    }
}

/// Paints the annotations over a copy of `base`, in order. `runs` holds the
/// shaped text of each annotation that draws one.
pub fn compose(
    base: &Frame,
    annotations: &Vec<Annotation>,
    palette: ColorPalette,
    runs: &Vec<Option<TextRun>>,
) -> (r: Frame)
    ensures
        r@ == composed(base@, marks(annotations@), palette, runs@),
{
    let width: u32 = base.width();
    let height: u32 = base.height();
    let mut pixels: Vec<u8> = base.pixels().clone();
    assert(pixels@ =~= base@.pixels);
    let size: usize = pixels.len();
    let nothing: Option<TextRun> = None;
    let ghost w = width as int;
    let ghost h = height as int;
    let ghost list = marks(annotations@);
    let mut i: usize = 0;
    while i < annotations.len()
        invariant
            w == width,
            h == height,
            size == rgba_len(w, h),
            nothing is None,
            list == marks(annotations@),
            i <= annotations@.len(),
            pixels@.len() == size,
            pixels@ == marks_painted(base@.pixels, w, h, list, palette, runs@, i as int),
        decreases annotations@.len() - i,
    {
        let run: &Option<TextRun> = if i < runs.len() {
            &runs[i]
        } else {
            &nothing
        };
        let ghost before = pixels@;
        paint_shape(&mut pixels, width, height, &annotations[i], palette, run);
        proof {
            assert(list[i as int] == annotations@[i as int]@);
            lemma_mark_len(before, w, h, list[i as int], palette, *run);
        }
        i = i + 1;
    }
    match Frame::new(width, height, base.scale(), pixels) {
        Some(frame) => frame,
        None => base.clone(),
    }
}

proof fn lemma_segments_len(
    buf: Seq<u8>,
    width: int,
    height: int,
    points: Seq<Point>,
    diameter: u16,
    color: Color,
    n: int,
)
    ensures
        segments_painted(buf, width, height, points, diameter, color, n).len() == buf.len(),
    decreases n,
{
    if n > 0 {
        lemma_segments_len(buf, width, height, points, diameter, color, n - 1);
    }
}

proof fn lemma_joints_len(
    buf: Seq<u8>,
    width: int,
    height: int,
    points: Seq<Point>,
    diameter: u16,
    color: Color,
    n: int,
)
    ensures
        joints_painted(buf, width, height, points, diameter, color, n).len() == buf.len(),
    decreases n,
{
    if n > 0 {
        lemma_joints_len(buf, width, height, points, diameter, color, n - 1);
    }
}

proof fn lemma_glyphs_len(
    buf: Seq<u8>,
    width: int,
    height: int,
    glyphs: Seq<Glyph>,
    origin: (int, int),
    alpha: u8,
    n: int,
)
    ensures
        glyphs_painted(buf, width, height, glyphs, origin, alpha, n).len() == buf.len(),
    decreases n,
{
    if n > 0 {
        lemma_glyphs_len(buf, width, height, glyphs, origin, alpha, n - 1);
    }
}

/// Painting a mark keeps the buffer's length.
pub proof fn lemma_mark_len(
    buf: Seq<u8>,
    width: int,
    height: int,
    m: Mark,
    palette: ColorPalette,
    run: Option<TextRun>,
)
    ensures
        mark_painted(buf, width, height, m, palette, run).len() == buf.len(),
{
    let color = m.color.spec_resolve(palette);
    match m.shape {
        Figure::Freehand { points } => {
            let diameter = drawn_width(m.stroke_width);
            let lines = segments_painted(
                buf,
                width,
                height,
                points,
                diameter,
                color,
                points.len() - 1,
            );
            lemma_segments_len(buf, width, height, points, diameter, color, points.len() - 1);
            lemma_joints_len(lines, width, height, points, diameter, color, points.len() - 2);
        },
        Figure::Text { position, content, size } => {
            if let Some(r) = run {
                lemma_glyphs_len(
                    buf,
                    width,
                    height,
                    r.glyphs@,
                    text_origin(position, TextRasterAlign::TopLeft, r),
                    color.a,
                    r.glyphs@.len() as int,
                );
            }
        },
        Figure::Step { position, number } => {
            let disc = region_painted(
                buf,
                width,
                height,
                Region::Disc { center: position, diameter: STEP_BADGE_DIAMETER },
                palette.terracotta,
            );
            if let Some(r) = run {
                lemma_glyphs_len(
                    disc,
                    width,
                    height,
                    r.glyphs@,
                    text_origin(position, TextRasterAlign::Center, r),
                    palette.ivory.a,
                    r.glyphs@.len() as int,
                );
            }
        },
        _ => {},
    }
}

proof fn lemma_marks_len(
    buf: Seq<u8>,
    width: int,
    height: int,
    list: Seq<Mark>,
    palette: ColorPalette,
    runs: Seq<Option<TextRun>>,
    n: int,
)
    ensures
        marks_painted(buf, width, height, list, palette, runs, n).len() == buf.len(),
    decreases n,
{
    if n > 0 {
        lemma_marks_len(buf, width, height, list, palette, runs, n - 1);
        lemma_mark_len(
            marks_painted(buf, width, height, list, palette, runs, n - 1),
            width,
            height,
            list[n - 1],
            palette,
            run_at(runs, n - 1),
        );
    }
}

/// Composing keeps the picture's dimensions and scale, and gives a picture
/// with as many bytes.
pub proof fn law_compose_keeps_dimensions(
    base: Picture,
    list: Seq<Mark>,
    palette: ColorPalette,
    runs: Seq<Option<TextRun>>,
)
    requires
        well_formed(base),
    ensures
        composed(base, list, palette, runs).width == base.width,
        composed(base, list, palette, runs).height == base.height,
        composed(base, list, palette, runs).scale == base.scale,
        well_formed(composed(base, list, palette, runs)),
{
    lemma_marks_len(
        base.pixels,
        base.width as int,
        base.height as int,
        list,
        palette,
        runs,
        list.len() as int,
    );
}

/// With nothing to paint, composing gives back the picture itself.
pub proof fn law_compose_nothing(
    base: Picture,
    palette: ColorPalette,
    runs: Seq<Option<TextRun>>,
)
    ensures
        composed(base, Seq::empty(), palette, runs) == base,
{
}

/// A mark added last is painted over the picture composed so far.
pub proof fn law_compose_is_in_order(
    base: Picture,
    list: Seq<Mark>,
    m: Mark,
    palette: ColorPalette,
    runs: Seq<Option<TextRun>>,
)
    ensures
        composed(base, list.push(m), palette, runs).pixels == mark_painted(
            composed(base, list, palette, runs).pixels,
            base.width as int,
            base.height as int,
            m,
            palette,
            run_at(runs, list.len() as int),
        ),
{
    lemma_marks_prefix(
        base.pixels,
        base.width as int,
        base.height as int,
        list,
        list.push(m),
        palette,
        runs,
        list.len() as int,
    );
}

proof fn lemma_marks_prefix(
    buf: Seq<u8>,
    width: int,
    height: int,
    a: Seq<Mark>,
    b: Seq<Mark>,
    palette: ColorPalette,
    runs: Seq<Option<TextRun>>,
    n: int,
)
    requires
        n <= a.len(),
        n <= b.len(),
        forall|i: int| 0 <= i < n ==> a[i] == b[i],
    ensures
        marks_painted(buf, width, height, a, palette, runs, n) == marks_painted(
            buf,
            width,
            height,
            b,
            palette,
            runs,
            n,
        ),
    decreases n,
{
    if n > 0 {
        lemma_marks_prefix(buf, width, height, a, b, palette, runs, n - 1);
    }
}

/// An opaque colour replaces what it is painted over.
pub proof fn law_opaque_replaces(old: u8, c: int, color: Color)
    requires
        0 <= c < 4,
        color.a == 255,
    ensures
        blended(old, c, color) == (if c == 0 {
            color.r
        } else if c == 1 {
            color.g
        } else if c == 2 {
            color.b
        } else {
            255
        }),
{
}

} // verus!
