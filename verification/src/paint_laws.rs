//! Laws of painting: which pixels each kind of annotation takes, what they come
//! to be, and what stays. Lengths are in subpixels, 256 to the pixel; a pixel is
//! taken where its centre is.
use vstd::prelude::*;

use crate::compose::{
    Glyph, Mark, TextRasterAlign, TextRun, arrow_head, composed, glyph_block, glyph_color,
    glyphs_painted, is_root, joints_painted, law_compose_is_in_order, lemma_root_unique,
    mark_painted, mark_text, segments_painted, text_origin,
};
use crate::pixmap::{Picture, lemma_pixel_bytes, pixel_start, whole_pixel};
use crate::raster::{Region, blended, coverage, edge, in_ellipse, mixed, painted, region_painted};
use crate::shapes::{AnnotationColor, Color, ColorPalette, Figure, spec_dist_sq, spec_near_segment};
use crate::text::trimmed_text;
use crate::units::{Point, Rect, spec_max, spec_min};

verus! {

/// Channel `c` of pixel `(x, y)` of an image `width` pixels wide.
pub open spec fn channel(pixels: Seq<u8>, width: int, x: int, y: int, c: int) -> u8 {
    pixels[4 * (y * width + x) + c]
}

/// Whether `(x, y)` is a pixel of the canvas, and the buffer holds it.
pub open spec fn on_sheet(pixels: Seq<u8>, width: int, height: int, x: int, y: int) -> bool {
    0 <= x < width && 0 <= y < height && 4 * (y * width + x) + 4 <= pixels.len()
}

/// A colour's own value in channel `c`.
pub open spec fn ink(color: Color, c: int) -> u8 {
    if c == 0 {
        color.r
    } else if c == 1 {
        color.g
    } else if c == 2 {
        color.b
    } else {
        255
    }
}

/// Whether `new` is what channel `c` of a pixel comes to be when a colour is laid
/// over it: as it was under a colour that cannot be seen, the colour itself under
/// an opaque one, and else the value nearest to the mean of the two, weighted by
/// the opacity. A pixel that is painted is opaque.
pub open spec fn laid_over(new: u8, old: u8, color: Color, c: int) -> bool {
    if color.a == 0 {
        new == old
    } else if color.a == 255 || c == 3 {
        new == ink(color, c)
    } else {
        -255 <= 510 * new - 2 * (ink(color, c) * color.a + old * (255 - color.a)) <= 255
    }
}

/// The colour of the palette that an annotation's colour stands for.
pub open spec fn picked(color: AnnotationColor, palette: ColorPalette) -> Color {
    match color {
        AnnotationColor::Terracotta => palette.terracotta,
        AnnotationColor::Ink => palette.ink,
        AnnotationColor::Ivory => palette.ivory,
    }
}

/// A stroke as it is drawn: never thinner than a pixel.
pub open spec fn visible_stroke(stroke: u16) -> int {
    if stroke < 256 {
        256
    } else {
        stroke as int
    }
}

/// Whether a pixel keeps its bytes.
pub open spec fn kept(before: Seq<u8>, after: Seq<u8>, width: int, x: int, y: int) -> bool {
    forall|c: int|
        0 <= c < 4 ==> #[trigger] channel(after, width, x, y, c) == channel(before, width, x, y, c)
}

/// Whether a pixel comes to be what it was with a colour laid over it.
pub open spec fn covered(
    before: Seq<u8>,
    after: Seq<u8>,
    width: int,
    x: int,
    y: int,
    color: Color,
) -> bool {
    forall|c: int|
        0 <= c < 4 ==> laid_over(
            #[trigger] channel(after, width, x, y, c),
            channel(before, width, x, y, c),
            color,
            c,
        )
}

proof fn lemma_blended(old: u8, c: int, color: Color)
    requires
        0 <= c < 4,
    ensures
        laid_over(blended(old, c, color), old, color, c),
{
    if color.a != 0 && color.a != 255 && c != 3 {
        let src = ink(color, c) as int;
        let dst = old as int;
        let a = color.a as int;
        let s = src * a + dst * (255 - a);
        assert(0 <= s <= 255 * 255) by (nonlinear_arith)
            requires
                s == src * a + dst * (255 - a),
                0 <= src <= 255,
                0 <= dst <= 255,
                0 <= a <= 255,
        ;
        assert(mixed(src, dst, a) == (2 * s + 255) / 510);
        assert(ink(color, c) * color.a == src * a);
        assert(old * (255 - color.a) == dst * (255 - a));
    }
}

proof fn lemma_painted(
    buf: Seq<u8>,
    width: int,
    height: int,
    color: Color,
    covers: spec_fn(int, int) -> bool,
    x: int,
    y: int,
)
    requires
        on_sheet(buf, width, height, x, y),
    ensures
        painted(buf, width, height, color, covers).len() == buf.len(),
        covers(x, y) ==> covered(
            buf,
            painted(buf, width, height, color, covers),
            width,
            x,
            y,
            color,
        ),
        !covers(x, y) ==> kept(buf, painted(buf, width, height, color, covers), width, x, y),
{
    let out = painted(buf, width, height, color, covers);
    assert forall|c: int| 0 <= c < 4 implies #[trigger] channel(out, width, x, y, c) == (if covers(
        x,
        y,
    ) {
        blended(channel(buf, width, x, y, c), c, color)
    } else {
        channel(buf, width, x, y, c)
    }) by {
        lemma_pixel_bytes(width, x, y, c);
        let i = pixel_start(width, x, y) + c;
        assert(i == 4 * (y * width + x) + c);
        assert(whole_pixel(buf.len() as int, i));
    }
    assert forall|c: int| 0 <= c < 4 implies laid_over(
        blended(#[trigger] channel(buf, width, x, y, c), c, color),
        channel(buf, width, x, y, c),
        color,
        c,
    ) by {
        lemma_blended(channel(buf, width, x, y, c), c, color);
    }
}

proof fn lemma_region(
    buf: Seq<u8>,
    width: int,
    height: int,
    region: Region,
    color: Color,
    x: int,
    y: int,
)
    requires
        on_sheet(buf, width, height, x, y),
    ensures
        region_painted(buf, width, height, region, color).len() == buf.len(),
        region.covers(x, y) ==> covered(
            buf,
            region_painted(buf, width, height, region, color),
            width,
            x,
            y,
            color,
        ),
        !region.covers(x, y) ==> kept(
            buf,
            region_painted(buf, width, height, region, color),
            width,
            x,
            y,
        ),
{
    lemma_painted(buf, width, height, color, coverage(region), x, y);
}

/// Whether the centre of pixel `(x, y)` lies within a rectangle drawn in by `by`
/// on every side.
pub open spec fn centre_within(rect: Rect, by: int, x: int, y: int) -> bool {
    let px = 256 * x + 128;
    let py = 256 * y + 128;
    &&& rect.x + by <= px < rect.x + rect.width - by
    &&& rect.y + by <= py < rect.y + rect.height - by
}

/// A rectangle is painted as a frame: the pixels within it that do not lie a
/// whole stroke further in take the colour, and no other pixel changes.
pub proof fn law_rectangle_paints_a_frame(
    buf: Seq<u8>,
    width: int,
    height: int,
    m: Mark,
    rect: Rect,
    palette: ColorPalette,
    run: Option<TextRun>,
    x: int,
    y: int,
)
    requires
        m.shape == (Figure::Rectangle { rect }),
        on_sheet(buf, width, height, x, y),
    ensures
        ({
            let after = mark_painted(buf, width, height, m, palette, run);
            let framed = centre_within(rect, 0, x, y) && !centre_within(
                rect,
                visible_stroke(m.stroke_width),
                x,
                y,
            );
            &&& after.len() == buf.len()
            &&& framed ==> covered(buf, after, width, x, y, picked(m.color, palette))
            &&& !framed ==> kept(buf, after, width, x, y)
        }),
{
    lemma_region(
        buf,
        width,
        height,
        Region::Border { rect, stroke: m.stroke_width },
        picked(m.color, palette),
        x,
        y,
    );
}

/// Whether the centre of pixel `(x, y)` lies within the ellipse that fills a
/// rectangle drawn in by `by` on every side: the sum of its squared distances
/// from the middle, each measured in half axes, is at most one. A half axis is
/// never under half a pixel.
pub open spec fn centre_in_ellipse(rect: Rect, by: int, x: int, y: int) -> bool {
    let wide = (if rect.width < 256 {
        256
    } else {
        rect.width as int
    }) - 2 * by;
    let high = (if rect.height < 256 {
        256
    } else {
        rect.height as int
    }) - 2 * by;
    let dx = 2 * (256 * x + 128) - (2 * rect.x + rect.width);
    let dy = 2 * (256 * y + 128) - (2 * rect.y + rect.height);
    &&& wide > 0
    &&& high > 0
    &&& (dx * high) * (dx * high) + (dy * wide) * (dy * wide) <= (wide * high) * (wide * high)
}

/// Whether a rectangle reaches into pixel `(x, y)`.
pub open spec fn reaches_into(rect: Rect, x: int, y: int) -> bool {
    &&& rect.x < 256 * (x + 1) && 256 * x < rect.x + rect.width
    &&& rect.y < 256 * (y + 1) && 256 * y < rect.y + rect.height
}

proof fn lemma_ellipse_form(dx: int, dy: int, wide: int, high: int)
    ensures
        in_ellipse(dx, dy, wide, high) == ((dx * high) * (dx * high) + (dy * wide) * (dy * wide)
            <= (wide * high) * (wide * high)),
{
    assert((dx * high) * (dx * high) == dx * dx * (high * high)) by (nonlinear_arith);
    assert((dy * wide) * (dy * wide) == dy * dy * (wide * wide)) by (nonlinear_arith);
    assert((wide * high) * (wide * high) == wide * wide * (high * high)) by (nonlinear_arith);
}

/// An ellipse is painted as a ring: the pixels of its rectangle that lie within
/// the ellipse filling it, and not within the one that lies a whole stroke
/// further in, take the colour, and no other pixel changes.
pub proof fn law_ellipse_paints_a_ring(
    buf: Seq<u8>,
    width: int,
    height: int,
    m: Mark,
    rect: Rect,
    palette: ColorPalette,
    run: Option<TextRun>,
    x: int,
    y: int,
)
    requires
        m.shape == (Figure::Ellipse { rect }),
        on_sheet(buf, width, height, x, y),
    ensures
        ({
            let after = mark_painted(buf, width, height, m, palette, run);
            let ringed = reaches_into(rect, x, y) && centre_in_ellipse(rect, 0, x, y)
                && !centre_in_ellipse(rect, visible_stroke(m.stroke_width), x, y);
            &&& after.len() == buf.len()
            &&& ringed ==> covered(buf, after, width, x, y, picked(m.color, palette))
            &&& !ringed ==> kept(buf, after, width, x, y)
        }),
{
    let region = Region::Ring { rect, stroke: m.stroke_width };
    lemma_region(buf, width, height, region, picked(m.color, palette), x, y);
    let s = visible_stroke(m.stroke_width);
    let wide = if rect.width < 256 {
        256
    } else {
        rect.width as int
    };
    let high = if rect.height < 256 {
        256
    } else {
        rect.height as int
    };
    let dx = 2 * (256 * x + 128) - (2 * rect.x + rect.width);
    let dy = 2 * (256 * y + 128) - (2 * rect.y + rect.height);
    lemma_ellipse_form(dx, dy, wide, high);
    lemma_ellipse_form(dx, dy, wide - 2 * s, high - 2 * s);
    let span = region.span();
    assert(span.x0 <= x < span.x1 <==> rect.x < 256 * (x + 1) && 256 * x < rect.x + rect.width);
    assert(span.y0 <= y < span.y1 <==> rect.y < 256 * (y + 1) && 256 * y < rect.y + rect.height);
}

/// An ellipse leaves the corners of its rectangle alone: where that is at least
/// eight pixels each way, a pixel whose centre is within half a pixel of a
/// corner, on both axes, or beyond it, keeps its bytes.
pub proof fn law_ellipse_spares_the_corners(
    buf: Seq<u8>,
    width: int,
    height: int,
    m: Mark,
    rect: Rect,
    palette: ColorPalette,
    run: Option<TextRun>,
    x: int,
    y: int,
)
    requires
        m.shape == (Figure::Ellipse { rect }),
        on_sheet(buf, width, height, x, y),
        rect.width >= 2048,
        rect.height >= 2048,
        256 * x + 128 <= rect.x + 128 || 256 * x + 128 >= rect.x + rect.width - 128,
        256 * y + 128 <= rect.y + 128 || 256 * y + 128 >= rect.y + rect.height - 128,
    ensures
        kept(buf, mark_painted(buf, width, height, m, palette, run), width, x, y),
{
    law_ellipse_paints_a_ring(buf, width, height, m, rect, palette, run, x, y);
    let w = rect.width as int;
    let h = rect.height as int;
    let dx = 2 * (256 * x + 128) - (2 * rect.x + w);
    let dy = 2 * (256 * y + 128) - (2 * rect.y + h);
    assert(64 * (dx * dx) >= 49 * (w * w)) by (nonlinear_arith)
        requires
            dx <= 256 - w || dx >= w - 256,
            w >= 2048,
    ;
    assert(64 * (dy * dy) >= 49 * (h * h)) by (nonlinear_arith)
        requires
            dy <= 256 - h || dy >= h - 256,
            h >= 2048,
    ;
    let d2 = dx * dx;
    let e2 = dy * dy;
    let w2 = w * w;
    let h2 = h * h;
    assert((dx * h) * (dx * h) == d2 * h2) by (nonlinear_arith)
        requires
            d2 == dx * dx,
            h2 == h * h,
    ;
    assert((dy * w) * (dy * w) == e2 * w2) by (nonlinear_arith)
        requires
            e2 == dy * dy,
            w2 == w * w,
    ;
    assert((w * h) * (w * h) == w2 * h2) by (nonlinear_arith)
        requires
            w2 == w * w,
            h2 == h * h,
    ;
    assert(w2 > 0 && h2 > 0) by (nonlinear_arith)
        requires
            w2 == w * w,
            h2 == h * h,
            w >= 2048,
            h >= 2048,
    ;
    assert(64 * (d2 * h2 + e2 * w2) > 64 * (w2 * h2)) by (nonlinear_arith)
        requires
            64 * d2 >= 49 * w2,
            64 * e2 >= 49 * h2,
            w2 > 0,
            h2 > 0,
    ;
}

/// Whether the point `k / n` of the way from `a` to `b` is within half of
/// `diameter` of `(px, py)`.
pub open spec fn within_reach(
    px: int,
    py: int,
    a: Point,
    b: Point,
    diameter: int,
    k: int,
    n: int,
) -> bool {
    let dx = n * (px - a.x) - k * (b.x - a.x);
    let dy = n * (py - a.y) - k * (b.y - a.y);
    &&& n > 0
    &&& 0 <= k <= n
    &&& 4 * (dx * dx + dy * dy) <= (n * diameter) * (n * diameter)
}

/// Whether some point between `a` and `b`, the two taken in, is within half of
/// `diameter` of `(px, py)`.
pub open spec fn along_stroke(px: int, py: int, a: Point, b: Point, diameter: int) -> bool {
    exists|k: int, n: int| #[trigger] within_reach(px, py, a, b, diameter, k, n)
}

proof fn lemma_square_of_difference(p: int, q: int)
    ensures
        (p - q) * (p - q) == p * p - 2 * (p * q) + q * q,
{
    assert((p - q) * (p - q) == p * p - 2 * (p * q) + q * q) by (nonlinear_arith);
}

proof fn lemma_square_of_sum(p: int, q: int)
    ensures
        (p + q) * (p + q) == p * p + 2 * (p * q) + q * q,
{
    assert((p + q) * (p + q) == p * p + 2 * (p * q) + q * q) by (nonlinear_arith);
}

proof fn lemma_regroup(a: int, b: int, c: int, d: int)
    ensures
        (a * b) * (c * d) == (a * c) * (b * d),
{
    assert((a * b) * (c * d) == (a * c) * (b * d)) by (nonlinear_arith);
}

proof fn lemma_spread(a: int, b: int, c: int)
    ensures
        a * (b + c) == a * b + a * c,
        a * (b - c) == a * b - a * c,
        (b + c) * a == a * b + a * c,
{
    assert(a * (b + c) == a * b + a * c) by (nonlinear_arith);
    assert(a * (b - c) == a * b - a * c) by (nonlinear_arith);
    assert((b + c) * a == a * b + a * c) by (nonlinear_arith);
}

proof fn lemma_reach_expands(u: int, v: int, s: int, t: int, k: int, n: int)
    ensures
        (n * u - k * s) * (n * u - k * s) + (n * v - k * t) * (n * v - k * t) == (n * n) * (u * u
            + v * v) - 2 * ((n * k) * (u * s + v * t)) + (k * k) * (s * s + t * t),
{
    lemma_square_of_difference(n * u, k * s);
    lemma_square_of_difference(n * v, k * t);
    lemma_regroup(n, u, n, u);
    lemma_regroup(n, v, n, v);
    lemma_regroup(n, u, k, s);
    lemma_regroup(n, v, k, t);
    lemma_regroup(k, s, k, s);
    lemma_regroup(k, t, k, t);
    lemma_spread(n * n, u * u, v * v);
    lemma_spread(n * k, u * s, v * t);
    lemma_spread(k * k, s * s, t * t);
}

proof fn lemma_across(u: int, v: int, s: int, t: int)
    ensures
        (u * u + v * v) * (s * s + t * t) == (u * s + v * t) * (u * s + v * t) + (u * t - v * s) * (
        u * t - v * s),
{
    lemma_square_of_sum(u * s, v * t);
    lemma_square_of_difference(u * t, v * s);
    lemma_regroup(u, s, v, t);
    lemma_regroup(u, t, v, s);
    assert(t * s == s * t) by (nonlinear_arith);
    lemma_regroup(u, s, u, s);
    lemma_regroup(v, t, v, t);
    lemma_regroup(u, t, u, t);
    lemma_regroup(v, s, v, s);
    lemma_spread(u * u + v * v, s * s, t * t);
    lemma_spread(s * s, u * u, v * v);
    lemma_spread(t * t, u * u, v * v);
    assert((s * s) * (u * u) == (u * u) * (s * s)) by (nonlinear_arith);
    assert((s * s) * (v * v) == (v * v) * (s * s)) by (nonlinear_arith);
    assert((t * t) * (u * u) == (u * u) * (t * t)) by (nonlinear_arith);
    assert((t * t) * (v * v) == (v * v) * (t * t)) by (nonlinear_arith);
}

/// How much farther off the point `k / n` of the way is than the far end.
proof fn lemma_past_the_end(r: int, along: int, len_sq: int, k: int, n: int)
    ensures
        (n * n) * r - 2 * ((n * k) * along) + (k * k) * len_sq - (n * n) * (r - 2 * along + len_sq)
            == (n - k) * (2 * (n * along) - len_sq * (n + k)),
{
    let m = n - k;
    lemma_spread(n * n, r - 2 * along, len_sq);
    lemma_spread(n * n, r, 2 * along);
    assert((n * n) * (2 * along) == 2 * ((n * n) * along)) by (nonlinear_arith);
    lemma_spread(m, 2 * (n * along), len_sq * (n + k));
    assert(m * (2 * (n * along)) == 2 * ((m * n) * along)) by (nonlinear_arith);
    assert(m * n == n * n - n * k) by (nonlinear_arith)
        requires
            m == n - k,
    ;
    assert((n * n - n * k) * along == (n * n) * along - (n * k) * along) by (nonlinear_arith);
    assert(m * (len_sq * (n + k)) == (m * (n + k)) * len_sq) by (nonlinear_arith);
    assert(m * (n + k) == n * n - k * k) by (nonlinear_arith)
        requires
            m == n - k,
    ;
    assert((n * n - k * k) * len_sq == (n * n) * len_sq - (k * k) * len_sq) by (nonlinear_arith);
}

/// The squared distance from the point `k / n` of the way, by what lies across.
proof fn lemma_beside(r: int, along: int, x2: int, len_sq: int, k: int, n: int)
    requires
        r * len_sq == along * along + x2,
    ensures
        len_sq * ((n * n) * r - 2 * ((n * k) * along) + (k * k) * len_sq) == (n * n) * x2 + (n
            * along - k * len_sq) * (n * along - k * len_sq),
{
    let nn = n * n;
    lemma_square_of_difference(n * along, k * len_sq);
    lemma_regroup(n, along, n, along);
    lemma_regroup(k, len_sq, k, len_sq);
    lemma_regroup(n, along, k, len_sq);
    lemma_spread(len_sq, nn * r - 2 * ((n * k) * along), (k * k) * len_sq);
    lemma_spread(len_sq, nn * r, 2 * ((n * k) * along));
    assert(len_sq * (nn * r) == nn * (r * len_sq)) by (nonlinear_arith);
    lemma_spread(nn, along * along, x2);
    assert(len_sq * (2 * ((n * k) * along)) == 2 * ((n * k) * (along * len_sq)))
        by (nonlinear_arith);
    assert(len_sq * ((k * k) * len_sq) == (k * k) * (len_sq * len_sq)) by (nonlinear_arith);
}

proof fn lemma_near_is_reached(px: int, py: int, a: Point, b: Point, diameter: int)
    requires
        spec_near_segment(px, py, a, b, diameter),
    ensures
        along_stroke(px, py, a, b, diameter),
{
    let u = px - a.x;
    let v = py - a.y;
    let s = b.x - a.x;
    let t = b.y - a.y;
    let len_sq = s * s + t * t;
    let along = u * s + v * t;
    let across = u * t - v * s;
    if len_sq == 0 || along <= 0 {
        assert(within_reach(px, py, a, b, diameter, 0, 1));
    } else if along >= len_sq {
        assert(within_reach(px, py, a, b, diameter, 1, 1));
    } else {
        let k = along;
        let n = len_sq;
        assert(n > 0);
        lemma_reach_expands(u, v, s, t, k, n);
        lemma_across(u, v, s, t);
        let dx = n * u - k * s;
        let dy = n * v - k * t;
        let r = u * u + v * v;
        lemma_beside(r, along, across * across, len_sq, k, n);
        let f = dx * dx + dy * dy;
        assert(n * along - k * len_sq == 0) by (nonlinear_arith)
            requires
                k == along,
                n == len_sq,
        ;
        assert(n * f == (n * n) * (across * across));
        assert(f == n * (across * across)) by (nonlinear_arith)
            requires
                n * f == (n * n) * (across * across),
                n > 0,
        ;
        assert(4 * (n * (across * across)) <= (n * diameter) * (n * diameter)) by (nonlinear_arith)
            requires
                4 * (across * across) <= diameter * diameter * n,
                n > 0,
        ;
        assert(within_reach(px, py, a, b, diameter, k, n));
    }
}

proof fn lemma_reached_is_near(px: int, py: int, a: Point, b: Point, diameter: int, k: int, n: int)
    requires
        within_reach(px, py, a, b, diameter, k, n),
    ensures
        spec_near_segment(px, py, a, b, diameter),
{
    let u = px - a.x;
    let v = py - a.y;
    let s = b.x - a.x;
    let t = b.y - a.y;
    let len_sq = s * s + t * t;
    let along = u * s + v * t;
    let across = u * t - v * s;
    let r = u * u + v * v;
    let f = (n * n) * r - 2 * ((n * k) * along) + (k * k) * len_sq;
    let reach = diameter * diameter;
    lemma_reach_expands(u, v, s, t, k, n);
    lemma_across(u, v, s, t);
    assert((n * diameter) * (n * diameter) == (n * n) * reach) by (nonlinear_arith)
        requires
            reach == diameter * diameter,
    ;
    assert(4 * f <= (n * n) * reach);
    assert(n * n > 0) by (nonlinear_arith)
        requires
            n > 0,
    ;
    let nn = n * n;
    assert(len_sq >= 0) by (nonlinear_arith)
        requires
            len_sq == s * s + t * t,
    ;
    if len_sq == 0 || along <= 0 {
        if len_sq == 0 {
            assert(s == 0 && t == 0) by (nonlinear_arith)
                requires
                    s * s + t * t == 0,
            ;
            assert(along == 0);
        }
        assert((n * k) * along <= 0) by (nonlinear_arith)
            requires
                n > 0,
                k >= 0,
                along <= 0,
        ;
        assert((k * k) * len_sq >= 0) by (nonlinear_arith)
            requires
                len_sq >= 0,
        ;
        assert(4 * r <= reach) by (nonlinear_arith)
            requires
                4 * (nn * r) <= nn * reach,
                nn > 0,
        ;
    } else if along >= len_sq {
        let bu = px - b.x;
        let bv = py - b.y;
        let br = bu * bu + bv * bv;
        assert(br == r - 2 * along + len_sq) by (nonlinear_arith)
            requires
                bu == u - s,
                bv == v - t,
                br == bu * bu + bv * bv,
                r == u * u + v * v,
                along == u * s + v * t,
                len_sq == s * s + t * t,
        ;
        lemma_past_the_end(r, along, len_sq, k, n);
        assert(2 * (n * along) - len_sq * (n + k) >= 0) by (nonlinear_arith)
            requires
                along >= len_sq,
                len_sq >= 0,
                n > 0,
                0 <= k <= n,
        ;
        assert((n - k) * (2 * (n * along) - len_sq * (n + k)) >= 0) by (nonlinear_arith)
            requires
                2 * (n * along) - len_sq * (n + k) >= 0,
                k <= n,
        ;
        assert(4 * br <= reach) by (nonlinear_arith)
            requires
                4 * (nn * br) <= nn * reach,
                nn > 0,
        ;
    } else {
        let e = n * along - k * len_sq;
        let x2 = across * across;
        lemma_beside(r, along, x2, len_sq, k, n);
        assert(e * e >= 0) by (nonlinear_arith);
        assert(4 * (len_sq * f) <= len_sq * (nn * reach)) by (nonlinear_arith)
            requires
                4 * f <= nn * reach,
                len_sq > 0,
        ;
        assert(len_sq * (nn * reach) == nn * (reach * len_sq)) by (nonlinear_arith);
        assert(4 * x2 <= reach * len_sq) by (nonlinear_arith)
            requires
                4 * (nn * x2) <= nn * (reach * len_sq),
                nn > 0,
        ;
    }
}

/// Near a segment means near some point of it.
pub proof fn law_near_a_segment(px: int, py: int, a: Point, b: Point, diameter: int)
    ensures
        spec_near_segment(px, py, a, b, diameter) <==> along_stroke(px, py, a, b, diameter),
{
    if spec_near_segment(px, py, a, b, diameter) {
        lemma_near_is_reached(px, py, a, b, diameter);
    }
    if along_stroke(px, py, a, b, diameter) {
        let (k, n) = choose|k: int, n: int| #[trigger]
            within_reach(px, py, a, b, diameter, k, n);
        lemma_reached_is_near(px, py, a, b, diameter, k, n);
    }
}

/// Whether a stroke from `a` to `b` goes over the centre of pixel `(x, y)`.
pub open spec fn stroked(a: Point, b: Point, diameter: int, x: int, y: int) -> bool {
    along_stroke(256 * x + 128, 256 * y + 128, a, b, diameter)
}

/// What is near a segment is near the rectangle around it.
proof fn lemma_near_is_around(px: int, py: int, a: Point, b: Point, diameter: int)
    requires
        along_stroke(px, py, a, b, diameter),
        diameter > 0,
    ensures
        2 * spec_min(a.x as int, b.x as int) - diameter <= 2 * px <= 2 * spec_max(a.x as int, b.x as int) + diameter,
        2 * spec_min(a.y as int, b.y as int) - diameter <= 2 * py <= 2 * spec_max(a.y as int, b.y as int) + diameter,
{
    let (k, n) = choose|k: int, n: int| #[trigger] within_reach(px, py, a, b, diameter, k, n);
    let dx = n * (px - a.x) - k * (b.x - a.x);
    let dy = n * (py - a.y) - k * (b.y - a.y);
    let r = n * diameter;
    assert(dx * dx >= 0 && dy * dy >= 0) by (nonlinear_arith);
    assert(r > 0) by (nonlinear_arith)
        requires
            r == n * diameter,
            n > 0,
            diameter > 0,
    ;
    assert(-r <= 2 * dx <= r) by (nonlinear_arith)
        requires
            4 * (dx * dx) <= r * r,
            r > 0,
    ;
    assert(-r <= 2 * dy <= r) by (nonlinear_arith)
        requires
            4 * (dy * dy) <= r * r,
            r > 0,
    ;
    lemma_between(px, a.x as int, b.x as int, k, n, diameter);
    lemma_between(py, a.y as int, b.y as int, k, n, diameter);
}

proof fn lemma_between(p: int, a: int, b: int, k: int, n: int, diameter: int)
    requires
        n > 0,
        0 <= k <= n,
        -(n * diameter) <= 2 * (n * (p - a) - k * (b - a)) <= n * diameter,
    ensures
        2 * spec_min(a, b) - diameter <= 2 * p <= 2 * spec_max(a, b) + diameter,
{
    let lo = spec_min(a, b);
    let hi = spec_max(a, b);
    let m = k * (b - a);
    assert(n * (lo - a) <= m <= n * (hi - a)) by (nonlinear_arith)
        requires
            n > 0,
            0 <= k <= n,
            m == k * (b - a),
            lo <= a <= hi,
            lo <= b <= hi,
            lo == a || lo == b,
            hi == a || hi == b,
    ;
    assert(2 * lo - diameter <= 2 * p) by (nonlinear_arith)
        requires
            -(n * diameter) <= 2 * (n * (p - a) - m),
            n * (lo - a) <= m,
            n > 0,
    ;
    assert(2 * p <= 2 * hi + diameter) by (nonlinear_arith)
        requires
            2 * (n * (p - a) - m) <= n * diameter,
            m <= n * (hi - a),
            n > 0,
    ;
}

proof fn lemma_capsule(a: Point, b: Point, diameter: u16, x: int, y: int)
    requires
        diameter > 0,
    ensures
        (Region::Capsule { a, b, diameter }).covers(x, y) <==> stroked(a, b, diameter as int, x, y),
{
    let px = 256 * x + 128;
    let py = 256 * y + 128;
    law_near_a_segment(px, py, a, b, diameter as int);
    if stroked(a, b, diameter as int, x, y) {
        lemma_near_is_around(px, py, a, b, diameter as int);
    }
}

/// Whether the centre of pixel `(x, y)` is within half of `diameter` of a point.
pub open spec fn dotted(centre: Point, diameter: int, x: int, y: int) -> bool {
    let dx = 256 * x + 128 - centre.x;
    let dy = 256 * y + 128 - centre.y;
    4 * (dx * dx + dy * dy) <= diameter * diameter
}

proof fn lemma_disc(center: Point, diameter: u16, x: int, y: int)
    requires
        diameter > 0,
    ensures
        (Region::Disc { center, diameter }).covers(x, y) <==> dotted(center, diameter as int, x, y),
        dotted(center, diameter as int, x, y) <==> stroked(
            center,
            center,
            diameter as int,
            x,
            y,
        ),
{
    let px = 256 * x + 128;
    let py = 256 * y + 128;
    law_near_a_segment(px, py, center, center, diameter as int);
    if dotted(center, diameter as int, x, y) {
        lemma_near_is_around(px, py, center, center, diameter as int);
    }
}

/// A dot at either end of a stroke goes no further than the stroke.
proof fn lemma_dot_in_stroke(a: Point, b: Point, diameter: int, x: int, y: int)
    ensures
        dotted(a, diameter, x, y) ==> stroked(a, b, diameter, x, y),
        dotted(b, diameter, x, y) ==> stroked(a, b, diameter, x, y),
{
    let px = 256 * x + 128;
    let py = 256 * y + 128;
    if dotted(a, diameter, x, y) {
        assert(within_reach(px, py, a, b, diameter, 0, 1));
    }
    if dotted(b, diameter, x, y) {
        assert(within_reach(px, py, a, b, diameter, 1, 1));
    }
}

/// Whether `(px, py)` is the mean of the three corners under the weights `i`, `j`
/// and `k`, none of which is negative.
pub open spec fn weighed(
    px: int,
    py: int,
    a: Point,
    b: Point,
    c: Point,
    i: int,
    j: int,
    k: int,
) -> bool {
    &&& i >= 0 && j >= 0 && k >= 0 && i + j + k > 0
    &&& (i + j + k) * px == i * a.x + j * b.x + k * c.x
    &&& (i + j + k) * py == i * a.y + j * b.y + k * c.y
}

/// Whether the three points lie on one line.
pub open spec fn in_line(a: Point, b: Point, c: Point) -> bool {
    (b.x - a.x) * (c.y - a.y) == (b.y - a.y) * (c.x - a.x)
}

/// Whether the centre of pixel `(x, y)` lies in the triangle between three points
/// that do not lie on one line.
pub open spec fn in_wedge(a: Point, b: Point, c: Point, x: int, y: int) -> bool {
    &&& !in_line(a, b, c)
    &&& exists|i: int, j: int, k: int| #[trigger]
        weighed(256 * x + 128, 256 * y + 128, a, b, c, i, j, k)
}

proof fn lemma_product_expands(a: int, b: int, c: int, d: int)
    ensures
        (a - b) * (c - d) == a * c - a * d - b * c + b * d,
{
    assert((a - b) * (c - d) == a * c - a * d - b * c + b * d) by (nonlinear_arith);
}

/// What the three partial areas of a triangle add up to, and where they put the
/// point.
proof fn lemma_areas(
    x0: int,
    y0: int,
    x1: int,
    y1: int,
    x2: int,
    y2: int,
    px: int,
    py: int,
)
    ensures
        ({
            let w0 = edge(x1, y1, x2, y2, px, py);
            let w1 = edge(x2, y2, x0, y0, px, py);
            let w2 = edge(x0, y0, x1, y1, px, py);
            let t = edge(x0, y0, x1, y1, x2, y2);
            &&& w0 + w1 + w2 == t
            &&& t * px == w0 * x0 + w1 * x1 + w2 * x2
            &&& t * py == w0 * y0 + w1 * y1 + w2 * y2
        }),
{
    // Measured from the first corner, so that its own terms vanish.
    let u = x1 - x0;
    let v = y1 - y0;
    let s = x2 - x0;
    let t = y2 - y0;
    let p = px - x0;
    let q = py - y0;
    let w0 = edge(x1, y1, x2, y2, px, py);
    let w1 = edge(x2, y2, x0, y0, px, py);
    let w2 = edge(x0, y0, x1, y1, px, py);
    let all = edge(x0, y0, x1, y1, x2, y2);
    assert(w2 == u * q - v * p);
    assert(all == u * t - v * s);
    assert(w1 == t * p - s * q) by {
        assert(w1 == (x0 - x2) * (py - y2) - (y0 - y2) * (px - x2));
        lemma_product_expands(0, s, q, t);
        lemma_product_expands(0, t, p, s);
        assert((x0 - x2) * (py - y2) == (0 - s) * (q - t));
        assert((y0 - y2) * (px - x2) == (0 - t) * (p - s));
        assert(s * t == t * s) by (nonlinear_arith);
        assert(0 * q == 0 && 0 * t == 0 && 0 * p == 0 && 0 * s == 0);
    }
    assert(w0 == all - w1 - w2) by {
        lemma_product_expands(s, u, q, v);
        lemma_product_expands(t, v, p, u);
        assert(w0 == (s - u) * (q - v) - (t - v) * (p - u));
        assert(u * v == v * u) by (nonlinear_arith);
        assert(s * v == v * s) by (nonlinear_arith);
        assert(t * u == u * t) by (nonlinear_arith);
    }
    assert(all * p == w1 * u + w2 * s) by {
        assert(all * p == u * t * p - v * s * p) by (nonlinear_arith)
            requires
                all == u * t - v * s,
        ;
        assert(w1 * u == u * t * p - s * q * u) by (nonlinear_arith)
            requires
                w1 == t * p - s * q,
        ;
        assert(w2 * s == s * q * u - v * s * p) by (nonlinear_arith)
            requires
                w2 == u * q - v * p,
        ;
    }
    assert(all * q == w1 * v + w2 * t) by {
        assert(all * q == u * t * q - v * s * q) by (nonlinear_arith)
            requires
                all == u * t - v * s,
        ;
        assert(w1 * v == v * t * p - v * s * q) by (nonlinear_arith)
            requires
                w1 == t * p - s * q,
        ;
        assert(w2 * t == u * t * q - v * t * p) by (nonlinear_arith)
            requires
                w2 == u * q - v * p,
        ;
    }
    lemma_mean_from_corner(all, w0, w1, w2, px, x0, x1, x2);
    lemma_mean_from_corner(all, w0, w1, w2, py, y0, y1, y2);
}

/// A mean measured from one of its corners is the mean.
proof fn lemma_mean_from_corner(
    all: int,
    w0: int,
    w1: int,
    w2: int,
    p: int,
    a: int,
    b: int,
    c: int,
)
    requires
        all * (p - a) == w1 * (b - a) + w2 * (c - a),
        w0 == all - w1 - w2,
    ensures
        all * p == w0 * a + w1 * b + w2 * c,
{
    assert(all * (p - a) == all * p - all * a) by (nonlinear_arith);
    assert(w1 * (b - a) == w1 * b - w1 * a) by (nonlinear_arith);
    assert(w2 * (c - a) == w2 * c - w2 * a) by (nonlinear_arith);
    assert((all - w1 - w2) * a == all * a - w1 * a - w2 * a) by (nonlinear_arith);
}

/// How a partial area of a triangle grows with the point.
proof fn lemma_area_of_mean(
    x1: int,
    y1: int,
    x2: int,
    y2: int,
    px: int,
    py: int,
    w: int,
    mx: int,
    my: int,
)
    requires
        w * px == mx,
        w * py == my,
    ensures
        w * edge(x1, y1, x2, y2, px, py) == (x2 - x1) * (my - w * y1) - (y2 - y1) * (mx - w * x1),
{
    let u = x2 - x1;
    let v = y2 - y1;
    assert(w * (u * (py - y1)) == u * (my - w * y1)) by (nonlinear_arith)
        requires
            w * py == my,
    ;
    assert(w * (v * (px - x1)) == v * (mx - w * x1)) by (nonlinear_arith)
        requires
            w * px == mx,
    ;
    lemma_spread(w, u * (py - y1), v * (px - x1));
}

/// The partial area that one weight stands for.
proof fn lemma_weight_is_area(
    x0: int,
    y0: int,
    x1: int,
    y1: int,
    x2: int,
    y2: int,
    px: int,
    py: int,
    i: int,
    j: int,
    k: int,
)
    requires
        (i + j + k) * px == i * x0 + j * x1 + k * x2,
        (i + j + k) * py == i * y0 + j * y1 + k * y2,
    ensures
        (i + j + k) * edge(x1, y1, x2, y2, px, py) == i * edge(x1, y1, x2, y2, x0, y0),
{
    let w = i + j + k;
    let u = x2 - x1;
    let v = y2 - y1;
    let s = x0 - x1;
    let t = y0 - y1;
    let mx = i * x0 + j * x1 + k * x2;
    let my = i * y0 + j * y1 + k * y2;
    lemma_area_of_mean(x1, y1, x2, y2, px, py, w, mx, my);
    assert(mx - w * x1 == i * s + k * u) by (nonlinear_arith)
        requires
            mx == i * x0 + j * x1 + k * x2,
            w == i + j + k,
            s == x0 - x1,
            u == x2 - x1,
    ;
    assert(my - w * y1 == i * t + k * v) by (nonlinear_arith)
        requires
            my == i * y0 + j * y1 + k * y2,
            w == i + j + k,
            t == y0 - y1,
            v == y2 - y1,
    ;
    lemma_spread(u, i * t, k * v);
    lemma_spread(v, i * s, k * u);
    assert(u * (i * t) == i * (u * t)) by (nonlinear_arith);
    assert(v * (i * s) == i * (v * s)) by (nonlinear_arith);
    assert(u * (k * v) == v * (k * u)) by (nonlinear_arith);
    lemma_spread(i, u * t, v * s);
}

proof fn lemma_same_sign(w: int, area: int, i: int, all: int)
    requires
        w > 0,
        i >= 0,
        w * area == i * all,
    ensures
        all > 0 ==> area >= 0,
        all < 0 ==> area <= 0,
{
    if all > 0 && area < 0 {
        assert(w * area < 0) by (nonlinear_arith)
            requires
                w > 0,
                area < 0,
        ;
        assert(i * all >= 0) by (nonlinear_arith)
            requires
                i >= 0,
                all > 0,
        ;
    }
    if all < 0 && area > 0 {
        assert(w * area > 0) by (nonlinear_arith)
            requires
                w > 0,
                area > 0,
        ;
        assert(i * all <= 0) by (nonlinear_arith)
            requires
                i >= 0,
                all < 0,
        ;
    }
}

proof fn lemma_mean_between(w: int, p: int, i: int, j: int, k: int, a: int, b: int, c: int)
    requires
        i >= 0,
        j >= 0,
        k >= 0,
        w == i + j + k,
        w > 0,
        w * p == i * a + j * b + k * c,
    ensures
        spec_min(spec_min(a, b), c) <= p <= spec_max(spec_max(a, b), c),
{
    let lo = spec_min(spec_min(a, b), c);
    let hi = spec_max(spec_max(a, b), c);
    assert(i * lo <= i * a && j * lo <= j * b && k * lo <= k * c) by (nonlinear_arith)
        requires
            i >= 0,
            j >= 0,
            k >= 0,
            lo <= a,
            lo <= b,
            lo <= c,
    ;
    assert(i * a <= i * hi && j * b <= j * hi && k * c <= k * hi) by (nonlinear_arith)
        requires
            i >= 0,
            j >= 0,
            k >= 0,
            a <= hi,
            b <= hi,
            c <= hi,
    ;
    assert(w * lo == i * lo + j * lo + k * lo && w * hi == i * hi + j * hi + k * hi)
        by (nonlinear_arith)
        requires
            w == i + j + k,
    ;
    assert(lo <= p <= hi) by (nonlinear_arith)
        requires
            w * lo <= w * p,
            w * p <= w * hi,
            w > 0,
    ;
}

proof fn lemma_triangle(a: Point, b: Point, c: Point, x: int, y: int)
    ensures
        (Region::Triangle { a, b, c }).covers(x, y) <==> in_wedge(a, b, c, x, y),
{
    let (x0, y0) = (a.x as int, a.y as int);
    let (x1, y1) = (b.x as int, b.y as int);
    let (x2, y2) = (c.x as int, c.y as int);
    let px = 256 * x + 128;
    let py = 256 * y + 128;
    let w0 = edge(x1, y1, x2, y2, px, py);
    let w1 = edge(x2, y2, x0, y0, px, py);
    let w2 = edge(x0, y0, x1, y1, px, py);
    let all = edge(x0, y0, x1, y1, x2, y2);
    let region = Region::Triangle { a, b, c };
    lemma_areas(x0, y0, x1, y1, x2, y2, px, py);
    assert(all == 0 <==> in_line(a, b, c));
    if region.covers(x, y) {
        if all > 0 {
            assert(weighed(px, py, a, b, c, w0, w1, w2));
        } else {
            assert((-w0) * x0 == -(w0 * x0) && (-w1) * x1 == -(w1 * x1) && (-w2) * x2 == -(w2 * x2))
                by (nonlinear_arith);
            assert((-w0) * y0 == -(w0 * y0) && (-w1) * y1 == -(w1 * y1) && (-w2) * y2 == -(w2 * y2))
                by (nonlinear_arith);
            assert((-all) * px == -(all * px) && (-all) * py == -(all * py)) by (nonlinear_arith);
            assert(weighed(px, py, a, b, c, -w0, -w1, -w2));
        }
    }
    if in_wedge(a, b, c, x, y) {
        let (i, j, k) = choose|i: int, j: int, k: int| #[trigger]
            weighed(px, py, a, b, c, i, j, k);
        let w = i + j + k;
        lemma_weight_is_area(x0, y0, x1, y1, x2, y2, px, py, i, j, k);
        lemma_weight_is_area(x1, y1, x2, y2, x0, y0, px, py, j, k, i);
        lemma_weight_is_area(x2, y2, x0, y0, x1, y1, px, py, k, i, j);
        lemma_areas(x0, y0, x1, y1, x2, y2, x0, y0);
        lemma_areas(x0, y0, x1, y1, x2, y2, x1, y1);
        lemma_areas(x0, y0, x1, y1, x2, y2, x2, y2);
        lemma_own_areas(x0, y0, x1, y1, x2, y2);
        assert(j + k + i == w && k + i + j == w);
        lemma_same_sign(w, w0, i, all);
        lemma_same_sign(w, w1, j, all);
        lemma_same_sign(w, w2, k, all);
        lemma_mean_between(w, px, i, j, k, x0, x1, x2);
        lemma_mean_between(w, py, i, j, k, y0, y1, y2);
    }
}

/// Each corner faces the whole area.
proof fn lemma_own_areas(x0: int, y0: int, x1: int, y1: int, x2: int, y2: int)
    ensures
        edge(x1, y1, x2, y2, x0, y0) == edge(x0, y0, x1, y1, x2, y2),
        edge(x2, y2, x0, y0, x1, y1) == edge(x0, y0, x1, y1, x2, y2),
{
    lemma_areas(x0, y0, x1, y1, x2, y2, x0, y0);
    lemma_areas(x0, y0, x1, y1, x2, y2, x1, y1);
    assert(edge(x2, y2, x0, y0, x0, y0) == 0) by (nonlinear_arith);
    assert(edge(x0, y0, x1, y1, x0, y0) == 0) by (nonlinear_arith);
    assert(edge(x1, y1, x2, y2, x1, y1) == 0) by (nonlinear_arith);
    assert(edge(x0, y0, x1, y1, x1, y1) == 0) by (nonlinear_arith);
}

/// Whether `at` is the whole number nearest to `from - num / den`, unless it is
/// held at an end of the coordinate range.
pub open spec fn set_back(at: i32, from: i32, num: int, den: int) -> bool {
    i32::MIN < at < i32::MAX ==> -den <= 2 * (den * (from - at) - num) <= den
}

/// Whether `p` lies `back` tenths of `head` back from the tip of an arrow that
/// runs `(dx, dy)` in all, `length` long, and `aside` tenths to its side.
pub open spec fn behind_tip(
    p: Point,
    tip: Point,
    dx: int,
    dy: int,
    head: int,
    length: int,
    back: int,
    aside: int,
) -> bool {
    &&& set_back(p.x, tip.x, (back * dx + aside * dy) * head, 10 * length)
    &&& set_back(p.y, tip.y, (back * dy - aside * dx) * head, 10 * length)
}

proof fn lemma_set_back(from: i32, num: int, den: int)
    requires
        den > 0,
    ensures
        set_back(
            crate::units::spec_coord(from - crate::compose::div_round(num, den)) as i32,
            from,
            num,
            den,
        ),
{
    let q = crate::compose::div_round(num, den);
    assert(-den <= 2 * (den * q - num) <= den) by {
        if num >= 0 {
            let n = 2 * num + den;
            let d = 2 * den;
            vstd::arithmetic::div_mod::lemma_fundamental_div_mod(n, d);
            assert(0 <= n % d < d);
            assert(d * q == 2 * (den * q)) by (nonlinear_arith)
                requires
                    d == 2 * den,
            ;
        } else {
            let n = den - 2 * num;
            let d = 2 * den;
            vstd::arithmetic::div_mod::lemma_fundamental_div_mod(n, d);
            assert(0 <= n % d < d);
            assert(d * (-q) == -(2 * (den * q))) by (nonlinear_arith)
                requires
                    d == 2 * den,
            ;
        }
    }
}

/// An arrow's head points at its end: the shaft stops six tenths of the head
/// short of it, and the head's two back corners lie the whole head back, three
/// tenths of it to either side. The head is four strokes long, at least twelve
/// pixels and at most the whole arrow.
pub proof fn law_arrow_head_points_at_the_end(start: Point, end: Point, stroke: u32, length: int)
    requires
        length > 0,
        length * length <= spec_dist_sq(
            start.x as int,
            start.y as int,
            end.x as int,
            end.y as int,
        ) < (length + 1) * (length + 1),
    ensures
        ({
            let dx = end.x - start.x;
            let dy = end.y - start.y;
            let wanted = if 4 * stroke >= 3072 {
                4 * stroke
            } else {
                3072
            };
            let head = if wanted <= length {
                wanted
            } else {
                length
            };
            let h = arrow_head(start, end, stroke);
            &&& behind_tip(h.shaft_end, end, dx, dy, head, length, 6, 0)
            &&& behind_tip(h.left, end, dx, dy, head, length, 10, 3)
            &&& behind_tip(h.right, end, dx, dy, head, length, 10, -3)
        }),
{
    let n = spec_dist_sq(start.x as int, start.y as int, end.x as int, end.y as int);
    assert(is_root(length, n));
    lemma_root_unique(length, n);
    let dx = end.x - start.x;
    let dy = end.y - start.y;
    let head = crate::compose::head_length(stroke, length);
    let den = 10 * length;
    lemma_set_back(end.x, (6 * dx + 0 * dy) * head, den);
    lemma_set_back(end.y, (6 * dy - 0 * dx) * head, den);
    lemma_set_back(end.x, (10 * dx + 3 * dy) * head, den);
    lemma_set_back(end.y, (10 * dy - 3 * dx) * head, den);
    lemma_set_back(end.x, (10 * dx + -3 * dy) * head, den);
    lemma_set_back(end.y, (10 * dy - -3 * dx) * head, den);
}

/// Whether a pixel is of an opaque colour.
pub open spec fn of_colour(pixels: Seq<u8>, width: int, x: int, y: int, color: Color) -> bool {
    forall|c: int| 0 <= c < 4 ==> #[trigger] channel(pixels, width, x, y, c) == ink(color, c)
}

/// What an opaque region leaves of a pixel that is either of its colour already or
/// as it was at first.
proof fn lemma_layer(
    first: Seq<u8>,
    buf: Seq<u8>,
    width: int,
    height: int,
    region: Region,
    color: Color,
    x: int,
    y: int,
    before: bool,
)
    requires
        on_sheet(first, width, height, x, y),
        buf.len() == first.len(),
        color.a == 255,
        before ==> of_colour(buf, width, x, y, color),
        !before ==> kept(first, buf, width, x, y),
    ensures
        ({
            let after = region_painted(buf, width, height, region, color);
            let now = before || region.covers(x, y);
            &&& after.len() == first.len()
            &&& now ==> of_colour(after, width, x, y, color)
            &&& !now ==> kept(first, after, width, x, y)
        }),
{
    lemma_region(buf, width, height, region, color, x, y);
    let after = region_painted(buf, width, height, region, color);
    if region.covers(x, y) {
        assert forall|c: int| 0 <= c < 4 implies #[trigger] channel(after, width, x, y, c) == ink(
            color,
            c,
        ) by {
            assert(laid_over(
                channel(after, width, x, y, c),
                channel(buf, width, x, y, c),
                color,
                c,
            ));
        }
    } else if before {
        assert forall|c: int| 0 <= c < 4 implies #[trigger] channel(after, width, x, y, c) == ink(
            color,
            c,
        ) by {
            assert(channel(after, width, x, y, c) == channel(buf, width, x, y, c));
        }
    } else {
        assert forall|c: int| 0 <= c < 4 implies #[trigger] channel(after, width, x, y, c)
            == channel(first, width, x, y, c) by {
            assert(channel(after, width, x, y, c) == channel(buf, width, x, y, c));
            assert(channel(buf, width, x, y, c) == channel(first, width, x, y, c));
        }
    }
}

/// An arrow is painted as a stroke from its start to where its head begins, and a
/// wedge from there to its end; one shorter than half a pixel is a dot at its end.
/// No other pixel changes.
pub proof fn law_arrow_paints_a_shaft_and_a_head(
    buf: Seq<u8>,
    width: int,
    height: int,
    m: Mark,
    start: Point,
    end: Point,
    palette: ColorPalette,
    run: Option<TextRun>,
    x: int,
    y: int,
)
    requires
        m.shape == (Figure::Arrow { start, end }),
        on_sheet(buf, width, height, x, y),
        picked(m.color, palette).a == 255,
    ensures
        ({
            let after = mark_painted(buf, width, height, m, palette, run);
            let color = picked(m.color, palette);
            let stroke = visible_stroke(m.stroke_width);
            let dx = end.x - start.x;
            let dy = end.y - start.y;
            let head = arrow_head(start, end, m.stroke_width as u32);
            let drawn = if dx * dx + dy * dy < 128 * 128 {
                dotted(end, stroke, x, y)
            } else {
                stroked(start, head.shaft_end, stroke, x, y) || in_wedge(
                    end,
                    head.left,
                    head.right,
                    x,
                    y,
                )
            };
            &&& after.len() == buf.len()
            &&& drawn ==> of_colour(after, width, x, y, color)
            &&& !drawn ==> kept(buf, after, width, x, y)
        }),
{
    let color = picked(m.color, palette);
    let diameter = visible_stroke(m.stroke_width) as u16;
    let head = arrow_head(start, end, m.stroke_width as u32);
    let dx = end.x - start.x;
    let dy = end.y - start.y;
    let ex = start.x - end.x;
    let ey = start.y - end.y;
    assert(ex * ex == dx * dx && ey * ey == dy * dy) by (nonlinear_arith)
        requires
            ex == -dx,
            ey == -dy,
    ;
    if dx * dx + dy * dy < 128 * 128 {
        let dot = Region::Disc { center: end, diameter };
        lemma_disc(end, diameter, x, y);
        lemma_layer(buf, buf, width, height, dot, color, x, y, false);
    } else {
        let shaft = Region::Capsule { a: start, b: head.shaft_end, diameter };
        let wedge = Region::Triangle { a: end, b: head.left, c: head.right };
        lemma_capsule(start, head.shaft_end, diameter, x, y);
        lemma_triangle(end, head.left, head.right, x, y);
        lemma_layer(buf, buf, width, height, shaft, color, x, y, false);
        let mid = region_painted(buf, width, height, shaft, color);
        lemma_layer(buf, mid, width, height, wedge, color, x, y, shaft.covers(x, y));
    }
}

/// Whether one of the first `n` strokes between points in a row goes over the
/// centre of pixel `(x, y)`.
pub open spec fn scribbled(points: Seq<Point>, diameter: int, n: int, x: int, y: int) -> bool {
    exists|i: int| 0 <= i < n && stroked(#[trigger] points[i], points[i + 1], diameter, x, y)
}

proof fn lemma_segments(
    buf: Seq<u8>,
    width: int,
    height: int,
    points: Seq<Point>,
    diameter: u16,
    color: Color,
    n: int,
    x: int,
    y: int,
)
    requires
        on_sheet(buf, width, height, x, y),
        color.a == 255,
        diameter > 0,
        n < points.len() || n <= 0,
    ensures
        ({
            let after = segments_painted(buf, width, height, points, diameter, color, n);
            let drawn = scribbled(points, diameter as int, n, x, y);
            &&& after.len() == buf.len()
            &&& drawn ==> of_colour(after, width, x, y, color)
            &&& !drawn ==> kept(buf, after, width, x, y)
        }),
    decreases n,
{
    if n > 0 {
        lemma_segments(buf, width, height, points, diameter, color, n - 1, x, y);
        let mid = segments_painted(buf, width, height, points, diameter, color, n - 1);
        let region = Region::Capsule { a: points[n - 1], b: points[n], diameter };
        let before = scribbled(points, diameter as int, n - 1, x, y);
        lemma_capsule(points[n - 1], points[n], diameter, x, y);
        lemma_layer(buf, mid, width, height, region, color, x, y, before);
        if before {
            let i = choose|i: int|
                0 <= i < n - 1 && stroked(
                    #[trigger] points[i],
                    points[i + 1],
                    diameter as int,
                    x,
                    y,
                );
            assert(stroked(points[i], points[i + 1], diameter as int, x, y));
        }
        if region.covers(x, y) {
            assert(stroked(points[n - 1], points[n - 1 + 1], diameter as int, x, y));
        }
    }
}

proof fn lemma_joints(
    first: Seq<u8>,
    buf: Seq<u8>,
    width: int,
    height: int,
    points: Seq<Point>,
    diameter: u16,
    color: Color,
    n: int,
    x: int,
    y: int,
)
    requires
        on_sheet(first, width, height, x, y),
        buf.len() == first.len(),
        color.a == 255,
        diameter > 0,
        n < points.len() - 1 || n <= 0,
        scribbled(points, diameter as int, points.len() - 1, x, y) ==> of_colour(
            buf,
            width,
            x,
            y,
            color,
        ),
        !scribbled(points, diameter as int, points.len() - 1, x, y) ==> kept(
            first,
            buf,
            width,
            x,
            y,
        ),
    ensures
        ({
            let after = joints_painted(buf, width, height, points, diameter, color, n);
            let drawn = scribbled(points, diameter as int, points.len() - 1, x, y);
            &&& after.len() == first.len()
            &&& drawn ==> of_colour(after, width, x, y, color)
            &&& !drawn ==> kept(first, after, width, x, y)
        }),
    decreases n,
{
    if n > 0 {
        lemma_joints(first, buf, width, height, points, diameter, color, n - 1, x, y);
        let mid = joints_painted(buf, width, height, points, diameter, color, n - 1);
        let drawn = scribbled(points, diameter as int, points.len() - 1, x, y);
        let region = Region::Disc { center: points[n], diameter };
        lemma_disc(points[n], diameter, x, y);
        lemma_dot_in_stroke(points[n], points[n + 1], diameter as int, x, y);
        lemma_layer(first, mid, width, height, region, color, x, y, drawn);
        if region.covers(x, y) {
            assert(stroked(points[n], points[n + 1], diameter as int, x, y));
        }
    }
}

/// A freehand line is painted as a stroke through its points in their order, and
/// no pixel off it changes.
pub proof fn law_freehand_paints_a_stroke(
    buf: Seq<u8>,
    width: int,
    height: int,
    m: Mark,
    points: Seq<Point>,
    palette: ColorPalette,
    run: Option<TextRun>,
    x: int,
    y: int,
)
    requires
        m.shape == (Figure::Freehand { points }),
        on_sheet(buf, width, height, x, y),
        picked(m.color, palette).a == 255,
    ensures
        ({
            let after = mark_painted(buf, width, height, m, palette, run);
            let drawn = scribbled(
                points,
                visible_stroke(m.stroke_width),
                points.len() - 1,
                x,
                y,
            );
            &&& after.len() == buf.len()
            &&& drawn ==> of_colour(after, width, x, y, picked(m.color, palette))
            &&& !drawn ==> kept(buf, after, width, x, y)
        }),
{
    let color = picked(m.color, palette);
    let diameter = visible_stroke(m.stroke_width) as u16;
    let n = points.len() - 1;
    lemma_segments(buf, width, height, points, diameter, color, n, x, y);
    let lines = segments_painted(buf, width, height, points, diameter, color, n);
    lemma_joints(buf, lines, width, height, points, diameter, color, n - 1, x, y);
}

/// A badge is a terracotta disc fourteen pixels in radius, whatever the chosen
/// colour, where its number could not be shaped; no other pixel changes.
pub proof fn law_badge_paints_a_disc(
    buf: Seq<u8>,
    width: int,
    height: int,
    m: Mark,
    position: Point,
    number: u32,
    palette: ColorPalette,
    x: int,
    y: int,
)
    requires
        m.shape == (Figure::Step { position, number }),
        on_sheet(buf, width, height, x, y),
    ensures
        ({
            let after = mark_painted(buf, width, height, m, palette, None);
            &&& after.len() == buf.len()
            &&& dotted(position, 7168, x, y) ==> covered(
                buf,
                after,
                width,
                x,
                y,
                palette.terracotta,
            )
            &&& !dotted(position, 7168, x, y) ==> kept(buf, after, width, x, y)
        }),
{
    let region = Region::Disc { center: position, diameter: 7168 };
    lemma_region(buf, width, height, region, palette.terracotta, x, y);
    lemma_disc(position, 7168, x, y);
}

/// A caption that could not be shaped, or that is blank or has no size, leaves
/// every byte as it is.
pub proof fn law_blank_caption_paints_nothing(
    buf: Seq<u8>,
    width: int,
    height: int,
    m: Mark,
    position: Point,
    content: Seq<char>,
    size: u32,
    palette: ColorPalette,
    run: Option<TextRun>,
)
    requires
        m.shape == (Figure::Text { position, content, size }),
        run is None || size == 0 || trimmed_text(content).len() == 0,
    ensures
        mark_painted(buf, width, height, m, palette, run) == buf,
{
}

/// The text that a mark writes and its colour, as long as there is something to
/// write: a caption's own words in its own colour, or a badge's number in ivory.
pub open spec fn writes(m: Mark, palette: ColorPalette) -> Option<(Point, bool, Color)> {
    match m.shape {
        Figure::Text { position, content, size } => if trimmed_text(content).len() == 0 || size
            == 0 {
            None
        } else {
            Some((position, false, picked(m.color, palette)))
        },
        Figure::Step { position, number } => Some((position, true, palette.ivory)),
        _ => None,
    }
}

/// Whether `at` is the pixel nearest to where a text begins: at its position, or,
/// where it is centred, as far before its position as the middle of the text is
/// from its beginning.
pub open spec fn begins_at(at: int, position: int, centred: bool, doubled_middle: int) -> bool {
    let from = 2 * position - (if centred {
        doubled_middle
    } else {
        0
    });
    -256 <= 512 * at - from <= 256
}

/// Whether a glyph of a text that begins at pixel `(ox, oy)` was laid over pixel
/// `(x, y)` as far as its block takes it in, and the pixel kept else.
pub open spec fn laid_from(
    ox: int,
    oy: int,
    before: Seq<u8>,
    after: Seq<u8>,
    width: int,
    x: int,
    y: int,
    glyph: Glyph,
    alpha: u8,
) -> bool {
    let paint = Color {
        r: glyph.r,
        g: glyph.g,
        b: glyph.b,
        a: (glyph.coverage * alpha / 255) as u8,
    };
    if ox + glyph.x <= x < ox + glyph.x + glyph.width && oy + glyph.y <= y < oy + glyph.y
        + glyph.height {
        covered(before, after, width, x, y, paint)
    } else {
        kept(before, after, width, x, y)
    }
}

proof fn lemma_number_is_not_blank(n: nat)
    ensures
        trimmed_text(crate::text::decimal_text(n)).len() > 0,
{
    crate::text::lemma_decimal_is_solid(n);
}

proof fn lemma_rounded(v: int)
    ensures
        -256 <= 512 * crate::compose::div_round(v, 512) - v <= 256,
{
    if v >= 0 {
        let q = (2 * v + 512) / 1024;
        assert(1024 * q <= 2 * v + 512 < 1024 * q + 1024);
        assert(crate::compose::div_round(v, 512) == q);
    } else {
        let q = (512 - 2 * v) / 1024;
        assert(1024 * q <= 512 - 2 * v < 1024 * q + 1024);
        assert(crate::compose::div_round(v, 512) == -q);
    }
}

/// A text is painted glyph by glyph: the last one goes over what the others left,
/// on the pixels of its block and no others, in its own colour, its coverage
/// weighed by the text's opacity. All blocks are placed from one pixel, the one
/// nearest to where the text begins. Without a glyph, a text is as one that could
/// not be shaped.
pub proof fn law_text_is_painted_glyph_by_glyph(
    buf: Seq<u8>,
    width: int,
    height: int,
    m: Mark,
    palette: ColorPalette,
    fewer: TextRun,
    run: TextRun,
    x: int,
    y: int,
)
    requires
        writes(m, palette) is Some,
        on_sheet(buf, width, height, x, y),
        run.glyphs@.len() > 0,
        fewer.glyphs@ == run.glyphs@.drop_last(),
        fewer.width == run.width,
        fewer.top == run.top,
        fewer.bottom == run.bottom,
    ensures
        fewer.glyphs@.len() == 0 ==> mark_painted(buf, width, height, m, palette, Some(fewer))
            == mark_painted(buf, width, height, m, palette, None),
        ({
            let (position, centred, color) = writes(m, palette)->0;
            let glyph = run.glyphs@.last();
            let before = mark_painted(buf, width, height, m, palette, Some(fewer));
            let after = mark_painted(buf, width, height, m, palette, Some(run));
            exists|ox: int, oy: int| #[trigger]
                laid_from(ox, oy, before, after, width, x, y, glyph, color.a) && begins_at(
                    ox,
                    position.x as int,
                    centred,
                    run.width as int,
                ) && begins_at(oy, position.y as int, centred, run.top + run.bottom)
        }),
{
    let (position, centred, color) = writes(m, palette)->0;
    let glyph = run.glyphs@.last();
    let align = if centred {
        TextRasterAlign::Center
    } else {
        TextRasterAlign::TopLeft
    };
    let under = match m.shape {
        Figure::Step { position, number } => {
            lemma_number_is_not_blank(number as nat);
            lemma_region(
                buf,
                width,
                height,
                Region::Disc { center: position, diameter: 7168 },
                palette.terracotta,
                x,
                y,
            );
            region_painted(
                buf,
                width,
                height,
                Region::Disc { center: position, diameter: 7168 },
                palette.terracotta,
            )
        },
        _ => buf,
    };
    let n = run.glyphs@.len() as int;
    let origin = text_origin(position, align, run);
    assert(origin == text_origin(position, align, fewer));
    lemma_glyph_prefix(under, width, height, run.glyphs@, fewer.glyphs@, origin, color.a, n - 1);
    lemma_glyphs_len(under, width, height, run.glyphs@, origin, color.a, n - 1);
    let before = glyphs_painted(under, width, height, run.glyphs@, origin, color.a, n - 1);
    assert(mark_painted(buf, width, height, m, palette, Some(fewer)) == before);
    let after = mark_painted(buf, width, height, m, palette, Some(run));
    let block = glyph_block(glyph, origin);
    let paint = glyph_color(glyph, color.a);
    assert(after == region_painted(before, width, height, block, paint));
    lemma_region(before, width, height, block, paint, x, y);
    let (ox, oy) = origin;
    if centred {
        lemma_rounded(2 * position.x - run.width);
        lemma_rounded(2 * position.y - (run.top + run.bottom));
    } else {
        lemma_rounded(2 * position.x);
        lemma_rounded(2 * position.y);
    }
    assert(laid_from(ox, oy, before, after, width, x, y, glyph, color.a));
}

proof fn lemma_glyph_prefix(
    buf: Seq<u8>,
    width: int,
    height: int,
    a: Seq<Glyph>,
    b: Seq<Glyph>,
    origin: (int, int),
    alpha: u8,
    n: int,
)
    requires
        n <= a.len(),
        n <= b.len(),
        forall|i: int| 0 <= i < n ==> a[i] == b[i],
    ensures
        glyphs_painted(buf, width, height, a, origin, alpha, n) == glyphs_painted(
            buf,
            width,
            height,
            b,
            origin,
            alpha,
            n,
        ),
    decreases n,
{
    if n > 0 {
        lemma_glyph_prefix(buf, width, height, a, b, origin, alpha, n - 1);
    }
}

proof fn lemma_glyphs_len(
    buf: Seq<u8>,
    width: int,
    height: int,
    glyphs: Seq<Glyph>,
    origin: (int, int),
    alpha: u8,
    n: int,
)
    ensures
        glyphs_painted(buf, width, height, glyphs, origin, alpha, n).len() == buf.len(),
    decreases n,
{
    if n > 0 {
        lemma_glyphs_len(buf, width, height, glyphs, origin, alpha, n - 1);
    }
}

/// The saved picture is the canvas with every annotation painted on, the later
/// over the earlier, each with its own shaped text.
pub proof fn law_later_annotations_lie_on_top(
    base: Picture,
    list: Seq<Mark>,
    palette: ColorPalette,
    runs: Seq<Option<TextRun>>,
)
    ensures
        list.len() == 0 ==> composed(base, list, palette, runs) == base,
        list.len() > 0 ==> ({
            let under = composed(base, list.drop_last(), palette, runs);
            let n = list.len() - 1;
            composed(base, list, palette, runs) == (Picture {
                pixels: mark_painted(
                    under.pixels,
                    base.width as int,
                    base.height as int,
                    list.last(),
                    palette,
                    if n < runs.len() {
                        runs[n]
                    } else {
                        None
                    },
                ),
                ..base
            })
        }),
{
    if list.len() > 0 {
        law_compose_is_in_order(base, list.drop_last(), list.last(), palette, runs);
        assert(list.drop_last().push(list.last()) =~= list);
    }
}

/// The text that is asked to be shaped is the one that is painted: a caption's words in
/// its own size and colour, from its corner on; a badge's number in ivory, about its
/// middle. Sizes are told in `1 / 4096` of a subpixel.
pub proof fn law_the_text_asked_for_is_the_marks_own(m: Mark, palette: ColorPalette)
    ensures
        match m.shape {
            Figure::Text { position, content, size } => mark_text(m, palette) == Some(
                (
                    content,
                    (size * 4096) as u64,
                    picked(m.color, palette),
                    position,
                    TextRasterAlign::TopLeft,
                ),
            ),
            Figure::Step { position, number } => mark_text(m, palette) matches Some(
                (words, size, color, at, align),
            ) && crate::text::number_of(words) == number && words.len() > 0 && size == 15414066
                && color == palette.ivory && at == position && align == TextRasterAlign::Center,
            _ => mark_text(m, palette) is None,
        },
{
    if let Figure::Step { position, number } = m.shape {
        crate::text::law_decimal_reads_back(number as nat);
    }
}

} // verus!
