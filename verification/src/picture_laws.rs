//! Laws of pictures: where each pixel of a crop, a thumbnail or a redaction
//! comes from.
use vstd::prelude::*;

use crate::blur::{
    axis_blurred, blurred, edge_sample, image_blurred, lemma_part_of_image_blur, lemma_pass_value,
    window_sum,
};
use crate::imaging::{thumb_side, thumb_source, thumbnail_of};
use crate::paint_laws::channel;
use crate::pixmap::{
    Picture, byte_x, byte_y, crop_height, crop_width, cropped, lemma_in_canvas, lemma_pixel_bytes,
    pixel_start, rgba_len, well_formed,
};
use crate::redact::{pixelated, row_count, row_sum, tile_count, tile_lo, tile_sum, under_rect};
use crate::single::{half_even, lemma_small_is_single, ratio_unit, single_from, spec_single};
use crate::units::PixelRect;

verus! {

/// Whether `(x, y)` is a pixel of the picture.
pub open spec fn has_pixel(p: Picture, x: int, y: int) -> bool {
    0 <= x < p.width && 0 <= y < p.height
}

/// Whether pixel `(x, y)` of `p` is pixel `(u, v)` of `q`, byte for byte.
pub open spec fn same_pixel(p: Picture, x: int, y: int, q: Picture, u: int, v: int) -> bool {
    forall|c: int|
        0 <= c < 4 ==> #[trigger] channel(p.pixels, p.width as int, x, y, c) == channel(
            q.pixels,
            q.width as int,
            u,
            v,
            c,
        )
}

/// A crop is what lay under its rectangle: every pixel of it is the pixel as far
/// from the corner of the rectangle as it is from the corner of the crop, and it
/// has every pixel of the picture that lies under the rectangle.
pub proof fn law_crop_is_what_lay_under_it(p: Picture, rect: PixelRect, x: int, y: int)
    requires
        well_formed(p),
        rect.x < p.width,
        rect.y < p.height,
    ensures
        has_pixel(cropped(p, rect), x, y) <==> 0 <= x < rect.width && 0 <= y < rect.height
            && has_pixel(p, rect.x + x, rect.y + y),
        has_pixel(cropped(p, rect), x, y) ==> same_pixel(
            cropped(p, rect),
            x,
            y,
            p,
            rect.x + x,
            rect.y + y,
        ),
        cropped(p, rect).scale == p.scale,
        well_formed(cropped(p, rect)),
{
    let out = cropped(p, rect);
    let w = crop_width(p, rect);
    let h = crop_height(p, rect);
    assert(rgba_len(w, h) >= 0) by (nonlinear_arith)
        requires
            w >= 0,
            h >= 0,
    ;
    if has_pixel(out, x, y) {
        assert forall|c: int| 0 <= c < 4 implies #[trigger] channel(
            out.pixels,
            out.width as int,
            x,
            y,
            c,
        ) == channel(p.pixels, p.width as int, rect.x + x, rect.y + y, c) by {
            lemma_pixel_bytes(w, x, y, c);
            lemma_in_canvas(w, h, x, y);
            assert(pixel_start(w, x, y) + c == 4 * (y * w + x) + c);
        }
    }
}

/// A thumbnail shows the whole picture made small: its pixel `(x, y)` is the pixel
/// of the picture that lies as far along it each way, in proportion.
pub proof fn law_thumbnail_shows_the_whole_picture(
    p: Picture,
    max: u32,
    x: int,
    y: int,
    sx: int,
    sy: int,
)
    requires
        well_formed(p),
        p.width > 0,
        p.height > 0,
        has_pixel(thumbnail_of(p, max), x, y),
        sx * thumbnail_of(p, max).width <= x * p.width < (sx + 1) * thumbnail_of(p, max).width,
        sy * thumbnail_of(p, max).height <= y * p.height < (sy + 1) * thumbnail_of(p, max).height,
    ensures
        has_pixel(p, sx, sy),
        same_pixel(thumbnail_of(p, max), x, y, p, sx, sy),
        thumbnail_of(p, max).scale == p.scale,
        well_formed(thumbnail_of(p, max)),
{
    let t = thumbnail_of(p, max);
    let w = t.width as int;
    let h = t.height as int;
    assert(rgba_len(w, h) >= 0) by (nonlinear_arith)
        requires
            w >= 0,
            h >= 0,
    ;
    lemma_proportion(x, p.width as int, w, sx);
    lemma_proportion(y, p.height as int, h, sy);
    assert forall|c: int| 0 <= c < 4 implies #[trigger] channel(t.pixels, w, x, y, c) == channel(
        p.pixels,
        p.width as int,
        sx,
        sy,
        c,
    ) by {
        lemma_pixel_bytes(w, x, y, c);
        lemma_in_canvas(w, h, x, y);
        assert(pixel_start(w, x, y) + c == 4 * (y * w + x) + c);
    }
}

proof fn lemma_proportion(i: int, src: int, dst: int, s: int)
    requires
        0 <= i < dst,
        src > 0,
        s * dst <= i * src < (s + 1) * dst,
    ensures
        0 <= s < src,
        thumb_source(i, src, dst) == s,
{
    assert(0 <= s < src) by (nonlinear_arith)
        requires
            0 <= i < dst,
            src > 0,
            s * dst <= i * src,
            i * src < (s + 1) * dst,
    ;
    assert((s + 1) * dst == s * dst + dst) by (nonlinear_arith);
    vstd::arithmetic::div_mod::lemma_fundamental_div_mod_converse(i * src, dst, s, i * src - s * dst);
}

/// The values of `f` at `from..to`, summed.
pub open spec fn total(f: spec_fn(int) -> int, from: int, to: int) -> int
    decreases to - from,
{
    if to <= from {
        0
    } else {
        total(f, from, to - 1) + f(to - 1)
    }
}

/// `v` brought into `0..count`.
pub open spec fn held(v: int, count: int) -> int {
    if v < 0 {
        0
    } else if v >= count {
        count - 1
    } else {
        v
    }
}

/// The mean of the samples within fourteen pixels of `(x, y)` in its row, the edge
/// samples repeating beyond the picture.
pub open spec fn row_mean(p: Picture, x: int, y: int, c: int) -> int {
    total(
        |i: int| channel(p.pixels, p.width as int, held(i, p.width as int), y, c) as int,
        x - 14,
        x + 15,
    ) / 29
}

/// The mean of the row means within fourteen pixels of `(x, y)` in its column.
pub open spec fn box_mean(p: Picture, x: int, y: int, c: int) -> int {
    total(|j: int| row_mean(p, x, held(j, p.height as int), c), y - 14, y + 15) / 29
}

proof fn lemma_total_same(f: spec_fn(int) -> int, g: spec_fn(int) -> int, from: int, to: int)
    requires
        forall|i: int| from <= i < to ==> #[trigger] f(i) == g(i),
    ensures
        total(f, from, to) == total(g, from, to),
    decreases to - from,
{
    if from < to {
        lemma_total_same(f, g, from, to - 1);
    }
}

proof fn lemma_window_total(
    src: Seq<u8>,
    width: int,
    height: int,
    horizontal: bool,
    o: int,
    c: int,
    from: int,
    to: int,
    f: spec_fn(int) -> int,
)
    requires
        forall|i: int|
            from <= i < to ==> #[trigger] f(i) == edge_sample(
                src,
                width,
                height,
                horizontal,
                o,
                c,
                i,
            ),
    ensures
        window_sum(src, width, height, horizontal, o, c, from, to) == total(f, from, to),
    decreases to - from,
{
    if from < to {
        lemma_window_total(src, width, height, horizontal, o, c, from, to - 1, f);
    }
}

proof fn lemma_total_bounds(f: spec_fn(int) -> int, from: int, to: int)
    requires
        from <= to,
        forall|i: int| from <= i < to ==> 0 <= #[trigger] f(i) <= 255,
    ensures
        0 <= total(f, from, to) <= 255 * (to - from),
    decreases to - from,
{
    if from < to {
        lemma_total_bounds(f, from, to - 1);
    }
}

proof fn lemma_row_pass(p: Picture, x: int, y: int, c: int)
    requires
        well_formed(p),
        has_pixel(p, x, y),
        0 <= c < 4,
    ensures
        0 <= row_mean(p, x, y, c) <= 255,
        channel(
            axis_blurred(p.pixels, p.width as int, p.height as int, 14, true),
            p.width as int,
            x,
            y,
            c,
        ) == row_mean(p, x, y, c),
{
    let w = p.width as int;
    let h = p.height as int;
    let f = |i: int| channel(p.pixels, w, held(i, w), y, c) as int;
    assert forall|i: int| x - 14 <= i < x + 15 implies #[trigger] f(i) == edge_sample(
        p.pixels,
        w,
        h,
        true,
        y,
        c,
        i,
    ) by {
        lemma_in_canvas(w, h, held(i, w), y);
    }
    lemma_window_total(p.pixels, w, h, true, y, c, x - 14, x + 15, f);
    lemma_total_bounds(f, x - 14, x + 15);
    lemma_pass_value(p.pixels, w, h, 14, true, x, y, c);
    assert(pixel_start(w, x, y) + c == 4 * (y * w + x) + c);
}

proof fn lemma_box(p: Picture, x: int, y: int, c: int)
    requires
        well_formed(p),
        has_pixel(p, x, y),
        0 <= c < 4,
    ensures
        0 <= box_mean(p, x, y, c) <= 255,
        channel(
            image_blurred(p.pixels, p.width as int, p.height as int, 14),
            p.width as int,
            x,
            y,
            c,
        ) == box_mean(p, x, y, c),
{
    let w = p.width as int;
    let h = p.height as int;
    let rows = axis_blurred(p.pixels, w, h, 14, true);
    assert(rgba_len(w, h) >= 0) by (nonlinear_arith)
        requires
            w >= 0,
            h >= 0,
    ;
    let f = |j: int| row_mean(p, x, held(j, h), c);
    assert forall|j: int| y - 14 <= j < y + 15 implies #[trigger] f(j) == edge_sample(
        rows,
        w,
        h,
        false,
        x,
        c,
        j,
    ) && 0 <= f(j) <= 255 by {
        let k = held(j, h);
        lemma_row_pass(p, x, k, c);
        lemma_in_canvas(w, h, x, k);
        assert(pixel_start(w, x, k) + c == 4 * (k * w + x) + c);
    }
    lemma_window_total(rows, w, h, false, x, c, y - 14, y + 15, f);
    lemma_total_bounds(f, y - 14, y + 15);
    lemma_pass_value(rows, w, h, 14, false, x, y, c);
    assert(pixel_start(w, x, y) + c == 4 * (y * w + x) + c);
}

/// Whether pixel `(x, y)` lies in the rectangle.
pub open spec fn lies_under(rect: PixelRect, x: int, y: int) -> bool {
    rect.x <= x < rect.x + rect.width && rect.y <= y < rect.y + rect.height
}

proof fn lemma_under(p: Picture, rect: PixelRect, x: int, y: int, c: int)
    requires
        well_formed(p),
        has_pixel(p, x, y),
        0 <= c < 4,
    ensures
        0 <= 4 * (y * p.width + x) + c < p.pixels.len(),
        under_rect(
            p.pixels.len() as int,
            p.width as int,
            p.height as int,
            rect,
            4 * (y * p.width + x) + c,
        ) == lies_under(rect, x, y),
        byte_x(p.width as int, 4 * (y * p.width + x) + c) == x,
        byte_y(p.width as int, 4 * (y * p.width + x) + c) == y,
        (4 * (y * p.width + x) + c) % 4 == c,
{
    let w = p.width as int;
    lemma_pixel_bytes(w, x, y, c);
    lemma_in_canvas(w, p.height as int, x, y);
    assert(pixel_start(w, x, y) + c == 4 * (y * w + x) + c);
}

/// A blur of fourteen pixels averages: under its rectangle every channel of a pixel
/// becomes the mean, along its column, of the means along the rows, of what lay
/// within fourteen pixels of it; no other pixel changes.
pub proof fn law_blur_averages(p: Picture, rect: PixelRect, x: int, y: int, c: int)
    requires
        well_formed(p),
        has_pixel(p, x, y),
        0 <= c < 4,
    ensures
        channel(
            blurred(p.pixels, p.width as int, p.height as int, rect, 14),
            p.width as int,
            x,
            y,
            c,
        ) == (if lies_under(rect, x, y) {
            box_mean(p, x, y, c)
        } else {
            channel(p.pixels, p.width as int, x, y, c) as int
        }),
{
    let w = p.width as int;
    let h = p.height as int;
    let i = 4 * (y * w + x) + c;
    lemma_under(p, rect, x, y, c);
    if lies_under(rect, x, y) {
        lemma_part_of_image_blur(p.pixels, w, h, rect, 14, i);
        lemma_box(p, x, y, c);
    } else {
        crate::blur::law_blur_stays_inside(p.pixels, w, h, rect, 14);
    }
}

/// Where the tile of eighteen pixels begins that `v` falls in, tiles being laid
/// from `from` on.
pub open spec fn tile_begin(v: int, from: int) -> int {
    v - (v - from) % 18
}

/// Where that tile ends, the last one being cut short at `end`.
pub open spec fn tile_end(v: int, from: int, end: int) -> int {
    if tile_begin(v, from) + 18 <= end {
        tile_begin(v, from) + 18
    } else {
        end
    }
}

/// The mean of channel `c` over the pixels `x0..x1` of the rows `y0..y1`.
pub open spec fn area_mean(p: Picture, x0: int, x1: int, y0: int, y1: int, c: int) -> int {
    total(
        |j: int| total(|i: int| channel(p.pixels, p.width as int, i, j, c) as int, x0, x1),
        y0,
        y1,
    ) / ((x1 - x0) * (y1 - y0))
}

proof fn lemma_row_total(
    p: Picture,
    c: int,
    y: int,
    x0: int,
    x1: int,
    f: spec_fn(int) -> int,
)
    requires
        well_formed(p),
        0 <= x0 <= x1 <= p.width,
        0 <= y < p.height,
        0 <= c < 4,
        forall|i: int|
            x0 <= i < x1 ==> #[trigger] f(i) == channel(p.pixels, p.width as int, i, y, c),
    ensures
        row_sum(p.pixels, p.width as int, c, y, x0, x1) == total(f, x0, x1),
        row_count(p.pixels.len() as int, p.width as int, y, x0, x1) == x1 - x0,
    decreases x1 - x0,
{
    if x0 < x1 {
        lemma_row_total(p, c, y, x0, x1 - 1, f);
        lemma_in_canvas(p.width as int, p.height as int, x1 - 1, y);
        assert(f(x1 - 1) == channel(p.pixels, p.width as int, x1 - 1, y, c));
        assert(pixel_start(p.width as int, x1 - 1, y) + c == 4 * (y * p.width + (x1 - 1)) + c);
    }
}

proof fn lemma_tile_total(
    p: Picture,
    c: int,
    x0: int,
    x1: int,
    y0: int,
    y1: int,
    g: spec_fn(int) -> int,
)
    requires
        well_formed(p),
        0 <= x0 <= x1 <= p.width,
        0 <= y0 <= y1 <= p.height,
        0 <= c < 4,
        g == (|j: int|
            total(|i: int| channel(p.pixels, p.width as int, i, j, c) as int, x0, x1)),
    ensures
        tile_sum(p.pixels, p.width as int, c, x0, x1, y0, y1) == total(g, y0, y1),
        tile_count(p.pixels.len() as int, p.width as int, x0, x1, y0, y1) == (x1 - x0) * (y1 - y0),
    decreases y1 - y0,
{
    if y0 < y1 {
        lemma_tile_total(p, c, x0, x1, y0, y1 - 1, g);
        let f = |i: int| channel(p.pixels, p.width as int, i, y1 - 1, c) as int;
        lemma_row_total(p, c, y1 - 1, x0, x1, f);
        assert(g(y1 - 1) == total(f, x0, x1));
        assert((x1 - x0) * (y1 - y0) == (x1 - x0) * (y1 - 1 - y0) + (x1 - x0)) by (nonlinear_arith);
    } else {
        assert((x1 - x0) * 0 == 0);
    }
}

/// A mosaic flattens: under its rectangle every channel of a pixel becomes the mean
/// of its tile, tiles of eighteen pixels being laid from the rectangle's corner and
/// cut short at its far edges; no other pixel changes.
pub proof fn law_mosaic_flattens(p: Picture, rect: PixelRect, x: int, y: int, c: int)
    requires
        well_formed(p),
        has_pixel(p, x, y),
        rect.x + rect.width <= p.width,
        rect.y + rect.height <= p.height,
        0 <= c < 4,
    ensures
        channel(
            pixelated(p.pixels, p.width as int, p.height as int, rect, 18),
            p.width as int,
            x,
            y,
            c,
        ) == (if lies_under(rect, x, y) {
            area_mean(
                p,
                tile_begin(x, rect.x as int),
                tile_end(x, rect.x as int, rect.x + rect.width),
                tile_begin(y, rect.y as int),
                tile_end(y, rect.y as int, rect.y + rect.height),
                c,
            )
        } else {
            channel(p.pixels, p.width as int, x, y, c) as int
        }),
{
    let w = p.width as int;
    let h = p.height as int;
    let i = 4 * (y * w + x) + c;
    lemma_under(p, rect, x, y, c);
    if lies_under(rect, x, y) {
        let x0 = tile_begin(x, rect.x as int);
        let x1 = tile_end(x, rect.x as int, rect.x + rect.width);
        let y0 = tile_begin(y, rect.y as int);
        let y1 = tile_end(y, rect.y as int, rect.y + rect.height);
        assert(tile_lo(x, rect.x as int, 18) == x0);
        assert(tile_lo(y, rect.y as int, 18) == y0);
        let g = |j: int|
            total(|i: int| channel(p.pixels, p.width as int, i, j, c) as int, x0, x1);
        lemma_tile_total(p, c, x0, x1, y0, y1, g);
        let n = (x1 - x0) * (y1 - y0);
        assert(n > 0) by (nonlinear_arith)
            requires
                n == (x1 - x0) * (y1 - y0),
                x1 > x0,
                y1 > y0,
        ;
        lemma_area_bounds(p, c, x0, x1, y0, y1, g);
        let s = total(g, y0, y1);
        assert(0 <= s / n <= 255) by (nonlinear_arith)
            requires
                0 <= s <= 255 * n,
                n > 0,
        ;
    } else {
        crate::redact::law_pixelate_stays_inside(p.pixels, w, h, rect, 18);
    }
}

proof fn lemma_area_bounds(
    p: Picture,
    c: int,
    x0: int,
    x1: int,
    y0: int,
    y1: int,
    g: spec_fn(int) -> int,
)
    requires
        x0 <= x1,
        y0 <= y1,
        g == (|j: int|
            total(|i: int| channel(p.pixels, p.width as int, i, j, c) as int, x0, x1)),
    ensures
        0 <= total(g, y0, y1) <= 255 * ((x1 - x0) * (y1 - y0)),
    decreases y1 - y0,
{
    if y0 < y1 {
        lemma_area_bounds(p, c, x0, x1, y0, y1 - 1, g);
        lemma_total_bounds(
            |i: int| channel(p.pixels, p.width as int, i, y1 - 1, c) as int,
            x0,
            x1,
        );
        assert((x1 - x0) * (y1 - y0) == (x1 - x0) * (y1 - 1 - y0) + (x1 - x0)) by (nonlinear_arith);
    } else {
        assert((x1 - x0) * 0 == 0);
    }
}

proof fn lemma_half_even(p: int, q: int)
    requires
        p >= 0,
        q > 0,
    ensures
        -q <= 2 * (q * half_even(p, q) - p) <= q,
        q == 1 ==> half_even(p, q) == p,
        half_even(p, q) >= 0,
{
    vstd::arithmetic::div_mod::lemma_fundamental_div_mod(p, q);
    let d = p / q;
    assert(0 <= p % q < q);
    assert(d >= 0) by (nonlinear_arith)
        requires
            d == p / q,
            p >= 0,
            q > 0,
    ;
    assert(q * (d + 1) == q * d + q) by (nonlinear_arith);
}

proof fn lemma_single_error(n: int, unit: int)
    requires
        0 <= n <= 0x4_0000_0000_0000,
        unit > 0,
        unit == 1 || n >= 0x80_0000 * unit,
    ensures
        -n <= 0x100_0000 * (single_from(n, unit) - n) <= n,
    decreases 0x100_0000_0000_0000 - unit,
{
    if n < 0x100_0000 * unit {
        lemma_half_even(n, unit);
        assert(half_even(n, unit) * unit == unit * half_even(n, unit)) by (nonlinear_arith);
    } else {
        assert(2 * unit <= 0x100_0000_0000_0000);
        lemma_single_error(n, 2 * unit);
    }
}

proof fn lemma_ratio_unit(num: int, den: int, unit: int)
    requires
        0 < num < den <= 0x100_0000,
        unit > 0,
        unit == 1 || num * unit < 0x100_0000 * den,
    ensures
        ({
            let u = ratio_unit(num, den, unit);
            u > 0 && 0x80_0000 * den <= num * u < 0x100_0000 * den
        }),
    decreases 0x100_0000_0000_0000 - unit,
{
    if num * unit >= 0x80_0000 * den {
        if unit == 1 {
            assert(num * unit == num) by (nonlinear_arith)
                requires
                    unit == 1,
            ;
        }
    } else {
        assert(unit <= num * unit) by (nonlinear_arith)
            requires
                num >= 1,
                unit > 0,
        ;
        assert(num * (2 * unit) == 2 * (num * unit)) by (nonlinear_arith);
        lemma_ratio_unit(num, den, 2 * unit);
    }
}

/// The error of a scaled side, step by step: `ratio` comes near `num / den` times
/// `unit`, `product` near `side` times that, and `r` near the product over `unit`.
proof fn lemma_scaling_error(
    side: int,
    num: int,
    den: int,
    unit: int,
    ratio: int,
    product: int,
    r: int,
)
    requires
        0 < side <= den <= 0x100_0000,
        0 < num <= 4096,
        num < den,
        unit > 0,
        0x80_0000 * den <= num * unit < 0x100_0000 * den,
        ratio >= 0,
        -den <= 2 * (den * ratio - num * unit) <= den,
        -(side * ratio) <= 0x100_0000 * (product - side * ratio) <= side * ratio,
        -unit <= 2 * (unit * r - product) <= unit,
    ensures
        -(513 * den) <= 1024 * (r * den - side * num) <= 513 * den,
{
    let e1 = den * ratio - num * unit;
    let e2 = product - side * ratio;
    let e3 = unit * r - product;
    let total = r * den - side * num;
    lemma_error_sum(side, num, den, unit, ratio, product, r);
    assert(unit * total == den * e3 + den * e2 + side * e1);
    lemma_bounded_product(den, 2 * e3, unit);
    lemma_bounded_product(side, 2 * e1, den);
    lemma_bounded_product(den, 0x100_0000 * e2, side * ratio);
    assert(den * (2 * e3) == 2 * (den * e3)) by (nonlinear_arith);
    assert(side * (2 * e1) == 2 * (side * e1)) by (nonlinear_arith);
    assert(den * (0x100_0000 * e2) == 0x100_0000 * (den * e2)) by (nonlinear_arith);
    assert(den * (side * ratio) == side * (den * ratio)) by (nonlinear_arith);
    assert(side * (den * ratio) == side * e1 + side * (num * unit)) by (nonlinear_arith)
        requires
            e1 == den * ratio - num * unit,
    ;
    let m = num * unit;
    assert(side * m <= den * m) by (nonlinear_arith)
        requires
            side <= den,
            m >= 0,
    ;
    assert(m <= 4096 * unit) by (nonlinear_arith)
        requires
            m == num * unit,
            num <= 4096,
            unit > 0,
    ;
    assert(den * m <= den * (4096 * unit)) by (nonlinear_arith)
        requires
            m <= 4096 * unit,
            den > 0,
    ;
    assert(den * (4096 * unit) == 4096 * (den * unit)) by (nonlinear_arith);
    assert(side * den <= den * den) by (nonlinear_arith)
        requires
            side <= den,
            den > 0,
    ;
    assert(0x80_0000 * (den * den) <= den * m) by (nonlinear_arith)
        requires
            0x80_0000 * den <= m,
            den > 0,
    ;
    let d = den * unit;
    assert(unit * den == d) by (nonlinear_arith)
        requires
            d == den * unit,
    ;
    assert(side * den >= 0 && d >= 0) by (nonlinear_arith)
        requires
            side > 0,
            den > 0,
            unit > 0,
            d == den * unit,
    ;
    let a = den * e3;
    let b = den * e2;
    let c = side * e1;
    assert(-d <= 2 * a <= d);
    assert(side * m <= 4096 * d);
    assert(2 * (0x80_0000 * (side * den)) <= 2 * (4096 * d));
    assert(-d <= 4096 * c <= d);
    assert(den * (side * ratio) == c + side * m);
    assert(-(c + side * m) <= 0x100_0000 * b <= c + side * m);
    assert(-(513 * d) <= 1024 * (a + b + c) <= 513 * d);
    assert(unit * total == a + b + c);
    assert(unit * (1024 * total) == 1024 * (unit * total)) by (nonlinear_arith);
    assert(unit * (513 * den) == 513 * d) by (nonlinear_arith)
        requires
            d == den * unit,
    ;
    assert(unit * (-(513 * den)) == -(513 * d)) by (nonlinear_arith)
        requires
            d == den * unit,
    ;
    lemma_cancel(unit, -(513 * den), 1024 * total);
    lemma_cancel(unit, 1024 * total, 513 * den);
}

proof fn lemma_cancel(k: int, a: int, b: int)
    requires
        k > 0,
        k * a <= k * b,
    ensures
        a <= b,
{
    assert(a <= b) by (nonlinear_arith)
        requires
            k > 0,
            k * a <= k * b,
    ;
}

proof fn lemma_bounded_product(k: int, v: int, bound: int)
    requires
        k >= 0,
        -bound <= v <= bound,
    ensures
        -(k * bound) <= k * v <= k * bound,
{
    assert(-(k * bound) <= k * v <= k * bound) by (nonlinear_arith)
        requires
            k >= 0,
            -bound <= v <= bound,
    ;
}

proof fn lemma_error_sum(
    side: int,
    num: int,
    den: int,
    unit: int,
    ratio: int,
    product: int,
    r: int,
)
    ensures
        unit * (r * den - side * num) == den * (unit * r - product) + den * (product - side * ratio)
            + side * (den * ratio - num * unit),
{
    assert(den * (unit * r - product) == den * (unit * r) - den * product) by (nonlinear_arith);
    assert(den * (product - side * ratio) == den * product - den * (side * ratio))
        by (nonlinear_arith);
    assert(side * (den * ratio - num * unit) == side * (den * ratio) - side * (num * unit))
        by (nonlinear_arith);
    assert(den * (side * ratio) == side * (den * ratio)) by (nonlinear_arith);
    assert(unit * (r * den - side * num) == unit * (r * den) - unit * (side * num))
        by (nonlinear_arith);
    assert(unit * (r * den) == den * (unit * r)) by (nonlinear_arith);
    assert(unit * (side * num) == side * (num * unit)) by (nonlinear_arith);
}

/// Whether a side of a thumbnail keeps the picture's proportions: as long as the
/// picture's side times `max` over the picture's longer side, to within little more
/// than half a pixel, but at least one.
pub open spec fn in_proportion(small: int, side: int, longest: int, max: int) -> bool {
    ||| small == 1 && side * max < longest
    ||| -(513 * longest) <= 1024 * (small * longest - side * max) <= 513 * longest
}

proof fn lemma_side_in_proportion(side: int, longest: int, max: int)
    requires
        0 < side <= longest <= 0x100_0000,
        0 < max <= 4096,
        max < longest,
    ensures
        in_proportion(thumb_side(side, longest, max), side, longest, max),
{
    lemma_small_is_single(side);
    lemma_small_is_single(longest);
    lemma_small_is_single(max);
    lemma_ratio_unit(max, longest, 1);
    let unit = ratio_unit(max, longest, 1);
    lemma_half_even(max * unit, longest);
    let ratio = half_even(max * unit, longest);
    assert(ratio <= 0x100_0000) by (nonlinear_arith)
        requires
            2 * (longest * ratio - max * unit) <= longest,
            max * unit < 0x100_0000 * longest,
            longest > 0,
    ;
    assert(0 <= side * ratio <= 0x100_0000 * 0x100_0000) by (nonlinear_arith)
        requires
            0 < side <= 0x100_0000,
            0 <= ratio <= 0x100_0000,
    ;
    lemma_single_error(side * ratio, 1);
    let product = spec_single(side * ratio);
    let r = (2 * product + unit) / (2 * unit);
    vstd::arithmetic::div_mod::lemma_fundamental_div_mod(2 * product + unit, 2 * unit);
    assert(0 <= (2 * product + unit) % (2 * unit) < 2 * unit);
    assert((2 * unit) * r == 2 * (unit * r)) by (nonlinear_arith);
    lemma_scaling_error(side, max, longest, unit, ratio, product, r);
    let least = if side <= max {
        side
    } else {
        max
    };
    assert(side * max <= least * longest) by (nonlinear_arith)
        requires
            least == side || least == max,
            0 < side <= longest,
            0 < max < longest,
    ;
    if r > least {
        assert(least * longest <= r * longest) by (nonlinear_arith)
            requires
                least <= r,
                longest > 0,
        ;
    } else if r < 1 {
        assert(r * longest <= 0) by (nonlinear_arith)
            requires
                r <= 0,
                longest > 0,
        ;
    }
}

/// A thumbnail keeps the proportions of its picture: where the picture is larger than
/// the square it is to fit, its longer side comes to the square's and the other shrinks
/// alike; where it fits already, both sides stay.
pub proof fn law_thumbnail_keeps_the_proportions(p: Picture, max: u32)
    requires
        1 <= p.width <= 0x100_0000,
        1 <= p.height <= 0x100_0000,
        1 <= max <= 4096,
    ensures
        ({
            let t = thumbnail_of(p, max);
            let longest = if p.width >= p.height {
                p.width as int
            } else {
                p.height as int
            };
            &&& longest <= max ==> t.width == p.width && t.height == p.height
            &&& longest > max ==> in_proportion(
                t.width as int,
                p.width as int,
                longest,
                max as int,
            ) && in_proportion(t.height as int, p.height as int, longest, max as int)
            &&& longest > max && p.width == longest ==> t.width == max
            &&& longest > max && p.height == longest ==> t.height == max
            &&& t.scale == p.scale
        }),
{
    let longest = if p.width >= p.height {
        p.width as int
    } else {
        p.height as int
    };
    lemma_small_is_single(p.width as int);
    lemma_small_is_single(p.height as int);
    lemma_small_is_single(max as int);
    if longest > max {
        lemma_side_in_proportion(p.width as int, longest, max as int);
        lemma_side_in_proportion(p.height as int, longest, max as int);
        lemma_longer_side(thumb_side(longest, longest, max as int), longest, max as int);
    }
}

proof fn lemma_longer_side(small: int, longest: int, max: int)
    requires
        longest > 0,
        0 < max < longest,
        1 <= small <= max,
        in_proportion(small, longest, longest, max),
    ensures
        small == max,
{
    if small < max {
        if -(513 * longest) <= 1024 * (small * longest - longest * max) {
            assert(small * longest - longest * max <= -longest) by (nonlinear_arith)
                requires
                    small + 1 <= max,
                    longest > 0,
            ;
        } else {
            assert(longest * max >= longest) by (nonlinear_arith)
                requires
                    max >= 1,
                    longest > 0,
            ;
        }
    }
}

} // verus!
