//! The redaction kernels: mosaic and box blur over a rectangle of pixels.
use vstd::arithmetic::div_mod::{
    lemma_div_multiples_vanish, lemma_fundamental_div_mod, lemma_fundamental_div_mod_converse,
};
use vstd::prelude::*;

use crate::pixmap::{
    byte_x, byte_y, holds_pixel, lemma_byte_pixel, lemma_pixel_bytes, pixel_start, rgba_len,
    start_of_pixel, whole_pixel,
};
use crate::units::{PixelRect, spec_max, spec_min};

verus! {

/// The per-channel average of `sum` over `count` samples, or `None` where
/// there are no samples.
pub fn checked_average(sum: [u128; 4], count: u128) -> (r: Option<[u8; 4]>)
    ensures
        r is None <==> count == 0,
        r matches Some(a) ==> forall|k: int| 0 <= k < 4 ==> a@[k] == (sum@[k] / count) as u8,
{
    if count == 0 {
        return None;
    }
    Some(
        [
            (sum[0] / count) as u8,
            (sum[1] / count) as u8,
            (sum[2] / count) as u8,
            (sum[3] / count) as u8,
        ],
    )
}

/// One channel summed over the pixels `x0..x1` of row `y` that the buffer holds.
pub open spec fn row_sum(buf: Seq<u8>, width: int, c: int, y: int, x0: int, x1: int) -> int
    decreases x1 - x0,
{
    if x1 <= x0 {
        0
    } else {
        row_sum(buf, width, c, y, x0, x1 - 1) + (if holds_pixel(
            buf.len() as int,
            width,
            x1 - 1,
            y,
        ) {
            buf[pixel_start(width, x1 - 1, y) + c] as int
        } else {
            0
        })
    }
}

/// How many of the pixels `x0..x1` of row `y` the buffer holds.
pub open spec fn row_count(len: int, width: int, y: int, x0: int, x1: int) -> int
    decreases x1 - x0,
{
    if x1 <= x0 {
        0
    } else {
        row_count(len, width, y, x0, x1 - 1) + (if holds_pixel(len, width, x1 - 1, y) {
            1int
        } else {
            0
        })
    }
}

/// One channel summed over the pixels of a tile that the buffer holds.
pub open spec fn tile_sum(
    buf: Seq<u8>,
    width: int,
    c: int,
    x0: int,
    x1: int,
    y0: int,
    y1: int,
) -> int
    decreases y1 - y0,
{
    if y1 <= y0 {
        0
    } else {
        tile_sum(buf, width, c, x0, x1, y0, y1 - 1) + row_sum(buf, width, c, y1 - 1, x0, x1)
    }
}

/// How many pixels of a tile the buffer holds.
pub open spec fn tile_count(len: int, width: int, x0: int, x1: int, y0: int, y1: int) -> int
    decreases y1 - y0,
{
    if y1 <= y0 {
        0
    } else {
        tile_count(len, width, x0, x1, y0, y1 - 1) + row_count(len, width, y1 - 1, x0, x1)
    }
}

/// Where the tile that `v` falls in begins, the tiles being laid from `from` on.
pub open spec fn tile_lo(v: int, from: int, block: int) -> int {
    from + ((v - from) / block) * block
}

/// Where that tile ends, the last one being cut at `end`.
pub open spec fn tile_hi(v: int, from: int, block: int, end: int) -> int {
    spec_min(tile_lo(v, from, block) + block, end)
}

/// The right edge of `rect` on a canvas `width` pixels wide.
pub open spec fn rect_right(rect: PixelRect, width: int) -> int {
    spec_min(rect.x + rect.width, width)
}

/// The bottom edge of `rect` on a canvas `height` pixels high.
pub open spec fn rect_bottom(rect: PixelRect, height: int) -> int {
    spec_min(rect.y + rect.height, height)
}

/// Whether byte `i` belongs to a pixel under `rect` that the buffer holds.
pub open spec fn under_rect(len: int, width: int, height: int, rect: PixelRect, i: int) -> bool {
    &&& whole_pixel(len, i)
    &&& rect.x <= byte_x(width, i) < rect_right(rect, width)
    &&& rect.y <= byte_y(width, i) < rect_bottom(rect, height)
}

/// The average that byte `i` takes: that of its channel over its tile.
pub open spec fn tile_average(
    buf: Seq<u8>,
    width: int,
    height: int,
    rect: PixelRect,
    block: int,
    i: int,
) -> int {
    let x0 = tile_lo(byte_x(width, i), rect.x as int, block);
    let x1 = tile_hi(byte_x(width, i), rect.x as int, block, rect_right(rect, width));
    let y0 = tile_lo(byte_y(width, i), rect.y as int, block);
    let y1 = tile_hi(byte_y(width, i), rect.y as int, block, rect_bottom(rect, height));
    tile_sum(buf, width, i % 4, x0, x1, y0, y1) / tile_count(
        buf.len() as int,
        width,
        x0,
        x1,
        y0,
        y1,
    )
}

/// The mosaic: each byte under `rect` is its tile's average, the rest stays.
pub open spec fn pixelated(
    buf: Seq<u8>,
    width: int,
    height: int,
    rect: PixelRect,
    block: int,
) -> Seq<u8> {
    Seq::new(
        buf.len(),
        |i: int|
            if under_rect(buf.len() as int, width, height, rect, i) {
                tile_average(buf, width, height, rect, block, i) as u8
            } else {
                buf[i]
            },
    )
}

proof fn lemma_row_bounds(buf: Seq<u8>, width: int, c: int, y: int, x0: int, x1: int)
    requires
        x0 <= x1,
    ensures
        0 <= row_count(buf.len() as int, width, y, x0, x1) <= x1 - x0,
        0 <= row_sum(buf, width, c, y, x0, x1) <= 255 * row_count(
            buf.len() as int,
            width,
            y,
            x0,
            x1,
        ),
    decreases x1 - x0,
{
    if x0 < x1 {
        lemma_row_bounds(buf, width, c, y, x0, x1 - 1);
    }
}

proof fn lemma_tile_bounds(
    buf: Seq<u8>,
    width: int,
    c: int,
    x0: int,
    x1: int,
    y0: int,
    y1: int,
)
    requires
        x0 <= x1,
        y0 <= y1,
    ensures
        0 <= tile_count(buf.len() as int, width, x0, x1, y0, y1) <= (x1 - x0) * (y1 - y0),
        0 <= tile_sum(buf, width, c, x0, x1, y0, y1) <= 255 * tile_count(
            buf.len() as int,
            width,
            x0,
            x1,
            y0,
            y1,
        ),
    decreases y1 - y0,
{
    if y0 < y1 {
        lemma_tile_bounds(buf, width, c, x0, x1, y0, y1 - 1);
        lemma_row_bounds(buf, width, c, y1 - 1, x0, x1);
        assert((x1 - x0) * (y1 - y0) == (x1 - x0) * (y1 - 1 - y0) + (x1 - x0)) by (nonlinear_arith);
    } else {
        assert((x1 - x0) * (y1 - y0) == 0) by (nonlinear_arith)
            requires
                y0 == y1,
        ;
    }
}

proof fn lemma_row_counts(len: int, width: int, y: int, x0: int, x1: int, x: int)
    requires
        x0 <= x < x1,
        holds_pixel(len, width, x, y),
    ensures
        row_count(len, width, y, x0, x1) >= 1,
    decreases x1 - x0,
{
    lemma_row_nonnegative(len, width, y, x0, x1 - 1);
    if x < x1 - 1 {
        lemma_row_counts(len, width, y, x0, x1 - 1, x);
    }
}

proof fn lemma_row_nonnegative(len: int, width: int, y: int, x0: int, x1: int)
    ensures
        row_count(len, width, y, x0, x1) >= 0,
    decreases x1 - x0,
{
    if x0 < x1 {
        lemma_row_nonnegative(len, width, y, x0, x1 - 1);
    }
}

proof fn lemma_tile_nonnegative(len: int, width: int, x0: int, x1: int, y0: int, y1: int)
    ensures
        tile_count(len, width, x0, x1, y0, y1) >= 0,
    decreases y1 - y0,
{
    if y0 < y1 {
        lemma_tile_nonnegative(len, width, x0, x1, y0, y1 - 1);
        lemma_row_nonnegative(len, width, y1 - 1, x0, x1);
    }
}

/// A tile with a pixel that the buffer holds has a sample.
proof fn lemma_tile_counts(
    len: int,
    width: int,
    x0: int,
    x1: int,
    y0: int,
    y1: int,
    x: int,
    y: int,
)
    requires
        x0 <= x < x1,
        y0 <= y < y1,
        holds_pixel(len, width, x, y),
    ensures
        tile_count(len, width, x0, x1, y0, y1) >= 1,
    decreases y1 - y0,
{
    lemma_tile_nonnegative(len, width, x0, x1, y0, y1 - 1);
    lemma_row_nonnegative(len, width, y1 - 1, x0, x1);
    if y < y1 - 1 {
        lemma_tile_counts(len, width, x0, x1, y0, y1 - 1, x, y);
    } else {
        lemma_row_counts(len, width, y, x0, x1, x);
    }
}

/// The channel sums over one tile, and the number of samples.
fn tile_totals(
    buf: &Vec<u8>,
    width: u32,
    height: u32,
    x0: u32,
    x1: u32,
    y0: u32,
    y1: u32,
) -> (r: ([u128; 4], u128))
    requires
        rgba_len(width as int, height as int) <= usize::MAX,
        x0 <= x1 <= width,
        y0 <= y1 <= height,
    ensures
        forall|c: int|
            0 <= c < 4 ==> r.0@[c] == tile_sum(
                buf@,
                width as int,
                c,
                x0 as int,
                x1 as int,
                y0 as int,
                y1 as int,
            ),
        r.1 == tile_count(
            buf@.len() as int,
            width as int,
            x0 as int,
            x1 as int,
            y0 as int,
            y1 as int,
        ),
{
    let ghost w = width as int;
    let ghost l = x0 as int;
    let ghost t = y0 as int;
    proof {
        assert(255 * ((x1 - x0) * (y1 - y0)) <= 255 * (0xffff_ffff * 0xffff_ffff))
            by (nonlinear_arith)
            requires
                0 <= x1 - x0 <= 0xffff_ffff,
                0 <= y1 - y0 <= 0xffff_ffff,
        ;
    }
    let mut s0: u128 = 0;
    let mut s1: u128 = 0;
    let mut s2: u128 = 0;
    let mut s3: u128 = 0;
    let mut count: u128 = 0;
    let mut y: u32 = y0;
    while y < y1
        invariant
            rgba_len(width as int, height as int) <= usize::MAX,
            x0 <= x1 <= width,
            y0 <= y <= y1 <= height,
            255 * ((x1 - x0) * (y1 - y0)) <= u128::MAX,
            w == width,
            l == x0,
            t == y0,
            s0 == tile_sum(buf@, w, 0, l, x1 as int, t, y as int),
            s1 == tile_sum(buf@, w, 1, l, x1 as int, t, y as int),
            s2 == tile_sum(buf@, w, 2, l, x1 as int, t, y as int),
            s3 == tile_sum(buf@, w, 3, l, x1 as int, t, y as int),
            count == tile_count(buf@.len() as int, w, l, x1 as int, t, y as int),
        decreases y1 - y,
    {
        let ghost (r0, r1, r2, r3, rc) = (s0 as int, s1 as int, s2 as int, s3 as int, count as int);
        proof {
            lemma_tile_bounds(buf@, w, 0, l, x1 as int, t, y as int);
            lemma_tile_bounds(buf@, w, 1, l, x1 as int, t, y as int);
            lemma_tile_bounds(buf@, w, 2, l, x1 as int, t, y as int);
            lemma_tile_bounds(buf@, w, 3, l, x1 as int, t, y as int);
            assert((x1 - x0) * (y - y0) + (x1 - x0) <= (x1 - x0) * (y1 - y0)) by (nonlinear_arith)
                requires
                    x0 <= x1,
                    y + 1 <= y1,
            ;
        }
        let mut x: u32 = x0;
        while x < x1
            invariant
                rgba_len(width as int, height as int) <= usize::MAX,
                x0 <= x <= x1 <= width,
                y0 <= y < y1 <= height,
                w == width,
                l == x0,
                255 * (rc + (x1 - x0)) <= u128::MAX,
                0 <= r0 <= 255 * rc,
                0 <= r1 <= 255 * rc,
                0 <= r2 <= 255 * rc,
                0 <= r3 <= 255 * rc,
                s0 == r0 + row_sum(buf@, w, 0, y as int, l, x as int),
                s1 == r1 + row_sum(buf@, w, 1, y as int, l, x as int),
                s2 == r2 + row_sum(buf@, w, 2, y as int, l, x as int),
                s3 == r3 + row_sum(buf@, w, 3, y as int, l, x as int),
                count == rc + row_count(buf@.len() as int, w, y as int, l, x as int),
            decreases x1 - x,
        {
            proof {
                lemma_row_bounds(buf@, w, 0, y as int, l, x as int);
                lemma_row_bounds(buf@, w, 1, y as int, l, x as int);
                lemma_row_bounds(buf@, w, 2, y as int, l, x as int);
                lemma_row_bounds(buf@, w, 3, y as int, l, x as int);
            }
            let i: usize = start_of_pixel(width, height, x, y);
            if buf.len() >= 4 && i <= buf.len() - 4 {
                s0 = s0 + buf[i] as u128;
                s1 = s1 + buf[i + 1] as u128;
                s2 = s2 + buf[i + 2] as u128;
                s3 = s3 + buf[i + 3] as u128;
                count = count + 1;
            }
            x = x + 1;
        }
        y = y + 1;
    }
    ([s0, s1, s2, s3], count)
}

/// Paints every pixel of a tile that the buffer holds in one colour.
fn fill_tile(
    buf: &mut Vec<u8>,
    width: u32,
    height: u32,
    x0: u32,
    x1: u32,
    y0: u32,
    y1: u32,
    color: [u8; 4],
)
    requires
        rgba_len(width as int, height as int) <= usize::MAX,
        x0 <= x1 <= width,
        y0 <= y1 <= height,
    ensures
        final(buf)@.len() == old(buf)@.len(),
        forall|i: int|
            0 <= i < old(buf)@.len() ==> #[trigger] final(buf)@[i] == (if whole_pixel(
                old(buf)@.len() as int,
                i,
            ) && x0 <= byte_x(width as int, i) < x1 && y0 <= byte_y(width as int, i) < y1 {
                color@[i % 4]
            } else {
                old(buf)@[i]
            }),
{
    let ghost w = width as int;
    let ghost len = buf@.len() as int;
    let ghost start = buf@;
    if x0 == x1 {
        return;
    }
    let mut y: u32 = y0;
    while y < y1
        invariant
            rgba_len(width as int, height as int) <= usize::MAX,
            x0 < x1 <= width,
            y0 <= y <= y1 <= height,
            w == width,
            len == start.len(),
            buf@.len() == len,
            forall|i: int|
                0 <= i < len ==> #[trigger] buf@[i] == (if whole_pixel(len, i) && x0 <= byte_x(w, i)
                    < x1 && y0 <= byte_y(w, i) < y {
                    color@[i % 4]
                } else {
                    start[i]
                }),
        decreases y1 - y,
    {
        let mut x: u32 = x0;
        while x < x1
            invariant
                rgba_len(width as int, height as int) <= usize::MAX,
                x0 <= x <= x1 <= width,
                x0 < x1,
                y0 <= y < y1 <= height,
                w == width,
                len == start.len(),
                buf@.len() == len,
                forall|i: int|
                    0 <= i < len ==> #[trigger] buf@[i] == (if whole_pixel(len, i) && x0 <= byte_x(
                        w,
                        i,
                    ) < x1 && (y0 <= byte_y(w, i) < y || (byte_y(w, i) == y && byte_x(w, i) < x)) {
                        color@[i % 4]
                    } else {
                        start[i]
                    }),
            decreases x1 - x,
        {
            let at: usize = start_of_pixel(width, height, x, y);
            let ghost before = buf@;
            if buf.len() >= 4 && at <= buf.len() - 4 {
                buf[at] = color[0];
                buf[at + 1] = color[1];
                buf[at + 2] = color[2];
                buf[at + 3] = color[3];
            }
            proof {
                assert forall|i: int| 0 <= i < len implies #[trigger] buf@[i] == (if whole_pixel(
                    len,
                    i,
                ) && x0 <= byte_x(w, i) < x1 && (y0 <= byte_y(w, i) < y || (byte_y(w, i) == y
                    && byte_x(w, i) < x + 1)) {
                    color@[i % 4]
                } else {
                    start[i]
                }) by {
                    lemma_byte_pixel(w, i);
                    if at <= i < at + 4 {
                        lemma_pixel_bytes(w, x as int, y as int, i - at);
                        assert(whole_pixel(len, pixel_start(w, x as int, y as int) + (i - at))
                            == holds_pixel(len, w, x as int, y as int));
                    } else {
                        assert(buf@[i] == before[i]);
                    }
                }
            }
            x = x + 1;
        }
        y = y + 1;
    }
}

/// The smaller of two.
fn least(a: u32, b: u32) -> (r: u32)
    ensures
        r == spec_min(a as int, b as int),
{
    if a <= b {
        a
    } else {
        b
    }
}

/// Where a span that starts at `from` and is `extent` long ends, cut at `limit`.
fn span_end(from: u32, extent: u32, limit: u32) -> (r: u32)
    ensures
        r == spec_min(from + extent, limit as int),
{
    least(from.saturating_add(extent), limit)
}

/// A coordinate within a tile's span belongs to that tile.
proof fn lemma_tile_of(v: int, from: int, block: int, k: int)
    requires
        block > 0,
        from + k * block <= v < from + k * block + block,
    ensures
        tile_lo(v, from, block) == from + k * block,
{
    lemma_fundamental_div_mod_converse(v - from, block, k, v - from - k * block);
}

/// Mosaics `rect` into square tiles of `block_size` pixels (at least one),
/// each replaced by the average colour of the pixels it covers.
pub fn pixelate_region(buf: &mut Vec<u8>, width: u32, height: u32, rect: PixelRect, block_size: u32)
    requires
        rgba_len(width as int, height as int) <= usize::MAX,
    ensures
        final(buf)@ == pixelated(
            old(buf)@,
            width as int,
            height as int,
            rect,
            spec_max(block_size as int, 1),
        ),
{
    let block: u32 = if block_size < 1 {
        1
    } else {
        block_size
    };
    let x_end: u32 = span_end(rect.x, rect.width, width);
    let y_end: u32 = span_end(rect.y, rect.height, height);
    let ghost w = width as int;
    let ghost h = height as int;
    let ghost b = block as int;
    let ghost start = buf@;
    let ghost len = buf@.len() as int;
    let ghost goal = pixelated(start, w, h, rect, b);
    let mut block_y: u32 = rect.y;
    let ghost mut ky: int = 0;
    while block_y < y_end
        invariant
            rgba_len(width as int, height as int) <= usize::MAX,
            b == block,
            b >= 1,
            x_end == rect_right(rect, w),
            y_end == rect_bottom(rect, h),
            w == width,
            h == height,
            len == start.len(),
            buf@.len() == len,
            goal == pixelated(start, w, h, rect, b),
            rect.y <= block_y,
            block_y < y_end ==> block_y == rect.y + ky * b,
            forall|i: int|
                0 <= i < len ==> #[trigger] buf@[i] == (if byte_y(w, i) < block_y {
                    goal[i]
                } else {
                    start[i]
                }),
        decreases u32::MAX - block_y,
    {
        let block_h: u32 = least(block, y_end - block_y);
        let mut block_x: u32 = rect.x;
        let ghost mut kx: int = 0;
        proof {
            // No tile of this band has been painted yet.
            assert forall|i: int| 0 <= i < len implies #[trigger] buf@[i] == (if byte_y(w, i)
                < block_y || (byte_y(w, i) < block_y + block_h && byte_x(w, i) < block_x) {
                goal[i]
            } else {
                start[i]
            }) by {}
        }
        while block_x < x_end
            invariant
                rgba_len(width as int, height as int) <= usize::MAX,
                b == block,
                b >= 1,
                x_end == rect_right(rect, w),
                y_end == rect_bottom(rect, h),
                w == width,
                h == height,
                len == start.len(),
                buf@.len() == len,
                goal == pixelated(start, w, h, rect, b),
                rect.y <= block_y < y_end,
                block_y == rect.y + ky * b,
                block_h == spec_min(b, y_end - block_y),
                rect.x <= block_x,
                block_x < x_end ==> block_x == rect.x + kx * b,
                forall|i: int|
                    0 <= i < len ==> #[trigger] buf@[i] == (if byte_y(w, i) < block_y || (byte_y(
                        w,
                        i,
                    ) < block_y + block_h && byte_x(w, i) < block_x) {
                        goal[i]
                    } else {
                        start[i]
                    }),
            decreases u32::MAX - block_x,
        {
            let block_w: u32 = least(block, x_end - block_x);
            let ghost before = buf@;
            let ghost x0 = block_x as int;
            let ghost x1 = block_x + block_w;
            let ghost y0 = block_y as int;
            let ghost y1 = block_y + block_h;
            proof {
                lemma_tile_same(before, start, w, x0, x1, y0, y1);
                lemma_tile_bounds(start, w, 0, x0, x1, y0, y1);
                lemma_tile_bounds(start, w, 1, x0, x1, y0, y1);
                lemma_tile_bounds(start, w, 2, x0, x1, y0, y1);
                lemma_tile_bounds(start, w, 3, x0, x1, y0, y1);
            }
            let (sum, count) = tile_totals(
                buf,
                width,
                height,
                block_x,
                block_x + block_w,
                block_y,
                block_y + block_h,
            );
            let average = checked_average(sum, count);
            if let Some(color) = average {
                fill_tile(
                    buf,
                    width,
                    height,
                    block_x,
                    block_x + block_w,
                    block_y,
                    block_y + block_h,
                    color,
                );
            }
            let next_x: u32 = block_x.saturating_add(block);
            proof {
                assert forall|i: int| 0 <= i < len implies #[trigger] buf@[i] == (if byte_y(w, i)
                    < block_y || (byte_y(w, i) < block_y + block_h && byte_x(w, i) < next_x) {
                    goal[i]
                } else {
                    start[i]
                }) by {
                    lemma_byte_pixel(w, i);
                    let x = byte_x(w, i);
                    let y = byte_y(w, i);
                    if x0 <= x < x1 && y0 <= y < y1 && whole_pixel(len, i) {
                        lemma_tile_of(x, rect.x as int, b, kx);
                        lemma_tile_of(y, rect.y as int, b, ky);
                        lemma_pixel_bytes(w, x, y, i % 4);
                        assert(whole_pixel(len, pixel_start(w, x, y) + i % 4) == holds_pixel(
                            len,
                            w,
                            x,
                            y,
                        ));
                        lemma_tile_counts(len, w, x0, x1, y0, y1, x, y);
                        assert(goal[i] == tile_average(start, w, h, rect, b, i) as u8);
                        let c = i % 4;
                        assert(sum@[c] == tile_sum(start, w, c, x0, x1, y0, y1));
                    } else {
                        assert(buf@[i] == before[i]);
                        if y < block_y {
                        } else if y < y1 && block_x <= x < next_x {
                            assert(goal[i] == start[i]);
                        }
                    }
                }
                assert((kx + 1) * b == kx * b + b) by (nonlinear_arith);
                kx = kx + 1;
            }
            block_x = next_x;
        }
        let next_y: u32 = block_y.saturating_add(block);
        proof {
            assert forall|i: int| 0 <= i < len implies #[trigger] buf@[i] == (if byte_y(w, i)
                < next_y {
                goal[i]
            } else {
                start[i]
            }) by {
                let x = byte_x(w, i);
                let y = byte_y(w, i);
                if !(y < block_y || (y < block_y + block_h && x < block_x)) && y < next_y {
                    assert(goal[i] == start[i]);
                }
            }
            assert((ky + 1) * b == ky * b + b) by (nonlinear_arith);
            ky = ky + 1;
        }
        block_y = next_y;
    }
    assert(buf@ =~= goal) by {
        assert forall|i: int| 0 <= i < len implies buf@[i] == goal[i] by {
            if byte_y(w, i) >= block_y {
                assert(goal[i] == start[i]);
            }
        }
    }
}

/// Two buffers that agree on a tile have the same sums over it.
proof fn lemma_tile_same(
    a: Seq<u8>,
    b: Seq<u8>,
    width: int,
    x0: int,
    x1: int,
    y0: int,
    y1: int,
)
    requires
        a.len() == b.len(),
        0 <= x0 <= x1 <= width,
        0 <= y0 <= y1,
        forall|i: int|
            #![trigger a[i]]
            0 <= i < a.len() && x0 <= byte_x(width, i) < x1 && y0 <= byte_y(width, i) < y1 ==> a[i]
                == b[i],
    ensures
        forall|c: int|
            0 <= c < 4 ==> #[trigger] tile_sum(a, width, c, x0, x1, y0, y1) == tile_sum(
                b,
                width,
                c,
                x0,
                x1,
                y0,
                y1,
            ),
    decreases y1 - y0,
{
    if y0 < y1 {
        lemma_tile_same(a, b, width, x0, x1, y0, y1 - 1);
        assert forall|c: int| 0 <= c < 4 implies #[trigger] tile_sum(a, width, c, x0, x1, y0, y1)
            == tile_sum(b, width, c, x0, x1, y0, y1) by {
            lemma_row_same(a, b, width, c, y1 - 1, x0, x1);
            assert(tile_sum(a, width, c, x0, x1, y0, y1 - 1) == tile_sum(
                b,
                width,
                c,
                x0,
                x1,
                y0,
                y1 - 1,
            ));
        }
    }
}

proof fn lemma_row_same(a: Seq<u8>, b: Seq<u8>, width: int, c: int, y: int, x0: int, x1: int)
    requires
        a.len() == b.len(),
        0 <= x0 <= x1 <= width,
        0 <= y,
        0 <= c < 4,
        forall|i: int|
            #![trigger a[i]]
            0 <= i < a.len() && x0 <= byte_x(width, i) < x1 && byte_y(width, i) == y ==> a[i]
                == b[i],
    ensures
        row_sum(a, width, c, y, x0, x1) == row_sum(b, width, c, y, x0, x1),
    decreases x1 - x0,
{
    if x0 < x1 {
        lemma_row_same(a, b, width, c, y, x0, x1 - 1);
        lemma_pixel_bytes(width, x1 - 1, y, c);
        let at = pixel_start(width, x1 - 1, y) + c;
        if holds_pixel(a.len() as int, width, x1 - 1, y) {
            assert(a[at] == b[at]);
        }
    }
}

proof fn lemma_row_uniform(
    buf: Seq<u8>,
    width: int,
    c: int,
    y: int,
    x0: int,
    x1: int,
    v: int,
)
    requires
        forall|x: int|
            x0 <= x < x1 && #[trigger] holds_pixel(buf.len() as int, width, x, y)
                ==> buf[pixel_start(width, x, y) + c] == v,
    ensures
        row_sum(buf, width, c, y, x0, x1) == v * row_count(buf.len() as int, width, y, x0, x1),
    decreases x1 - x0,
{
    if x0 < x1 {
        lemma_row_uniform(buf, width, c, y, x0, x1 - 1, v);
        let n = row_count(buf.len() as int, width, y, x0, x1 - 1);
        assert(v * (n + 1) == v * n + v) by (nonlinear_arith);
    } else {
        assert(v * 0 == 0) by (nonlinear_arith);
    }
}

proof fn lemma_tile_uniform(
    buf: Seq<u8>,
    width: int,
    c: int,
    x0: int,
    x1: int,
    y0: int,
    y1: int,
    v: int,
)
    requires
        forall|x: int, y: int|
            x0 <= x < x1 && y0 <= y < y1 && #[trigger] holds_pixel(buf.len() as int, width, x, y)
                ==> buf[pixel_start(width, x, y) + c] == v,
    ensures
        tile_sum(buf, width, c, x0, x1, y0, y1) == v * tile_count(
            buf.len() as int,
            width,
            x0,
            x1,
            y0,
            y1,
        ),
    decreases y1 - y0,
{
    if y0 < y1 {
        lemma_tile_uniform(buf, width, c, x0, x1, y0, y1 - 1, v);
        lemma_row_uniform(buf, width, c, y1 - 1, x0, x1, v);
        let n = tile_count(buf.len() as int, width, x0, x1, y0, y1 - 1);
        let k = row_count(buf.len() as int, width, y1 - 1, x0, x1);
        assert(v * (n + k) == v * n + v * k) by (nonlinear_arith);
    } else {
        assert(v * 0 == 0) by (nonlinear_arith);
    }
}

/// The tile around a byte under the rectangle holds the byte's own pixel.
proof fn lemma_own_tile(
    len: int,
    width: int,
    height: int,
    rect: PixelRect,
    block: int,
    i: int,
)
    requires
        block >= 1,
        0 <= i < len,
        under_rect(len, width, height, rect, i),
    ensures
        ({
            let x = byte_x(width, i);
            let y = byte_y(width, i);
            let x0 = tile_lo(x, rect.x as int, block);
            let x1 = tile_hi(x, rect.x as int, block, rect_right(rect, width));
            let y0 = tile_lo(y, rect.y as int, block);
            let y1 = tile_hi(y, rect.y as int, block, rect_bottom(rect, height));
            &&& rect.x <= x0 <= x < x1 <= rect_right(rect, width)
            &&& rect.y <= y0 <= y < y1 <= rect_bottom(rect, height)
            &&& tile_count(len, width, x0, x1, y0, y1) >= 1
        }),
{
    let x = byte_x(width, i);
    let y = byte_y(width, i);
    lemma_byte_pixel(width, i);
    lemma_pixel_bytes(width, x, y, i % 4);
    assert(whole_pixel(len, pixel_start(width, x, y) + i % 4) == holds_pixel(len, width, x, y));
    lemma_tile_span(x, rect.x as int, block);
    lemma_tile_span(y, rect.y as int, block);
    lemma_tile_counts(
        len,
        width,
        tile_lo(x, rect.x as int, block),
        tile_hi(x, rect.x as int, block, rect_right(rect, width)),
        tile_lo(y, rect.y as int, block),
        tile_hi(y, rect.y as int, block, rect_bottom(rect, height)),
        x,
        y,
    );
}

/// A tile starts no earlier than the tiling and spans `block` from there on.
proof fn lemma_tile_span(v: int, from: int, block: int)
    requires
        block >= 1,
        v >= from,
    ensures
        from <= tile_lo(v, from, block) <= v < tile_lo(v, from, block) + block,
{
    let q = (v - from) / block;
    lemma_fundamental_div_mod(v - from, block);
    assert(0 <= (v - from) % block < block) by (nonlinear_arith)
        requires
            block >= 1,
    ;
    assert(q >= 0) by (nonlinear_arith)
        requires
            block >= 1,
            v - from >= 0,
            q == (v - from) / block,
    ;
    assert(q * block == block * q && q * block >= 0) by (nonlinear_arith)
        requires
            q >= 0,
            block >= 1,
    ;
}

/// Every place in one tile belongs to that same tile.
proof fn lemma_tile_shared(v: int, u: int, from: int, block: int)
    requires
        block >= 1,
        v >= from,
        tile_lo(v, from, block) <= u < tile_lo(v, from, block) + block,
    ensures
        tile_lo(u, from, block) == tile_lo(v, from, block),
{
    lemma_tile_of(u, from, block, (v - from) / block);
}

/// `v * n / n` is `v`.
proof fn lemma_mean_of_equal(v: int, n: int)
    requires
        n > 0,
    ensures
        (v * n) / n == v,
{
    lemma_div_multiples_vanish(v, n);
    assert(v * n == n * v) by (nonlinear_arith);
}

/// A mosaic changes nothing outside its rectangle, and keeps the buffer's length.
pub proof fn law_pixelate_stays_inside(
    buf: Seq<u8>,
    width: int,
    height: int,
    rect: PixelRect,
    block: int,
)
    ensures
        pixelated(buf, width, height, rect, block).len() == buf.len(),
        forall|i: int|
            0 <= i < buf.len() && !under_rect(buf.len() as int, width, height, rect, i)
                ==> #[trigger] pixelated(buf, width, height, rect, block)[i] == buf[i],
{
}

/// Of what lies under a mosaic, nothing is left but the averages: two pictures
/// that differ only under the rectangle, and there have the same averages, look
/// the same.
pub proof fn law_mosaic_shows_only_averages(
    a: Seq<u8>,
    b: Seq<u8>,
    width: int,
    height: int,
    rect: PixelRect,
    block: int,
)
    requires
        a.len() == b.len(),
        forall|i: int|
            0 <= i < a.len() && !under_rect(a.len() as int, width, height, rect, i)
                ==> #[trigger] a[i] == b[i],
        forall|i: int|
            0 <= i < a.len() && under_rect(a.len() as int, width, height, rect, i)
                ==> #[trigger] tile_average(a, width, height, rect, block, i) == tile_average(
                b,
                width,
                height,
                rect,
                block,
                i,
            ),
    ensures
        pixelated(a, width, height, rect, block) == pixelated(b, width, height, rect, block),
{
    let p = pixelated(a, width, height, rect, block);
    let q = pixelated(b, width, height, rect, block);
    assert(p =~= q);
}

/// Every tile of a mosaic is of one colour.
pub proof fn law_mosaic_tiles_are_flat(
    buf: Seq<u8>,
    width: int,
    height: int,
    rect: PixelRect,
    block: int,
    i: int,
    j: int,
)
    requires
        0 <= i < buf.len(),
        0 <= j < buf.len(),
        under_rect(buf.len() as int, width, height, rect, i),
        under_rect(buf.len() as int, width, height, rect, j),
        i % 4 == j % 4,
        tile_lo(byte_x(width, i), rect.x as int, block) == tile_lo(
            byte_x(width, j),
            rect.x as int,
            block,
        ),
        tile_lo(byte_y(width, i), rect.y as int, block) == tile_lo(
            byte_y(width, j),
            rect.y as int,
            block,
        ),
    ensures
        pixelated(buf, width, height, rect, block)[i] == pixelated(
            buf,
            width,
            height,
            rect,
            block,
        )[j],
{
}

/// A mosaic of a rectangle that is all one colour changes nothing.
pub proof fn law_pixelate_keeps_a_uniform_region(
    buf: Seq<u8>,
    width: int,
    height: int,
    rect: PixelRect,
    block: int,
    color: Seq<u8>,
)
    requires
        block >= 1,
        color.len() == 4,
        forall|i: int|
            0 <= i < buf.len() && under_rect(buf.len() as int, width, height, rect, i)
                ==> #[trigger] buf[i] == color[i % 4],
    ensures
        pixelated(buf, width, height, rect, block) == buf,
{
    let len = buf.len() as int;
    let out = pixelated(buf, width, height, rect, block);
    assert forall|i: int| 0 <= i < len implies out[i] == buf[i] by {
        if under_rect(len, width, height, rect, i) {
            lemma_own_tile(len, width, height, rect, block, i);
            lemma_tile_average_of_equal(buf, width, height, rect, block, i, buf[i] as int);
        }
    }
    assert(out =~= buf);
}

/// Where every byte of a channel in a tile is the same, so is the average.
proof fn lemma_tile_average_of_equal(
    buf: Seq<u8>,
    width: int,
    height: int,
    rect: PixelRect,
    block: int,
    i: int,
    v: int,
)
    requires
        block >= 1,
        0 <= i < buf.len(),
        under_rect(buf.len() as int, width, height, rect, i),
        forall|j: int|
            0 <= j < buf.len() && under_rect(buf.len() as int, width, height, rect, j) && j % 4 == i
                % 4 && tile_lo(byte_x(width, j), rect.x as int, block) == tile_lo(
                byte_x(width, i),
                rect.x as int,
                block,
            ) && tile_lo(byte_y(width, j), rect.y as int, block) == tile_lo(
                byte_y(width, i),
                rect.y as int,
                block,
            ) ==> #[trigger] buf[j] == v,
    ensures
        tile_average(buf, width, height, rect, block, i) == v,
{
    let len = buf.len() as int;
    let c = i % 4;
    let xi = byte_x(width, i);
    let yi = byte_y(width, i);
    let x0 = tile_lo(xi, rect.x as int, block);
    let x1 = tile_hi(xi, rect.x as int, block, rect_right(rect, width));
    let y0 = tile_lo(yi, rect.y as int, block);
    let y1 = tile_hi(yi, rect.y as int, block, rect_bottom(rect, height));
    lemma_own_tile(len, width, height, rect, block, i);
    assert forall|x: int, y: int|
        x0 <= x < x1 && y0 <= y < y1 && #[trigger] holds_pixel(
            len,
            width,
            x,
            y,
        ) implies buf[pixel_start(width, x, y) + c] == v by {
        let j = pixel_start(width, x, y) + c;
        lemma_pixel_bytes(width, x, y, c);
        assert(whole_pixel(len, pixel_start(width, x, y) + c) == holds_pixel(len, width, x, y));
        lemma_tile_shared(xi, x, rect.x as int, block);
        lemma_tile_shared(yi, y, rect.y as int, block);
        assert(buf[j] == v);
    }
    lemma_tile_uniform(buf, width, c, x0, x1, y0, y1, v);
    lemma_mean_of_equal(v, tile_count(len, width, x0, x1, y0, y1));
}

/// A second mosaic with the same tiles changes nothing more.
pub proof fn law_pixelate_is_idempotent(
    buf: Seq<u8>,
    width: int,
    height: int,
    rect: PixelRect,
    block: int,
)
    requires
        block >= 1,
    ensures
        pixelated(
            pixelated(buf, width, height, rect, block),
            width,
            height,
            rect,
            block,
        ) == pixelated(buf, width, height, rect, block),
{
    let len = buf.len() as int;
    let once = pixelated(buf, width, height, rect, block);
    let twice = pixelated(once, width, height, rect, block);
    assert forall|i: int| 0 <= i < len implies twice[i] == once[i] by {
        if under_rect(len, width, height, rect, i) {
            lemma_own_tile(len, width, height, rect, block, i);
            assert forall|j: int|
                0 <= j < once.len() && under_rect(once.len() as int, width, height, rect, j) && j
                    % 4 == i % 4 && tile_lo(byte_x(width, j), rect.x as int, block) == tile_lo(
                    byte_x(width, i),
                    rect.x as int,
                    block,
                ) && tile_lo(byte_y(width, j), rect.y as int, block) == tile_lo(
                    byte_y(width, i),
                    rect.y as int,
                    block,
                ) implies #[trigger] once[j] == once[i] by {
                assert(tile_average(buf, width, height, rect, block, j) == tile_average(
                    buf,
                    width,
                    height,
                    rect,
                    block,
                    i,
                ));
            }
            lemma_tile_average_of_equal(once, width, height, rect, block, i, once[i] as int);
        }
    }
    assert(twice =~= once);
}

/// A mosaic of single pixels changes nothing.
pub proof fn law_single_pixels_change_nothing(
    buf: Seq<u8>,
    width: int,
    height: int,
    rect: PixelRect,
)
    ensures
        pixelated(buf, width, height, rect, 1) == buf,
{
    let len = buf.len() as int;
    let out = pixelated(buf, width, height, rect, 1);
    assert forall|i: int| 0 <= i < len implies out[i] == buf[i] by {
        if under_rect(len, width, height, rect, i) {
            lemma_byte_pixel(width, i);
            let x = byte_x(width, i);
            let y = byte_y(width, i);
            let c = i % 4;
            lemma_pixel_bytes(width, x, y, c);
            assert(holds_pixel(len, width, x, y));
            reveal_with_fuel(row_sum, 2);
            reveal_with_fuel(row_count, 2);
            reveal_with_fuel(tile_sum, 2);
            reveal_with_fuel(tile_count, 2);
            assert(tile_sum(buf, width, c, x, x + 1, y, y + 1) == buf[i]);
            assert(tile_count(len, width, x, x + 1, y, y + 1) == 1);
            assert(tile_lo(x, rect.x as int, 1) == x) by (nonlinear_arith);
            assert(tile_lo(y, rect.y as int, 1) == y) by (nonlinear_arith);
            assert(tile_average(buf, width, height, rect, 1, i) == buf[i] as int);
        }
    }
    assert(out =~= buf);
}

} // verus!
