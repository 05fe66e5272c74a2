//! The box blur: two sliding-window passes over a padded copy of a region.
use vstd::arithmetic::div_mod::lemma_div_multiples_vanish;
use vstd::prelude::*;

use crate::pixmap::{
    byte_x, byte_y, holds_pixel, lemma_byte_pixel, lemma_in_canvas, lemma_pixel_bytes, pixel_start,
    rgba_len, start_of_pixel, whole_pixel,
};
use crate::redact::{rect_bottom, rect_right, under_rect};
use crate::units::{PixelRect, spec_clamp, spec_max, spec_min};

verus! {

/// The byte of channel `c` at place `i` of line `o`: lines are rows where the
/// pass is horizontal, columns where it is not.
pub open spec fn line_byte(width: int, horizontal: bool, o: int, i: int, c: int) -> int {
    if horizontal {
        pixel_start(width, i, o) + c
    } else {
        pixel_start(width, o, i) + c
    }
}

/// The line that byte `j` lies on.
pub open spec fn byte_line(width: int, horizontal: bool, j: int) -> int {
    if horizontal {
        byte_y(width, j)
    } else {
        byte_x(width, j)
    }
}

/// The place of byte `j` on its line.
pub open spec fn byte_place(width: int, horizontal: bool, j: int) -> int {
    if horizontal {
        byte_x(width, j)
    } else {
        byte_y(width, j)
    }
}

/// How many places a line has.
pub open spec fn line_len(width: int, height: int, horizontal: bool) -> int {
    if horizontal {
        width
    } else {
        height
    }
}

/// The sample at place `i` of a line, the edge sample repeating past either end.
pub open spec fn edge_sample(
    src: Seq<u8>,
    width: int,
    height: int,
    horizontal: bool,
    o: int,
    c: int,
    i: int,
) -> int {
    let k = spec_clamp(i, 0, line_len(width, height, horizontal) - 1);
    let at = line_byte(width, horizontal, o, k, c);
    if 0 <= at < src.len() {
        src[at] as int
    } else {
        0
    }
}

/// The samples at `from..to` of a line, summed.
pub open spec fn window_sum(
    src: Seq<u8>,
    width: int,
    height: int,
    horizontal: bool,
    o: int,
    c: int,
    from: int,
    to: int,
) -> int
    decreases to - from,
{
    if to <= from {
        0
    } else {
        window_sum(src, width, height, horizontal, o, c, from, to - 1) + edge_sample(
            src,
            width,
            height,
            horizontal,
            o,
            c,
            to - 1,
        )
    }
}

/// One pass at one place: the mean of the samples within `radius` of it.
pub open spec fn window_mean(
    src: Seq<u8>,
    width: int,
    height: int,
    radius: int,
    horizontal: bool,
    o: int,
    c: int,
    i: int,
) -> int {
    window_sum(src, width, height, horizontal, o, c, i - radius, i + radius + 1) / (2 * radius + 1)
}

/// What one pass puts at byte `j`.
pub open spec fn blurred_byte(
    src: Seq<u8>,
    width: int,
    height: int,
    radius: int,
    horizontal: bool,
    j: int,
) -> u8 {
    window_mean(
        src,
        width,
        height,
        radius,
        horizontal,
        byte_line(width, horizontal, j),
        j % 4,
        byte_place(width, horizontal, j),
    ) as u8
}

/// One pass over a whole image.
pub open spec fn axis_blurred(
    src: Seq<u8>,
    width: int,
    height: int,
    radius: int,
    horizontal: bool,
) -> Seq<u8> {
    Seq::new(
        rgba_len(width, height) as nat,
        |j: int| blurred_byte(src, width, height, radius, horizontal, j),
    )
}

proof fn lemma_window_bounds(
    src: Seq<u8>,
    width: int,
    height: int,
    horizontal: bool,
    o: int,
    c: int,
    from: int,
    to: int,
)
    requires
        from <= to,
    ensures
        0 <= window_sum(src, width, height, horizontal, o, c, from, to) <= 255 * (to - from),
    decreases to - from,
{
    if from < to {
        lemma_window_bounds(src, width, height, horizontal, o, c, from, to - 1);
    }
}

/// A window's first sample can be split off.
proof fn lemma_window_first(
    src: Seq<u8>,
    width: int,
    height: int,
    horizontal: bool,
    o: int,
    c: int,
    from: int,
    to: int,
)
    requires
        from < to,
    ensures
        window_sum(src, width, height, horizontal, o, c, from, to) == edge_sample(
            src,
            width,
            height,
            horizontal,
            o,
            c,
            from,
        ) + window_sum(src, width, height, horizontal, o, c, from + 1, to),
    decreases to - from,
{
    if from + 1 < to {
        lemma_window_first(src, width, height, horizontal, o, c, from, to - 1);
    } else {
        assert(window_sum(src, width, height, horizontal, o, c, from, to - 1) == 0);
        assert(window_sum(src, width, height, horizontal, o, c, from + 1, to) == 0);
    }
}

/// Where place `i` of line `o` lies among the bytes.
fn byte_at(width: u32, height: u32, horizontal: bool, o: u32, i: u32, c: usize) -> (at: usize)
    requires
        rgba_len(width as int, height as int) <= usize::MAX,
        o < line_len(width as int, height as int, !horizontal),
        i < line_len(width as int, height as int, horizontal),
        c < 4,
    ensures
        at == line_byte(width as int, horizontal, o as int, i as int, c as int),
        at < rgba_len(width as int, height as int),
        byte_line(width as int, horizontal, at as int) == o,
        byte_place(width as int, horizontal, at as int) == i,
        at % 4 == c,
{
    if horizontal {
        proof {
            lemma_pixel_bytes(width as int, i as int, o as int, c as int);
        }
        start_of_pixel(width, height, i, o) + c
    } else {
        proof {
            lemma_pixel_bytes(width as int, o as int, i as int, c as int);
        }
        start_of_pixel(width, height, o, i) + c
    }
}

/// Reads the sample at place `i`, which may lie past either end of the line.
fn read_sample(
    src: &Vec<u8>,
    width: u32,
    height: u32,
    horizontal: bool,
    o: u32,
    c: usize,
    i: i64,
) -> (r: i64)
    requires
        rgba_len(width as int, height as int) <= usize::MAX,
        width > 0,
        height > 0,
        o < line_len(width as int, height as int, !horizontal),
        c < 4,
    ensures
        r == edge_sample(
            src@,
            width as int,
            height as int,
            horizontal,
            o as int,
            c as int,
            i as int,
        ),
        0 <= r <= 255,
{
    let places: u32 = if horizontal {
        width
    } else {
        height
    };
    let k: u32 = if i < 0 {
        0
    } else if i > places as i64 - 1 {
        places - 1
    } else {
        i as u32
    };
    let at: usize = byte_at(width, height, horizontal, o, k, c);
    if at < src.len() {
        src[at] as i64
    } else {
        0
    }
}

/// One channel of one line of a pass.
fn blur_line(
    src: &Vec<u8>,
    dst: &mut Vec<u8>,
    width: u32,
    height: u32,
    radius: u32,
    horizontal: bool,
    o: u32,
    c: usize,
)
    requires
        rgba_len(width as int, height as int) <= usize::MAX,
        width > 0,
        height > 0,
        o < line_len(width as int, height as int, !horizontal),
        c < 4,
    ensures
        final(dst)@.len() == old(dst)@.len(),
        forall|j: int|
            0 <= j < old(dst)@.len() ==> #[trigger] final(dst)@[j] == (if j < rgba_len(
                width as int,
                height as int,
            ) && byte_line(width as int, horizontal, j) == o && j % 4 == c {
                blurred_byte(src@, width as int, height as int, radius as int, horizontal, j)
            } else {
                old(dst)@[j]
            }),
{
    let ghost w = width as int;
    let ghost h = height as int;
    let ghost r = radius as int;
    let ghost line = o as int;
    let ghost ch = c as int;
    let ghost start = dst@;
    let ghost len = dst@.len() as int;
    let places: u32 = if horizontal {
        width
    } else {
        height
    };
    let reach: i64 = radius as i64;
    let window: i64 = reach * 2 + 1;
    let mut sum: i64 = 0;
    let mut k: i64 = -reach;
    while k <= reach
        invariant
            rgba_len(width as int, height as int) <= usize::MAX,
            width > 0,
            height > 0,
            o < line_len(width as int, height as int, !horizontal),
            c < 4,
            w == width,
            h == height,
            line == o,
            ch == c,
            reach == radius,
            -reach <= k <= reach + 1,
            sum == window_sum(src@, w, h, horizontal, line, ch, -reach as int, k as int),
        decreases reach + 1 - k,
    {
        proof {
            lemma_window_bounds(src@, w, h, horizontal, line, ch, -reach as int, k as int);
        }
        sum = sum + read_sample(src, width, height, horizontal, o, c, k);
        k = k + 1;
    }
    let mut i: u32 = 0;
    while i < places
        invariant
            rgba_len(width as int, height as int) <= usize::MAX,
            width > 0,
            height > 0,
            o < line_len(width as int, height as int, !horizontal),
            c < 4,
            w == width,
            h == height,
            r == radius,
            line == o,
            ch == c,
            reach == radius,
            window == 2 * reach + 1,
            places == line_len(w, h, horizontal),
            i <= places,
            len == start.len(),
            dst@.len() == len,
            sum == window_sum(src@, w, h, horizontal, line, ch, i - r, i + r + 1),
            forall|j: int|
                0 <= j < len ==> #[trigger] dst@[j] == (if j < rgba_len(w, h) && byte_line(
                    w,
                    horizontal,
                    j,
                ) == line && j % 4 == ch && byte_place(w, horizontal, j) < i {
                    blurred_byte(src@, w, h, r, horizontal, j)
                } else {
                    start[j]
                }),
        decreases places - i,
    {
        let at: usize = byte_at(width, height, horizontal, o, i, c);
        let ghost before = dst@;
        proof {
            lemma_window_bounds(src@, w, h, horizontal, line, ch, i - r, i + r + 1);
            assert(0 <= sum as int / window as int <= 255) by (nonlinear_arith)
                requires
                    0 <= sum <= 255 * window,
                    window > 0,
            ;
        }
        if at < dst.len() {
            dst[at] = (sum / window) as u8;
        }
        proof {
            assert forall|j: int| 0 <= j < len implies #[trigger] dst@[j] == (if j < rgba_len(w, h)
                && byte_line(w, horizontal, j) == line && j % 4 == ch && byte_place(
                w,
                horizontal,
                j,
            ) < i + 1 {
                blurred_byte(src@, w, h, r, horizontal, j)
            } else {
                start[j]
            }) by {
                if j == at {
                    assert(blurred_byte(src@, w, h, r, horizontal, j) == window_mean(
                        src@,
                        w,
                        h,
                        r,
                        horizontal,
                        line,
                        ch,
                        i as int,
                    ) as u8);
                } else {
                    assert(dst@[j] == before[j]);
                    lemma_byte_pixel(w, j);
                    lemma_byte_pixel(w, at as int);
                }
            }
            lemma_window_first(src@, w, h, horizontal, line, ch, i - r, i + r + 2);
        }
        let entering: i64 = read_sample(
            src,
            width,
            height,
            horizontal,
            o,
            c,
            i as i64 + 1 + reach,
        );
        let leaving: i64 = read_sample(src, width, height, horizontal, o, c, i as i64 - reach);
        sum = sum + entering - leaving;
        i = i + 1;
    }
    proof {
        assert forall|j: int| 0 <= j < len implies #[trigger] dst@[j] == (if j < rgba_len(w, h)
            && byte_line(w, horizontal, j) == line && j % 4 == ch {
            blurred_byte(src@, w, h, r, horizontal, j)
        } else {
            start[j]
        }) by {
            if j < rgba_len(w, h) {
                lemma_place_in_line(w, h, horizontal, j);
            }
        }
    }
}

/// A byte of the image lies on one of its lines, at one of the line's places.
proof fn lemma_place_in_line(width: int, height: int, horizontal: bool, j: int)
    requires
        width > 0,
        height > 0,
        0 <= j < rgba_len(width, height),
    ensures
        0 <= byte_place(width, horizontal, j) < line_len(width, height, horizontal),
        0 <= byte_line(width, horizontal, j) < line_len(width, height, !horizontal),
        0 <= byte_x(width, j) < width,
        0 <= byte_y(width, j) < height,
{
    lemma_byte_pixel(width, j);
    let y = byte_y(width, j);
    if y >= height {
        assert(y * width >= height * width) by (nonlinear_arith)
            requires
                y >= height,
                width > 0,
        ;
        assert(height * width == width * height) by (nonlinear_arith);
    }
}

/// One pass of a separable box blur, along rows or along columns, the edge
/// pixel repeating past the image's edge.
pub fn box_blur_axis(
    src: &Vec<u8>,
    dst: &mut Vec<u8>,
    width: u32,
    height: u32,
    radius: u32,
    horizontal: bool,
)
    requires
        rgba_len(width as int, height as int) <= usize::MAX,
        line_len(width as int, height as int, !horizontal) > 0 ==> line_len(
            width as int,
            height as int,
            horizontal,
        ) > 0,
    ensures
        final(dst)@.len() == old(dst)@.len(),
        forall|j: int|
            0 <= j < old(dst)@.len() ==> #[trigger] final(dst)@[j] == (if j < rgba_len(
                width as int,
                height as int,
            ) {
                blurred_byte(src@, width as int, height as int, radius as int, horizontal, j)
            } else {
                old(dst)@[j]
            }),
        old(dst)@.len() == rgba_len(width as int, height as int) ==> final(dst)@ == axis_blurred(
            src@,
            width as int,
            height as int,
            radius as int,
            horizontal,
        ),
{
    let ghost w = width as int;
    let ghost h = height as int;
    let ghost r = radius as int;
    let ghost start = dst@;
    let ghost len = dst@.len() as int;
    if width == 0 || height == 0 {
        proof {
            assert(rgba_len(w, h) == 0) by (nonlinear_arith)
                requires
                    w == 0 || h == 0,
                    rgba_len(w, h) == w * h * 4,
            ;
            if len == 0 {
                assert(dst@ =~= axis_blurred(src@, w, h, r, horizontal));
            }
        }
        return;
    }
    let lines: u32 = if horizontal {
        height
    } else {
        width
    };
    let mut o: u32 = 0;
    while o < lines
        invariant
            rgba_len(width as int, height as int) <= usize::MAX,
            width > 0,
            height > 0,
            lines == line_len(w, h, !horizontal),
            o <= lines,
            w == width,
            h == height,
            r == radius,
            len == start.len(),
            dst@.len() == len,
            forall|j: int|
                0 <= j < len ==> #[trigger] dst@[j] == (if j < rgba_len(w, h) && byte_line(
                    w,
                    horizontal,
                    j,
                ) < o {
                    blurred_byte(src@, w, h, r, horizontal, j)
                } else {
                    start[j]
                }),
        decreases lines - o,
    {
        let mut c: usize = 0;
        while c < 4
            invariant
                rgba_len(width as int, height as int) <= usize::MAX,
                width > 0,
                height > 0,
                lines == line_len(w, h, !horizontal),
                o < lines,
                c <= 4,
                w == width,
                h == height,
                r == radius,
                len == start.len(),
                dst@.len() == len,
                forall|j: int|
                    0 <= j < len ==> #[trigger] dst@[j] == (if j < rgba_len(w, h) && (byte_line(
                        w,
                        horizontal,
                        j,
                    ) < o || (byte_line(w, horizontal, j) == o && j % 4 < c)) {
                        blurred_byte(src@, w, h, r, horizontal, j)
                    } else {
                        start[j]
                    }),
            decreases 4 - c,
        {
            blur_line(src, dst, width, height, radius, horizontal, o, c);
            c = c + 1;
        }
        o = o + 1;
    }
    proof {
        assert forall|j: int| 0 <= j < len implies #[trigger] dst@[j] == (if j < rgba_len(w, h) {
            blurred_byte(src@, w, h, r, horizontal, j)
        } else {
            start[j]
        }) by {
            if j < rgba_len(w, h) {
                lemma_place_in_line(w, h, horizontal, j);
            }
        }
        if len == rgba_len(w, h) {
            assert(dst@ =~= axis_blurred(src@, w, h, r, horizontal));
        }
    }
}

/// The part of a canvas that a blur of `rect` reads: `rect` cut to the canvas,
/// grown by `radius` on every side, cut to the canvas again.
pub struct Padded {
    pub x0: int,
    pub y0: int,
    pub x1: int,
    pub y1: int,
}

pub open spec fn padded(width: int, height: int, rect: PixelRect, radius: int) -> Padded {
    Padded {
        x0: spec_max(spec_min(rect.x as int, width) - radius, 0),
        y0: spec_max(spec_min(rect.y as int, height) - radius, 0),
        x1: spec_min(rect_right(rect, width) + radius, width),
        y1: spec_min(rect_bottom(rect, height) + radius, height),
    }
}

/// The padded copy, row by row. A row that the buffer does not hold whole is
/// black.
pub open spec fn padded_copy(buf: Seq<u8>, width: int, p: Padded) -> Seq<u8> {
    let w = p.x1 - p.x0;
    Seq::new(
        rgba_len(w, p.y1 - p.y0) as nat,
        |k: int|
            if pixel_start(width, p.x0, p.y0 + byte_y(w, k)) + w * 4 <= buf.len() {
                buf[pixel_start(width, p.x0 + byte_x(w, k), p.y0 + byte_y(w, k)) + k % 4]
            } else {
                0u8
            },
    )
}

/// The blur of `rect`: rows and then columns of the padded copy averaged, and
/// the part under `rect` put back.
pub open spec fn blurred(
    buf: Seq<u8>,
    width: int,
    height: int,
    rect: PixelRect,
    radius: int,
) -> Seq<u8> {
    let p = padded(width, height, rect, radius);
    let w = p.x1 - p.x0;
    let h = p.y1 - p.y0;
    let rows = axis_blurred(padded_copy(buf, width, p), w, h, radius, true);
    let both = axis_blurred(rows, w, h, radius, false);
    Seq::new(
        buf.len(),
        |i: int|
            if under_rect(buf.len() as int, width, height, rect, i) {
                both[pixel_start(w, byte_x(width, i) - p.x0, byte_y(width, i) - p.y0) + i % 4]
            } else {
                buf[i]
            },
    )
}

/// Copies a rectangle of the canvas out, row by row.
fn copy_region(buf: &Vec<u8>, width: u32, height: u32, x0: u32, y0: u32, x1: u32, y1: u32) -> (r:
    Vec<u8>)
    requires
        rgba_len(width as int, height as int) <= usize::MAX,
        x0 < x1 <= width,
        y0 < y1 <= height,
    ensures
        r@ == padded_copy(
            buf@,
            width as int,
            (Padded { x0: x0 as int, y0: y0 as int, x1: x1 as int, y1: y1 as int }),
        ),
{
    let ghost p = Padded { x0: x0 as int, y0: y0 as int, x1: x1 as int, y1: y1 as int };
    let ghost goal = padded_copy(buf@, width as int, p);
    let ghost w = x1 - x0;
    let ghost h = y1 - y0;
    let cols: u32 = x1 - x0;
    let rows: u32 = y1 - y0;
    let mut out: Vec<u8> = Vec::new();
    let mut row: u32 = 0;
    while row < rows
        invariant
            rgba_len(width as int, height as int) <= usize::MAX,
            x0 < x1 <= width,
            y0 < y1 <= height,
            p == (Padded { x0: x0 as int, y0: y0 as int, x1: x1 as int, y1: y1 as int }),
            goal == padded_copy(buf@, width as int, p),
            w == x1 - x0,
            h == y1 - y0,
            cols == w,
            rows == h,
            row <= rows,
            out@.len() == pixel_start(w, 0, row as int),
            forall|k: int| 0 <= k < out@.len() ==> out@[k] == goal[k],
        decreases rows - row,
    {
        let first: usize = start_of_pixel(width, height, x0, y0 + row);
        proof {
            lemma_in_canvas(width as int, height as int, x1 - 1, y0 + row);
        }
        let held: bool = first + cols as usize * 4 <= buf.len();
        let mut col: u32 = 0;
        while col < cols
            invariant
                rgba_len(width as int, height as int) <= usize::MAX,
                x0 < x1 <= width,
                y0 < y1 <= height,
                p == (Padded { x0: x0 as int, y0: y0 as int, x1: x1 as int, y1: y1 as int }),
                goal == padded_copy(buf@, width as int, p),
                w == x1 - x0,
                h == y1 - y0,
                cols == w,
                rows == h,
                row < rows,
                col <= cols,
                first == pixel_start(width as int, x0 as int, y0 + row),
                first + w * 4 <= usize::MAX,
                held == (first + w * 4 <= buf@.len()),
                out@.len() == pixel_start(w, col as int, row as int),
                forall|k: int| 0 <= k < out@.len() ==> out@[k] == goal[k],
            decreases cols - col,
        {
            let ghost before = out@;
            if held {
                let from: usize = first + col as usize * 4;
                out.push(buf[from]);
                out.push(buf[from + 1]);
                out.push(buf[from + 2]);
                out.push(buf[from + 3]);
            } else {
                out.push(0);
                out.push(0);
                out.push(0);
                out.push(0);
            }
            proof {
                let at = pixel_start(w, col as int, row as int);
                lemma_in_canvas(w, h, col as int, row as int);
                assert forall|k: int| 0 <= k < out@.len() implies out@[k] == goal[k] by {
                    if k >= at {
                        lemma_pixel_bytes(w, col as int, row as int, k - at);
                    } else {
                        assert(out@[k] == before[k]);
                    }
                }
            }
            col = col + 1;
        }
        proof {
            assert(pixel_start(w, w, row as int) == pixel_start(w, 0, row as int + 1))
                by (nonlinear_arith);
        }
        row = row + 1;
    }
    proof {
        assert(pixel_start(w, 0, h) == rgba_len(w, h)) by (nonlinear_arith);
        assert(out@ =~= goal);
    }
    out
}

/// Puts the part of `patch` that lies over `x0..x1` by `y0..y1` back, the
/// patch's own corner being at `(left, top)`.
fn paste_region(
    buf: &mut Vec<u8>,
    width: u32,
    height: u32,
    x0: u32,
    y0: u32,
    x1: u32,
    y1: u32,
    patch: &Vec<u8>,
    patch_w: u32,
    patch_h: u32,
    left: u32,
    top: u32,
)
    requires
        rgba_len(width as int, height as int) <= usize::MAX,
        rgba_len(patch_w as int, patch_h as int) == patch@.len(),
        left <= x0 <= x1 <= width,
        top <= y0 <= y1 <= height,
        x1 <= left + patch_w,
        y1 <= top + patch_h,
    ensures
        final(buf)@.len() == old(buf)@.len(),
        forall|i: int|
            0 <= i < old(buf)@.len() ==> #[trigger] final(buf)@[i] == (if whole_pixel(
                old(buf)@.len() as int,
                i,
            ) && x0 <= byte_x(width as int, i) < x1 && y0 <= byte_y(width as int, i) < y1 {
                patch@[pixel_start(
                    patch_w as int,
                    byte_x(width as int, i) - left,
                    byte_y(width as int, i) - top,
                ) + i % 4]
            } else {
                old(buf)@[i]
            }),
{
    let ghost w = width as int;
    let ghost pw = patch_w as int;
    let ghost start = buf@;
    let ghost len = buf@.len() as int;
    let size: usize = patch.len();
    if x0 == x1 {
        return;
    }
    let mut y: u32 = y0;
    while y < y1
        invariant
            rgba_len(width as int, height as int) <= usize::MAX,
            rgba_len(patch_w as int, patch_h as int) == size,
            size == patch@.len(),
            left <= x0 < x1 <= width,
            top <= y0 <= y <= y1 <= height,
            x1 <= left + patch_w,
            y1 <= top + patch_h,
            w == width,
            pw == patch_w,
            len == start.len(),
            buf@.len() == len,
            forall|i: int|
                0 <= i < len ==> #[trigger] buf@[i] == (if whole_pixel(len, i) && x0 <= byte_x(w, i)
                    < x1 && y0 <= byte_y(w, i) < y {
                    patch@[pixel_start(pw, byte_x(w, i) - left, byte_y(w, i) - top) + i % 4]
                } else {
                    start[i]
                }),
        decreases y1 - y,
    {
        let mut x: u32 = x0;
        while x < x1
            invariant
                rgba_len(width as int, height as int) <= usize::MAX,
                rgba_len(patch_w as int, patch_h as int) == size,
                size == patch@.len(),
                left <= x0 <= x <= x1 <= width,
                x0 < x1,
                top <= y0 <= y < y1 <= height,
                x1 <= left + patch_w,
                y1 <= top + patch_h,
                w == width,
                pw == patch_w,
                len == start.len(),
                buf@.len() == len,
                forall|i: int|
                    0 <= i < len ==> #[trigger] buf@[i] == (if whole_pixel(len, i) && x0 <= byte_x(
                        w,
                        i,
                    ) < x1 && (y0 <= byte_y(w, i) < y || (byte_y(w, i) == y && byte_x(w, i) < x)) {
                        patch@[pixel_start(pw, byte_x(w, i) - left, byte_y(w, i) - top) + i % 4]
                    } else {
                        start[i]
                    }),
            decreases x1 - x,
        {
            let ghost before = buf@;
            let from: usize = start_of_pixel(patch_w, patch_h, x - left, y - top);
            let at: usize = start_of_pixel(width, height, x, y);
            if buf.len() >= 4 && at <= buf.len() - 4 {
                buf[at] = patch[from];
                buf[at + 1] = patch[from + 1];
                buf[at + 2] = patch[from + 2];
                buf[at + 3] = patch[from + 3];
            }
            proof {
                assert forall|i: int| 0 <= i < len implies #[trigger] buf@[i] == (if whole_pixel(
                    len,
                    i,
                ) && x0 <= byte_x(w, i) < x1 && (y0 <= byte_y(w, i) < y || (byte_y(w, i) == y
                    && byte_x(w, i) < x + 1)) {
                    patch@[pixel_start(pw, byte_x(w, i) - left, byte_y(w, i) - top) + i % 4]
                } else {
                    start[i]
                }) by {
                    lemma_byte_pixel(w, i);
                    if at <= i < at + 4 {
                        lemma_pixel_bytes(w, x as int, y as int, i - at);
                        assert(whole_pixel(len, pixel_start(w, x as int, y as int) + (i - at))
                            == holds_pixel(len, w, x as int, y as int));
                    } else {
                        assert(buf@[i] == before[i]);
                    }
                }
            }
            x = x + 1;
        }
        y = y + 1;
    }
}

/// Blurs `rect` with a box of `radius` pixels (at least one) to each side.
/// Pixels near the edge of `rect` blend with what lies around it; nothing
/// outside `rect` changes.
pub fn blur_region(buf: &mut Vec<u8>, width: u32, height: u32, rect: PixelRect, radius: u32)
    requires
        rgba_len(width as int, height as int) <= usize::MAX,
    ensures
        final(buf)@ == blurred(
            old(buf)@,
            width as int,
            height as int,
            rect,
            spec_max(radius as int, 1),
        ),
{
    let reach: u32 = if radius < 1 {
        1
    } else {
        radius
    };
    let ghost w = width as int;
    let ghost h = height as int;
    let ghost start = buf@;
    let ghost len = buf@.len() as int;
    let ghost goal = blurred(start, w, h, rect, reach as int);
    let x0: u32 = if rect.x < width {
        rect.x
    } else {
        width
    };
    let y0: u32 = if rect.y < height {
        rect.y
    } else {
        height
    };
    let far_x: u32 = rect.x.saturating_add(rect.width);
    let far_y: u32 = rect.y.saturating_add(rect.height);
    let x1: u32 = if far_x < width {
        far_x
    } else {
        width
    };
    let y1: u32 = if far_y < height {
        far_y
    } else {
        height
    };
    if x1 <= x0 || y1 <= y0 {
        assert(buf@ =~= goal);
        return;
    }
    let sx0: u32 = x0.saturating_sub(reach);
    let sy0: u32 = y0.saturating_sub(reach);
    let wide_x: u32 = x1.saturating_add(reach);
    let wide_y: u32 = y1.saturating_add(reach);
    let sx1: u32 = if wide_x < width {
        wide_x
    } else {
        width
    };
    let sy1: u32 = if wide_y < height {
        wide_y
    } else {
        height
    };
    let ghost p = padded(w, h, rect, reach as int);
    assert(p.x0 == sx0 && p.y0 == sy0 && p.x1 == sx1 && p.y1 == sy1);
    let src_w: u32 = sx1 - sx0;
    let src_h: u32 = sy1 - sy0;
    let source = copy_region(buf, width, height, sx0, sy0, sx1, sy1);
    proof {
        assert(rgba_len(src_w as int, src_h as int) <= rgba_len(w, h)) by (nonlinear_arith)
            requires
                0 <= src_w <= w,
                0 <= src_h <= h,
        ;
    }
    let mut rows: Vec<u8> = source.clone();
    box_blur_axis(&source, &mut rows, src_w, src_h, reach, true);
    let mut both: Vec<u8> = rows.clone();
    box_blur_axis(&rows, &mut both, src_w, src_h, reach, false);
    paste_region(buf, width, height, x0, y0, x1, y1, &both, src_w, src_h, sx0, sy0);
    assert(buf@ =~= goal);
}

proof fn lemma_window_uniform(
    src: Seq<u8>,
    width: int,
    height: int,
    horizontal: bool,
    o: int,
    c: int,
    from: int,
    to: int,
    v: int,
)
    requires
        from <= to,
        forall|i: int|
            from <= i < to ==> #[trigger] edge_sample(src, width, height, horizontal, o, c, i) == v,
    ensures
        window_sum(src, width, height, horizontal, o, c, from, to) == v * (to - from),
    decreases to - from,
{
    if from < to {
        lemma_window_uniform(src, width, height, horizontal, o, c, from, to - 1, v);
        assert(v * (to - from) == v * (to - 1 - from) + v) by (nonlinear_arith);
    } else {
        assert(v * (to - from) == 0) by (nonlinear_arith)
            requires
                to == from,
        ;
    }
}

/// One pass over an image of one colour changes nothing.
proof fn lemma_axis_uniform(
    src: Seq<u8>,
    width: int,
    height: int,
    radius: int,
    horizontal: bool,
    color: Seq<u8>,
)
    requires
        width > 0,
        height > 0,
        radius >= 1,
        color.len() == 4,
        src.len() == rgba_len(width, height),
        forall|j: int| 0 <= j < src.len() ==> #[trigger] src[j] == color[j % 4],
    ensures
        axis_blurred(src, width, height, radius, horizontal) == src,
{
    let out = axis_blurred(src, width, height, radius, horizontal);
    assert forall|j: int| 0 <= j < src.len() implies out[j] == src[j] by {
        lemma_place_in_line(width, height, horizontal, j);
        let o = byte_line(width, horizontal, j);
        let i = byte_place(width, horizontal, j);
        let c = j % 4;
        let v = color[c] as int;
        assert forall|k: int| i - radius <= k < i + radius + 1 implies #[trigger] edge_sample(
            src,
            width,
            height,
            horizontal,
            o,
            c,
            k,
        ) == v by {
            let places = line_len(width, height, horizontal);
            let place = spec_clamp(k, 0, places - 1);
            if horizontal {
                lemma_pixel_bytes(width, place, o, c);
                lemma_in_canvas(width, height, place, o);
            } else {
                lemma_pixel_bytes(width, o, place, c);
                lemma_in_canvas(width, height, o, place);
            }
        }
        lemma_window_uniform(
            src,
            width,
            height,
            horizontal,
            o,
            c,
            i - radius,
            i + radius + 1,
            v,
        );
        lemma_mean(v, 2 * radius + 1);
    }
    assert(out =~= src);
}

proof fn lemma_mean(v: int, n: int)
    requires
        n > 0,
    ensures
        (v * n) / n == v,
{
    lemma_div_multiples_vanish(v, n);
    assert(v * n == n * v) by (nonlinear_arith);
}

/// A blur changes nothing outside its rectangle, and keeps the buffer's length.
pub proof fn law_blur_stays_inside(
    buf: Seq<u8>,
    width: int,
    height: int,
    rect: PixelRect,
    radius: int,
)
    ensures
        blurred(buf, width, height, rect, radius).len() == buf.len(),
        forall|i: int|
            0 <= i < buf.len() && !under_rect(buf.len() as int, width, height, rect, i)
                ==> #[trigger] blurred(buf, width, height, rect, radius)[i] == buf[i],
{
}

/// A blur of a rectangle that is one colour, as is what it reads around it,
/// changes nothing.
pub proof fn law_blur_keeps_a_uniform_region(
    buf: Seq<u8>,
    width: int,
    height: int,
    rect: PixelRect,
    radius: int,
    color: Seq<u8>,
)
    requires
        width >= 0,
        height >= 0,
        radius >= 1,
        color.len() == 4,
        buf.len() == rgba_len(width, height),
        forall|i: int|
            0 <= i < buf.len() && padded(width, height, rect, radius).x0 <= byte_x(width, i)
                < padded(width, height, rect, radius).x1 && padded(width, height, rect, radius).y0
                <= byte_y(width, i) < padded(width, height, rect, radius).y1 ==> #[trigger] buf[i]
                == color[i % 4],
    ensures
        blurred(buf, width, height, rect, radius) == buf,
{
    let p = padded(width, height, rect, radius);
    let w = p.x1 - p.x0;
    let h = p.y1 - p.y0;
    let out = blurred(buf, width, height, rect, radius);
    let len = buf.len() as int;
    assert forall|i: int| 0 <= i < len implies out[i] == buf[i] by {
        if under_rect(len, width, height, rect, i) {
            let copy = padded_copy(buf, width, p);
            let x = byte_x(width, i);
            let y = byte_y(width, i);
            assert(w > 0 && h > 0);
            assert forall|k: int| 0 <= k < copy.len() implies #[trigger] copy[k] == color[k
                % 4] by {
                lemma_place_in_line(w, h, true, k);
                let cx = p.x0 + byte_x(w, k);
                let cy = p.y0 + byte_y(w, k);
                lemma_pixel_bytes(width, cx, cy, k % 4);
                lemma_in_canvas(width, height, cx, cy);
                lemma_in_canvas(width, height, p.x1 - 1, cy);
            }
            assert(rgba_len(w, h) >= 0) by (nonlinear_arith)
                requires
                    w > 0,
                    h > 0,
            ;
            lemma_axis_uniform(copy, w, h, radius, true, color);
            lemma_axis_uniform(copy, w, h, radius, false, color);
            lemma_pixel_bytes(w, x - p.x0, y - p.y0, i % 4);
            lemma_in_canvas(w, h, x - p.x0, y - p.y0);
        }
    }
    assert(out =~= buf);
}

/// What one pass puts at a pixel.
pub proof fn lemma_pass_value(
    src: Seq<u8>,
    width: int,
    height: int,
    radius: int,
    horizontal: bool,
    x: int,
    y: int,
    c: int,
)
    requires
        0 <= x < width,
        0 <= y < height,
        0 <= c < 4,
    ensures
        0 <= pixel_start(width, x, y) + c < axis_blurred(
            src,
            width,
            height,
            radius,
            horizontal,
        ).len(),
        axis_blurred(src, width, height, radius, horizontal)[pixel_start(width, x, y) + c]
            == window_mean(
            src,
            width,
            height,
            radius,
            horizontal,
            if horizontal {
                y
            } else {
                x
            },
            c,
            if horizontal {
                x
            } else {
                y
            },
        ) as u8,
{
    lemma_pixel_bytes(width, x, y, c);
    lemma_in_canvas(width, height, x, y);
}

/// Windows over two lines whose samples agree, one shifted by `d` against the
/// other, have the same sum.
proof fn lemma_window_shift(
    a: Seq<u8>,
    aw: int,
    ah: int,
    ao: int,
    b: Seq<u8>,
    bw: int,
    bh: int,
    bo: int,
    horizontal: bool,
    c: int,
    d: int,
    from: int,
    to: int,
)
    requires
        forall|i: int|
            from <= i < to ==> #[trigger] edge_sample(b, bw, bh, horizontal, bo, c, i)
                == edge_sample(a, aw, ah, horizontal, ao, c, i - d),
    ensures
        window_sum(a, aw, ah, horizontal, ao, c, from - d, to - d) == window_sum(
            b,
            bw,
            bh,
            horizontal,
            bo,
            c,
            from,
            to,
        ),
    decreases to - from,
{
    if from < to {
        lemma_window_shift(a, aw, ah, ao, b, bw, bh, bo, horizontal, c, d, from, to - 1);
        assert(edge_sample(b, bw, bh, horizontal, bo, c, to - 1) == edge_sample(
            a,
            aw,
            ah,
            horizontal,
            ao,
            c,
            to - 1 - d,
        ));
    }
}

/// Whether two images agree on an area: `a` holds the area `p` of `b`, and over
/// the columns `x0..x1` of it they are the same.
spec fn agree(
    a: Seq<u8>,
    b: Seq<u8>,
    width: int,
    p: Padded,
    x0: int,
    x1: int,
) -> bool {
    forall|x: int, y: int, c: int|
        x0 <= x < x1 && p.y0 <= y < p.y1 && 0 <= c < 4 ==> #[trigger] b[pixel_start(width, x, y)
            + c] == a[pixel_start(p.x1 - p.x0, x - p.x0, y - p.y0) + c]
}

/// The padded copy is the area it was copied from.
proof fn lemma_copy_agrees(buf: Seq<u8>, width: int, height: int, p: Padded)
    requires
        0 <= p.x0 < p.x1 <= width,
        0 <= p.y0 < p.y1 <= height,
        buf.len() == rgba_len(width, height),
    ensures
        padded_copy(buf, width, p).len() == rgba_len(p.x1 - p.x0, p.y1 - p.y0),
        agree(padded_copy(buf, width, p), buf, width, p, p.x0, p.x1),
{
    let w = p.x1 - p.x0;
    let h = p.y1 - p.y0;
    let copy = padded_copy(buf, width, p);
    assert(rgba_len(w, h) >= 0) by (nonlinear_arith)
        requires
            w > 0,
            h > 0,
    ;
    assert forall|x: int, y: int, c: int|
        p.x0 <= x < p.x1 && p.y0 <= y < p.y1 && 0 <= c < 4 implies #[trigger] buf[pixel_start(
        width,
        x,
        y,
    ) + c] == copy[pixel_start(w, x - p.x0, y - p.y0) + c] by {
        lemma_pixel_bytes(w, x - p.x0, y - p.y0, c);
        lemma_in_canvas(w, h, x - p.x0, y - p.y0);
        lemma_in_canvas(width, height, p.x1 - 1, y);
    }
}

/// The pass over the rows gives the same on the copy as on the whole, away from
/// those borders of the copy that are none of the whole.
proof fn lemma_rows_agree(
    copy: Seq<u8>,
    buf: Seq<u8>,
    width: int,
    height: int,
    p: Padded,
    radius: int,
    x0: int,
    x1: int,
)
    requires
        0 <= p.x0 < p.x1 <= width,
        0 <= p.y0 < p.y1 <= height,
        radius >= 1,
        buf.len() == rgba_len(width, height),
        copy.len() == rgba_len(p.x1 - p.x0, p.y1 - p.y0),
        agree(copy, buf, width, p, p.x0, p.x1),
        p.x0 == spec_max(x0 - radius, 0),
        p.x1 == spec_min(x1 + radius, width),
        0 <= x0 < x1 <= width,
    ensures
        agree(
            axis_blurred(copy, p.x1 - p.x0, p.y1 - p.y0, radius, true),
            axis_blurred(buf, width, height, radius, true),
            width,
            p,
            x0,
            x1,
        ),
{
    let w = p.x1 - p.x0;
    let h = p.y1 - p.y0;
    let part = axis_blurred(copy, w, h, radius, true);
    let whole = axis_blurred(buf, width, height, radius, true);
    assert forall|x: int, y: int, c: int|
        x0 <= x < x1 && p.y0 <= y < p.y1 && 0 <= c < 4 implies #[trigger] whole[pixel_start(
        width,
        x,
        y,
    ) + c] == part[pixel_start(w, x - p.x0, y - p.y0) + c] by {
        lemma_pass_value(buf, width, height, radius, true, x, y, c);
        lemma_pass_value(copy, w, h, radius, true, x - p.x0, y - p.y0, c);
        assert forall|i: int| x - radius <= i < x + radius + 1 implies #[trigger] edge_sample(
            buf,
            width,
            height,
            true,
            y,
            c,
            i,
        ) == edge_sample(copy, w, h, true, y - p.y0, c, i - p.x0) by {
            let k = spec_clamp(i, 0, width - 1);
            assert(spec_clamp(i - p.x0, 0, w - 1) == k - p.x0);
            lemma_in_canvas(width, height, k, y);
            lemma_in_canvas(w, h, k - p.x0, y - p.y0);
            assert(buf[pixel_start(width, k, y) + c] == copy[pixel_start(w, k - p.x0, y - p.y0)
                + c]);
        }
        lemma_window_shift(
            copy,
            w,
            h,
            y - p.y0,
            buf,
            width,
            height,
            y,
            true,
            c,
            p.x0,
            x - radius,
            x + radius + 1,
        );
    }
}

/// The pass over the columns does so too.
proof fn lemma_columns_agree(
    rows: Seq<u8>,
    all_rows: Seq<u8>,
    width: int,
    height: int,
    p: Padded,
    radius: int,
    x: int,
    y: int,
    y0: int,
    y1: int,
    c: int,
)
    requires
        0 <= p.x0 < p.x1 <= width,
        0 <= p.y0 < p.y1 <= height,
        radius >= 1,
        all_rows.len() == rgba_len(width, height),
        rows.len() == rgba_len(p.x1 - p.x0, p.y1 - p.y0),
        p.x0 <= x < p.x1,
        agree(rows, all_rows, width, p, x, x + 1),
        p.y0 == spec_max(y0 - radius, 0),
        p.y1 == spec_min(y1 + radius, height),
        0 <= y0 <= y < y1 <= height,
        0 <= c < 4,
    ensures
        axis_blurred(all_rows, width, height, radius, false)[pixel_start(width, x, y) + c]
            == axis_blurred(rows, p.x1 - p.x0, p.y1 - p.y0, radius, false)[pixel_start(
            p.x1 - p.x0,
            x - p.x0,
            y - p.y0,
        ) + c],
{
    let w = p.x1 - p.x0;
    let h = p.y1 - p.y0;
    lemma_pass_value(all_rows, width, height, radius, false, x, y, c);
    lemma_pass_value(rows, w, h, radius, false, x - p.x0, y - p.y0, c);
    assert forall|i: int| y - radius <= i < y + radius + 1 implies #[trigger] edge_sample(
        all_rows,
        width,
        height,
        false,
        x,
        c,
        i,
    ) == edge_sample(rows, w, h, false, x - p.x0, c, i - p.y0) by {
        let k = spec_clamp(i, 0, height - 1);
        assert(spec_clamp(i - p.y0, 0, h - 1) == k - p.y0);
        lemma_in_canvas(width, height, x, k);
        lemma_in_canvas(w, h, x - p.x0, k - p.y0);
        assert(all_rows[pixel_start(width, x, k) + c] == rows[pixel_start(w, x - p.x0, k - p.y0)
            + c]);
    }
    lemma_window_shift(
        rows,
        w,
        h,
        x - p.x0,
        all_rows,
        width,
        height,
        x,
        false,
        c,
        p.y0,
        y - radius,
        y + radius + 1,
    );
}

/// The blur of a whole image: every row averaged, and then every column.
pub open spec fn image_blurred(buf: Seq<u8>, width: int, height: int, radius: int) -> Seq<u8> {
    axis_blurred(axis_blurred(buf, width, height, radius, true), width, height, radius, false)
}

/// What a blur puts under its rectangle is what a blur of the whole puts there.
pub proof fn lemma_part_of_image_blur(
    buf: Seq<u8>,
    width: int,
    height: int,
    rect: PixelRect,
    radius: int,
    i: int,
)
    requires
        width >= 0,
        height >= 0,
        radius >= 1,
        buf.len() == rgba_len(width, height),
        0 <= i < buf.len(),
        under_rect(buf.len() as int, width, height, rect, i),
    ensures
        blurred(buf, width, height, rect, radius)[i] == image_blurred(
            buf,
            width,
            height,
            radius,
        )[i],
{
    let p = padded(width, height, rect, radius);
    let w = p.x1 - p.x0;
    let h = p.y1 - p.y0;
    let x = byte_x(width, i);
    let y = byte_y(width, i);
    let c = i % 4;
    let x0 = rect.x as int;
    let x1 = rect_right(rect, width);
    let y0 = rect.y as int;
    let y1 = rect_bottom(rect, height);
    assert(width > 0 && height > 0);
    lemma_byte_pixel(width, i);
    let copy = padded_copy(buf, width, p);
    let rows = axis_blurred(copy, w, h, radius, true);
    let all_rows = axis_blurred(buf, width, height, radius, true);
    assert(rgba_len(w, h) >= 0) by (nonlinear_arith)
        requires
            w > 0,
            h > 0,
    ;
    lemma_copy_agrees(buf, width, height, p);
    lemma_rows_agree(copy, buf, width, height, p, radius, x0, x1);
    assert(agree(rows, all_rows, width, p, x, x + 1));
    lemma_columns_agree(rows, all_rows, width, height, p, radius, x, y, y0, y1, c);
}

/// A part is blurred as the whole image is: under the rectangle every pixel is
/// what blurring the whole image would make of it, so that its edge mixes in
/// what really lies beside it; everywhere else nothing changes.
pub proof fn law_blur_is_part_of_the_whole(
    buf: Seq<u8>,
    width: u32,
    height: u32,
    rect: PixelRect,
    radius: int,
)
    requires
        radius >= 1,
        buf.len() == rgba_len(width as int, height as int),
    ensures
        ({
            let whole = PixelRect { x: 0, y: 0, width, height };
            let w = width as int;
            let h = height as int;
            forall|i: int|
                0 <= i < buf.len() ==> #[trigger] blurred(buf, w, h, rect, radius)[i] == (
                if under_rect(buf.len() as int, w, h, rect, i) {
                    blurred(buf, w, h, whole, radius)[i]
                } else {
                    buf[i]
                })
        }),
        blurred(
            buf,
            width as int,
            height as int,
            (PixelRect { x: 0, y: 0, width, height }),
            radius,
        ) == image_blurred(buf, width as int, height as int, radius),
{
    let whole = PixelRect { x: 0, y: 0, width, height };
    let w = width as int;
    let h = height as int;
    let len = buf.len() as int;
    let all = image_blurred(buf, w, h, radius);
    assert forall|i: int| 0 <= i < len implies under_rect(len, w, h, whole, i) by {
        if w == 0 || h == 0 {
            assert(rgba_len(w, h) == 0) by (nonlinear_arith)
                requires
                    w == 0 || h == 0,
                    rgba_len(w, h) == w * h * 4,
            ;
        }
        lemma_place_in_line(w, h, true, i);
        lemma_byte_pixel(w, i);
        lemma_in_canvas(w, h, byte_x(w, i), byte_y(w, i));
    }
    assert forall|i: int| 0 <= i < len implies blurred(buf, w, h, whole, radius)[i] == all[i] by {
        lemma_part_of_image_blur(buf, w, h, whole, radius, i);
    }
    assert(blurred(buf, w, h, whole, radius) =~= all);
    assert forall|i: int| 0 <= i < len implies #[trigger] blurred(buf, w, h, rect, radius)[i] == (
    if under_rect(len, w, h, rect, i) {
        all[i]
    } else {
        buf[i]
    }) by {
        if under_rect(len, w, h, rect, i) {
            lemma_part_of_image_blur(buf, w, h, rect, radius, i);
        }
    }
}

} // verus!
