//! RGBA8 pixel buffers: where the bytes of a pixel lie, and frames.
//!
//! A buffer of `width` pixels per row holds pixel `(x, y)` in the four bytes
//! from `pixel_start(width, x, y)` on. A buffer may be shorter than its
//! dimensions promise; a byte then counts as part of a pixel only where all
//! four bytes of that pixel are there.
use vstd::arithmetic::div_mod::{lemma_fundamental_div_mod, lemma_fundamental_div_mod_converse};
use vstd::prelude::*;

use crate::units::{PixelRect, spec_min};

verus! {

/// The bytes that `width` by `height` pixels take.
pub open spec fn rgba_len(width: int, height: int) -> int {
    width * height * 4
}

/// The first byte of pixel `(x, y)`.
pub open spec fn pixel_start(width: int, x: int, y: int) -> int {
    (y * width + x) * 4
}

/// The column that byte `i` belongs to.
pub open spec fn byte_x(width: int, i: int) -> int {
    (i / 4) % width
}

/// The row that byte `i` belongs to.
pub open spec fn byte_y(width: int, i: int) -> int {
    (i / 4) / width
}

/// Whether byte `i` belongs to a pixel that the buffer holds whole.
pub open spec fn whole_pixel(len: int, i: int) -> bool {
    (i / 4) * 4 + 4 <= len
}

/// Whether the buffer holds pixel `(x, y)` whole.
pub open spec fn holds_pixel(len: int, width: int, x: int, y: int) -> bool {
    pixel_start(width, x, y) + 4 <= len
}

/// A pixel's bytes lead back to the pixel.
pub proof fn lemma_pixel_bytes(width: int, x: int, y: int, c: int)
    requires
        0 <= x < width,
        0 <= y,
        0 <= c < 4,
    ensures
        0 <= pixel_start(width, x, y),
        (pixel_start(width, x, y) + c) / 4 == y * width + x,
        (pixel_start(width, x, y) + c) % 4 == c,
        byte_x(width, pixel_start(width, x, y) + c) == x,
        byte_y(width, pixel_start(width, x, y) + c) == y,
        forall|len: int| #[trigger]
            whole_pixel(len, pixel_start(width, x, y) + c) == holds_pixel(len, width, x, y),
{
    assert(y * width >= 0) by (nonlinear_arith)
        requires
            y >= 0,
            width > 0,
    ;
    let q = y * width + x;
    assert(pixel_start(width, x, y) == q * 4);
    assert((q * 4 + c) / 4 == q);
    lemma_fundamental_div_mod_converse(q, width, y, x);
}

/// Every byte is one of the four bytes of the pixel it belongs to.
pub proof fn lemma_byte_pixel(width: int, i: int)
    requires
        width > 0,
        i >= 0,
    ensures
        0 <= byte_x(width, i) < width,
        0 <= byte_y(width, i),
        pixel_start(width, byte_x(width, i), byte_y(width, i)) + i % 4 == i,
{
    let q = i / 4;
    lemma_fundamental_div_mod(q, width);
    assert(0 <= q % width < width) by (nonlinear_arith)
        requires
            width > 0,
    ;
    assert(0 <= q / width) by (nonlinear_arith)
        requires
            width > 0,
            q >= 0,
    ;
    assert((q / width) * width == width * (q / width)) by (nonlinear_arith);
    assert(pixel_start(width, byte_x(width, i), byte_y(width, i)) == q * 4);
}

/// A pixel of the canvas lies within the canvas's bytes.
pub proof fn lemma_in_canvas(width: int, height: int, x: int, y: int)
    requires
        0 <= x < width,
        0 <= y < height,
    ensures
        0 <= y * width,
        y * width + x < width * height,
        0 <= pixel_start(width, x, y),
        pixel_start(width, x, y) + 4 <= rgba_len(width, height),
{
    assert(0 <= y * width && y * width + width <= width * height) by (nonlinear_arith)
        requires
            0 <= y,
            y + 1 <= height,
            width > 0,
    ;
}

/// Where pixel `(x, y)` starts.
pub fn start_of_pixel(width: u32, height: u32, x: u32, y: u32) -> (i: usize)
    requires
        x < width,
        y < height,
        rgba_len(width as int, height as int) <= usize::MAX,
    ensures
        i == pixel_start(width as int, x as int, y as int),
        i + 4 <= rgba_len(width as int, height as int),
{
    proof {
        lemma_in_canvas(width as int, height as int, x as int, y as int);
    }
    (y as usize * width as usize + x as usize) * 4
}

/// What a frame shows: its dimensions in pixels, its scale in 120ths, and its
/// pixels, row by row.
pub struct Picture {
    pub width: u32,
    pub height: u32,
    pub scale: u32,
    pub pixels: Seq<u8>,
}

/// Four bytes per pixel, no more and no less.
pub open spec fn well_formed(p: Picture) -> bool {
    p.pixels.len() == rgba_len(p.width as int, p.height as int)
}

/// One captured or decoded image. Its buffer always holds exactly the bytes
/// that its dimensions ask for.
#[derive(Debug)]
pub struct Frame {
    width: u32,
    height: u32,
    scale: u32,
    pixels: Vec<u8>,
}

impl View for Frame {
    type V = Picture;

    closed spec fn view(&self) -> Picture {
        Picture {
            width: self.width,
            height: self.height,
            scale: self.scale,
            pixels: self.pixels@,
        }
    }
}

impl Frame {
    #[verifier::type_invariant]
    closed spec fn inv(self) -> bool {
        well_formed(self@)
    }

    /// A frame over `pixels`, unless their number does not match the
    /// dimensions.
    pub fn new(width: u32, height: u32, scale: u32, pixels: Vec<u8>) -> (r: Option<Frame>)
        ensures
            r is Some <==> pixels@.len() == rgba_len(width as int, height as int),
            r matches Some(f) ==> f@ == (Picture { width, height, scale, pixels: pixels@ }),
    {
        proof {
            assert(width as int * height as int <= 0xffff_ffff * 0xffff_ffff) by (nonlinear_arith)
                requires
                    0 <= width <= 0xffff_ffff,
                    0 <= height <= 0xffff_ffff,
            ;
            assert(0 <= width as int * height as int) by (nonlinear_arith)
                requires
                    0 <= width,
                    0 <= height,
            ;
        }
        let want: u128 = width as u128 * height as u128 * 4;
        if pixels.len() as u128 == want {
            Some(Frame { width, height, scale, pixels })
        } else {
            None
        }
    }

    pub fn width(&self) -> (r: u32)
        ensures
            r == self@.width,
    {
        self.width
    }

    pub fn height(&self) -> (r: u32)
        ensures
            r == self@.height,
    {
        self.height
    }

    pub fn scale(&self) -> (r: u32)
        ensures
            r == self@.scale,
    {
        self.scale
    }

    /// The bytes, four to the pixel.
    pub fn pixels(&self) -> (r: &Vec<u8>)
        ensures
            r@ == self@.pixels,
            well_formed(self@),
    {
        proof {
            use_type_invariant(self);
        }
        &self.pixels
    }

    /// Gives the bytes up.
    pub fn into_pixels(self) -> (r: Vec<u8>)
        ensures
            r@ == self@.pixels,
            well_formed(self@),
    {
        proof {
            use_type_invariant(&self);
        }
        self.pixels
    }

    /// The part of the picture that `rect` covers, cut to the picture's own
    /// extent; nothing where the two do not overlap.
    pub fn crop(&self, rect: PixelRect) -> (r: Option<Frame>)
        ensures
            r is Some <==> crop_width(self@, rect) > 0 && crop_height(self@, rect) > 0,
            r matches Some(f) ==> f@ == cropped(self@, rect),
    {
        proof {
            use_type_invariant(self);
        }
        if rect.x >= self.width || rect.y >= self.height {
            return None;
        }
        let size: usize = self.pixels.len();
        let left: u32 = self.width - rect.x;
        let below: u32 = self.height - rect.y;
        let w: u32 = if rect.width < left {
            rect.width
        } else {
            left
        };
        let h: u32 = if rect.height < below {
            rect.height
        } else {
            below
        };
        if w == 0 || h == 0 {
            return None;
        }
        let ghost whole = self@;
        let ghost cut = cropped(whole, rect);
        let mut out: Vec<u8> = Vec::new();
        let mut y: u32 = 0;
        while y < h
            invariant
                y <= h,
                h <= self.height - rect.y,
                w <= self.width - rect.x,
                rect.x < self.width,
                rect.y < self.height,
                w == crop_width(whole, rect),
                h == crop_height(whole, rect),
                whole == self@,
                well_formed(whole),
                size == whole.pixels.len(),
                cut == cropped(whole, rect),
                out@.len() == rgba_len(w as int, y as int),
                forall|i: int| 0 <= i < out@.len() ==> out@[i] == cut.pixels[i],
            decreases h - y,
        {
            let mut x: u32 = 0;
            assert(w as int * y as int == y as int * w as int) by (nonlinear_arith);
            while x < w
                invariant
                    x <= w,
                    y < h,
                    h <= self.height - rect.y,
                    w <= self.width - rect.x,
                    rect.x < self.width,
                    rect.y < self.height,
                    w == crop_width(whole, rect),
                    h == crop_height(whole, rect),
                    whole == self@,
                    well_formed(whole),
                    size == whole.pixels.len(),
                    cut == cropped(whole, rect),
                    out@.len() == pixel_start(w as int, x as int, y as int),
                    forall|i: int| 0 <= i < out@.len() ==> out@[i] == cut.pixels[i],
                decreases w - x,
            {
                let ghost before = out@;
                let from: usize = start_of_pixel(
                    self.width,
                    self.height,
                    rect.x + x,
                    rect.y + y,
                );
                out.push(self.pixels[from]);
                out.push(self.pixels[from + 1]);
                out.push(self.pixels[from + 2]);
                out.push(self.pixels[from + 3]);
                proof {
                    let at = pixel_start(w as int, x as int, y as int);
                    lemma_in_canvas(w as int, h as int, x as int, y as int);
                    assert forall|i: int| 0 <= i < out@.len() implies out@[i] == cut.pixels[i] by {
                        if i >= at {
                            lemma_pixel_bytes(w as int, x as int, y as int, i - at);
                            assert(cut.pixels[i] == whole.pixels[from + (i - at)]);
                        } else {
                            assert(out@[i] == before[i]);
                        }
                    }
                }
                x = x + 1;
            }
            proof {
                assert(pixel_start(w as int, w as int, y as int) == rgba_len(
                    w as int,
                    y as int + 1,
                )) by (nonlinear_arith);
            }
            y = y + 1;
        }
        assert(out@ =~= cut.pixels);
        Some(Frame { width: w, height: h, scale: self.scale, pixels: out })
    }
}

impl Clone for Frame {
    /// A frame with the same contents.
    fn clone(&self) -> (r: Self)
        ensures
            r@ == self@,
    {
        proof {
            use_type_invariant(self);
        }
        let pixels = self.pixels.clone();
        assert(pixels@ =~= self.pixels@);
        Frame { width: self.width, height: self.height, scale: self.scale, pixels }
    }
}

/// How many columns of `p` lie under `rect`.
pub open spec fn crop_width(p: Picture, rect: PixelRect) -> int {
    spec_min(rect.width as int, p.width - rect.x)
}

/// How many rows of `p` lie under `rect`.
pub open spec fn crop_height(p: Picture, rect: PixelRect) -> int {
    spec_min(rect.height as int, p.height - rect.y)
}

/// The part of `p` under `rect`: pixel `(x, y)` of the result is pixel
/// `(rect.x + x, rect.y + y)` of `p`.
pub open spec fn cropped(p: Picture, rect: PixelRect) -> Picture {
    let w = crop_width(p, rect);
    let h = crop_height(p, rect);
    Picture {
        width: w as u32,
        height: h as u32,
        scale: p.scale,
        pixels: Seq::new(
            rgba_len(w, h) as nat,
            |i: int|
                p.pixels[pixel_start(
                    p.width as int,
                    rect.x + byte_x(w, i),
                    rect.y + byte_y(w, i),
                ) + i % 4],
        ),
    }
}

} // verus!
