//! Decoding saved captures.
use vstd::prelude::*;
use vstd::string::*;

use crate::paths::{extension, extension_of, lemma_extension_has_no_slash};
use crate::pixmap::{
    Frame, Picture, byte_x, byte_y, lemma_in_canvas, lemma_pixel_bytes, pixel_start, rgba_len,
    start_of_pixel, well_formed,
};
use crate::single::{
    lemma_large_stays_large, lemma_small_is_single, scaled_down, single, spec_scaled_down,
    spec_single,
};
use crate::units::{spec_max, spec_min};

verus! {

/// The scale of a saved capture, in 120ths: one pixel is one pixel.
pub const UNSCALED: u32 = 120;

/// The formats that captures are saved in.
#[derive(Debug, Clone, Copy, PartialEq, Eq, Structural)]
pub enum ImageFormat {
    Webp,
    Png,
}

/// A decoded image: its dimensions and its RGBA8 pixels.
#[derive(Debug)]
pub struct Decoded {
    pub width: u32,
    pub height: u32,
    pub pixels: Vec<u8>,
}

/// What a decoder gives: dimensions and pixels, or why it could not.
pub type Decoding = Result<(u32, u32, Seq<u8>), Seq<char>>;

/// A decoder's result, apart from how it is held.
pub open spec fn decoding(r: Result<Decoded, String>) -> Decoding {
    match r {
        Ok(d) => Ok((d.width, d.height, d.pixels@)),
        Err(why) => Err(why@),
    }
}

/// What `image::load_from_memory` makes of some bytes, converted to RGBA8.
pub uninterp spec fn guessed_image(bytes: Seq<u8>) -> Decoding;

/// What `image::load_from_memory_with_format` makes of some bytes under the format that
/// `image::ImageFormat::from_path` gives for a file with an extension, or with
/// none where it is empty, converted to RGBA8.
pub uninterp spec fn image_as(bytes: Seq<u8>, extension: Seq<char>) -> Decoding;

/// `image::load_from_memory`: decodes an image of whatever format its first
/// bytes look like. As long as no decoding hook is registered with `image`, and
/// this program registers none, the result depends on the bytes alone.
#[verifier::external_body]
pub(crate) fn decode_guessed(bytes: &Vec<u8>) -> (r: Result<Decoded, String>)
    ensures
        decoding(r) == guessed_image(bytes@),
{
    match image::load_from_memory(bytes.as_slice()) {
        Ok(decoded) => {
            let rgba = decoded.into_rgba8();
            let (width, height) = rgba.dimensions();
            Ok(Decoded { width, height, pixels: rgba.into_raw() })
        },
        Err(err) => Err(err.to_string()),
    }
}

/// `image::load_from_memory_with_format` under the format that
/// `image::ImageFormat::from_path` gives for a file with this extension, as in
/// `image::open`: decodes an image of the format that the extension stands for.
/// An extension that stands for none is an error that names it, and an empty
/// one is the error that no format can be told. An extension with a slash in it
/// is no extension, and `std::path::Path::with_extension` does not take one. No
/// decoding hook of `image` is looked up for a format that is given, so the
/// result depends on the bytes and the extension alone.
#[verifier::external_body]
pub(crate) fn decode_as(bytes: &Vec<u8>, extension: &str) -> (r: Result<Decoded, String>)
    requires
        !extension@.contains('/'),
    ensures
        decoding(r) == image_as(bytes@, extension@),
{
    let named = std::path::Path::new("image").with_extension(extension);
    let decoded = match image::ImageFormat::from_path(named) {
        Ok(format) => image::load_from_memory_with_format(bytes.as_slice(), format),
        Err(err) => Err(err),
    };
    match decoded {
        Ok(decoded) => {
            let rgba = decoded.into_rgba8();
            let (width, height) = rgba.dimensions();
            Ok(Decoded { width, height, pixels: rgba.into_raw() })
        },
        Err(err) => Err(err.to_string()),
    }
}

/// The frame that a decoder's result gives, or what is reported instead.
pub open spec fn framed(d: Decoding, scale: u32, mismatch: Seq<char>) -> Result<
    Picture,
    Seq<char>,
> {
    match d {
        Err(why) => Err(why),
        Ok((width, height, pixels)) => if pixels.len() == rgba_len(width as int, height as int) {
            Ok(Picture { width, height, scale, pixels })
        } else {
            Err(mismatch)
        },
    }
}

/// A result with a frame, apart from how it is held.
pub open spec fn frame_result(r: Result<Frame, String>) -> Result<Picture, Seq<char>> {
    match r {
        Ok(frame) => Ok(frame@),
        Err(why) => Err(why@),
    }
}

/// Makes a frame of a decoder's result. An error is passed on; a buffer that
/// does not match its dimensions is reported as `mismatch`.
pub fn frame_of(decoded: Result<Decoded, String>, scale: u32, mismatch: &str) -> (r: Result<
    Frame,
    String,
>)
    ensures
        frame_result(r) == framed(decoding(decoded), scale, mismatch@),
{
    match decoded {
        Err(why) => Err(why),
        Ok(d) => match Frame::new(d.width, d.height, scale, d.pixels) {
            Some(frame) => Ok(frame),
            None => Err(mismatch.to_owned()),
        },
    }
}

/// What the editor reports of a buffer that does not match its dimensions.
pub open spec fn canvas_mismatch() -> Seq<char> {
    "the decoded image had an unexpected buffer size"@
}

/// The editor's canvas for a file that was read.
pub open spec fn canvas_of(path: Seq<char>, read: Result<Seq<u8>, Seq<char>>) -> Result<
    Picture,
    Seq<char>,
> {
    match read {
        Err(why) => Err(why),
        Ok(bytes) => framed(
            image_as(
                bytes,
                match extension_of(path) {
                    Some(ext) => ext,
                    None => Seq::empty(),
                },
            ),
            UNSCALED,
            canvas_mismatch(),
        ),
    }
}

/// What was read of a file, apart from how it is held.
pub open spec fn reading(read: Result<Vec<u8>, String>) -> Result<Seq<u8>, Seq<char>> {
    match read {
        Ok(bytes) => Ok(bytes@),
        Err(why) => Err(why@),
    }
}

/// Decodes a saved capture into the editor's canvas. The path's extension says
/// what format it is.
pub fn load_canvas(path: &str, read: Result<Vec<u8>, String>) -> (r: Result<Frame, String>)
    ensures
        frame_result(r) == canvas_of(path@, reading(read)),
{
    match read {
        Err(why) => Err(why),
        Ok(bytes) => {
            let ext: String = match extension(path) {
                Some(ext) => ext,
                None => String::new(),
            };
            proof {
                lemma_extension_has_no_slash(path@);
            }
            let decoded = decode_as(&bytes, ext.as_str());
            frame_of(decoded, UNSCALED, "the decoded image had an unexpected buffer size")
        },
    }
}

/// How large one side of a thumbnail is: scaled, in single precision, so that
/// the longer side comes to `max`, to the nearest pixel, unless it is small
/// enough already; never more than `max` or than the side itself, and at least
/// one.
pub open spec fn thumb_side(side: int, longest: int, max: int) -> int {
    let num = spec_single(max);
    let den = spec_single(longest);
    let scaled = if num >= den {
        spec_single(side)
    } else {
        spec_scaled_down(spec_single(side), num, den)
    };
    spec_max(spec_min(scaled, spec_min(side, max)), 1)
}

/// The source column, or row, that a thumbnail's one is taken from.
pub open spec fn thumb_source(i: int, src: int, dst: int) -> int {
    let at = i * src / dst;
    if at < src - 1 {
        at
    } else {
        src - 1
    }
}

/// One byte of a thumbnail: its pixel's nearest source pixel's, or opaque black
/// where the source has none.
pub open spec fn thumb_byte(p: Picture, width: int, height: int, x: int, y: int, c: int) -> u8 {
    if p.width == 0 || p.height == 0 {
        if c == 3 {
            255
        } else {
            0
        }
    } else {
        p.pixels[pixel_start(
            p.width as int,
            thumb_source(x, p.width as int, width),
            thumb_source(y, p.height as int, height),
        ) + c]
    }
}

/// A thumbnail of a picture: every pixel is the nearest one of the source.
pub open spec fn thumbnail_of(p: Picture, max: u32) -> Picture {
    let longest = spec_max(p.width as int, p.height as int);
    let w = thumb_side(p.width as int, longest, max as int);
    let h = thumb_side(p.height as int, longest, max as int);
    Picture {
        width: w as u32,
        height: h as u32,
        scale: p.scale,
        pixels: Seq::new(
            rgba_len(w, h) as nat,
            |i: int|
                thumb_byte(
                    p,
                    w,
                    h,
                    byte_x(w, i),
                    byte_y(w, i),
                    i % 4,
                ),
        ),
    }
}

fn thumbnail_side(side: u32, longest: u32, max: u32) -> (r: u32)
    ensures
        r == thumb_side(side as int, longest as int, max as int),
        r >= 1,
{
    let whole: u128 = single(side as u64);
    let num: u128 = single(max as u64);
    let den: u128 = single(longest as u64);
    let scaled: u128 = if num >= den {
        whole
    } else {
        scaled_down(whole as u64, num as u64, den as u64)
    };
    let most: u32 = if side < max {
        side
    } else {
        max
    };
    let kept: u32 = if scaled < most as u128 {
        scaled as u32
    } else {
        most
    };
    if kept < 1 {
        1
    } else {
        kept
    }
}

fn source_of(i: u32, src: u32, dst: u32) -> (r: u32)
    requires
        i < dst,
        0 < src,
    ensures
        r == thumb_source(i as int, src as int, dst as int),
        r < src,
{
    proof {
        assert(0 <= i as int * src as int <= 0xffff_ffff * 0xffff_ffff) by (nonlinear_arith)
            requires
                0 <= i <= 0xffff_ffff,
                0 <= src <= 0xffff_ffff,
        ;
        assert((i as int * src as int) / (dst as int) >= 0) by (nonlinear_arith)
            requires
                i as int * src as int >= 0,
                dst > 0,
        ;
    }
    let at: u64 = i as u64 * src as u64 / dst as u64;
    if at < (src - 1) as u64 {
        at as u32
    } else {
        src - 1
    }
}

/// A copy of the frame whose longer side is at most `max_dim` pixels, every
/// pixel taken from the nearest one of the source.
pub fn thumbnail_handle(frame: &Frame, max_dim: u32) -> (r: Frame)
    ensures
        r@ == thumbnail_of(frame@, max_dim),
{
    let src_w: u32 = frame.width();
    let src_h: u32 = frame.height();
    let longest: u32 = if src_w >= src_h {
        src_w
    } else {
        src_h
    };
    let dst_w: u32 = thumbnail_side(src_w, longest, max_dim);
    let dst_h: u32 = thumbnail_side(src_h, longest, max_dim);
    let pixels = frame.pixels();
    let size: usize = pixels.len();
    let ghost p = frame@;
    let ghost goal = thumbnail_of(p, max_dim).pixels;
    let ghost w = dst_w as int;
    let ghost h = dst_h as int;
    let mut out: Vec<u8> = Vec::new();
    let mut y: u32 = 0;
    while y < dst_h
        invariant
            p == frame@,
            pixels@ == p.pixels,
            size == pixels@.len(),
            size == rgba_len(src_w as int, src_h as int),
            src_w == p.width,
            src_h == p.height,
            w == dst_w,
            h == dst_h,
            w > 0,
            y <= dst_h,
            goal == thumbnail_of(p, max_dim).pixels,
            w == thumb_side(p.width as int, spec_max(p.width as int, p.height as int), max_dim as int),
            h == thumb_side(p.height as int, spec_max(p.width as int, p.height as int), max_dim as int),
            out@.len() == pixel_start(w, 0, y as int),
            forall|i: int| 0 <= i < out@.len() ==> out@[i] == goal[i],
        decreases dst_h - y,
    {
        let mut x: u32 = 0;
        while x < dst_w
            invariant
                p == frame@,
                pixels@ == p.pixels,
                size == pixels@.len(),
                size == rgba_len(src_w as int, src_h as int),
                src_w == p.width,
                src_h == p.height,
                w == dst_w,
                h == dst_h,
                w > 0,
                y < dst_h,
                x <= dst_w,
                goal == thumbnail_of(p, max_dim).pixels,
                w == thumb_side(p.width as int, spec_max(p.width as int, p.height as int), max_dim as int),
                h == thumb_side(p.height as int, spec_max(p.width as int, p.height as int), max_dim as int),
                out@.len() == pixel_start(w, x as int, y as int),
                forall|i: int| 0 <= i < out@.len() ==> out@[i] == goal[i],
            decreases dst_w - x,
        {
            let ghost before = out@;
            if src_w == 0 || src_h == 0 {
                out.push(0);
                out.push(0);
                out.push(0);
                out.push(255);
            } else {
                let sx: u32 = source_of(x, src_w, dst_w);
                let sy: u32 = source_of(y, src_h, dst_h);
                let from: usize = start_of_pixel(src_w, src_h, sx, sy);
                out.push(pixels[from]);
                out.push(pixels[from + 1]);
                out.push(pixels[from + 2]);
                out.push(pixels[from + 3]);
            }
            proof {
                let at = pixel_start(w, x as int, y as int);
                lemma_in_canvas(w, h, x as int, y as int);
                assert forall|i: int| 0 <= i < out@.len() implies out@[i] == goal[i] by {
                    if i >= at {
                        lemma_pixel_bytes(w, x as int, y as int, i - at);
                        assert(goal[i] == thumb_byte(p, w, h, x as int, y as int, i - at));
                    } else {
                        assert(out@[i] == before[i]);
                    }
                }
            }
            x = x + 1;
        }
        proof {
            assert(pixel_start(w, w, y as int) == pixel_start(w, 0, y as int + 1))
                by (nonlinear_arith);
        }
        y = y + 1;
    }
    proof {
        assert(pixel_start(w, 0, h) == rgba_len(w, h)) by (nonlinear_arith);
        assert(out@ =~= goal);
    }
    match Frame::new(dst_w, dst_h, frame.scale(), out) {
        Some(small) => small,
        None => frame.clone(),
    }
}

/// A thumbnail fits the square it is made for, and has at least a pixel.
pub proof fn law_thumbnail_fits(p: Picture, max: u32)
    requires
        max >= 1,
    ensures
        1 <= thumbnail_of(p, max).width <= max,
        1 <= thumbnail_of(p, max).height <= max,
{
}

/// An image that is small enough already is its own thumbnail, as long as
/// single precision holds its sides.
pub proof fn law_small_pictures_are_kept(p: Picture, max: u32)
    requires
        well_formed(p),
        1 <= p.width <= max,
        1 <= p.height <= max,
        p.width <= 0x100_0000,
        p.height <= 0x100_0000,
    ensures
        thumbnail_of(p, max) == p,
{
    lemma_small_is_single(p.width as int);
    lemma_small_is_single(p.height as int);
    if max <= 0x100_0000 {
        lemma_small_is_single(max as int);
    } else {
        lemma_large_stays_large(max as int);
    }
    let t = thumbnail_of(p, max);
    let w = p.width as int;
    let h = p.height as int;
    assert forall|i: int| 0 <= i < t.pixels.len() implies t.pixels[i] == p.pixels[i] by {
        crate::pixmap::lemma_byte_pixel(w, i);
        let x = byte_x(w, i);
        let y = byte_y(w, i);
        if y >= h {
            assert(y * w >= h * w) by (nonlinear_arith)
                requires
                    y >= h,
                    w > 0,
            ;
            assert(h * w == w * h) by (nonlinear_arith);
        }
        assert(x * w / w == x) by (nonlinear_arith)
            requires
                w > 0,
        ;
        assert(y * h / h == y) by (nonlinear_arith)
            requires
                h > 0,
        ;
    }
    assert(t.pixels =~= p.pixels);
}

} // verus!
