//! Outputs and the logical rectangles on them.
use vstd::prelude::*;

verus! {

/// A rectangle in the desktop's logical pixels.
#[derive(Debug, Clone, Copy, PartialEq, Eq, Structural)]
pub struct LogicalRect {
    pub x: i32,
    pub y: i32,
    pub width: u32,
    pub height: u32,
}

/// A window, by the compositor's number for it.
#[derive(Debug, Clone, Copy, PartialEq, Eq, Structural)]
pub struct WindowRef(pub u64);

/// A monitor: where it lies on the desktop, and how many of its pixels make
/// one logical pixel, in 120ths.
#[derive(Debug)]
pub struct OutputInfo {
    pub name: String,
    pub logical: LogicalRect,
    pub scale: u32,
    pub physical_width: u32,
    pub physical_height: u32,
}

/// Where a logical distance from an output's edge falls in its pixels, to the
/// nearest, a tie going away from zero.
pub open spec fn spec_scaled(v: int, scale: int) -> int {
    if v >= 0 {
        (v * scale + 60) / 120
    } else {
        -((60 - v * scale) / 120)
    }
}

fn scaled(v: i64, scale: u32) -> (r: i64)
    requires
        -0x4_0000_0000 <= v <= 0x4_0000_0000,
    ensures
        r == spec_scaled(v as int, scale as int),
        -0x1000_0000_0000_0000 <= r <= 0x1000_0000_0000_0000,
{
    let m: i128 = v as i128;
    proof {
        assert(-0x4_0000_0000 * 0xffff_ffff <= v as int * scale as int <= 0x4_0000_0000
            * 0xffff_ffff) by (nonlinear_arith)
            requires
                -0x4_0000_0000 <= v <= 0x4_0000_0000,
                0 <= scale <= 0xffff_ffff,
        ;
        if v >= 0 {
            assert(v as int * scale as int >= 0) by (nonlinear_arith)
                requires
                    v >= 0,
                    scale >= 0,
            ;
        } else {
            assert(v as int * scale as int <= 0) by (nonlinear_arith)
                requires
                    v <= 0,
                    scale >= 0,
            ;
        }
    }
    let p: i128 = m * scale as i128;
    if v >= 0 {
        ((p + 60) / 120) as i64
    } else {
        -(((60 - p) / 120) as i64)
    }
}

/// The pixels from one logical edge to another, each edge rounded by itself.
pub open spec fn spec_pixel_extent(from: int, extent: int, origin: int, scale: int) -> int {
    spec_scaled(from + extent - origin, scale) - spec_scaled(from - origin, scale)
}

/// The size of a logical rectangle in an output's own pixels: the difference of
/// its edges, each rounded by itself, so that adjacent rectangles tile. There
/// is none where the scale makes no sense, or the size does not fit.
pub open spec fn spec_pixel_size(r: LogicalRect, origin: LogicalRect, scale: u32) -> Option<
    (u32, u32),
> {
    let w = spec_pixel_extent(r.x as int, r.width as int, origin.x as int, scale as int);
    let h = spec_pixel_extent(r.y as int, r.height as int, origin.y as int, scale as int);
    if scale == 0 || w < 0 || h < 0 || w > u32::MAX || h > u32::MAX {
        None
    } else {
        Some((w as u32, h as u32))
    }
}

/// The size of a logical rectangle in the output's own pixels.
pub fn pixel_size(r: LogicalRect, output: &OutputInfo) -> (s: Option<(u32, u32)>)
    ensures
        s == spec_pixel_size(r, output.logical, output.scale),
{
    let ox: i64 = output.logical.x as i64;
    let oy: i64 = output.logical.y as i64;
    let left: i64 = r.x as i64 - ox;
    let top: i64 = r.y as i64 - oy;
    let w: i64 = scaled(left + r.width as i64, output.scale) - scaled(left, output.scale);
    let h: i64 = scaled(top + r.height as i64, output.scale) - scaled(top, output.scale);
    if output.scale == 0 || w < 0 || h < 0 || w > u32::MAX as i64 || h > u32::MAX as i64 {
        None
    } else {
        Some((w as u32, h as u32))
    }
}

/// Two rectangles side by side are together as wide, in pixels, as the one
/// that spans both.
pub proof fn law_adjacent_rectangles_tile(
    x: int,
    first: int,
    second: int,
    origin: int,
    scale: int,
)
    ensures
        spec_pixel_extent(x, first, origin, scale) + spec_pixel_extent(
            x + first,
            second,
            origin,
            scale,
        ) == spec_pixel_extent(x, first + second, origin, scale),
{
}

} // verus!
