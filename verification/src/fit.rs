//! Fitting an image into a view: as large as fits, centred.
use vstd::prelude::*;

use crate::compose::{FONT_UNITS, div_round};
use crate::units::{Point, spec_clamp, spec_coord};

verus! {

/// How an image lies in a view, both measured in subpixels. The scale is
/// `num / den`; the image's corner lies at `offset_x / (2 * den)` and
/// `offset_y / (2 * den)`.
#[derive(Debug, Clone, Copy, PartialEq, Eq, Structural)]
pub struct FitTransform {
    pub num: u32,
    pub den: u32,
    pub offset_x: i128,
    pub offset_y: i128,
}

/// A width and a height, in subpixels.
#[derive(Debug, Clone, Copy, PartialEq, Eq, Structural)]
pub struct Extent {
    pub width: u32,
    pub height: u32,
}

/// Whether an extent holds anything.
pub open spec fn solid(e: Extent) -> bool {
    e.width > 0 && e.height > 0
}

/// Whether the image's width is what limits its scale.
pub open spec fn width_limits(image: Extent, view: Extent) -> bool {
    view.width * image.height <= view.height * image.width
}

impl FitTransform {
    /// The largest scale at which the image fits, and the offsets that centre
    /// it. Where either holds nothing, the image is not moved or scaled.
    pub open spec fn spec_new(image: Extent, view: Extent) -> FitTransform {
        if !solid(image) || !solid(view) {
            FitTransform { num: 1, den: 1, offset_x: 0, offset_y: 0 }
        } else {
            let num = if width_limits(image, view) {
                view.width
            } else {
                view.height
            };
            let den = if width_limits(image, view) {
                image.width
            } else {
                image.height
            };
            FitTransform {
                num,
                den,
                offset_x: (view.width * den - image.width * num) as i128,
                offset_y: (view.height * den - image.height * num) as i128,
            }
        }
    }

    pub open spec fn wf(self) -> bool {
        &&& self.num > 0
        &&& self.den > 0
        &&& -0x1_0000_0000_0000_0000 <= self.offset_x <= 0x1_0000_0000_0000_0000
        &&& -0x1_0000_0000_0000_0000 <= self.offset_y <= 0x1_0000_0000_0000_0000
    }

    pub fn new(image: Extent, view: Extent) -> (r: FitTransform)
        ensures
            r == FitTransform::spec_new(image, view),
            r.wf(),
    {
        if image.width == 0 || image.height == 0 || view.width == 0 || view.height == 0 {
            return FitTransform { num: 1, den: 1, offset_x: 0, offset_y: 0 };
        }
        proof {
            lemma_u32_product(view.width as int, image.height as int);
            lemma_u32_product(view.height as int, image.width as int);
            lemma_u32_product(view.width as int, image.width as int);
            lemma_u32_product(view.height as int, image.height as int);
            assert(image.width as int * view.height as int == view.height as int
                * image.width as int) by (nonlinear_arith);
            assert(image.height as int * view.width as int == view.width as int
                * image.height as int) by (nonlinear_arith);
            assert(image.width as int * view.width as int == view.width as int
                * image.width as int) by (nonlinear_arith);
            assert(image.height as int * view.height as int == view.height as int
                * image.height as int) by (nonlinear_arith);
        }
        let (num, den): (u32, u32) = if view.width as u128 * image.height as u128
            <= view.height as u128 * image.width as u128 {
            (view.width, image.width)
        } else {
            (view.height, image.height)
        };
        FitTransform {
            num,
            den,
            offset_x: view.width as i128 * den as i128 - image.width as i128 * num as i128,
            offset_y: view.height as i128 * den as i128 - image.height as i128 * num as i128,
        }
    }

    pub open spec fn spec_to_view(self, p: Point) -> Point {
        Point {
            x: spec_coord(div_round(2 * p.x * self.num + self.offset_x, 2 * self.den)) as i32,
            y: spec_coord(div_round(2 * p.y * self.num + self.offset_y, 2 * self.den)) as i32,
        }
    }

    /// Where a point of the image lies in the view.
    pub fn to_view(self, p: Point) -> (r: Point)
        requires
            self.wf(),
        ensures
            r == self.spec_to_view(p),
    {
        proof {
            lemma_coord_product(p.x as int, self.num as int);
            lemma_coord_product(p.y as int, self.num as int);
        }
        Point {
            x: nearest(2 * p.x as i128 * self.num as i128 + self.offset_x, 2 * self.den as i128),
            y: nearest(2 * p.y as i128 * self.num as i128 + self.offset_y, 2 * self.den as i128),
        }
    }

    pub open spec fn spec_scaled_text(self, size: u64) -> u32 {
        spec_clamp(
            div_round(size * self.num, self.den * FONT_UNITS),
            0,
            u32::MAX as int,
        ) as u32
    }

    /// How large a text of the image is in the view, in subpixels.
    pub fn scaled_text(self, size: u64) -> (r: u32)
        requires
            self.wf(),
        ensures
            r == self.spec_scaled_text(size),
    {
        proof {
            assert(0 <= size as int * self.num as int <= 0xffff_ffff_ffff_ffff * 0xffff_ffff)
                by (nonlinear_arith)
                requires
                    0 <= size <= 0xffff_ffff_ffff_ffff,
                    0 <= self.num <= 0xffff_ffff,
            ;
        }
        proof {
            assert(0 < self.den as int * FONT_UNITS as int <= 0xffff_ffff * 4096)
                by (nonlinear_arith)
                requires
                    0 < self.den <= 0xffff_ffff,
                    FONT_UNITS == 4096,
            ;
        }
        let v: u128 = size as u128 * self.num as u128;
        let d: u128 = self.den as u128 * FONT_UNITS as u128;
        let q: u128 = (2 * v + d) / (2 * d);
        if q > u32::MAX as u128 {
            u32::MAX
        } else {
            q as u32
        }
    }

    pub open spec fn spec_scaled(self, length: u32) -> u32 {
        spec_clamp(div_round(length * self.num, self.den as int), 0, u32::MAX as int) as u32
    }

    /// How long a length of the image is in the view.
    pub fn scaled(self, length: u32) -> (r: u32)
        requires
            self.wf(),
        ensures
            r == self.spec_scaled(length),
    {
        proof {
            lemma_u32_product(length as int, self.num as int);
        }
        let v: u128 = length as u128 * self.num as u128;
        let q: u128 = (2 * v + self.den as u128) / (2 * self.den as u128);
        if q > u32::MAX as u128 {
            u32::MAX
        } else {
            q as u32
        }
    }

    pub open spec fn spec_to_image(self, p: Point) -> Point {
        Point {
            x: spec_coord(div_round(2 * p.x * self.den - self.offset_x, 2 * self.num)) as i32,
            y: spec_coord(div_round(2 * p.y * self.den - self.offset_y, 2 * self.num)) as i32,
        }
    }

    /// Which point of the image lies at a point of the view.
    pub fn to_image(self, p: Point) -> (r: Point)
        requires
            self.wf(),
        ensures
            r == self.spec_to_image(p),
    {
        proof {
            lemma_coord_product(p.x as int, self.den as int);
            lemma_coord_product(p.y as int, self.den as int);
        }
        Point {
            x: nearest(2 * p.x as i128 * self.den as i128 - self.offset_x, 2 * self.num as i128),
            y: nearest(2 * p.y as i128 * self.den as i128 - self.offset_y, 2 * self.num as i128),
        }
    }
}

proof fn lemma_u32_product(a: int, b: int)
    requires
        0 <= a <= 0xffff_ffff,
        0 <= b <= 0xffff_ffff,
    ensures
        0 <= a * b <= 0xffff_ffff * 0xffff_ffff,
{
    assert(0 <= a * b <= 0xffff_ffff * 0xffff_ffff) by (nonlinear_arith)
        requires
            0 <= a <= 0xffff_ffff,
            0 <= b <= 0xffff_ffff,
    ;
}

proof fn lemma_coord_product(a: int, b: int)
    requires
        i32::MIN <= a <= i32::MAX,
        0 <= b <= 0xffff_ffff,
    ensures
        -0x1_0000_0000_0000_0000 <= 2 * a * b <= 0x1_0000_0000_0000_0000,
{
    assert(-0x1_0000_0000_0000_0000 <= 2 * a * b <= 0x1_0000_0000_0000_0000) by (nonlinear_arith)
        requires
            -0x8000_0000 <= a <= 0x7fff_ffff,
            0 <= b <= 0xffff_ffff,
    ;
}

/// The coordinate nearest to `v / d`, a tie going away from zero.
fn nearest(v: i128, d: i128) -> (r: i32)
    requires
        -0x4_0000_0000_0000_0000 <= v <= 0x4_0000_0000_0000_0000,
        0 < d <= 0x2_0000_0000,
    ensures
        r == spec_coord(div_round(v as int, d as int)),
{
    let q: i128 = if v >= 0 {
        (2 * v + d) / (2 * d)
    } else {
        -((d - 2 * v) / (2 * d))
    };
    if q < i32::MIN as i128 {
        i32::MIN
    } else if q > i32::MAX as i128 {
        i32::MAX
    } else {
        q as i32
    }
}

/// Rounding moves a quotient by at most half.
proof fn lemma_round_error(v: int, d: int)
    requires
        d > 0,
    ensures
        -d <= 2 * (d * div_round(v, d)) - 2 * v <= d,
{
    let a = if v >= 0 {
        2 * v + d
    } else {
        d - 2 * v
    };
    let q = a / (2 * d);
    vstd::arithmetic::div_mod::lemma_fundamental_div_mod(a, 2 * d);
    assert(0 <= a % (2 * d) < 2 * d) by (nonlinear_arith)
        requires
            d > 0,
    ;
    assert((2 * d) * q == 2 * (d * q)) by (nonlinear_arith);
    if v < 0 {
        assert(d * (-q) == -(d * q)) by (nonlinear_arith);
    }
}

/// One axis of a round trip: there and back moves a coordinate by no more than
/// the rounding of both ways allows.
proof fn lemma_round_trip(x: int, num: int, den: int, offset: int, v: int, u: int)
    requires
        num > 0,
        den > 0,
        v == div_round(2 * x * num + offset, 2 * den),
        u == div_round(2 * v * den - offset, 2 * num),
    ensures
        -(num + den) <= 2 * num * (u - x) <= num + den,
{
    lemma_round_error(2 * x * num + offset, 2 * den);
    lemma_round_error(2 * v * den - offset, 2 * num);
    assert(2 * den * v == 2 * v * den) by (nonlinear_arith);
    assert(2 * num * (u - x) == 2 * num * u - 2 * x * num) by (nonlinear_arith);
}

/// A point that is taken to the view and back is where it was, but for the
/// rounding of the two ways: within `(num + den) / (2 * num)` subpixels, if
/// neither coordinate runs out of range on the way.
pub proof fn law_fit_round_trips(fit: FitTransform, p: Point)
    requires
        fit.wf(),
        i32::MIN <= div_round(2 * p.x * fit.num + fit.offset_x, 2 * fit.den) <= i32::MAX,
        i32::MIN <= div_round(2 * p.y * fit.num + fit.offset_y, 2 * fit.den) <= i32::MAX,
    ensures
        -(fit.num + fit.den) <= 2 * fit.num * (fit.spec_to_image(fit.spec_to_view(p)).x - p.x)
            <= fit.num + fit.den,
        -(fit.num + fit.den) <= 2 * fit.num * (fit.spec_to_image(fit.spec_to_view(p)).y - p.y)
            <= fit.num + fit.den,
{
    let v = fit.spec_to_view(p);
    let n = fit.num as int;
    let d = fit.den as int;
    let ux = div_round(2 * v.x * d - fit.offset_x, 2 * n);
    let uy = div_round(2 * v.y * d - fit.offset_y, 2 * n);
    lemma_round_trip(p.x as int, n, d, fit.offset_x as int, v.x as int, ux);
    lemma_round_trip(p.y as int, n, d, fit.offset_y as int, v.y as int, uy);
    lemma_saturation_helps(p.x as int, ux, n, d);
    lemma_saturation_helps(p.y as int, uy, n, d);
}

/// Holding a coordinate in range brings it no farther from one that is.
proof fn lemma_saturation_helps(x: int, u: int, n: int, d: int)
    requires
        i32::MIN <= x <= i32::MAX,
        n > 0,
        d > 0,
        -(n + d) <= 2 * n * (u - x) <= n + d,
    ensures
        -(n + d) <= 2 * n * (spec_coord(u) - x) <= n + d,
{
    let c = spec_coord(u);
    if u > i32::MAX {
        assert(0 <= 2 * n * (c - x) <= 2 * n * (u - x)) by (nonlinear_arith)
            requires
                0 <= c - x <= u - x,
                n > 0,
        ;
    } else if u < i32::MIN {
        assert(2 * n * (u - x) <= 2 * n * (c - x) <= 0) by (nonlinear_arith)
            requires
                u - x <= c - x <= 0,
                n > 0,
        ;
    }
}

/// The fitted image is no larger than the view on either axis, and as large as
/// it on one.
pub proof fn law_image_fits_the_view(image: Extent, view: Extent)
    requires
        solid(image),
        solid(view),
    ensures
        FitTransform::spec_new(image, view).offset_x >= 0,
        FitTransform::spec_new(image, view).offset_y >= 0,
        FitTransform::spec_new(image, view).offset_x == 0 || FitTransform::spec_new(
            image,
            view,
        ).offset_y == 0,
{
    lemma_u32_product(view.width as int, image.height as int);
    lemma_u32_product(view.height as int, image.width as int);
    lemma_u32_product(view.width as int, image.width as int);
    lemma_u32_product(view.height as int, image.height as int);
    assert(image.width as int * view.height as int == view.height as int * image.width as int)
        by (nonlinear_arith);
    assert(image.height as int * view.width as int == view.width as int * image.height as int)
        by (nonlinear_arith);
    assert(image.width as int * view.width as int == view.width as int * image.width as int)
        by (nonlinear_arith);
    assert(image.height as int * view.height as int == view.height as int * image.height as int)
        by (nonlinear_arith);
}

} // verus!
