//! Annotation shapes: what they are, the space they take, how they move and
//! when a pointer hits them.
use vstd::prelude::*;
use vstd::string::*;

use crate::units::{
    Offset, Point, Rect, coord, spec_abs, spec_clamp, spec_coord, spec_max, spec_min,
};

verus! {

/// The radius of a step badge, in subpixels (14 px).
pub const STEP_BADGE_RADIUS: i64 = 3584;

/// How far from a shape a press still selects it, in subpixels (6 px).
pub const SELECT_TOLERANCE: u16 = 1536;

/// A colour with its opacity.
#[derive(Debug, Clone, Copy, PartialEq, Eq, Structural)]
pub struct Color {
    pub r: u8,
    pub g: u8,
    pub b: u8,
    pub a: u8,
}

impl Color {
    pub fn rgb(r: u8, g: u8, b: u8) -> (c: Color)
        ensures
            c == (Color { r, g, b, a: 255 }),
    {
        Color { r, g, b, a: 255 }
    }

    pub fn rgba(r: u8, g: u8, b: u8, a: u8) -> (c: Color)
        ensures
            c == (Color { r, g, b, a }),
    {
        Color { r, g, b, a }
    }
}

/// What a pointer press on the canvas does.
#[derive(Debug, Clone, Copy, PartialEq, Eq, Structural)]
pub enum Tool {
    Select,
    Crop,
    Arrow,
    Rectangle,
    Ellipse,
    Freehand,
    Text,
    Step,
    Blur,
    Pixelate,
}

impl Tool {
    /// Every tool, in toolbar order.
    pub fn all() -> (r: [Tool; 10])
        ensures
            r@ == seq![
                Tool::Select,
                Tool::Crop,
                Tool::Arrow,
                Tool::Rectangle,
                Tool::Ellipse,
                Tool::Freehand,
                Tool::Text,
                Tool::Step,
                Tool::Blur,
                Tool::Pixelate,
            ],
    {
        let r = [
            Tool::Select,
            Tool::Crop,
            Tool::Arrow,
            Tool::Rectangle,
            Tool::Ellipse,
            Tool::Freehand,
            Tool::Text,
            Tool::Step,
            Tool::Blur,
            Tool::Pixelate,
        ];
        assert(r@ =~= seq![
            Tool::Select,
            Tool::Crop,
            Tool::Arrow,
            Tool::Rectangle,
            Tool::Ellipse,
            Tool::Freehand,
            Tool::Text,
            Tool::Step,
            Tool::Blur,
            Tool::Pixelate,
        ]);
        r
    }

    pub open spec fn spec_label(self) -> Seq<char> {
        match self {
            Tool::Select => "Select"@,
            Tool::Crop => "Crop"@,
            Tool::Arrow => "Arrow"@,
            Tool::Rectangle => "Rectangle"@,
            Tool::Ellipse => "Ellipse"@,
            Tool::Freehand => "Freehand"@,
            Tool::Text => "Text"@,
            Tool::Step => "Step"@,
            Tool::Blur => "Blur"@,
            Tool::Pixelate => "Pixelate"@,
        }
    }

    pub fn label(self) -> (r: &'static str)
        ensures
            r@ == self.spec_label(),
    {
        match self {
            Tool::Select => "Select",
            Tool::Crop => "Crop",
            Tool::Arrow => "Arrow",
            Tool::Rectangle => "Rectangle",
            Tool::Ellipse => "Ellipse",
            Tool::Freehand => "Freehand",
            Tool::Text => "Text",
            Tool::Step => "Step",
            Tool::Blur => "Blur",
            Tool::Pixelate => "Pixelate",
        }
    }
}

/// What a redaction does to the pixels under it.
#[derive(Debug, Clone, Copy, PartialEq, Eq, Structural)]
pub enum RedactKind {
    Blur,
    Pixelate,
}

/// The tools that draw from one corner, or end, to another.
#[derive(Debug, Clone, Copy, PartialEq, Eq, Structural)]
pub enum LineTool {
    Arrow,
    Rectangle,
    Ellipse,
}

/// The three colours an annotation can have.
#[derive(Debug, Clone, Copy, PartialEq, Eq, Structural)]
pub enum AnnotationColor {
    Terracotta,
    Ink,
    Ivory,
}

/// The theme's values for the annotation colours.
#[derive(Debug, Clone, Copy, PartialEq, Eq, Structural)]
pub struct ColorPalette {
    pub terracotta: Color,
    pub ink: Color,
    pub ivory: Color,
}

impl AnnotationColor {
    pub fn all() -> (r: [AnnotationColor; 3])
        ensures
            r@ == seq![AnnotationColor::Terracotta, AnnotationColor::Ink, AnnotationColor::Ivory],
    {
        let r = [AnnotationColor::Terracotta, AnnotationColor::Ink, AnnotationColor::Ivory];
        assert(r@ =~= seq![
            AnnotationColor::Terracotta,
            AnnotationColor::Ink,
            AnnotationColor::Ivory,
        ]);
        r
    }

    pub open spec fn spec_label(self) -> Seq<char> {
        match self {
            AnnotationColor::Terracotta => "Terracotta"@,
            AnnotationColor::Ink => "Ink"@,
            AnnotationColor::Ivory => "Ivory"@,
        }
    }

    pub fn label(self) -> (r: &'static str)
        ensures
            r@ == self.spec_label(),
    {
        match self {
            AnnotationColor::Terracotta => "Terracotta",
            AnnotationColor::Ink => "Ink",
            AnnotationColor::Ivory => "Ivory",
        }
    }

    pub open spec fn spec_resolve(self, palette: ColorPalette) -> Color {
        match self {
            AnnotationColor::Terracotta => palette.terracotta,
            AnnotationColor::Ink => palette.ink,
            AnnotationColor::Ivory => palette.ivory,
        }
    }

    pub fn resolve(self, palette: ColorPalette) -> (r: Color)
        ensures
            r == self.spec_resolve(palette),
    {
        match self {
            AnnotationColor::Terracotta => palette.terracotta,
            AnnotationColor::Ink => palette.ink,
            AnnotationColor::Ivory => palette.ivory,
        }
    }
}

/// The three stroke widths.
#[derive(Debug, Clone, Copy, PartialEq, Eq, Structural)]
pub enum StrokeWidth {
    Thin,
    Medium,
    Thick,
}

impl StrokeWidth {
    pub fn all() -> (r: [StrokeWidth; 3])
        ensures
            r@ == seq![StrokeWidth::Thin, StrokeWidth::Medium, StrokeWidth::Thick],
    {
        let r = [StrokeWidth::Thin, StrokeWidth::Medium, StrokeWidth::Thick];
        assert(r@ =~= seq![StrokeWidth::Thin, StrokeWidth::Medium, StrokeWidth::Thick]);
        r
    }

    pub open spec fn spec_label(self) -> Seq<char> {
        match self {
            StrokeWidth::Thin => "Thin"@,
            StrokeWidth::Medium => "Medium"@,
            StrokeWidth::Thick => "Thick"@,
        }
    }

    pub fn label(self) -> (r: &'static str)
        ensures
            r@ == self.spec_label(),
    {
        match self {
            StrokeWidth::Thin => "Thin",
            StrokeWidth::Medium => "Medium",
            StrokeWidth::Thick => "Thick",
        }
    }

    /// 3, 6 or 10 px, in subpixels.
    pub open spec fn spec_pixels(self) -> u16 {
        match self {
            StrokeWidth::Thin => 768,
            StrokeWidth::Medium => 1536,
            StrokeWidth::Thick => 2560,
        }
    }

    /// The width in subpixels.
    pub fn pixels(self) -> (r: u16)
        ensures
            r == self.spec_pixels(),
    {
        match self {
            StrokeWidth::Thin => 768,
            StrokeWidth::Medium => 1536,
            StrokeWidth::Thick => 2560,
        }
    }
}

/// The three text sizes on offer.
#[derive(Debug, Clone, Copy, PartialEq, Eq, Structural)]
pub enum TextSizeStop {
    Small,
    Medium,
    Large,
}

impl TextSizeStop {
    pub fn all() -> (r: [TextSizeStop; 3])
        ensures
            r@ == seq![TextSizeStop::Small, TextSizeStop::Medium, TextSizeStop::Large],
    {
        let r = [TextSizeStop::Small, TextSizeStop::Medium, TextSizeStop::Large];
        assert(r@ =~= seq![TextSizeStop::Small, TextSizeStop::Medium, TextSizeStop::Large]);
        r
    }

    pub open spec fn spec_label(self) -> Seq<char> {
        match self {
            TextSizeStop::Small => "Small"@,
            TextSizeStop::Medium => "Medium"@,
            TextSizeStop::Large => "Large"@,
        }
    }

    pub fn label(self) -> (r: &'static str)
        ensures
            r@ == self.spec_label(),
    {
        match self {
            TextSizeStop::Small => "Small",
            TextSizeStop::Medium => "Medium",
            TextSizeStop::Large => "Large",
        }
    }
}

/// The theme's sizes for the three stops, in subpixels.
#[derive(Debug, Clone, Copy, PartialEq, Eq, Structural)]
pub struct TextSizeScale {
    pub small: u32,
    pub medium: u32,
    pub large: u32,
}

impl TextSizeScale {
    pub open spec fn spec_resolve(self, stop: TextSizeStop) -> u32 {
        match stop {
            TextSizeStop::Small => self.small,
            TextSizeStop::Medium => self.medium,
            TextSizeStop::Large => self.large,
        }
    }

    pub fn resolve(self, stop: TextSizeStop) -> (r: u32)
        ensures
            r == self.spec_resolve(stop),
    {
        match stop {
            TextSizeStop::Small => self.small,
            TextSizeStop::Medium => self.medium,
            TextSizeStop::Large => self.large,
        }
    }

    /// How far a stop's size is from `size`.
    pub open spec fn spec_gap(self, stop: TextSizeStop, size: u32) -> int {
        spec_abs(self.spec_resolve(stop) - size)
    }

    /// The stop whose size is closest, the smaller stop winning a tie.
    pub open spec fn spec_nearest(self, size: u32) -> TextSizeStop {
        let small = self.spec_gap(TextSizeStop::Small, size);
        let medium = self.spec_gap(TextSizeStop::Medium, size);
        let large = self.spec_gap(TextSizeStop::Large, size);
        if small <= medium && small <= large {
            TextSizeStop::Small
        } else if medium <= large {
            TextSizeStop::Medium
        } else {
            TextSizeStop::Large
        }
    }

    /// The stop whose size is closest, the smaller stop winning a tie.
    pub fn nearest(self, size: u32) -> (r: TextSizeStop)
        ensures
            r == self.spec_nearest(size),
            forall|s: TextSizeStop| self.spec_gap(r, size) <= #[trigger] self.spec_gap(s, size),
    {
        let small: u32 = gap(self.small, size);
        let medium: u32 = gap(self.medium, size);
        let large: u32 = gap(self.large, size);
        if small <= medium && small <= large {
            TextSizeStop::Small
        } else if medium <= large {
            TextSizeStop::Medium
        } else {
            TextSizeStop::Large
        }
    }
}

fn gap(a: u32, b: u32) -> (r: u32)
    ensures
        r == spec_abs(a - b),
{
    if a >= b {
        a - b
    } else {
        b - a
    }
}

/// What an annotation draws.
#[derive(Debug)]
pub enum Shape {
    Arrow { start: Point, end: Point },
    Rectangle { rect: Rect },
    Ellipse { rect: Rect },
    Freehand { points: Vec<Point> },
    Text { position: Point, content: String, size: u32 },
    Step { position: Point, number: u32 },
}

/// What a shape is, apart from how it is held.
pub enum Figure {
    Arrow { start: Point, end: Point },
    Rectangle { rect: Rect },
    Ellipse { rect: Rect },
    Freehand { points: Seq<Point> },
    Text { position: Point, content: Seq<char>, size: u32 },
    Step { position: Point, number: u32 },
}

impl View for Shape {
    type V = Figure;

    open spec fn view(&self) -> Figure {
        match *self {
            Shape::Arrow { start, end } => Figure::Arrow { start, end },
            Shape::Rectangle { rect } => Figure::Rectangle { rect },
            Shape::Ellipse { rect } => Figure::Ellipse { rect },
            Shape::Freehand { points } => Figure::Freehand { points: points@ },
            Shape::Text { position, content, size } => Figure::Text {
                position,
                content: content@,
                size,
            },
            Shape::Step { position, number } => Figure::Step { position, number },
        }
    }
}

impl Clone for Shape {
    fn clone(&self) -> (r: Self)
        ensures
            r@ == self@,
    {
        match self {
            Shape::Arrow { start, end } => Shape::Arrow { start: *start, end: *end },
            Shape::Rectangle { rect } => Shape::Rectangle { rect: *rect },
            Shape::Ellipse { rect } => Shape::Ellipse { rect: *rect },
            Shape::Freehand { points } => {
                let copy = points.clone();
                assert(copy@ =~= points@);
                Shape::Freehand { points: copy }
            },
            Shape::Text { position, content, size } => Shape::Text {
                position: *position,
                content: content.clone(),
                size: *size,
            },
            Shape::Step { position, number } => Shape::Step {
                position: *position,
                number: *number,
            },
        }
    }
}

impl Shape {
    /// Whether two shapes are the same.
    pub fn same_as(&self, other: &Shape) -> (r: bool)
        ensures
            r == (self@ == other@),
    {
        match (self, other) {
            (Shape::Arrow { start: s1, end: e1 }, Shape::Arrow { start: s2, end: e2 }) => *s1 == *s2
                && *e1 == *e2,
            (Shape::Rectangle { rect: r1 }, Shape::Rectangle { rect: r2 }) => *r1 == *r2,
            (Shape::Ellipse { rect: r1 }, Shape::Ellipse { rect: r2 }) => *r1 == *r2,
            (Shape::Freehand { points: p1 }, Shape::Freehand { points: p2 }) => same_points(p1, p2),
            (
                Shape::Text { position: p1, content: c1, size: s1 },
                Shape::Text { position: p2, content: c2, size: s2 },
            ) => *p1 == *p2 && *c1 == *c2 && *s1 == *s2,
            (
                Shape::Step { position: p1, number: n1 },
                Shape::Step { position: p2, number: n2 },
            ) => *p1 == *p2 && *n1 == *n2,
            _ => false,
        }
    }
}

fn same_points(a: &Vec<Point>, b: &Vec<Point>) -> (r: bool)
    ensures
        r == (a@ == b@),
{
    if a.len() != b.len() {
        return false;
    }
    let mut i: usize = 0;
    while i < a.len()
        invariant
            i <= a@.len(),
            a@.len() == b@.len(),
            forall|k: int| 0 <= k < i ==> a@[k] == b@[k],
        decreases a@.len() - i,
    {
        if a[i] != b[i] {
            return false;
        }
        i = i + 1;
    }
    assert(a@ =~= b@);
    true
}

/// The rectangle spanned by two corners.
pub open spec fn spec_from_corners(a: Point, b: Point) -> Rect {
    Rect {
        x: spec_min(a.x as int, b.x as int) as i32,
        y: spec_min(a.y as int, b.y as int) as i32,
        width: spec_abs(b.x - a.x) as u32,
        height: spec_abs(b.y - a.y) as u32,
    }
}

/// The rectangle spanned by two corners, in either order.
pub fn rect_from_corners(a: Point, b: Point) -> (r: Rect)
    ensures
        r == spec_from_corners(a, b),
        r.spec_right() == spec_max(a.x as int, b.x as int),
        r.spec_bottom() == spec_max(a.y as int, b.y as int),
{
    let (x, w): (i32, u32) = if a.x <= b.x {
        (a.x, (b.x as i64 - a.x as i64) as u32)
    } else {
        (b.x, (a.x as i64 - b.x as i64) as u32)
    };
    let (y, h): (i32, u32) = if a.y <= b.y {
        (a.y, (b.y as i64 - a.y as i64) as u32)
    } else {
        (b.y, (a.y as i64 - b.y as i64) as u32)
    };
    Rect { x, y, width: w, height: h }
}

/// Which two corners are given does not matter.
pub proof fn law_corner_order_is_irrelevant(a: Point, b: Point)
    ensures
        spec_from_corners(a, b) == spec_from_corners(b, a),
        spec_from_corners(a, b) == spec_from_corners(Point { x: a.x, y: b.y }, Point {
            x: b.x,
            y: a.y,
        }),
{
}

/// The rectangle moved by `d`, held at the ends of the coordinate range.
pub open spec fn spec_translate_rect(r: Rect, d: Offset) -> Rect {
    Rect { x: spec_coord(r.x + d.dx) as i32, y: spec_coord(r.y + d.dy) as i32, ..r }
}

pub fn translate_rect(r: Rect, d: Offset) -> (t: Rect)
    ensures
        t == spec_translate_rect(r, d),
{
    let p = Point { x: r.x, y: r.y }.translated(d);
    Rect { x: p.x, y: p.y, width: r.width, height: r.height }
}

/// Whether two rectangles overlap.
pub open spec fn spec_intersect(a: Rect, b: Rect) -> bool {
    a.x < b.spec_right() && a.spec_right() > b.x && a.y < b.spec_bottom() && a.spec_bottom() > b.y
}

pub fn rects_intersect(a: Rect, b: Rect) -> (r: bool)
    ensures
        r == spec_intersect(a, b),
{
    (a.x as i64) < b.right() && a.right() > b.x as i64 && (a.y as i64) < b.bottom() && a.bottom()
        > b.y as i64
}

/// The squared distance between two positions.
pub open spec fn spec_dist_sq(ax: int, ay: int, bx: int, by: int) -> int {
    (ax - bx) * (ax - bx) + (ay - by) * (ay - by)
}

/// The squared distance between two points.
pub fn distance_sq(a: Point, b: Point) -> (r: u128)
    ensures
        r == spec_dist_sq(a.x as int, a.y as int, b.x as int, b.y as int),
{
    dist_sq(a.x as i64, a.y as i64, b.x as i64, b.y as i64)
}

/// A bound that every coordinate on a canvas keeps.
pub const REACH: i64 = 0x8_0000_0000;

fn square(a: i64) -> (r: u128)
    requires
        -0x20_0000_0000 <= a <= 0x20_0000_0000,
    ensures
        r == a * a,
        r <= 0x400_0000_0000_0000_0000,
{
    let m: u128 = if a < 0 {
        (-a) as u128
    } else {
        a as u128
    };
    proof {
        assert(m * m == a * a && m * m <= 0x400_0000_0000_0000_0000) by (nonlinear_arith)
            requires
                m == a || m == -a,
                0 <= m <= 0x20_0000_0000,
        ;
    }
    m * m
}

pub fn dist_sq(ax: i64, ay: i64, bx: i64, by: i64) -> (r: u128)
    requires
        -REACH <= ax <= REACH,
        -REACH <= ay <= REACH,
        -REACH <= bx <= REACH,
        -REACH <= by <= REACH,
    ensures
        r == spec_dist_sq(ax as int, ay as int, bx as int, by as int),
        r <= 0x800_0000_0000_0000_0000,
{
    square(ax - bx) + square(ay - by)
}

/// Whether `(px, py)` lies within half of `diameter` of the segment from `a`
/// to `b`: of the segment itself beside it, of the nearer end beyond it.
pub open spec fn spec_near_segment(
    px: int,
    py: int,
    a: Point,
    b: Point,
    diameter: int,
) -> bool {
    let abx = b.x - a.x;
    let aby = b.y - a.y;
    let apx = px - a.x;
    let apy = py - a.y;
    let len_sq = abx * abx + aby * aby;
    let along = apx * abx + apy * aby;
    let across = apx * aby - apy * abx;
    if len_sq == 0 || along <= 0 {
        4 * spec_dist_sq(px, py, a.x as int, a.y as int) <= diameter * diameter
    } else if along >= len_sq {
        4 * spec_dist_sq(px, py, b.x as int, b.y as int) <= diameter * diameter
    } else {
        4 * (across * across) <= diameter * diameter * len_sq
    }
}

pub fn near_segment(px: i64, py: i64, a: Point, b: Point, diameter: u16) -> (r: bool)
    requires
        -REACH <= px <= REACH,
        -REACH <= py <= REACH,
    ensures
        r == spec_near_segment(px as int, py as int, a, b, diameter as int),
{
    let abx: i64 = b.x as i64 - a.x as i64;
    let aby: i64 = b.y as i64 - a.y as i64;
    let apx: i64 = px - a.x as i64;
    let apy: i64 = py - a.y as i64;
    let len_sq: u128 = square(abx) + square(aby);
    proof {
        lemma_product_bound(apx as int, abx as int);
        lemma_product_bound(apy as int, aby as int);
        lemma_product_bound(apx as int, aby as int);
        lemma_product_bound(apy as int, abx as int);
        assert(diameter as int * diameter as int <= 0x1_0000_0000) by (nonlinear_arith)
            requires
                0 <= diameter <= 0xffff,
        ;
    }
    let along: i128 = apx as i128 * abx as i128 + apy as i128 * aby as i128;
    let across: i128 = apx as i128 * aby as i128 - apy as i128 * abx as i128;
    let reach_sq: u128 = diameter as u128 * diameter as u128;
    if len_sq == 0 || along <= 0 {
        4 * dist_sq(px, py, a.x as i64, a.y as i64) <= reach_sq
    } else if along as u128 >= len_sq {
        4 * dist_sq(px, py, b.x as i64, b.y as i64) <= reach_sq
    } else {
        let m: u128 = if across < 0 {
            (-across) as u128
        } else {
            across as u128
        };
        proof {
            assert(m * m == across * across) by (nonlinear_arith)
                requires
                    m == across || m == -across,
            ;
            assert(reach_sq * len_sq <= 0x1_0000_0000 * 0x800_0000_0000_0000_0000)
                by (nonlinear_arith)
                requires
                    0 <= reach_sq <= 0x1_0000_0000,
                    0 <= len_sq <= 0x800_0000_0000_0000_0000,
            ;
        }
        // Farther off than the square of any stroke could make up for.
        if m >= 0x1000_0000_0000_0000 {
            proof {
                assert(m * m >= 0x1000_0000_0000_0000 * 0x1000_0000_0000_0000) by (nonlinear_arith)
                    requires
                        m >= 0x1000_0000_0000_0000,
                ;
            }
            return false;
        }
        proof {
            assert(m * m <= 0x1000_0000_0000_0000 * 0x1000_0000_0000_0000) by (nonlinear_arith)
                requires
                    0 <= m <= 0x1000_0000_0000_0000,
            ;
        }
        4 * (m * m) <= reach_sq * len_sq
    }
}

proof fn lemma_product_bound(a: int, b: int)
    requires
        -0x20_0000_0000 <= a <= 0x20_0000_0000,
        -0x20_0000_0000 <= b <= 0x20_0000_0000,
    ensures
        -0x400_0000_0000_0000_0000 <= a * b <= 0x400_0000_0000_0000_0000,
{
    assert(-0x400_0000_0000_0000_0000 <= a * b <= 0x400_0000_0000_0000_0000) by (nonlinear_arith)
        requires
            -0x20_0000_0000 <= a <= 0x20_0000_0000,
            -0x20_0000_0000 <= b <= 0x20_0000_0000,
    ;
}

/// Which end of a segment comes first does not matter to how near a point is.
pub proof fn law_segment_direction_is_irrelevant(
    px: int,
    py: int,
    a: Point,
    b: Point,
    diameter: int,
)
    ensures
        spec_near_segment(px, py, a, b, diameter) == spec_near_segment(px, py, b, a, diameter),
{
    let abx = b.x - a.x;
    let aby = b.y - a.y;
    let apx = px - a.x;
    let apy = py - a.y;
    let bpx = px - b.x;
    let bpy = py - b.y;
    let len_sq = abx * abx + aby * aby;
    let along = apx * abx + apy * aby;
    let across = apx * aby - apy * abx;
    assert((-abx) * (-abx) + (-aby) * (-aby) == len_sq) by (nonlinear_arith)
        requires
            len_sq == abx * abx + aby * aby,
    ;
    assert(bpx * (-abx) + bpy * (-aby) == len_sq - along) by (nonlinear_arith)
        requires
            len_sq == abx * abx + aby * aby,
            along == apx * abx + apy * aby,
            bpx == apx - abx,
            bpy == apy - aby,
    ;
    assert(bpx * (-aby) - bpy * (-abx) == -across) by (nonlinear_arith)
        requires
            across == apx * aby - apy * abx,
            bpx == apx - abx,
            bpy == apy - aby,
    ;
    assert((-across) * (-across) == across * across) by (nonlinear_arith);
    if len_sq == 0 {
        assert(abx == 0 && aby == 0) by (nonlinear_arith)
            requires
                abx * abx + aby * aby == 0,
        ;
    } else {
        assert(len_sq > 0) by (nonlinear_arith)
            requires
                len_sq == abx * abx + aby * aby,
                len_sq != 0,
        ;
    }
}

/// The least of the points' coordinates along one axis.
pub open spec fn spec_least(points: Seq<Point>, horizontal: bool) -> int
    decreases points.len(),
{
    let last = if horizontal {
        points.last().x as int
    } else {
        points.last().y as int
    };
    if points.len() <= 1 {
        last
    } else {
        spec_min(spec_least(points.drop_last(), horizontal), last)
    }
}

/// The greatest of the points' coordinates along one axis.
pub open spec fn spec_greatest(points: Seq<Point>, horizontal: bool) -> int
    decreases points.len(),
{
    let last = if horizontal {
        points.last().x as int
    } else {
        points.last().y as int
    };
    if points.len() <= 1 {
        last
    } else {
        spec_max(spec_greatest(points.drop_last(), horizontal), last)
    }
}

/// How wide `chars` characters of `size` subpixels are taken to be: six tenths
/// of the size each, at least one pixel in all.
pub open spec fn text_width(chars: int, size: int) -> int {
    spec_clamp(chars * size * 6 / 10, 256, u32::MAX as int)
}

/// How high a line of `size` subpixels is taken to be: 1.3 times the size, at
/// least one pixel.
pub open spec fn text_height(size: int) -> int {
    spec_clamp(size * 13 / 10, 256, u32::MAX as int)
}

/// The rectangle that a shape takes up.
pub open spec fn spec_bounds(f: Figure) -> Rect {
    match f {
        Figure::Arrow { start, end } => spec_from_corners(start, end),
        Figure::Rectangle { rect } => rect,
        Figure::Ellipse { rect } => rect,
        Figure::Freehand { points } => if points.len() == 0 {
            Rect { x: 0, y: 0, width: 0, height: 0 }
        } else {
            Rect {
                x: spec_least(points, true) as i32,
                y: spec_least(points, false) as i32,
                width: (spec_greatest(points, true) - spec_least(points, true)) as u32,
                height: (spec_greatest(points, false) - spec_least(points, false)) as u32,
            }
        },
        Figure::Text { position, content, size } => Rect {
            x: position.x,
            y: position.y,
            width: text_width(content.len() as int, size as int) as u32,
            height: text_height(size as int) as u32,
        },
        Figure::Step { position, number } => Rect {
            x: spec_coord(position.x - STEP_BADGE_RADIUS) as i32,
            y: spec_coord(position.y - STEP_BADGE_RADIUS) as i32,
            width: 7168,
            height: 7168,
        },
    }
}

/// The smallest rectangle around some points.
fn points_bounds(points: &Vec<Point>) -> (r: Rect)
    ensures
        r == spec_bounds(Figure::Freehand { points: points@ }),
{
    if points.len() == 0 {
        return Rect { x: 0, y: 0, width: 0, height: 0 };
    }
    let mut min_x: i32 = points[0].x;
    let mut max_x: i32 = points[0].x;
    let mut min_y: i32 = points[0].y;
    let mut max_y: i32 = points[0].y;
    let mut i: usize = 1;
    assert(points@.take(1).last() == points@[0]);
    while i < points.len()
        invariant
            1 <= i <= points@.len(),
            min_x == spec_least(points@.take(i as int), true),
            min_y == spec_least(points@.take(i as int), false),
            max_x == spec_greatest(points@.take(i as int), true),
            max_y == spec_greatest(points@.take(i as int), false),
            min_x <= max_x,
            min_y <= max_y,
        decreases points@.len() - i,
    {
        let p = points[i];
        proof {
            let more = points@.take(i + 1);
            assert(more.drop_last() =~= points@.take(i as int));
            assert(more.last() == p);
        }
        if p.x < min_x {
            min_x = p.x;
        }
        if p.y < min_y {
            min_y = p.y;
        }
        if p.x > max_x {
            max_x = p.x;
        }
        if p.y > max_y {
            max_y = p.y;
        }
        i = i + 1;
    }
    assert(points@.take(i as int) =~= points@);
    Rect {
        x: min_x,
        y: min_y,
        width: (max_x as i64 - min_x as i64) as u32,
        height: (max_y as i64 - min_y as i64) as u32,
    }
}

/// The rectangle that a shape takes up. Text is measured by rule of thumb, for
/// selecting it; its glyphs may be wider or narrower.
pub fn shape_bounds(shape: &Shape) -> (r: Rect)
    ensures
        r == spec_bounds(shape@),
{
    match shape {
        Shape::Arrow { start, end } => rect_from_corners(*start, *end),
        Shape::Rectangle { rect } => *rect,
        Shape::Ellipse { rect } => *rect,
        Shape::Freehand { points } => points_bounds(points),
        Shape::Text { position, content, size } => {
            let chars: usize = content.as_str().unicode_len();
            proof {
                assert(0 <= chars as int * *size as int <= 0xffff_ffff_ffff_ffff * 0xffff_ffff)
                    by (nonlinear_arith)
                    requires
                        0 <= chars <= 0xffff_ffff_ffff_ffff,
                        0 <= *size <= 0xffff_ffff,
                ;
            }
            let w: u128 = chars as u128 * *size as u128 * 6 / 10;
            let h: u64 = *size as u64 * 13 / 10;
            let width: u32 = if w < 256 {
                256
            } else if w > u32::MAX as u128 {
                u32::MAX
            } else {
                w as u32
            };
            let height: u32 = if h < 256 {
                256
            } else if h > u32::MAX as u64 {
                u32::MAX
            } else {
                h as u32
            };
            Rect { x: position.x, y: position.y, width, height }
        },
        Shape::Step { position, number } => Rect {
            x: coord(position.x as i64 - STEP_BADGE_RADIUS),
            y: coord(position.y as i64 - STEP_BADGE_RADIUS),
            width: 7168,
            height: 7168,
        },
    }
}

/// The shape moved by `d`.
pub open spec fn spec_translate(f: Figure, d: Offset) -> Figure {
    match f {
        Figure::Arrow { start, end } => Figure::Arrow {
            start: start.spec_translated(d),
            end: end.spec_translated(d),
        },
        Figure::Rectangle { rect } => Figure::Rectangle { rect: spec_translate_rect(rect, d) },
        Figure::Ellipse { rect } => Figure::Ellipse { rect: spec_translate_rect(rect, d) },
        Figure::Freehand { points } => Figure::Freehand {
            points: points.map_values(|p: Point| p.spec_translated(d)),
        },
        Figure::Text { position, content, size } => Figure::Text {
            position: position.spec_translated(d),
            content,
            size,
        },
        Figure::Step { position, number } => Figure::Step {
            position: position.spec_translated(d),
            number,
        },
    }
}

fn translate_points(points: &Vec<Point>, d: Offset) -> (r: Vec<Point>)
    ensures
        r@ == points@.map_values(|p: Point| p.spec_translated(d)),
{
    let mut out: Vec<Point> = Vec::new();
    let mut i: usize = 0;
    while i < points.len()
        invariant
            i <= points@.len(),
            out@.len() == i,
            forall|k: int| 0 <= k < i ==> out@[k] == points@[k].spec_translated(d),
        decreases points@.len() - i,
    {
        out.push(points[i].translated(d));
        i = i + 1;
    }
    assert(out@ =~= points@.map_values(|p: Point| p.spec_translated(d)));
    out
}

/// The shape moved by `d`.
pub fn translate_shape(shape: &Shape, d: Offset) -> (r: Shape)
    ensures
        r@ == spec_translate(shape@, d),
{
    match shape {
        Shape::Arrow { start, end } => Shape::Arrow {
            start: start.translated(d),
            end: end.translated(d),
        },
        Shape::Rectangle { rect } => Shape::Rectangle { rect: translate_rect(*rect, d) },
        Shape::Ellipse { rect } => Shape::Ellipse { rect: translate_rect(*rect, d) },
        Shape::Freehand { points } => Shape::Freehand { points: translate_points(points, d) },
        Shape::Text { position, content, size } => Shape::Text {
            position: position.translated(d),
            content: content.clone(),
            size: *size,
        },
        Shape::Step { position, number } => Shape::Step {
            position: position.translated(d),
            number: *number,
        },
    }
}

/// Moving by nothing changes nothing.
pub proof fn law_translate_by_nothing(f: Figure)
    ensures
        spec_translate(f, Offset { dx: 0, dy: 0 }) == f,
{
    match f {
        Figure::Freehand { points } => {
            assert(points.map_values(|p: Point| p.spec_translated(Offset { dx: 0, dy: 0 }))
                =~= points);
        },
        _ => {},
    }
}

/// Whether no part of the figure is pushed past the coordinate range by `d`.
pub open spec fn moves_freely(f: Figure, d: Offset) -> bool {
    match f {
        Figure::Arrow { start, end } => point_moves_freely(start, d) && point_moves_freely(end, d),
        Figure::Rectangle { rect } => point_moves_freely(Point { x: rect.x, y: rect.y }, d),
        Figure::Ellipse { rect } => point_moves_freely(Point { x: rect.x, y: rect.y }, d),
        Figure::Freehand { points } => forall|i: int|
            0 <= i < points.len() ==> point_moves_freely(#[trigger] points[i], d),
        Figure::Text { position, content, size } => point_moves_freely(position, d),
        Figure::Step { position, number } => point_moves_freely(position, d),
    }
}

pub open spec fn point_moves_freely(p: Point, d: Offset) -> bool {
    i32::MIN <= p.x + d.dx <= i32::MAX && i32::MIN <= p.y + d.dy <= i32::MAX
}

/// A move and the opposite move cancel, unless the coordinate range held the
/// first one back.
pub proof fn law_translate_back(f: Figure, d: Offset, back: Offset)
    requires
        moves_freely(f, d),
        back.dx == -d.dx,
        back.dy == -d.dy,
    ensures
        spec_translate(spec_translate(f, d), back) == f,
{
    match f {
        Figure::Freehand { points } => {
            let there = points.map_values(|p: Point| p.spec_translated(d));
            let again = there.map_values(|p: Point| p.spec_translated(back));
            assert forall|i: int| 0 <= i < points.len() implies again[i] == points[i] by {
                assert(point_moves_freely(points[i], d));
            }
            assert(again =~= points);
        },
        _ => {},
    }
}

/// Whether `p` lies within `rect` grown by `by` on every side, the right and
/// bottom edges left out.
pub open spec fn spec_within_grown(rect: Rect, by: int, p: Point) -> bool {
    &&& rect.x - by <= p.x < rect.spec_right() + by
    &&& rect.y - by <= p.y < rect.spec_bottom() + by
}

fn within_grown(rect: Rect, by: u16, p: Point) -> (r: bool)
    ensures
        r == spec_within_grown(rect, by as int, p),
{
    rect.x as i64 - by as i64 <= p.x as i64 && (p.x as i64) < rect.right() + by as i64
        && rect.y as i64 - by as i64 <= p.y as i64 && (p.y as i64) < rect.bottom() + by as i64
}

/// Whether `p` is within `tolerance` of a line through the points.
pub open spec fn spec_near_polyline(points: Seq<Point>, p: Point, tolerance: int) -> bool {
    exists|i: int|
        0 <= i < points.len() - 1 && spec_near_segment(
            p.x as int,
            p.y as int,
            #[trigger] points[i],
            points[i + 1],
            2 * tolerance,
        )
}

/// Whether a press at `p` picks the shape.
pub open spec fn spec_hit(f: Figure, p: Point, tolerance: int) -> bool {
    match f {
        Figure::Arrow { start, end } => spec_near_segment(
            p.x as int,
            p.y as int,
            start,
            end,
            2 * tolerance,
        ),
        Figure::Rectangle { rect } => spec_within_grown(rect, tolerance, p),
        Figure::Ellipse { rect } => spec_within_grown(rect, tolerance, p),
        Figure::Freehand { points } => spec_near_polyline(points, p, tolerance),
        Figure::Text { position, content, size } => spec_within_grown(
            spec_bounds(f),
            tolerance,
            p,
        ),
        Figure::Step { position, number } => spec_within_grown(spec_bounds(f), tolerance, p),
    }
}

fn near_polyline(points: &Vec<Point>, p: Point, tolerance: u16) -> (r: bool)
    requires
        tolerance <= 0x7fff,
    ensures
        r == spec_near_polyline(points@, p, tolerance as int),
{
    let mut i: usize = 1;
    while i < points.len()
        invariant
            tolerance <= 0x7fff,
            1 <= i,
            i <= points@.len() || points@.len() == 0,
            forall|k: int|
                0 <= k < i - 1 ==> !spec_near_segment(
                    p.x as int,
                    p.y as int,
                    #[trigger] points@[k],
                    points@[k + 1],
                    2 * tolerance,
                ),
        decreases points@.len() - i,
    {
        if near_segment(p.x as i64, p.y as i64, points[i - 1], points[i], 2 * tolerance) {
            assert(spec_near_segment(
                p.x as int,
                p.y as int,
                points@[i - 1],
                points@[i - 1 + 1],
                2 * tolerance,
            ));
            return true;
        }
        i = i + 1;
    }
    false
}

/// Whether a press at `point` picks the shape: on or near a line, anywhere on
/// or near the box of the rest.
pub fn shape_hit(shape: &Shape, point: Point, tolerance: u16) -> (r: bool)
    requires
        tolerance <= 0x7fff,
    ensures
        r == spec_hit(shape@, point, tolerance as int),
{
    match shape {
        Shape::Arrow { start, end } => near_segment(
            point.x as i64,
            point.y as i64,
            *start,
            *end,
            2 * tolerance,
        ),
        Shape::Rectangle { rect } => within_grown(*rect, tolerance, point),
        Shape::Ellipse { rect } => within_grown(*rect, tolerance, point),
        Shape::Freehand { points } => near_polyline(points, point, tolerance),
        Shape::Text { position, content, size } => within_grown(
            shape_bounds(shape),
            tolerance,
            point,
        ),
        Shape::Step { position, number } => within_grown(shape_bounds(shape), tolerance, point),
    }
}

/// The shape that a drag from `anchor` to `current` draws.
pub open spec fn spec_line_shape(tool: LineTool, anchor: Point, current: Point) -> Figure {
    match tool {
        LineTool::Arrow => Figure::Arrow { start: anchor, end: current },
        LineTool::Rectangle => Figure::Rectangle { rect: spec_from_corners(anchor, current) },
        LineTool::Ellipse => Figure::Ellipse { rect: spec_from_corners(anchor, current) },
    }
}

pub fn line_tool_shape(tool: LineTool, anchor: Point, current: Point) -> (r: Shape)
    ensures
        r@ == spec_line_shape(tool, anchor, current),
{
    match tool {
        LineTool::Arrow => Shape::Arrow { start: anchor, end: current },
        LineTool::Rectangle => Shape::Rectangle { rect: rect_from_corners(anchor, current) },
        LineTool::Ellipse => Shape::Ellipse { rect: rect_from_corners(anchor, current) },
    }
}

} // verus!
