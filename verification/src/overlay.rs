//! The region-selection overlay: geometry of the selection rectangle, and the
//! state machine that drags, moves and resizes it.
use vstd::prelude::*;
use vstd::string::*;

use crate::capture::{LogicalRect, OutputInfo, WindowRef, pixel_size, spec_pixel_size};
use crate::shapes::{rect_from_corners, spec_from_corners};
use crate::text::{decimal, decimal_text};
use crate::units::{
    Offset, Point, RawPoint, Rect, coord, round_px, spec_abs, spec_between, spec_clamp, spec_coord,
    spec_extent, spec_max, spec_min, spec_round_px,
};

verus! {

/// How near to a handle a press grabs it, in subpixels (12 px).
pub const HANDLE_HIT_RADIUS: u32 = 3072;

/// How near to the output's edge an edge of the selection snaps to it, in
/// subpixels (8 px).
pub const EDGE_SNAP_DISTANCE: u32 = 2048;

/// The least width and height of a selection, in subpixels (4 px).
pub const MIN_SELECTION: u32 = 1024;

/// The width of the size readout, in subpixels (136 px).
pub const READOUT_WIDTH: u32 = 34816;

/// The widest output that coordinates can address, in pixels.
pub const MAX_OUTPUT: u32 = 8388607;

impl Rect {
    /// The rectangle spanned by two corners, in either order.
    pub fn from_corners(a: Point, b: Point) -> (r: Rect)
        ensures
            r == spec_from_corners(a, b),
    {
        rect_from_corners(a, b)
    }

    pub open spec fn spec_contains(self, p: Point) -> bool {
        self.x <= p.x <= self.spec_right() && self.y <= p.y <= self.spec_bottom()
    }

    /// Whether the point lies in the rectangle, its edges taken in.
    pub fn contains(self, p: Point) -> (r: bool)
        ensures
            r == self.spec_contains(p),
    {
        p.x >= self.x && p.x as i64 <= self.right() && p.y >= self.y && p.y as i64 <= self.bottom()
    }

    pub open spec fn spec_moved(self, d: Offset) -> Rect {
        Rect { x: spec_coord(self.x + d.dx) as i32, y: spec_coord(self.y + d.dy) as i32, ..self }
    }

    /// The rectangle moved by `d`, held at the ends of the coordinate range.
    pub fn translated(self, d: Offset) -> (r: Rect)
        ensures
            r == self.spec_moved(d),
    {
        let p = Point { x: self.x, y: self.y }.translated(d);
        Rect { x: p.x, y: p.y, width: self.width, height: self.height }
    }

    /// Whether the rectangle lies within another.
    pub open spec fn within(self, outer: Rect) -> bool {
        &&& outer.x <= self.x
        &&& outer.y <= self.y
        &&& self.spec_right() <= outer.spec_right()
        &&& self.spec_bottom() <= outer.spec_bottom()
    }

    /// Whether every edge lies on a pixel boundary.
    pub open spec fn on_grid(self) -> bool {
        &&& self.x as int % 256 == 0
        &&& self.y as int % 256 == 0
        &&& self.width as int % 256 == 0
        &&& self.height as int % 256 == 0
    }
}

/// The vertical edge that a handle moves, if any.
#[derive(Debug, Clone, Copy, PartialEq, Eq, Structural)]
pub enum HEdge {
    Left,
    Neither,
    Right,
}

/// The horizontal edge that a handle moves, if any.
#[derive(Debug, Clone, Copy, PartialEq, Eq, Structural)]
pub enum VEdge {
    Top,
    Neither,
    Bottom,
}

impl HEdge {
    pub open spec fn spec_flipped(self) -> HEdge {
        match self {
            HEdge::Left => HEdge::Right,
            HEdge::Neither => HEdge::Neither,
            HEdge::Right => HEdge::Left,
        }
    }

    pub fn flipped(self) -> (r: HEdge)
        ensures
            r == self.spec_flipped(),
    {
        match self {
            HEdge::Left => HEdge::Right,
            HEdge::Neither => HEdge::Neither,
            HEdge::Right => HEdge::Left,
        }
    }
}

impl VEdge {
    pub open spec fn spec_flipped(self) -> VEdge {
        match self {
            VEdge::Top => VEdge::Bottom,
            VEdge::Neither => VEdge::Neither,
            VEdge::Bottom => VEdge::Top,
        }
    }

    pub fn flipped(self) -> (r: VEdge)
        ensures
            r == self.spec_flipped(),
    {
        match self {
            VEdge::Top => VEdge::Bottom,
            VEdge::Neither => VEdge::Neither,
            VEdge::Bottom => VEdge::Top,
        }
    }
}

/// What the pointer looks like over something.
#[derive(Debug, Clone, Copy, PartialEq, Eq, Structural)]
pub enum PointerShape {
    ResizingDiagonallyDown,
    ResizingDiagonallyUp,
    ResizingVertically,
    ResizingHorizontally,
    Grab,
    Crosshair,
}

/// One of the eight places to pull the selection by.
#[derive(Debug, Clone, Copy, PartialEq, Eq, Structural)]
pub enum Handle {
    TopLeft,
    TopRight,
    BottomRight,
    BottomLeft,
    Top,
    Right,
    Bottom,
    Left,
}

impl Handle {
    /// Every handle, the corners first: where handles overlap, a press takes
    /// the first of them.
    pub open spec fn spec_all() -> Seq<Handle> {
        seq![
            Handle::TopLeft,
            Handle::TopRight,
            Handle::BottomRight,
            Handle::BottomLeft,
            Handle::Top,
            Handle::Right,
            Handle::Bottom,
            Handle::Left,
        ]
    }

    pub fn all() -> (r: [Handle; 8])
        ensures
            r@ == Handle::spec_all(),
    {
        let r = [
            Handle::TopLeft,
            Handle::TopRight,
            Handle::BottomRight,
            Handle::BottomLeft,
            Handle::Top,
            Handle::Right,
            Handle::Bottom,
            Handle::Left,
        ];
        assert(r@ =~= Handle::spec_all());
        r
    }

    pub open spec fn spec_edges(self) -> (HEdge, VEdge) {
        match self {
            Handle::TopLeft => (HEdge::Left, VEdge::Top),
            Handle::TopRight => (HEdge::Right, VEdge::Top),
            Handle::BottomRight => (HEdge::Right, VEdge::Bottom),
            Handle::BottomLeft => (HEdge::Left, VEdge::Bottom),
            Handle::Top => (HEdge::Neither, VEdge::Top),
            Handle::Right => (HEdge::Right, VEdge::Neither),
            Handle::Bottom => (HEdge::Neither, VEdge::Bottom),
            Handle::Left => (HEdge::Left, VEdge::Neither),
        }
    }

    /// The edges that the handle moves.
    pub fn edges(self) -> (r: (HEdge, VEdge))
        ensures
            r == self.spec_edges(),
    {
        match self {
            Handle::TopLeft => (HEdge::Left, VEdge::Top),
            Handle::TopRight => (HEdge::Right, VEdge::Top),
            Handle::BottomRight => (HEdge::Right, VEdge::Bottom),
            Handle::BottomLeft => (HEdge::Left, VEdge::Bottom),
            Handle::Top => (HEdge::Neither, VEdge::Top),
            Handle::Right => (HEdge::Right, VEdge::Neither),
            Handle::Bottom => (HEdge::Neither, VEdge::Bottom),
            Handle::Left => (HEdge::Left, VEdge::Neither),
        }
    }

    pub open spec fn spec_from_edges(horizontal: HEdge, vertical: VEdge) -> Option<Handle> {
        match (horizontal, vertical) {
            (HEdge::Left, VEdge::Top) => Some(Handle::TopLeft),
            (HEdge::Right, VEdge::Top) => Some(Handle::TopRight),
            (HEdge::Right, VEdge::Bottom) => Some(Handle::BottomRight),
            (HEdge::Left, VEdge::Bottom) => Some(Handle::BottomLeft),
            (HEdge::Neither, VEdge::Top) => Some(Handle::Top),
            (HEdge::Right, VEdge::Neither) => Some(Handle::Right),
            (HEdge::Neither, VEdge::Bottom) => Some(Handle::Bottom),
            (HEdge::Left, VEdge::Neither) => Some(Handle::Left),
            (HEdge::Neither, VEdge::Neither) => None,
        }
    }

    /// The handle that moves those edges; there is none that moves no edge.
    pub fn from_edges(horizontal: HEdge, vertical: VEdge) -> (r: Option<Handle>)
        ensures
            r == Handle::spec_from_edges(horizontal, vertical),
    {
        match (horizontal, vertical) {
            (HEdge::Left, VEdge::Top) => Some(Handle::TopLeft),
            (HEdge::Right, VEdge::Top) => Some(Handle::TopRight),
            (HEdge::Right, VEdge::Bottom) => Some(Handle::BottomRight),
            (HEdge::Left, VEdge::Bottom) => Some(Handle::BottomLeft),
            (HEdge::Neither, VEdge::Top) => Some(Handle::Top),
            (HEdge::Right, VEdge::Neither) => Some(Handle::Right),
            (HEdge::Neither, VEdge::Bottom) => Some(Handle::Bottom),
            (HEdge::Left, VEdge::Neither) => Some(Handle::Left),
            (HEdge::Neither, VEdge::Neither) => None,
        }
    }

    pub open spec fn spec_center(self, rect: Rect) -> (int, int) {
        (
            match self.spec_edges().0 {
                HEdge::Left => rect.x as int,
                HEdge::Neither => rect.x + rect.width as int / 2,
                HEdge::Right => rect.spec_right(),
            },
            match self.spec_edges().1 {
                VEdge::Top => rect.y as int,
                VEdge::Neither => rect.y + rect.height as int / 2,
                VEdge::Bottom => rect.spec_bottom(),
            },
        )
    }

    /// Where the handle sits on the rectangle.
    pub fn center(self, rect: Rect) -> (r: (i64, i64))
        ensures
            (r.0 as int, r.1 as int) == self.spec_center(rect),
    {
        let (horizontal, vertical) = self.edges();
        let x: i64 = match horizontal {
            HEdge::Left => rect.x as i64,
            HEdge::Neither => rect.x as i64 + (rect.width / 2) as i64,
            HEdge::Right => rect.right(),
        };
        let y: i64 = match vertical {
            VEdge::Top => rect.y as i64,
            VEdge::Neither => rect.y as i64 + (rect.height / 2) as i64,
            VEdge::Bottom => rect.bottom(),
        };
        (x, y)
    }

    pub open spec fn spec_interaction(self) -> PointerShape {
        match self {
            Handle::TopLeft => PointerShape::ResizingDiagonallyDown,
            Handle::BottomRight => PointerShape::ResizingDiagonallyDown,
            Handle::TopRight => PointerShape::ResizingDiagonallyUp,
            Handle::BottomLeft => PointerShape::ResizingDiagonallyUp,
            Handle::Top => PointerShape::ResizingVertically,
            Handle::Bottom => PointerShape::ResizingVertically,
            Handle::Left => PointerShape::ResizingHorizontally,
            Handle::Right => PointerShape::ResizingHorizontally,
        }
    }

    /// What the pointer looks like over the handle.
    pub fn interaction(self) -> (r: PointerShape)
        ensures
            r == self.spec_interaction(),
    {
        match self {
            Handle::TopLeft => PointerShape::ResizingDiagonallyDown,
            Handle::BottomRight => PointerShape::ResizingDiagonallyDown,
            Handle::TopRight => PointerShape::ResizingDiagonallyUp,
            Handle::BottomLeft => PointerShape::ResizingDiagonallyUp,
            Handle::Top => PointerShape::ResizingVertically,
            Handle::Bottom => PointerShape::ResizingVertically,
            Handle::Left => PointerShape::ResizingHorizontally,
            Handle::Right => PointerShape::ResizingHorizontally,
        }
    }

    /// Whether the handle is a corner.
    pub open spec fn is_corner(self) -> bool {
        self is TopLeft || self is TopRight || self is BottomRight || self is BottomLeft
    }
}

/// A handle is the one that moves its edges, and no other.
pub proof fn law_edges_round_trip(handle: Handle, h: HEdge, v: VEdge)
    ensures
        Handle::spec_from_edges(handle.spec_edges().0, handle.spec_edges().1) == Some(handle),
        Handle::spec_from_edges(h, v) matches Some(found) ==> found.spec_edges() == (h, v),
        h.spec_flipped().spec_flipped() == h,
        v.spec_flipped().spec_flipped() == v,
{
}

/// What lies under the pointer.
#[derive(Debug, Clone, Copy, PartialEq, Eq, Structural)]
pub enum HitTarget {
    Handle(Handle),
    Inside,
    Outside,
}

/// A value brought into a range. Where the value or either end is no finite
/// number, or the range runs backwards, it is the range's low end, or zero if
/// there is none.
pub open spec fn spec_clamp_value(v: Option<i64>, min: Option<i64>, max: Option<i64>) -> int {
    match (v, min, max) {
        (Some(value), Some(lo), Some(hi)) => if hi < lo {
            lo as int
        } else {
            spec_clamp(value as int, lo as int, hi as int)
        },
        (_, Some(lo), _) => lo as int,
        _ => 0,
    }
}

pub fn clamp_value(v: Option<i64>, min: Option<i64>, max: Option<i64>) -> (r: i64)
    ensures
        r == spec_clamp_value(v, min, max),
{
    match (v, min, max) {
        (Some(value), Some(lo), Some(hi)) => if hi < lo {
            lo
        } else if value < lo {
            lo
        } else if value > hi {
            hi
        } else {
            value
        },
        (_, Some(lo), _) => lo,
        _ => 0,
    }
}

/// One coordinate brought into `lo..=hi`; the low end where there is none.
pub open spec fn spec_clamp_axis(v: Option<i32>, lo: int, hi: int) -> int {
    match v {
        None => lo,
        Some(c) => spec_clamp(c as int, lo, hi),
    }
}

pub open spec fn spec_clamp_point(p: RawPoint, bounds: Rect) -> Point {
    Point {
        x: spec_clamp_axis(p.x, bounds.x as int, bounds.spec_right()) as i32,
        y: spec_clamp_axis(p.y, bounds.y as int, bounds.spec_bottom()) as i32,
    }
}

fn clamp_axis(v: Option<i32>, lo: i32, hi: i64) -> (r: i32)
    requires
        lo <= hi,
    ensures
        r == spec_clamp_axis(v, lo as int, hi as int),
{
    let value: Option<i64> = match v {
        None => None,
        Some(c) => Some(c as i64),
    };
    clamp_value(value, Some(lo as i64), Some(hi)) as i32
}

/// Brings a pointer position into the bounds.
pub fn clamp_point(p: RawPoint, bounds: Rect) -> (r: Point)
    ensures
        r == spec_clamp_point(p, bounds),
        bounds.spec_contains(r),
{
    Point { x: clamp_axis(p.x, bounds.x, bounds.right()), y: clamp_axis(p.y, bounds.y, bounds.bottom()) }
}

/// Whether the point is within the radius of a handle, on both axes.
pub open spec fn near_handle(handle: Handle, rect: Rect, p: Point, radius: u32) -> bool {
    &&& spec_abs(p.x - handle.spec_center(rect).0) <= radius
    &&& spec_abs(p.y - handle.spec_center(rect).1) <= radius
}

/// The first of the handles from `i` on that is near.
pub open spec fn first_handle(rect: Rect, p: Point, radius: u32, i: int) -> Option<Handle>
    decreases 8 - i,
{
    if i < 0 || i >= 8 {
        None
    } else if near_handle(Handle::spec_all()[i], rect, p, radius) {
        Some(Handle::spec_all()[i])
    } else {
        first_handle(rect, p, radius, i + 1)
    }
}

pub open spec fn spec_hit_test(selection: Option<Rect>, p: Point, radius: u32) -> HitTarget {
    match selection {
        None => HitTarget::Outside,
        Some(rect) => match first_handle(rect, p, radius, 0) {
            Some(handle) => HitTarget::Handle(handle),
            None => if rect.spec_contains(p) {
                HitTarget::Inside
            } else {
                HitTarget::Outside
            },
        },
    }
}

fn gap(a: i64, b: i64) -> (r: i64)
    requires
        -0x1000_0000_0000_0000 <= a <= 0x1000_0000_0000_0000,
        -0x1000_0000_0000_0000 <= b <= 0x1000_0000_0000_0000,
    ensures
        r == spec_abs(a - b),
{
    if a >= b {
        a - b
    } else {
        b - a
    }
}

/// What lies under the pointer: a handle, the selection, or neither.
pub fn hit_test(selection: Option<Rect>, point: Point, hit_radius: u32) -> (r: HitTarget)
    ensures
        r == spec_hit_test(selection, point, hit_radius),
{
    let rect = match selection {
        None => {
            return HitTarget::Outside;
        },
        Some(rect) => rect,
    };
    let handles = Handle::all();
    let mut i: usize = 0;
    while i < 8
        invariant
            i <= 8,
            selection == Some(rect),
            handles@ == Handle::spec_all(),
            first_handle(rect, point, hit_radius, 0) == first_handle(
                rect,
                point,
                hit_radius,
                i as int,
            ),
        decreases 8 - i,
    {
        let handle = handles[i];
        let (cx, cy) = handle.center(rect);
        if gap(point.x as i64, cx) <= hit_radius as i64 && gap(point.y as i64, cy)
            <= hit_radius as i64 {
            return HitTarget::Handle(handle);
        }
        i = i + 1;
    }
    if rect.contains(point) {
        HitTarget::Inside
    } else {
        HitTarget::Outside
    }
}

/// Where a corner is near, a corner is hit: a press on a tiny selection moves
/// both of its axes.
pub proof fn law_corners_win(rect: Rect, p: Point, radius: u32, corner: Handle)
    requires
        corner.is_corner(),
        near_handle(corner, rect, p, radius),
    ensures
        spec_hit_test(Some(rect), p, radius) matches HitTarget::Handle(h) && h.is_corner(),
{
    reveal_with_fuel(first_handle, 5);
}

/// What the pointer looks like, telling what a press would do.
pub open spec fn spec_pointer_shape(target: HitTarget) -> PointerShape {
    match target {
        HitTarget::Handle(handle) => handle.spec_interaction(),
        HitTarget::Inside => PointerShape::Grab,
        HitTarget::Outside => PointerShape::Crosshair,
    }
}

pub fn pointer_shape(target: HitTarget) -> (r: PointerShape)
    ensures
        r == spec_pointer_shape(target),
{
    match target {
        HitTarget::Handle(handle) => handle.interaction(),
        HitTarget::Inside => PointerShape::Grab,
        HitTarget::Outside => PointerShape::Crosshair,
    }
}

/// The rectangle with the handle's edges at the pointer, and the handle that
/// the pointer now holds: pulled past its opposite, an edge becomes that one.
pub open spec fn spec_resize(rect: Rect, handle: Handle, pointer: RawPoint, bounds: Rect) -> (
    Rect,
    Handle,
) {
    let p = spec_clamp_point(pointer, bounds);
    let (h, v) = handle.spec_edges();
    let left = if h is Left {
        p.x as int
    } else {
        rect.x as int
    };
    let right = if h is Right {
        p.x as int
    } else {
        rect.spec_right()
    };
    let top = if v is Top {
        p.y as int
    } else {
        rect.y as int
    };
    let bottom = if v is Bottom {
        p.y as int
    } else {
        rect.spec_bottom()
    };
    let h2 = if left > right {
        h.spec_flipped()
    } else {
        h
    };
    let v2 = if top > bottom {
        v.spec_flipped()
    } else {
        v
    };
    (
        spec_between(
            spec_min(left, right),
            spec_min(top, bottom),
            spec_max(left, right),
            spec_max(top, bottom),
        ),
        match Handle::spec_from_edges(h2, v2) {
            Some(found) => found,
            None => handle,
        },
    )
}

pub fn resize(rect: Rect, handle: Handle, pointer: RawPoint, bounds: Rect) -> (r: (Rect, Handle))
    ensures
        r == spec_resize(rect, handle, pointer, bounds),
{
    let p = clamp_point(pointer, bounds);
    let (h, v) = handle.edges();
    let mut left: i64 = rect.x as i64;
    let mut top: i64 = rect.y as i64;
    let mut right: i64 = rect.right();
    let mut bottom: i64 = rect.bottom();
    match h {
        HEdge::Left => {
            left = p.x as i64;
        },
        HEdge::Right => {
            right = p.x as i64;
        },
        HEdge::Neither => {},
    }
    match v {
        VEdge::Top => {
            top = p.y as i64;
        },
        VEdge::Bottom => {
            bottom = p.y as i64;
        },
        VEdge::Neither => {},
    }
    let mut horizontal = h;
    let mut vertical = v;
    if left > right {
        core::mem::swap(&mut left, &mut right);
        horizontal = horizontal.flipped();
    }
    if top > bottom {
        core::mem::swap(&mut top, &mut bottom);
        vertical = vertical.flipped();
    }
    let next = Rect::between(left, top, right, bottom);
    let next_handle = match Handle::from_edges(horizontal, vertical) {
        Some(found) => found,
        None => handle,
    };
    (next, next_handle)
}

/// A handle that moves no vertical edge leaves both where they are, and one
/// that moves no horizontal edge those.
pub proof fn law_resize_moves_only_its_edges(
    rect: Rect,
    handle: Handle,
    pointer: RawPoint,
    bounds: Rect,
)
    ensures
        handle.spec_edges().0 is Neither ==> spec_resize(rect, handle, pointer, bounds).0.x == rect.x
            && spec_resize(rect, handle, pointer, bounds).0.width == rect.width,
        handle.spec_edges().1 is Neither ==> spec_resize(rect, handle, pointer, bounds).0.y == rect.y
            && spec_resize(rect, handle, pointer, bounds).0.height == rect.height,
{
}

/// Resizing keeps a selection that lies within the bounds within them, and the
/// edge opposite to a moved one is still an edge.
pub proof fn law_resize_stays_inside(
    rect: Rect,
    handle: Handle,
    pointer: RawPoint,
    bounds: Rect,
)
    requires
        rect.within(bounds),
        bounds.spec_right() <= i32::MAX,
        bounds.spec_bottom() <= i32::MAX,
    ensures
        spec_resize(rect, handle, pointer, bounds).0.within(bounds),
        handle.spec_edges().0 is Left ==> spec_resize(rect, handle, pointer, bounds).0.x
            == rect.spec_right() || spec_resize(rect, handle, pointer, bounds).0.spec_right()
            == rect.spec_right(),
        handle.spec_edges().0 is Right ==> spec_resize(rect, handle, pointer, bounds).0.x == rect.x
            || spec_resize(rect, handle, pointer, bounds).0.spec_right() == rect.x,
        handle.spec_edges().1 is Top ==> spec_resize(rect, handle, pointer, bounds).0.y
            == rect.spec_bottom() || spec_resize(rect, handle, pointer, bounds).0.spec_bottom()
            == rect.spec_bottom(),
        handle.spec_edges().1 is Bottom ==> spec_resize(rect, handle, pointer, bounds).0.y == rect.y
            || spec_resize(rect, handle, pointer, bounds).0.spec_bottom() == rect.y,
{
}

/// The rectangle slid into the bounds, its size kept. One larger than the
/// bounds is pinned to their corner.
pub open spec fn spec_clamp_position(rect: Rect, bounds: Rect) -> Rect {
    Rect {
        x: spec_clamp(
            rect.x as int,
            bounds.x as int,
            spec_max(bounds.spec_right() - rect.width, bounds.x as int),
        ) as i32,
        y: spec_clamp(
            rect.y as int,
            bounds.y as int,
            spec_max(bounds.spec_bottom() - rect.height, bounds.y as int),
        ) as i32,
        ..rect
    }
}

fn slide(v: i32, lo: i32, hi: i64) -> (r: i32)
    requires
        hi <= 0x1000_0000_0000_0000,
    ensures
        r == spec_clamp(v as int, lo as int, spec_max(hi as int, lo as int)),
{
    let top: i64 = if hi > lo as i64 {
        hi
    } else {
        lo as i64
    };
    clamp_value(Some(v as i64), Some(lo as i64), Some(top)) as i32
}

pub fn clamp_position(rect: Rect, bounds: Rect) -> (r: Rect)
    ensures
        r == spec_clamp_position(rect, bounds),
{
    Rect {
        x: slide(rect.x, bounds.x, bounds.right() - rect.width as i64),
        y: slide(rect.y, bounds.y, bounds.bottom() - rect.height as i64),
        width: rect.width,
        height: rect.height,
    }
}

/// The part of the rectangle within the bounds.
pub open spec fn spec_clamp_shape(rect: Rect, bounds: Rect) -> Rect {
    spec_between(
        spec_max(rect.x as int, bounds.x as int),
        spec_max(rect.y as int, bounds.y as int),
        spec_min(rect.spec_right(), bounds.spec_right()),
        spec_min(rect.spec_bottom(), bounds.spec_bottom()),
    )
}

pub fn clamp_shape(rect: Rect, bounds: Rect) -> (r: Rect)
    ensures
        r == spec_clamp_shape(rect, bounds),
{
    let left: i64 = if rect.x >= bounds.x {
        rect.x as i64
    } else {
        bounds.x as i64
    };
    let top: i64 = if rect.y >= bounds.y {
        rect.y as i64
    } else {
        bounds.y as i64
    };
    let right: i64 = if rect.right() <= bounds.right() {
        rect.right()
    } else {
        bounds.right()
    };
    let bottom: i64 = if rect.bottom() <= bounds.bottom() {
        rect.bottom()
    } else {
        bounds.bottom()
    };
    Rect::between(left, top, right, bottom)
}

/// A value within `distance` of a target becomes the target.
pub open spec fn spec_snap(v: int, target: int, distance: u32) -> int {
    if spec_abs(v - target) <= distance {
        target
    } else {
        v
    }
}

fn snap(v: i64, target: i64, distance: u32) -> (r: i64)
    requires
        -0x1000_0000_0000_0000 <= v <= 0x1000_0000_0000_0000,
        -0x1000_0000_0000_0000 <= target <= 0x1000_0000_0000_0000,
    ensures
        r == spec_snap(v as int, target as int, distance),
{
    if gap(v, target) <= distance as i64 {
        target
    } else {
        v
    }
}

/// Each edge near the bounds' own moved onto it.
pub open spec fn spec_snap_edges(rect: Rect, bounds: Rect, distance: u32) -> Rect {
    spec_between(
        spec_snap(rect.x as int, bounds.x as int, distance),
        spec_snap(rect.y as int, bounds.y as int, distance),
        spec_snap(rect.spec_right(), bounds.spec_right(), distance),
        spec_snap(rect.spec_bottom(), bounds.spec_bottom(), distance),
    )
}

pub fn snap_edges_to_bounds(rect: Rect, bounds: Rect, distance: u32) -> (r: Rect)
    ensures
        r == spec_snap_edges(rect, bounds, distance),
{
    Rect::between(
        snap(rect.x as i64, bounds.x as i64, distance),
        snap(rect.y as i64, bounds.y as i64, distance),
        snap(rect.right(), bounds.right(), distance),
        snap(rect.bottom(), bounds.bottom(), distance),
    )
}

/// One axis of a move: the near edge snaps if it is in range, else the far one.
pub open spec fn spec_snap_axis(v: int, extent: int, lo: int, hi: int, distance: u32) -> int {
    if spec_abs(v - lo) <= distance {
        lo
    } else if spec_abs(v + extent - hi) <= distance {
        spec_coord(hi - extent)
    } else {
        v
    }
}

/// The rectangle moved so that an edge near the bounds' own lies on it, its
/// size kept. Where two opposite edges are near, the left or the top one wins.
pub open spec fn spec_snap_position(rect: Rect, bounds: Rect, distance: u32) -> Rect {
    Rect {
        x: spec_snap_axis(
            rect.x as int,
            rect.width as int,
            bounds.x as int,
            bounds.spec_right(),
            distance,
        ) as i32,
        y: spec_snap_axis(
            rect.y as int,
            rect.height as int,
            bounds.y as int,
            bounds.spec_bottom(),
            distance,
        ) as i32,
        ..rect
    }
}

fn snap_axis(v: i32, extent: u32, lo: i32, hi: i64, distance: u32) -> (r: i32)
    requires
        -0x1_0000_0000_0000 <= hi <= 0x1_0000_0000_0000,
    ensures
        r == spec_snap_axis(v as int, extent as int, lo as int, hi as int, distance),
{
    if gap(v as i64, lo as i64) <= distance as i64 {
        lo
    } else if gap(v as i64 + extent as i64, hi) <= distance as i64 {
        coord(hi - extent as i64)
    } else {
        v
    }
}

pub fn snap_position_to_edges(rect: Rect, bounds: Rect, distance: u32) -> (r: Rect)
    ensures
        r == spec_snap_position(rect, bounds, distance),
{
    Rect {
        x: snap_axis(rect.x, rect.width, bounds.x, bounds.right(), distance),
        y: snap_axis(rect.y, rect.height, bounds.y, bounds.bottom(), distance),
        width: rect.width,
        height: rect.height,
    }
}

/// Left and top win: a near edge in range comes to lie on the bounds' own,
/// wherever the far edge is, and the size is kept.
pub proof fn law_near_edges_win(rect: Rect, bounds: Rect, distance: u32)
    ensures
        spec_abs(rect.x - bounds.x) <= distance ==> spec_snap_position(rect, bounds, distance).x
            == bounds.x,
        spec_abs(rect.y - bounds.y) <= distance ==> spec_snap_position(rect, bounds, distance).y
            == bounds.y,
        spec_snap_position(rect, bounds, distance).width == rect.width,
        spec_snap_position(rect, bounds, distance).height == rect.height,
{
}

/// The pixel boundary nearest to `v`.
pub open spec fn spec_on_pixel(v: int) -> int {
    256 * spec_round_px(v)
}

/// Each edge on the nearest pixel boundary.
pub open spec fn spec_snap_to_pixels(rect: Rect) -> Rect {
    spec_between(
        spec_on_pixel(rect.x as int),
        spec_on_pixel(rect.y as int),
        spec_on_pixel(rect.spec_right()),
        spec_on_pixel(rect.spec_bottom()),
    )
}

pub fn snap_to_pixels(rect: Rect) -> (r: Rect)
    ensures
        r == spec_snap_to_pixels(rect),
{
    Rect::between(
        256 * round_px(rect.x as i64),
        256 * round_px(rect.y as i64),
        256 * round_px(rect.right()),
        256 * round_px(rect.bottom()),
    )
}

/// Whether every edge of a rectangle has a pixel boundary near it that
/// coordinates can address.
pub open spec fn roundable(rect: Rect) -> bool {
    &&& i32::MIN <= spec_on_pixel(rect.x as int)
    &&& spec_on_pixel(rect.spec_right()) <= i32::MAX
    &&& i32::MIN <= spec_on_pixel(rect.y as int)
    &&& spec_on_pixel(rect.spec_bottom()) <= i32::MAX
}

proof fn lemma_on_pixel(u: int, v: int)
    requires
        u <= v,
    ensures
        spec_on_pixel(u) <= spec_on_pixel(v),
        spec_on_pixel(u) % 256 == 0,
        spec_on_pixel(spec_on_pixel(u)) == spec_on_pixel(u),
{
    lemma_round_px_grows(u, v);
    let k = spec_round_px(u);
    assert((256 * k) % 256 == 0);
    assert(spec_round_px(256 * k) == k) by {
        if k >= 0 {
            assert((256 * k + 128) / 256 == k);
        } else {
            assert((128 - 256 * k) / 256 == -k);
        }
    }
}

proof fn lemma_round_px_grows(u: int, v: int)
    requires
        u <= v,
    ensures
        spec_round_px(u) <= spec_round_px(v),
{
    if u >= 0 {
        assert((u + 128) / 256 <= (v + 128) / 256);
    } else if v < 0 {
        assert((128 - v) / 256 <= (128 - u) / 256);
    }
}

/// Two selections side by side still are once they are on the pixel grid: no
/// seam opens between them and neither reaches over the other.
pub proof fn law_snapped_neighbours_tile(a: Rect, b: Rect)
    requires
        roundable(a),
        roundable(b),
    ensures
        a.spec_right() == b.x ==> spec_snap_to_pixels(a).spec_right() == spec_snap_to_pixels(b).x,
        a.spec_bottom() == b.y ==> spec_snap_to_pixels(a).spec_bottom() == spec_snap_to_pixels(
            b,
        ).y,
{
    lemma_on_pixel(a.x as int, a.spec_right());
    lemma_on_pixel(a.y as int, a.spec_bottom());
    lemma_on_pixel(b.x as int, b.spec_right());
    lemma_on_pixel(b.y as int, b.spec_bottom());
}

/// A rectangle put on the pixel grid lies on it, and putting it there again
/// changes nothing.
pub proof fn law_snapping_twice_is_snapping_once(rect: Rect)
    requires
        roundable(rect),
    ensures
        spec_snap_to_pixels(rect).on_grid(),
        spec_snap_to_pixels(spec_snap_to_pixels(rect)) == spec_snap_to_pixels(rect),
{
    lemma_on_pixel(rect.x as int, rect.spec_right());
    lemma_on_pixel(rect.y as int, rect.spec_bottom());
    lemma_on_pixel(rect.spec_right(), rect.spec_right());
    lemma_on_pixel(rect.spec_bottom(), rect.spec_bottom());
    let once = spec_snap_to_pixels(rect);
    assert(once.spec_right() == spec_on_pixel(rect.spec_right()));
    assert(once.spec_bottom() == spec_on_pixel(rect.spec_bottom()));
}

/// A drawn or resized rectangle as it comes to rest: snapped to the bounds'
/// edges, put on the pixel grid, cut to the bounds.
pub open spec fn spec_settle_shape(rect: Rect, bounds: Rect) -> Rect {
    spec_clamp_shape(
        spec_snap_to_pixels(spec_snap_edges(rect, bounds, EDGE_SNAP_DISTANCE)),
        bounds,
    )
}

pub fn settle_shape(rect: Rect, bounds: Rect) -> (r: Rect)
    ensures
        r == spec_settle_shape(rect, bounds),
{
    clamp_shape(snap_to_pixels(snap_edges_to_bounds(rect, bounds, EDGE_SNAP_DISTANCE)), bounds)
}

/// A moved rectangle as it comes to rest: snapped to the bounds' edges, put on
/// the pixel grid, slid into the bounds, its size kept throughout.
pub open spec fn spec_settle_position(rect: Rect, bounds: Rect) -> Rect {
    let snapped = spec_snap_position(rect, bounds, EDGE_SNAP_DISTANCE);
    spec_clamp_position(
        Rect {
            x: spec_coord(spec_on_pixel(snapped.x as int)) as i32,
            y: spec_coord(spec_on_pixel(snapped.y as int)) as i32,
            ..snapped
        },
        bounds,
    )
}

pub fn settle_position(rect: Rect, bounds: Rect) -> (r: Rect)
    ensures
        r == spec_settle_position(rect, bounds),
{
    let snapped = snap_position_to_edges(rect, bounds, EDGE_SNAP_DISTANCE);
    let rounded = Rect {
        x: coord(256 * round_px(snapped.x as i64)),
        y: coord(256 * round_px(snapped.y as i64)),
        width: snapped.width,
        height: snapped.height,
    };
    clamp_position(rounded, bounds)
}

/// Whether the bounds are those of an output: at the origin, of whole pixels,
/// with every coordinate in range.
pub open spec fn output_bounds(bounds: Rect) -> bool {
    &&& bounds.x == 0
    &&& bounds.y == 0
    &&& bounds.on_grid()
    &&& bounds.spec_right() <= i32::MAX
    &&& bounds.spec_bottom() <= i32::MAX
}

/// A drawn or resized rectangle comes to rest within the output and on its
/// pixel grid, wherever it began to the left of and above the output's far
/// corner.
pub proof fn law_settled_shape_lies_inside(rect: Rect, bounds: Rect)
    requires
        output_bounds(bounds),
        rect.x <= bounds.spec_right(),
        rect.y <= bounds.spec_bottom(),
    ensures
        spec_settle_shape(rect, bounds).within(bounds),
        spec_settle_shape(rect, bounds).on_grid(),
{
    let a = spec_snap_edges(rect, bounds, EDGE_SNAP_DISTANCE);
    let p = spec_snap_to_pixels(a);
    assert(a.x <= bounds.spec_right());
    assert(a.y <= bounds.spec_bottom());
    lemma_round_below(a.x as int, bounds.spec_right());
    lemma_round_below(a.y as int, bounds.spec_bottom());
    assert(p.x <= bounds.spec_right());
    assert(p.y <= bounds.spec_bottom());
    lemma_settled_axis(
        a.x as int,
        a.spec_right(),
        bounds.spec_right(),
        p.x as int,
        p.width as int,
    );
    lemma_settled_axis(
        a.y as int,
        a.spec_bottom(),
        bounds.spec_bottom(),
        p.y as int,
        p.height as int,
    );
}

proof fn lemma_round_below(v: int, limit: int)
    requires
        v <= limit,
        limit % 256 == 0,
    ensures
        spec_on_pixel(v) <= limit,
        spec_on_pixel(v) % 256 == 0,
{
}

/// One axis of a rectangle put on the grid and cut to `0..=limit`.
proof fn lemma_settled_axis(left: int, right: int, limit: int, x: int, extent: int)
    requires
        left <= right,
        left <= limit <= i32::MAX,
        0 <= limit,
        limit % 256 == 0,
        i32::MIN <= left,
        right <= 0x2_0000_0000,
        x == spec_coord(spec_on_pixel(left)),
        extent == spec_extent(spec_on_pixel(right) - spec_on_pixel(left)),
    ensures
        ({
            let lo = spec_max(x, 0);
            let hi = spec_min(x + extent, limit);
            &&& 0 <= lo <= limit
            &&& lo % 256 == 0
            &&& spec_extent(hi - lo) % 256 == 0
            &&& lo + spec_extent(hi - lo) <= limit
        }),
{
    assert(x == spec_on_pixel(left));
    assert(extent % 256 == 0 || extent == u32::MAX);
    assert(spec_on_pixel(right) >= spec_on_pixel(left));
}

/// A moved rectangle keeps its size, and comes to rest within the output if it
/// is no larger than it; one that was on the pixel grid stays on it.
pub proof fn law_settled_position_keeps_the_size(rect: Rect, bounds: Rect)
    requires
        output_bounds(bounds),
    ensures
        spec_settle_position(rect, bounds).width == rect.width,
        spec_settle_position(rect, bounds).height == rect.height,
        rect.width <= bounds.width && rect.height <= bounds.height ==> spec_settle_position(
            rect,
            bounds,
        ).within(bounds),
        rect.width <= bounds.width && rect.height <= bounds.height && rect.width as int % 256 == 0
            && rect.height as int % 256 == 0 ==> spec_settle_position(rect, bounds).on_grid(),
{
    let s = spec_snap_position(rect, bounds, EDGE_SNAP_DISTANCE);
    let x = spec_coord(spec_on_pixel(s.x as int));
    let y = spec_coord(spec_on_pixel(s.y as int));
    assert(x % 256 == 0 || x == i32::MAX);
    assert(y % 256 == 0 || y == i32::MAX);
}

/// What the pointer is doing to the selection.
#[derive(Debug, Clone, Copy, PartialEq, Eq, Structural)]
pub enum Drag {
    Idle,
    Creating { anchor: Point },
    Moving { grab: Point, origin: Rect },
    Resizing { handle: Handle },
}

/// What the overlay asks for.
#[derive(Debug, Clone, Copy, PartialEq, Eq, Structural)]
pub enum Action {
    Nothing,
    /// Capture this region of the desktop.
    Confirm(LogicalRect),
    /// Capture this window.
    ConfirmWindow(WindowRef),
    /// Capture nothing.
    Cancel,
}

/// What happens to the overlay.
#[derive(Debug, Clone, Copy, PartialEq, Eq, Structural)]
pub enum Message {
    CursorMoved(RawPoint),
    Pressed,
    Released,
    Confirm,
    Cancel,
    SelectFullOutput,
    SelectWindow,
    /// The toolbar took a press that hit none of its buttons.
    ToolbarPressed,
}

/// Everything about a selection in progress.
pub struct Selecting {
    pub logical: LogicalRect,
    pub scale: u32,
    pub bounds: Rect,
    pub selection: Option<Rect>,
    pub drag: Drag,
    pub cursor: Option<RawPoint>,
    pub focused_window: Option<WindowRef>,
}

/// How far an output of that many pixels reaches, in subpixels.
pub open spec fn spec_reach(pixels: u32) -> int {
    256 * spec_min(pixels as int, MAX_OUTPUT as int)
}

/// A rectangle on an output as a region of the desktop.
pub open spec fn spec_to_logical(rect: Rect, origin: LogicalRect) -> LogicalRect {
    LogicalRect {
        x: spec_coord(origin.x + spec_round_px(rect.x as int)) as i32,
        y: spec_coord(origin.y + spec_round_px(rect.y as int)) as i32,
        width: spec_max(spec_round_px(rect.width as int), 1) as u32,
        height: spec_max(spec_round_px(rect.height as int), 1) as u32,
    }
}

impl Selecting {
    /// The selection lies on the output and its pixel grid, and so does what a
    /// move began with.
    pub open spec fn wf(self) -> bool {
        &&& output_bounds(self.bounds)
        &&& (self.selection matches Some(r) ==> r.within(self.bounds) && r.on_grid())
        &&& (self.drag matches Drag::Creating { anchor } ==> self.bounds.spec_contains(anchor))
        &&& (self.drag matches Drag::Moving { grab, origin } ==> origin.within(self.bounds)
            && origin.on_grid())
    }

    pub open spec fn fresh(
        logical: LogicalRect,
        scale: u32,
        focused_window: Option<WindowRef>,
    ) -> Selecting {
        Selecting {
            logical,
            scale,
            bounds: Rect {
                x: 0,
                y: 0,
                width: spec_reach(logical.width) as u32,
                height: spec_reach(logical.height) as u32,
            },
            selection: None,
            drag: Drag::Idle,
            cursor: None,
            focused_window,
        }
    }

    /// What the pointer looks like at a position on the output.
    pub open spec fn looks_at(self, position: RawPoint) -> PointerShape {
        spec_pointer_shape(
            spec_hit_test(
                self.selection,
                spec_clamp_point(position, self.bounds),
                HANDLE_HIT_RADIUS,
            ),
        )
    }

    /// A press takes a handle, the selection, or begins a new one.
    pub open spec fn pressed(self) -> Selecting {
        match self.cursor {
            None => self,
            Some(cursor) => {
                let p = spec_clamp_point(cursor, self.bounds);
                match (spec_hit_test(self.selection, p, HANDLE_HIT_RADIUS), self.selection) {
                    (HitTarget::Handle(handle), _) => Selecting {
                        drag: Drag::Resizing { handle },
                        ..self
                    },
                    (HitTarget::Inside, Some(origin)) => Selecting {
                        drag: Drag::Moving { grab: p, origin },
                        ..self
                    },
                    (HitTarget::Inside, None) => self,
                    (HitTarget::Outside, _) => Selecting {
                        drag: Drag::Creating { anchor: p },
                        selection: None,
                        ..self
                    },
                }
            },
        }
    }

    /// The drag follows the pointer.
    pub open spec fn dragged(self, position: RawPoint) -> Selecting {
        let p = spec_clamp_point(position, self.bounds);
        match self.drag {
            Drag::Idle => self,
            Drag::Creating { anchor } => Selecting {
                selection: Some(spec_settle_shape(spec_from_corners(anchor, p), self.bounds)),
                ..self
            },
            Drag::Moving { grab, origin } => Selecting {
                selection: Some(
                    spec_settle_position(
                        origin.spec_moved(
                            Offset { dx: (p.x - grab.x) as i64, dy: (p.y - grab.y) as i64 },
                        ),
                        self.bounds,
                    ),
                ),
                ..self
            },
            Drag::Resizing { handle } => match self.selection {
                None => self,
                Some(rect) => {
                    let (next, held) = spec_resize(
                        rect,
                        handle,
                        RawPoint { x: Some(p.x), y: Some(p.y) },
                        self.bounds,
                    );
                    Selecting {
                        drag: Drag::Resizing { handle: held },
                        selection: Some(spec_settle_shape(next, self.bounds)),
                        ..self
                    }
                },
            },
        }
    }

    /// A release ends the drag; too small a selection is dropped.
    pub open spec fn let_go(self) -> Selecting {
        Selecting {
            drag: Drag::Idle,
            selection: match self.selection {
                Some(r) => if r.width < MIN_SELECTION || r.height < MIN_SELECTION {
                    None
                } else {
                    Some(r)
                },
                None => None,
            },
            ..self
        }
    }

    /// The state after a message.
    pub open spec fn after(self, message: Message) -> Selecting {
        match message {
            Message::CursorMoved(position) => Selecting {
                cursor: Some(position),
                ..self
            }.dragged(position),
            Message::Pressed => self.pressed(),
            Message::Released => self.let_go(),
            _ => self,
        }
    }

    /// What a message asks for.
    pub open spec fn answer(self, message: Message) -> Action {
        match message {
            Message::Confirm => match self.selection {
                Some(rect) => Action::Confirm(spec_to_logical(rect, self.logical)),
                None => Action::Nothing,
            },
            Message::Cancel => Action::Cancel,
            Message::SelectFullOutput => Action::Confirm(self.logical),
            Message::SelectWindow => match self.focused_window {
                Some(window) => Action::ConfirmWindow(window),
                None => Action::Nothing,
            },
            _ => Action::Nothing,
        }
    }
}

/// The overlay on one output.
#[derive(Debug)]
pub struct Overlay {
    output: OutputInfo,
    bounds: Rect,
    selection: Option<Rect>,
    interaction: Drag,
    cursor: Option<RawPoint>,
    focused_window: Option<WindowRef>,
}

impl View for Overlay {
    type V = Selecting;

    closed spec fn view(&self) -> Selecting {
        Selecting {
            logical: self.output.logical,
            scale: self.output.scale,
            bounds: self.bounds,
            selection: self.selection,
            drag: self.interaction,
            cursor: self.cursor,
            focused_window: self.focused_window,
        }
    }
}

fn reach(pixels: u32) -> (r: i64)
    ensures
        r == spec_reach(pixels),
{
    if pixels < MAX_OUTPUT {
        256 * pixels as i64
    } else {
        256 * MAX_OUTPUT as i64
    }
}

impl Overlay {
    /// An overlay on `output` with nothing selected. An output wider or higher
    /// than coordinates can address is addressed as far as they reach.
    pub fn new(output: OutputInfo, focused_window: Option<WindowRef>) -> (r: Overlay)
        ensures
            r@ == Selecting::fresh(output.logical, output.scale, focused_window),
            r@.wf(),
    {
        let bounds = Rect::new(0, 0, reach(output.logical.width), reach(output.logical.height));
        Overlay {
            output,
            bounds,
            selection: None,
            interaction: Drag::Idle,
            cursor: None,
            focused_window,
        }
    }

    pub fn selection(&self) -> (r: Option<Rect>)
        ensures
            r == self@.selection,
    {
        self.selection
    }

    pub fn bounds(&self) -> (r: Rect)
        ensures
            r == self@.bounds,
    {
        self.bounds
    }

    pub fn has_focused_window(&self) -> (r: bool)
        ensures
            r == (self@.focused_window is Some),
    {
        self.focused_window.is_some()
    }

    /// Takes one message in.
    pub fn update(&mut self, message: Message) -> (r: Action)
        requires
            old(self)@.wf(),
        ensures
            final(self)@ == old(self)@.after(message),
            r == old(self)@.answer(message),
            final(self)@.wf(),
    {
        match message {
            Message::CursorMoved(position) => {
                self.cursor = Some(position);
                self.drag_to(position);
                Action::Nothing
            },
            Message::Pressed => {
                self.press();
                Action::Nothing
            },
            Message::Released => {
                self.release();
                Action::Nothing
            },
            Message::Confirm => match self.selection {
                Some(rect) => Action::Confirm(self.to_logical(rect)),
                None => Action::Nothing,
            },
            Message::Cancel => Action::Cancel,
            Message::SelectFullOutput => Action::Confirm(self.output.logical),
            Message::SelectWindow => match self.focused_window {
                Some(window) => Action::ConfirmWindow(window),
                None => Action::Nothing,
            },
            Message::ToolbarPressed => Action::Nothing,
        }
    }

    fn press(&mut self)
        requires
            old(self)@.wf(),
        ensures
            final(self)@ == old(self)@.pressed(),
            final(self)@.wf(),
    {
        let cursor = match self.cursor {
            None => {
                return ;
            },
            Some(cursor) => cursor,
        };
        let point = clamp_point(cursor, self.bounds);
        match hit_test(self.selection, point, HANDLE_HIT_RADIUS) {
            HitTarget::Handle(handle) => {
                self.interaction = Drag::Resizing { handle };
            },
            HitTarget::Inside => {
                if let Some(origin) = self.selection {
                    self.interaction = Drag::Moving { grab: point, origin };
                }
            },
            HitTarget::Outside => {
                self.interaction = Drag::Creating { anchor: point };
                self.selection = None;
            },
        }
    }

    fn drag_to(&mut self, position: RawPoint)
        requires
            old(self)@.wf(),
        ensures
            final(self)@ == old(self)@.dragged(position),
            final(self)@.wf(),
    {
        proof {
            lemma_dragged_wf(self@, position);
        }
        let point = clamp_point(position, self.bounds);
        match self.interaction {
            Drag::Idle => {},
            Drag::Creating { anchor } => {
                let rect = Rect::from_corners(anchor, point);
                self.selection = Some(settle_shape(rect, self.bounds));
            },
            Drag::Moving { grab, origin } => {
                let moved = origin.translated(point.offset_from(grab));
                self.selection = Some(settle_position(moved, self.bounds));
            },
            Drag::Resizing { handle } => {
                if let Some(rect) = self.selection {
                    let (next, next_handle) = resize(
                        rect,
                        handle,
                        RawPoint::at(point),
                        self.bounds,
                    );
                    self.interaction = Drag::Resizing { handle: next_handle };
                    self.selection = Some(settle_shape(next, self.bounds));
                }
            },
        }
    }

    fn release(&mut self)
        requires
            old(self)@.wf(),
        ensures
            final(self)@ == old(self)@.let_go(),
            final(self)@.wf(),
    {
        self.interaction = Drag::Idle;
        if let Some(rect) = self.selection {
            if rect.width < MIN_SELECTION || rect.height < MIN_SELECTION {
                self.selection = None;
            }
        }
    }

    /// A rectangle on the output as a region of the desktop.
    pub fn to_logical(&self, rect: Rect) -> (r: LogicalRect)
        ensures
            r == spec_to_logical(rect, self@.logical),
    {
        let w: i64 = round_px(rect.width as i64);
        let h: i64 = round_px(rect.height as i64);
        LogicalRect {
            x: coord(self.output.logical.x as i64 + round_px(rect.x as i64)),
            y: coord(self.output.logical.y as i64 + round_px(rect.y as i64)),
            width: if w < 1 {
                1
            } else {
                w as u32
            },
            height: if h < 1 {
                1
            } else {
                h as u32
            },
        }
    }

    /// The size of the image that a selection gives: in the output's own
    /// pixels, or in logical ones where the output's scale makes no sense.
    pub fn readout_size(&self, rect: Rect) -> (r: (u32, u32))
        ensures
            r == spec_readout_size(rect, self@),
    {
        let logical = self.to_logical(rect);
        match pixel_size(logical, &self.output) {
            Some(size) => size,
            None => (logical.width, logical.height),
        }
    }

    /// What the size readout says.
    pub fn readout_text(&self, rect: Rect) -> (r: String)
        ensures
            r@ == spec_readout_text(rect, self@),
    {
        let (width, height) = self.readout_size(rect);
        let mut out: String = decimal(width as u64);
        out.append(" × ");
        out.append(decimal(height as u64).as_str());
        out
    }

    /// Where the size readout goes: above the selection, or inside its top
    /// where there is no room above, and always on the output.
    pub fn readout_place(&self, rect: Rect, gap: u32, height: u32) -> (r: (i64, i64))
        ensures
            (r.0 as int, r.1 as int) == spec_readout_place(rect, self@.bounds, gap, height),
    {
        let above: i64 = rect.y as i64 - gap as i64 - height as i64;
        let top: i64 = if above >= self.bounds.y as i64 {
            above
        } else {
            rect.y as i64 + gap as i64
        };
        let far: i64 = self.bounds.right() - READOUT_WIDTH as i64;
        let limit: i64 = if far > self.bounds.x as i64 {
            far
        } else {
            self.bounds.x as i64
        };
        (
            clamp_value(Some(rect.x as i64), Some(self.bounds.x as i64), Some(limit)),
            clamp_value(Some(top), Some(self.bounds.y as i64), Some(self.bounds.bottom())),
        )
    }

    /// What the pointer looks like at a position on the output.
    pub fn pointer_shape_at(&self, position: RawPoint) -> (r: PointerShape)
        ensures
            r == self@.looks_at(position),
    {
        pointer_shape(
            hit_test(self.selection, clamp_point(position, self.bounds), HANDLE_HIT_RADIUS),
        )
    }
}

pub open spec fn spec_readout_size(rect: Rect, s: Selecting) -> (u32, u32) {
    let logical = spec_to_logical(rect, s.logical);
    match spec_pixel_size(logical, s.logical, s.scale) {
        Some(size) => size,
        None => (logical.width, logical.height),
    }
}

/// What the size readout says: the width and the height, in decimal.
pub open spec fn spec_readout_text(rect: Rect, s: Selecting) -> Seq<char> {
    decimal_text(spec_readout_size(rect, s).0 as nat) + " × "@ + decimal_text(
        spec_readout_size(rect, s).1 as nat,
    )
}

pub open spec fn spec_readout_place(rect: Rect, bounds: Rect, gap: u32, height: u32) -> (int, int) {
    let above = rect.y - gap - height;
    let top = if above >= bounds.y {
        above
    } else {
        rect.y + gap
    };
    (
        spec_clamp(
            rect.x as int,
            bounds.x as int,
            spec_max(bounds.spec_right() - READOUT_WIDTH, bounds.x as int),
        ),
        spec_clamp(top, bounds.y as int, bounds.spec_bottom()),
    )
}

/// One of the toolbar's buttons, and what pressing it does; nothing while the
/// button is disabled.
#[derive(Debug, Clone, Copy, PartialEq, Eq, Structural)]
pub struct ToolbarButton {
    pub name: ToolbarName,
    pub message: Option<Message>,
}

#[derive(Debug, Clone, Copy, PartialEq, Eq, Structural)]
pub enum ToolbarName {
    Capture,
    Cancel,
    FullScreen,
    Window,
}

impl ToolbarName {
    pub open spec fn spec_label(self) -> Seq<char> {
        match self {
            ToolbarName::Capture => "Capture"@,
            ToolbarName::Cancel => "Cancel"@,
            ToolbarName::FullScreen => "Full screen"@,
            ToolbarName::Window => "Window"@,
        }
    }

    pub fn label(self) -> (r: &'static str)
        ensures
            r@ == self.spec_label(),
    {
        match self {
            ToolbarName::Capture => "Capture",
            ToolbarName::Cancel => "Cancel",
            ToolbarName::FullScreen => "Full screen",
            ToolbarName::Window => "Window",
        }
    }
}

/// The toolbar: Capture needs a selection, Window a focused window.
pub open spec fn spec_toolbar(has_selection: bool, has_focused_window: bool) -> Seq<ToolbarButton> {
    seq![
        ToolbarButton {
            name: ToolbarName::Capture,
            message: if has_selection {
                Some(Message::Confirm)
            } else {
                None
            },
        },
        ToolbarButton { name: ToolbarName::Cancel, message: Some(Message::Cancel) },
        ToolbarButton { name: ToolbarName::FullScreen, message: Some(Message::SelectFullOutput) },
        ToolbarButton {
            name: ToolbarName::Window,
            message: if has_focused_window {
                Some(Message::SelectWindow)
            } else {
                None
            },
        },
    ]
}

/// The toolbar: Capture needs a selection, Window a focused window.
pub fn toolbar(has_selection: bool, has_focused_window: bool) -> (r: [ToolbarButton; 4])
    ensures
        r@ == spec_toolbar(has_selection, has_focused_window),
{
    let r = [
        ToolbarButton {
            name: ToolbarName::Capture,
            message: if has_selection {
                Some(Message::Confirm)
            } else {
                None
            },
        },
        ToolbarButton { name: ToolbarName::Cancel, message: Some(Message::Cancel) },
        ToolbarButton { name: ToolbarName::FullScreen, message: Some(Message::SelectFullOutput) },
        ToolbarButton {
            name: ToolbarName::Window,
            message: if has_focused_window {
                Some(Message::SelectWindow)
            } else {
                None
            },
        },
    ];
    assert(r@ =~= spec_toolbar(has_selection, has_focused_window));
    r
}

/// An input event, as far as the overlay tells them apart.
#[derive(Debug, Clone, Copy, PartialEq, Eq, Structural)]
pub enum InputEvent {
    EscapePressed,
    EnterPressed,
    CursorMoved(RawPoint),
    LeftPressed,
    LeftReleased,
    Other,
}

/// What an input event means to the overlay. `captured` says that a widget on
/// it has taken the event; only a press is then dropped.
pub open spec fn spec_message_from_event(event: InputEvent, captured: bool) -> Option<Message> {
    match event {
        InputEvent::EscapePressed => Some(Message::Cancel),
        InputEvent::EnterPressed => Some(Message::Confirm),
        InputEvent::CursorMoved(position) => Some(Message::CursorMoved(position)),
        InputEvent::LeftPressed => if captured {
            None
        } else {
            Some(Message::Pressed)
        },
        InputEvent::LeftReleased => Some(Message::Released),
        InputEvent::Other => None,
    }
}

pub fn message_from_event(event: &InputEvent, captured: bool) -> (r: Option<Message>)
    ensures
        r == spec_message_from_event(*event, captured),
{
    match *event {
        InputEvent::EscapePressed => Some(Message::Cancel),
        InputEvent::EnterPressed => Some(Message::Confirm),
        InputEvent::CursorMoved(position) => Some(Message::CursorMoved(position)),
        InputEvent::LeftPressed => if captured {
            None
        } else {
            Some(Message::Pressed)
        },
        InputEvent::LeftReleased => Some(Message::Released),
        InputEvent::Other => None,
    }
}

/// The four bands around a selection that are dimmed: above, below, left, right.
pub open spec fn spec_scrim(rect: Rect, bounds: Rect) -> Seq<Rect> {
    seq![
        spec_between(0, 0, bounds.width as int, rect.y as int),
        spec_between(0, rect.spec_bottom(), bounds.width as int, bounds.height as int),
        spec_between(0, rect.y as int, rect.x as int, rect.spec_bottom()),
        spec_between(rect.spec_right(), rect.y as int, bounds.width as int, rect.spec_bottom()),
    ]
}

pub fn scrim_bands(rect: Rect, bounds: Rect) -> (r: [Rect; 4])
    ensures
        r@ == spec_scrim(rect, bounds),
{
    let w: i64 = bounds.width as i64;
    let h: i64 = bounds.height as i64;
    let left: i64 = rect.x as i64;
    let top: i64 = rect.y as i64;
    let right: i64 = rect.right();
    let bottom: i64 = rect.bottom();
    let r = [
        Rect::between(0, 0, w, top),
        Rect::between(0, bottom, w, h),
        Rect::between(0, top, left, bottom),
        Rect::between(right, top, w, bottom),
    ];
    assert(r@ =~= spec_scrim(rect, bounds));
    r
}

/// Whether the point lies in the rectangle, its far edges left out.
pub open spec fn covers_point(r: Rect, x: int, y: int) -> bool {
    r.x <= x < r.spec_right() && r.y <= y < r.spec_bottom()
}

/// The selection and the four dimmed bands tile the output: each point of it
/// lies in exactly one of them.
pub proof fn law_scrim_tiles_the_output(rect: Rect, bounds: Rect, x: int, y: int)
    requires
        output_bounds(bounds),
        rect.within(bounds),
        0 <= x < bounds.spec_right(),
        0 <= y < bounds.spec_bottom(),
    ensures
        covers_point(rect, x, y) <==> forall|k: int|
            0 <= k < 4 ==> !covers_point(#[trigger] spec_scrim(rect, bounds)[k], x, y),
        forall|j: int, k: int|
            0 <= j < k < 4 ==> !(covers_point(#[trigger] spec_scrim(rect, bounds)[j], x, y)
                && covers_point(#[trigger] spec_scrim(rect, bounds)[k], x, y)),
{
    let b = spec_scrim(rect, bounds);
    assert(b[0] == spec_between(0, 0, bounds.width as int, rect.y as int));
    assert(b[1] == spec_between(
        0,
        rect.spec_bottom(),
        bounds.width as int,
        bounds.height as int,
    ));
    assert(b[2] == spec_between(0, rect.y as int, rect.x as int, rect.spec_bottom()));
    assert(b[3] == spec_between(
        rect.spec_right(),
        rect.y as int,
        bounds.width as int,
        rect.spec_bottom(),
    ));
}

/// A drag that begins outside any selection gives the same rectangle whichever
/// of its two corners comes first.
pub proof fn law_drag_direction_is_irrelevant(a: Point, b: Point, bounds: Rect)
    ensures
        spec_settle_shape(spec_from_corners(a, b), bounds) == spec_settle_shape(
            spec_from_corners(b, a),
            bounds,
        ),
{
}

/// After a release there is no selection under the least size.
pub proof fn law_released_selection_is_large_enough(s: Selecting)
    ensures
        s.after(Message::Released).drag is Idle,
        s.after(Message::Released).selection matches Some(r) ==> r.width >= MIN_SELECTION
            && r.height >= MIN_SELECTION && s.selection == Some(r),
{
}

/// Only the pointer changes the selection: confirming, cancelling and the
/// toolbar leave everything as it is.
pub proof fn law_only_the_pointer_changes_the_selection(s: Selecting, message: Message)
    requires
        !(message is CursorMoved || message is Pressed || message is Released),
    ensures
        s.after(message) == s,
{
}

/// The drag following the pointer keeps the selection on the output.
proof fn lemma_dragged_wf(s: Selecting, position: RawPoint)
    requires
        s.wf(),
    ensures
        s.dragged(position).wf(),
{
    let p = spec_clamp_point(position, s.bounds);
    match s.drag {
        Drag::Idle => {},
        Drag::Creating { anchor } => {
            law_settled_shape_lies_inside(spec_from_corners(anchor, p), s.bounds);
        },
        Drag::Moving { grab, origin } => {
            let d = Offset { dx: (p.x - grab.x) as i64, dy: (p.y - grab.y) as i64 };
            law_settled_position_keeps_the_size(origin.spec_moved(d), s.bounds);
        },
        Drag::Resizing { handle } => {
            if let Some(rect) = s.selection {
                let raw = RawPoint { x: Some(p.x), y: Some(p.y) };
                law_resize_stays_inside(rect, handle, raw, s.bounds);
                law_settled_shape_lies_inside(
                    spec_resize(rect, handle, raw, s.bounds).0,
                    s.bounds,
                );
            }
        },
    }
}

/// What is confirmed is the selection: as far from the output's corner on the
/// desktop as it is on the output, and as large.
pub proof fn law_confirm_is_the_selection(s: Selecting)
    requires
        s.wf(),
        s.selection is Some,
        s.logical.x + s.bounds.width as int / 256 <= i32::MAX,
        s.logical.y + s.bounds.height as int / 256 <= i32::MAX,
        (s.selection->0).width >= MIN_SELECTION,
        (s.selection->0).height >= MIN_SELECTION,
    ensures
        s.answer(Message::Confirm) matches Action::Confirm(l) && {
            let r = s.selection->0;
            &&& 256 * (l.x - s.logical.x) == r.x
            &&& 256 * (l.y - s.logical.y) == r.y
            &&& 256 * l.width == r.width
            &&& 256 * l.height == r.height
        },
{
    let r = s.selection->0;
    lemma_whole_pixels(r.x as int);
    lemma_whole_pixels(r.y as int);
    lemma_whole_pixels(r.width as int);
    lemma_whole_pixels(r.height as int);
    assert(r.spec_right() <= s.bounds.spec_right() && r.spec_bottom() <= s.bounds.spec_bottom());
    assert(spec_to_logical(r, s.logical).x == s.logical.x + spec_round_px(r.x as int));
    assert(spec_to_logical(r, s.logical).y == s.logical.y + spec_round_px(r.y as int));
}

proof fn lemma_whole_pixels(v: int)
    requires
        v >= 0,
        v % 256 == 0,
    ensures
        256 * spec_round_px(v) == v,
        spec_round_px(v) == v / 256,
{
}

} // verus!
