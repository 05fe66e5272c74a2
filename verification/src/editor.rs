//! The annotation editor's model: a canvas, the annotations on it, the gesture
//! in progress, and undo.
//!
//! Each operation is a function from one [`Sheet`] to the next; the methods of
//! [`EditorModel`] carry those functions out.
use std::sync::Arc;

use vstd::prelude::*;

use crate::blur::{blur_region, blurred};
use crate::compose::{Annotation, AnnotationId, Mark, marks};
use crate::pixmap::{Frame, Picture, crop_height, crop_width, cropped};
use crate::redact::{pixelate_region, pixelated};
use crate::shapes::{
    AnnotationColor, Figure, LineTool, RedactKind, SELECT_TOLERANCE, Shape, StrokeWidth, Tool,
    distance_sq, line_tool_shape, rect_from_corners, shape_bounds, shape_hit, spec_bounds,
    spec_dist_sq, spec_from_corners, spec_hit, spec_line_shape, spec_translate, translate_shape,
};
use crate::units::{
    Offset, PixelRect, Point, RawPoint, Rect, round_px, spec_clamp, spec_max, spec_min, spec_round_px,
};

verus! {

/// The shortest drag that draws a shape, squared, in subpixels (3 px).
pub const MIN_SHAPE_SIZE_SQ: u128 = 589824;

/// The least width and height of a crop or a redaction, in subpixels (4 px).
pub const MIN_CROP_SIZE: u32 = 1024;

/// The least distance between two freehand points, squared, in subpixels (3 px).
pub const MIN_FREEHAND_SPACING_SQ: u128 = 589824;

/// How far a blur reaches, in pixels.
pub const BLUR_RADIUS_PX: u32 = 14;

/// The side of a mosaic tile, in pixels.
pub const PIXELATE_BLOCK_PX: u32 = 18;

/// The text size before any is chosen, in subpixels (20 px).
pub const INITIAL_TEXT_SIZE: u32 = 5120;

/// The least text size, in subpixels (1 px).
pub const MIN_TEXT_SIZE: u32 = 256;

/// The last subpixel of a canvas side of `extent` pixels.
pub open spec fn far_side(extent: u32) -> int {
    spec_min(256 * extent, i32::MAX as int)
}

/// One coordinate brought onto the canvas; zero where there is none.
pub open spec fn spec_onto_canvas(v: Option<i32>, extent: u32) -> int {
    match v {
        None => 0,
        Some(c) => spec_clamp(c as int, 0, far_side(extent)),
    }
}

pub open spec fn spec_clamp_to_canvas(raw: RawPoint, width: u32, height: u32) -> Point {
    Point {
        x: spec_onto_canvas(raw.x, width) as i32,
        y: spec_onto_canvas(raw.y, height) as i32,
    }
}

fn onto_canvas(v: Option<i32>, extent: u32) -> (r: i32)
    ensures
        r == spec_onto_canvas(v, extent),
{
    match v {
        None => 0,
        Some(c) => {
            let far: i64 = 256 * extent as i64;
            if c < 0 {
                0
            } else if (c as i64) > far {
                far as i32
            } else {
                c
            }
        },
    }
}

/// Brings a pointer position onto the canvas.
pub fn clamp_to_canvas(raw: RawPoint, width: u32, height: u32) -> (p: Point)
    ensures
        p == spec_clamp_to_canvas(raw, width, height),
        0 <= p.x <= far_side(width),
        0 <= p.y <= far_side(height),
{
    Point { x: onto_canvas(raw.x, width), y: onto_canvas(raw.y, height) }
}

/// One side of a redaction on a canvas of `extent` pixels, from `lo` to `hi` in
/// subpixels: where it begins and how long it is, both rounded, at least one
/// pixel and never past the canvas.
pub open spec fn spec_redact_span(lo: int, hi: int, extent: u32) -> (int, int) {
    let at = spec_min(spec_round_px(lo), extent - 1);
    (at, spec_min(spec_max(spec_round_px(hi - lo), 1), extent - at))
}

/// The pixels that a redaction of `rect` works on: `rect` cut to the canvas and
/// rounded to its pixels, at least one each way. Nothing where it misses the
/// canvas.
pub open spec fn spec_redact_rect(rect: Rect, width: u32, height: u32) -> Option<PixelRect> {
    let x0 = spec_clamp(rect.x as int, 0, 256 * width);
    let y0 = spec_clamp(rect.y as int, 0, 256 * height);
    let x1 = spec_clamp(rect.spec_right(), 0, 256 * width);
    let y1 = spec_clamp(rect.spec_bottom(), 0, 256 * height);
    if x1 <= x0 || y1 <= y0 {
        None
    } else {
        Some(
            PixelRect {
                x: spec_redact_span(x0, x1, width).0 as u32,
                y: spec_redact_span(y0, y1, height).0 as u32,
                width: spec_redact_span(x0, x1, width).1 as u32,
                height: spec_redact_span(y0, y1, height).1 as u32,
            },
        )
    }
}

/// A redaction lies on the canvas: there is one exactly where the rectangle and
/// the canvas have some area in common, it has at least a pixel, and it ends
/// where the canvas does or before.
pub proof fn law_redaction_lies_on_the_canvas(rect: Rect, width: u32, height: u32)
    ensures
        spec_redact_rect(rect, width, height) is Some <==> width > 0 && height > 0 && rect.width
            > 0 && rect.height > 0 && rect.x < 256 * width && rect.spec_right() > 0 && rect.y
            < 256 * height && rect.spec_bottom() > 0,
        spec_redact_rect(rect, width, height) matches Some(r) ==> r.width >= 1 && r.height >= 1
            && r.x + r.width <= width && r.y + r.height <= height,
{
}

fn clamp_i64(v: i64, hi: i64) -> (r: i64)
    requires
        0 <= hi,
    ensures
        r == spec_clamp(v as int, 0, hi as int),
{
    if v < 0 {
        0
    } else if v > hi {
        hi
    } else {
        v
    }
}

fn redact_span(lo: i64, hi: i64, extent: u32) -> (r: (u32, u32))
    requires
        0 <= lo < hi <= 256 * extent,
    ensures
        (r.0 as int, r.1 as int) == spec_redact_span(lo as int, hi as int, extent),
{
    let rounded: i64 = round_px(lo);
    let at: i64 = if rounded < extent as i64 {
        rounded
    } else {
        extent as i64 - 1
    };
    let long: i64 = round_px(hi - lo);
    let room: i64 = extent as i64 - at;
    let length: i64 = if long < 1 {
        1
    } else if long > room {
        room
    } else {
        long
    };
    (at as u32, length as u32)
}

fn at_least_one(v: i64) -> (r: u32)
    requires
        v <= u32::MAX,
    ensures
        r == spec_max(v as int, 1),
{
    if v < 1 {
        1
    } else {
        v as u32
    }
}

/// The pixels that a redaction of `rect` works on.
pub fn redact_pixel_rect(rect: Rect, width: u32, height: u32) -> (r: Option<PixelRect>)
    ensures
        r == spec_redact_rect(rect, width, height),
{
    let far_x: i64 = 256 * width as i64;
    let far_y: i64 = 256 * height as i64;
    let x0: i64 = clamp_i64(rect.x as i64, far_x);
    let y0: i64 = clamp_i64(rect.y as i64, far_y);
    let x1: i64 = clamp_i64(rect.right(), far_x);
    let y1: i64 = clamp_i64(rect.bottom(), far_y);
    if x1 <= x0 || y1 <= y0 {
        return None;
    }
    let (x, across): (u32, u32) = redact_span(x0, x1, width);
    let (y, down): (u32, u32) = redact_span(y0, y1, height);
    Some(PixelRect { x, y, width: across, height: down })
}

/// The pixels that a crop to `rect` keeps.
pub open spec fn spec_crop_rect(rect: Rect) -> PixelRect {
    PixelRect {
        x: spec_max(spec_round_px(rect.x as int), 0) as u32,
        y: spec_max(spec_round_px(rect.y as int), 0) as u32,
        width: spec_max(spec_round_px(rect.width as int), 1) as u32,
        height: spec_max(spec_round_px(rect.height as int), 1) as u32,
    }
}

fn crop_pixel_rect(rect: Rect) -> (r: PixelRect)
    ensures
        r == spec_crop_rect(rect),
{
    let x: i64 = round_px(rect.x as i64);
    let y: i64 = round_px(rect.y as i64);
    PixelRect {
        x: if x < 0 {
            0
        } else {
            x as u32
        },
        y: if y < 0 {
            0
        } else {
            y as u32
        },
        width: at_least_one(round_px(rect.width as i64)),
        height: at_least_one(round_px(rect.height as i64)),
    }
}

/// Whether any of `r` lies on a canvas of that many pixels.
pub open spec fn on_canvas(r: Rect, width: u32, height: u32) -> bool {
    r.x < 256 * width && r.spec_right() > 0 && r.y < 256 * height && r.spec_bottom() > 0
}

fn touches_canvas(r: Rect, width: u32, height: u32) -> (b: bool)
    ensures
        b == on_canvas(r, width, height),
{
    (r.x as i64) < 256 * width as i64 && r.right() > 0 && (r.y as i64) < 256 * height as i64
        && r.bottom() > 0
}

/// The gesture in progress.
#[derive(Debug)]
pub enum Interaction {
    Idle,
    DrawingLine { tool: LineTool, anchor: Point, current: Point },
    DrawingFreehand { points: Vec<Point> },
    Moving { id: AnnotationId, grab: Point, origin: Shape, preview: Shape },
    Cropping { anchor: Point, current: Point },
    Redacting { kind: RedactKind, anchor: Point, current: Point },
}

/// What a gesture is, apart from how it is held.
pub enum Gesture {
    Idle,
    DrawingLine { tool: LineTool, anchor: Point, current: Point },
    DrawingFreehand { points: Seq<Point> },
    Moving { id: AnnotationId, grab: Point, origin: Figure, preview: Figure },
    Cropping { anchor: Point, current: Point },
    Redacting { kind: RedactKind, anchor: Point, current: Point },
}

impl View for Interaction {
    type V = Gesture;

    open spec fn view(&self) -> Gesture {
        match *self {
            Interaction::Idle => Gesture::Idle,
            Interaction::DrawingLine { tool, anchor, current } => Gesture::DrawingLine {
                tool,
                anchor,
                current,
            },
            Interaction::DrawingFreehand { points } => Gesture::DrawingFreehand {
                points: points@,
            },
            Interaction::Moving { id, grab, origin, preview } => Gesture::Moving {
                id,
                grab,
                origin: origin@,
                preview: preview@,
            },
            Interaction::Cropping { anchor, current } => Gesture::Cropping { anchor, current },
            Interaction::Redacting { kind, anchor, current } => Gesture::Redacting {
                kind,
                anchor,
                current,
            },
        }
    }
}

/// What undo brings back.
pub struct Snapshot {
    canvas: Arc<Frame>,
    annotations: Vec<Annotation>,
}

/// A canvas and its annotations at one time.
pub struct Version {
    pub canvas: Picture,
    pub annotations: Seq<Mark>,
}

impl View for Snapshot {
    type V = Version;

    closed spec fn view(&self) -> Version {
        Version { canvas: self.canvas@, annotations: marks(self.annotations@) }
    }
}

/// Everything about an editing session.
pub struct Sheet {
    pub canvas: Picture,
    pub annotations: Seq<Mark>,
    pub next_id: AnnotationId,
    pub next_step: u32,
    pub tool: Tool,
    pub color: AnnotationColor,
    pub width: StrokeWidth,
    pub text_size: u32,
    pub selected: Option<AnnotationId>,
    pub gesture: Gesture,
    pub pending_crop: Option<Rect>,
    pub pointer: Option<Point>,
    pub undo: Seq<Version>,
    pub redo: Seq<Version>,
}

/// Whether one of the marks has this id.
pub open spec fn has_mark(list: Seq<Mark>, id: AnnotationId) -> bool {
    exists|i: int| 0 <= i < list.len() && (#[trigger] list[i]).id == id
}

/// Where the mark with this id stands.
pub open spec fn mark_index(list: Seq<Mark>, id: AnnotationId) -> int {
    choose|i: int| 0 <= i < list.len() && (#[trigger] list[i]).id == id
}

/// The marks with `f` applied to the selected one.
pub open spec fn restyled(
    list: Seq<Mark>,
    selected: Option<AnnotationId>,
    f: spec_fn(Mark) -> Mark,
) -> Seq<Mark> {
    match selected {
        None => list,
        Some(id) => list.map_values(
            |m: Mark|
                if m.id == id {
                    f(m)
                } else {
                    m
                },
        ),
    }
}

/// The id of the topmost mark that a press at `p` picks.
pub open spec fn topmost(list: Seq<Mark>, p: Point) -> Option<AnnotationId>
    decreases list.len(),
{
    if list.len() == 0 {
        None
    } else if spec_hit(list.last().shape, p, SELECT_TOLERANCE as int) {
        Some(list.last().id)
    } else {
        topmost(list.drop_last(), p)
    }
}

/// A mark moved by `d`.
pub open spec fn moved_mark(m: Mark, d: Offset) -> Mark {
    Mark { shape: spec_translate(m.shape, d), ..m }
}

/// The marks moved by `d`, without those that no longer touch the canvas.
pub open spec fn cropped_marks(list: Seq<Mark>, d: Offset, width: u32, height: u32) -> Seq<Mark>
    decreases list.len(),
{
    if list.len() == 0 {
        Seq::empty()
    } else {
        let rest = cropped_marks(list.drop_last(), d, width, height);
        let m = moved_mark(list.last(), d);
        if on_canvas(spec_bounds(m.shape), width, height) {
            rest.push(m)
        } else {
            rest
        }
    }
}

/// Ids strictly increase from mark to mark and stay below `next`.
pub open spec fn ids_ascend(list: Seq<Mark>, next: AnnotationId) -> bool {
    &&& forall|i: int, j: int| 0 <= i < j < list.len() ==> (#[trigger] list[i]).id < (
    #[trigger] list[j]).id
    &&& forall|i: int| 0 <= i < list.len() ==> (#[trigger] list[i]).id < next
}

/// The redaction of a picture.
pub open spec fn redacted(p: Picture, kind: RedactKind, rect: PixelRect) -> Picture {
    Picture {
        pixels: match kind {
            RedactKind::Blur => blurred(
                p.pixels,
                p.width as int,
                p.height as int,
                rect,
                BLUR_RADIUS_PX as int,
            ),
            RedactKind::Pixelate => pixelated(
                p.pixels,
                p.width as int,
                p.height as int,
                rect,
                PIXELATE_BLOCK_PX as int,
            ),
        },
        ..p
    }
}

impl Sheet {
    /// No id is used twice, now or in any version that undo or redo can bring
    /// back, and what is selected is there.
    pub open spec fn wf(self) -> bool {
        &&& ids_ascend(self.annotations, self.next_id)
        &&& forall|i: int|
            0 <= i < self.undo.len() ==> ids_ascend(
                (#[trigger] self.undo[i]).annotations,
                self.next_id,
            )
        &&& forall|i: int|
            0 <= i < self.redo.len() ==> ids_ascend(
                (#[trigger] self.redo[i]).annotations,
                self.next_id,
            )
        &&& (self.selected matches Some(id) ==> has_mark(self.annotations, id))
    }

    /// Neither counter has come to its end.
    pub open spec fn has_room(self) -> bool {
        self.next_id < u64::MAX && self.next_step < u32::MAX
    }

    /// The counters that a press would raise have not come to their end.
    pub open spec fn room_to_press(self) -> bool {
        match self.tool {
            Tool::Text => self.next_id < u64::MAX,
            Tool::Step => self.has_room(),
            _ => true,
        }
    }

    /// The same for a release.
    pub open spec fn room_to_release(self) -> bool {
        match self.gesture {
            Gesture::DrawingLine { tool, anchor, current } => self.next_id < u64::MAX,
            Gesture::DrawingFreehand { points } => self.next_id < u64::MAX,
            _ => true,
        }
    }

    pub open spec fn version(self) -> Version {
        Version { canvas: self.canvas, annotations: self.annotations }
    }

    /// A fresh session on a canvas.
    pub open spec fn fresh(canvas: Picture) -> Sheet {
        Sheet {
            canvas,
            annotations: Seq::empty(),
            next_id: 0,
            next_step: 1,
            tool: Tool::Select,
            color: AnnotationColor::Terracotta,
            width: StrokeWidth::Medium,
            text_size: INITIAL_TEXT_SIZE,
            selected: None,
            gesture: Gesture::Idle,
            pending_crop: None,
            pointer: None,
            undo: Seq::empty(),
            redo: Seq::empty(),
        }
    }

    /// The present version remembered, and nothing left to redo.
    pub open spec fn remembered(self) -> Sheet {
        Sheet { undo: self.undo.push(self.version()), redo: Seq::empty(), ..self }
    }

    /// A new annotation added in the current style, and selected.
    pub open spec fn committed(self, shape: Figure) -> Sheet {
        Sheet {
            annotations: self.annotations.push(
                Mark {
                    id: self.next_id,
                    shape,
                    color: self.color,
                    stroke_width: self.width.spec_pixels(),
                },
            ),
            next_id: (self.next_id + 1) as u64,
            selected: Some(self.next_id),
            ..self.remembered()
        }
    }

    pub open spec fn with_tool(self, tool: Tool) -> Sheet {
        Sheet {
            pending_crop: if self.tool is Crop && !(tool is Crop) {
                None
            } else {
                self.pending_crop
            },
            selected: if tool is Select {
                self.selected
            } else {
                None
            },
            tool,
            gesture: Gesture::Idle,
            ..self
        }
    }

    pub open spec fn with_color(self, color: AnnotationColor) -> Sheet {
        Sheet {
            color,
            annotations: restyled(self.annotations, self.selected, |m: Mark| Mark { color, ..m }),
            ..self
        }
    }

    pub open spec fn with_width(self, width: StrokeWidth) -> Sheet {
        Sheet {
            width,
            annotations: restyled(
                self.annotations,
                self.selected,
                |m: Mark| Mark { stroke_width: width.spec_pixels(), ..m },
            ),
            ..self
        }
    }

    pub open spec fn with_text_size(self, size: u32) -> Sheet {
        let s = spec_max(size as int, MIN_TEXT_SIZE as int) as u32;
        Sheet {
            text_size: s,
            annotations: restyled(self.annotations, self.selected, |m: Mark| resized(m, s)),
            ..self
        }
    }

    pub open spec fn with_text_content(self, content: Seq<char>) -> Sheet {
        Sheet {
            annotations: restyled(self.annotations, self.selected, |m: Mark| reworded(m, content)),
            ..self
        }
    }

    /// The gesture following the pointer to `p`.
    pub open spec fn followed(self, p: Point) -> Sheet {
        let gesture = match self.gesture {
            Gesture::Idle => Gesture::Idle,
            Gesture::DrawingLine { tool, anchor, current } => Gesture::DrawingLine {
                tool,
                anchor,
                current: p,
            },
            Gesture::DrawingFreehand { points } => Gesture::DrawingFreehand {
                points: if points.len() == 0 || spec_dist_sq(
                    points.last().x as int,
                    points.last().y as int,
                    p.x as int,
                    p.y as int,
                ) >= MIN_FREEHAND_SPACING_SQ {
                    points.push(p)
                } else {
                    points
                },
            },
            Gesture::Moving { id, grab, origin, preview } => Gesture::Moving {
                id,
                grab,
                origin,
                preview: spec_translate(
                    origin,
                    Offset { dx: (p.x - grab.x) as i64, dy: (p.y - grab.y) as i64 },
                ),
            },
            Gesture::Cropping { anchor, current } => Gesture::Cropping { anchor, current: p },
            Gesture::Redacting { kind, anchor, current } => Gesture::Redacting {
                kind,
                anchor,
                current: p,
            },
        };
        Sheet { gesture, ..self }
    }

    pub open spec fn onto(self, raw: RawPoint) -> Point {
        spec_clamp_to_canvas(raw, self.canvas.width, self.canvas.height)
    }

    pub open spec fn pointed(self, raw: RawPoint) -> Sheet {
        Sheet { pointer: Some(self.onto(raw)), ..self }.followed(self.onto(raw))
    }

    /// What a press does, by tool.
    pub open spec fn pressed(self, raw: RawPoint) -> Sheet {
        let p = self.onto(raw);
        let s = Sheet { pointer: Some(p), ..self };
        match self.tool {
            Tool::Select => match topmost(self.annotations, p) {
                Some(id) => {
                    let shape = self.annotations[mark_index(self.annotations, id)].shape;
                    Sheet {
                        selected: Some(id),
                        gesture: Gesture::Moving { id, grab: p, origin: shape, preview: shape },
                        ..s
                    }
                },
                None => Sheet { selected: None, gesture: Gesture::Idle, ..s },
            },
            Tool::Crop => Sheet { gesture: Gesture::Cropping { anchor: p, current: p }, ..s },
            Tool::Arrow => Sheet {
                gesture: Gesture::DrawingLine { tool: LineTool::Arrow, anchor: p, current: p },
                ..s
            },
            Tool::Rectangle => Sheet {
                gesture: Gesture::DrawingLine { tool: LineTool::Rectangle, anchor: p, current: p },
                ..s
            },
            Tool::Ellipse => Sheet {
                gesture: Gesture::DrawingLine { tool: LineTool::Ellipse, anchor: p, current: p },
                ..s
            },
            Tool::Freehand => Sheet {
                gesture: Gesture::DrawingFreehand { points: seq![p] },
                ..s
            },
            Tool::Text => Sheet {
                gesture: Gesture::Idle,
                ..s.committed(
                    Figure::Text { position: p, content: Seq::empty(), size: self.text_size },
                )
            },
            Tool::Step => Sheet {
                gesture: Gesture::Idle,
                next_step: (self.next_step + 1) as u32,
                ..s.committed(Figure::Step { position: p, number: self.next_step })
            },
            Tool::Blur => Sheet {
                gesture: Gesture::Redacting { kind: RedactKind::Blur, anchor: p, current: p },
                ..s
            },
            Tool::Pixelate => Sheet {
                gesture: Gesture::Redacting { kind: RedactKind::Pixelate, anchor: p, current: p },
                ..s
            },
        }
    }

    /// Whether a redaction drag over `rect` changes the canvas.
    pub open spec fn redacts(self, rect: Rect) -> bool {
        &&& rect.width >= MIN_CROP_SIZE
        &&& rect.height >= MIN_CROP_SIZE
        &&& spec_redact_rect(rect, self.canvas.width, self.canvas.height) is Some
    }

    /// The canvas redacted under `rect`.
    pub open spec fn with_redaction(self, kind: RedactKind, rect: Rect) -> Sheet {
        match spec_redact_rect(rect, self.canvas.width, self.canvas.height) {
            None => self,
            Some(pixels) => Sheet {
                canvas: redacted(self.canvas, kind, pixels),
                ..self.remembered()
            },
        }
    }

    /// What a release does to the gesture it ends.
    pub open spec fn finished(self) -> Sheet {
        let s = Sheet { gesture: Gesture::Idle, ..self };
        match self.gesture {
            Gesture::Idle => s,
            Gesture::DrawingLine { tool, anchor, current } => if spec_dist_sq(
                anchor.x as int,
                anchor.y as int,
                current.x as int,
                current.y as int,
            ) >= MIN_SHAPE_SIZE_SQ {
                s.committed(spec_line_shape(tool, anchor, current))
            } else {
                s
            },
            Gesture::DrawingFreehand { points } => if points.len() >= 2 {
                s.committed(Figure::Freehand { points })
            } else {
                s
            },
            Gesture::Moving { id, grab, origin, preview } => if preview != origin {
                Sheet {
                    annotations: restyled(
                        s.annotations,
                        Some(id),
                        |m: Mark| Mark { shape: preview, ..m },
                    ),
                    ..s.remembered()
                }
            } else {
                s
            },
            Gesture::Cropping { anchor, current } => {
                let rect = spec_from_corners(anchor, current);
                Sheet {
                    pending_crop: if rect.width >= MIN_CROP_SIZE && rect.height >= MIN_CROP_SIZE {
                        Some(rect)
                    } else {
                        None
                    },
                    ..s
                }
            },
            Gesture::Redacting { kind, anchor, current } => {
                let rect = spec_from_corners(anchor, current);
                if s.redacts(rect) {
                    s.with_redaction(kind, rect)
                } else {
                    s
                }
            },
        }
    }

    pub open spec fn released(self, raw: RawPoint) -> Sheet {
        self.pointed(raw).finished()
    }

    /// Whether the release changes the canvas itself.
    pub open spec fn release_changes_canvas(self, raw: RawPoint) -> bool {
        match self.pointed(raw).gesture {
            Gesture::Redacting { kind, anchor, current } => self.redacts(
                spec_from_corners(anchor, current),
            ),
            _ => false,
        }
    }

    pub open spec fn without_selected(self) -> Sheet {
        match self.selected {
            Some(id) => if has_mark(self.annotations, id) {
                Sheet {
                    annotations: self.annotations.remove(mark_index(self.annotations, id)),
                    selected: None,
                    ..self.remembered()
                }
            } else {
                self
            },
            None => self,
        }
    }

    /// Whether there is a crop to apply, and any of the canvas under it.
    pub open spec fn crop_applies(self) -> bool {
        match self.pending_crop {
            None => false,
            Some(rect) => crop_width(self.canvas, spec_crop_rect(rect)) > 0 && crop_height(
                self.canvas,
                spec_crop_rect(rect),
            ) > 0,
        }
    }

    pub open spec fn with_crop(self) -> Sheet {
        match self.pending_crop {
            None => self,
            Some(rect) => if self.crop_applies() {
                let pixels = spec_crop_rect(rect);
                let canvas = cropped(self.canvas, pixels);
                let d = Offset { dx: -(256 * pixels.x) as i64, dy: -(256 * pixels.y) as i64 };
                Sheet {
                    annotations: cropped_marks(
                        self.annotations,
                        d,
                        canvas.width,
                        canvas.height,
                    ),
                    canvas,
                    selected: None,
                    pending_crop: None,
                    gesture: Gesture::Idle,
                    ..self.remembered()
                }
            } else {
                self
            },
        }
    }

    pub open spec fn without_crop(self) -> Sheet {
        Sheet { pending_crop: None, gesture: Gesture::Idle, ..self }
    }

    pub open spec fn undone(self) -> Sheet {
        if self.undo.len() == 0 {
            self
        } else {
            Sheet {
                canvas: self.undo.last().canvas,
                annotations: self.undo.last().annotations,
                selected: None,
                pending_crop: None,
                gesture: Gesture::Idle,
                undo: self.undo.drop_last(),
                redo: self.redo.push(self.version()),
                ..self
            }
        }
    }

    pub open spec fn redone(self) -> Sheet {
        if self.redo.len() == 0 {
            self
        } else {
            Sheet {
                canvas: self.redo.last().canvas,
                annotations: self.redo.last().annotations,
                selected: None,
                pending_crop: None,
                gesture: Gesture::Idle,
                redo: self.redo.drop_last(),
                undo: self.undo.push(self.version()),
                ..self
            }
        }
    }
}

/// A text mark in another size; any other mark as it is.
pub open spec fn resized(m: Mark, size: u32) -> Mark {
    match m.shape {
        Figure::Text { position, content, size: _ } => Mark {
            shape: Figure::Text { position, content, size },
            ..m
        },
        _ => m,
    }
}

/// A text mark with other words; any other mark as it is.
pub open spec fn reworded(m: Mark, content: Seq<char>) -> Mark {
    match m.shape {
        Figure::Text { position, content: _, size } => Mark {
            shape: Figure::Text { position, content, size },
            ..m
        },
        _ => m,
    }
}

/// Another handle on the same frame.
fn shared(frame: &Arc<Frame>) -> (r: Arc<Frame>)
    ensures
        r == *frame,
{
    Arc::clone(frame)
}

/// An editing session.
pub struct EditorModel {
    canvas: Arc<Frame>,
    annotations: Vec<Annotation>,
    next_id: AnnotationId,
    next_step: u32,
    tool: Tool,
    current_color: AnnotationColor,
    current_width: StrokeWidth,
    current_text_size: u32,
    selected: Option<AnnotationId>,
    interaction: Interaction,
    pending_crop: Option<Rect>,
    pointer: Option<Point>,
    undo_stack: Vec<Snapshot>,
    redo_stack: Vec<Snapshot>,
}

/// What a stack of snapshots holds.
pub open spec fn versions(stack: Seq<Snapshot>) -> Seq<Version> {
    stack.map_values(|s: Snapshot| s@)
}

impl View for EditorModel {
    type V = Sheet;

    closed spec fn view(&self) -> Sheet {
        Sheet {
            canvas: self.canvas@,
            annotations: marks(self.annotations@),
            next_id: self.next_id,
            next_step: self.next_step,
            tool: self.tool,
            color: self.current_color,
            width: self.current_width,
            text_size: self.current_text_size,
            selected: self.selected,
            gesture: self.interaction@,
            pending_crop: self.pending_crop,
            pointer: self.pointer,
            undo: versions(self.undo_stack@),
            redo: versions(self.redo_stack@),
        }
    }
}

fn copy_annotations(list: &Vec<Annotation>) -> (r: Vec<Annotation>)
    ensures
        marks(r@) == marks(list@),
{
    let mut out: Vec<Annotation> = Vec::new();
    let mut i: usize = 0;
    while i < list.len()
        invariant
            i <= list@.len(),
            out@.len() == i,
            forall|k: int| 0 <= k < i ==> (#[trigger] out@[k])@ == list@[k]@,
        decreases list@.len() - i,
    {
        out.push(list[i].clone());
        i = i + 1;
    }
    assert(marks(out@) =~= marks(list@));
    out
}

impl EditorModel {
    /// Starts a session on `canvas`.
    pub fn new(canvas: Frame) -> (r: EditorModel)
        ensures
            r@ == Sheet::fresh(canvas@),
            r@.wf(),
    {
        let r = EditorModel {
            canvas: Arc::new(canvas),
            annotations: Vec::new(),
            next_id: 0,
            next_step: 1,
            tool: Tool::Select,
            current_color: AnnotationColor::Terracotta,
            current_width: StrokeWidth::Medium,
            current_text_size: INITIAL_TEXT_SIZE,
            selected: None,
            interaction: Interaction::Idle,
            pending_crop: None,
            pointer: None,
            undo_stack: Vec::new(),
            redo_stack: Vec::new(),
        };
        assert(r@.annotations =~= Seq::<Mark>::empty());
        assert(r@.undo =~= Seq::<Version>::empty());
        assert(r@.redo =~= Seq::<Version>::empty());
        r
    }

    pub fn canvas(&self) -> (r: &Frame)
        ensures
            r@ == self@.canvas,
    {
        &self.canvas
    }

    pub fn annotations(&self) -> (r: &Vec<Annotation>)
        ensures
            marks(r@) == self@.annotations,
    {
        &self.annotations
    }

    pub fn tool(&self) -> (r: Tool)
        ensures
            r == self@.tool,
    {
        self.tool
    }

    pub fn current_color(&self) -> (r: AnnotationColor)
        ensures
            r == self@.color,
    {
        self.current_color
    }

    pub fn current_width(&self) -> (r: StrokeWidth)
        ensures
            r == self@.width,
    {
        self.current_width
    }

    pub fn current_text_size(&self) -> (r: u32)
        ensures
            r == self@.text_size,
    {
        self.current_text_size
    }

    pub fn selected(&self) -> (r: Option<AnnotationId>)
        ensures
            r == self@.selected,
    {
        self.selected
    }

    pub fn pending_crop(&self) -> (r: Option<Rect>)
        ensures
            r == self@.pending_crop,
    {
        self.pending_crop
    }

    /// The gesture in progress, for drawing it.
    pub fn interaction(&self) -> (r: &Interaction)
        ensures
            r@ == self@.gesture,
    {
        &self.interaction
    }

    pub fn pointer(&self) -> (r: Option<Point>)
        ensures
            r == self@.pointer,
    {
        self.pointer
    }

    pub fn can_undo(&self) -> (r: bool)
        ensures
            r == (self@.undo.len() > 0),
    {
        self.undo_stack.len() > 0
    }

    pub fn can_redo(&self) -> (r: bool)
        ensures
            r == (self@.redo.len() > 0),
    {
        self.redo_stack.len() > 0
    }

    /// How many steps can be undone.
    pub fn undo_depth(&self) -> (r: usize)
        ensures
            r == self@.undo.len(),
    {
        self.undo_stack.len()
    }

    /// Whether another annotation can still be numbered.
    pub fn has_room(&self) -> (r: bool)
        ensures
            r == self@.has_room(),
    {
        self.next_id < u64::MAX && self.next_step < u32::MAX
    }

    /// Where the annotation with this id stands.
    fn index_of(&self, id: AnnotationId) -> (r: Option<usize>)
        requires
            self@.wf(),
        ensures
            r is Some <==> has_mark(self@.annotations, id),
            r matches Some(i) ==> i < self.annotations@.len() && i == mark_index(
                self@.annotations,
                id,
            ) && self.annotations@[i as int].id == id,
            r matches Some(i) ==> forall|k: int|
                0 <= k < self.annotations@.len() && (#[trigger] self.annotations@[k]).id == id ==> k
                    == i,
    {
        let ghost list = self@.annotations;
        let mut i: usize = 0;
        while i < self.annotations.len()
            invariant
                self@.wf(),
                list == self@.annotations,
                i <= self.annotations@.len(),
                forall|k: int| 0 <= k < i ==> (#[trigger] list[k]).id != id,
            decreases self.annotations@.len() - i,
        {
            if self.annotations[i].id == id {
                proof {
                    assert(list[i as int].id == id);
                    let m = mark_index(list, id);
                    assert(0 <= m < list.len() && list[m].id == id);
                    assert(m == i);
                    assert forall|k: int|
                        0 <= k < self.annotations@.len() && (
                        #[trigger] self.annotations@[k]).id == id implies k == i by {
                        assert(list[k].id == id);
                    }
                }
                return Some(i);
            }
            assert(list[i as int].id == self.annotations@[i as int].id);
            i = i + 1;
        }
        None
    }

    /// Switches tools. Whatever gesture was in progress is dropped; leaving the
    /// crop tool drops its rectangle, and any tool but Select deselects.
    pub fn set_tool(&mut self, tool: Tool)
        requires
            old(self)@.wf(),
        ensures
            final(self)@ == old(self)@.with_tool(tool),
            final(self)@.wf(),
    {
        if self.tool == Tool::Crop && tool != Tool::Crop {
            self.pending_crop = None;
        }
        if tool != Tool::Select {
            self.selected = None;
        }
        self.tool = tool;
        self.interaction = Interaction::Idle;
    }

    /// Sets the colour for new annotations, and for the selected one.
    pub fn set_color(&mut self, color: AnnotationColor)
        requires
            old(self)@.wf(),
        ensures
            final(self)@ == old(self)@.with_color(color),
            final(self)@.wf(),
    {
        let ghost start = self@;
        self.current_color = color;
        if let Some(id) = self.selected {
            if let Some(i) = self.index_of(id) {
                let mut a = self.annotations[i].clone();
                a.color = color;
                self.annotations.set(i, a);
            }
        }
        proof {
            let goal = start.with_color(color);
            assert(self@.annotations =~= goal.annotations);
            lemma_restyled_wf(start, self@, |m: Mark| Mark { color, ..m });
        }
    }

    /// Sets the stroke width for new annotations, and for the selected one.
    pub fn set_width(&mut self, width: StrokeWidth)
        requires
            old(self)@.wf(),
        ensures
            final(self)@ == old(self)@.with_width(width),
            final(self)@.wf(),
    {
        let ghost start = self@;
        self.current_width = width;
        if let Some(id) = self.selected {
            if let Some(i) = self.index_of(id) {
                let mut a = self.annotations[i].clone();
                a.stroke_width = width.pixels();
                self.annotations.set(i, a);
            }
        }
        proof {
            let goal = start.with_width(width);
            assert(self@.annotations =~= goal.annotations);
            lemma_restyled_wf(
                start,
                self@,
                |m: Mark| Mark { stroke_width: width.spec_pixels(), ..m },
            );
        }
    }

    /// Sets the text size for new captions, and for the selected one. A size
    /// under one pixel counts as one pixel.
    pub fn set_text_size(&mut self, size: u32)
        requires
            old(self)@.wf(),
        ensures
            final(self)@ == old(self)@.with_text_size(size),
            final(self)@.wf(),
    {
        let ghost start = self@;
        let size: u32 = if size < MIN_TEXT_SIZE {
            MIN_TEXT_SIZE
        } else {
            size
        };
        self.current_text_size = size;
        if let Some(id) = self.selected {
            if let Some(i) = self.index_of(id) {
                let mut a = self.annotations[i].clone();
                let ghost before = a@;
                let shape = match a.shape {
                    Shape::Text { position, content, size: _ } => Shape::Text {
                        position,
                        content,
                        size,
                    },
                    other => other,
                };
                let styled = Annotation {
                    id: a.id,
                    shape,
                    color: a.color,
                    stroke_width: a.stroke_width,
                };
                assert(styled@ == resized(before, size));
                self.annotations.set(i, styled);
            }
        }
        proof {
            let goal = start.with_text_size(size);
            assert(self@.annotations =~= goal.annotations);
            lemma_restyled_wf(start, self@, |m: Mark| resized(m, size));
        }
    }

    /// Replaces the words of the selected caption.
    pub fn set_selected_text_content(&mut self, content: String)
        requires
            old(self)@.wf(),
        ensures
            final(self)@ == old(self)@.with_text_content(content@),
            final(self)@.wf(),
    {
        let ghost start = self@;
        let ghost words = content@;
        if let Some(id) = self.selected {
            if let Some(i) = self.index_of(id) {
                let a = self.annotations[i].clone();
                let ghost before = a@;
                let shape = match a.shape {
                    Shape::Text { position, content: _, size } => Shape::Text {
                        position,
                        content,
                        size,
                    },
                    other => other,
                };
                let styled = Annotation {
                    id: a.id,
                    shape,
                    color: a.color,
                    stroke_width: a.stroke_width,
                };
                assert(styled@ == reworded(before, words));
                self.annotations.set(i, styled);
            }
        }
        proof {
            let goal = start.with_text_content(words);
            assert(self@.annotations =~= goal.annotations);
            lemma_restyled_wf(start, self@, |m: Mark| reworded(m, words));
        }
    }

    /// The words and the size of the selected caption, if one is selected.
    pub fn selected_text(&self) -> (r: Option<(&str, u32)>)
        requires
            self@.wf(),
        ensures
            match (r, selected_caption(self@)) {
                (Some((words, size)), Some((content, s))) => words@ == content && size == s,
                (None, None) => true,
                _ => false,
            },
    {
        match self.selected {
            None => None,
            Some(id) => match self.index_of(id) {
                None => None,
                Some(i) => {
                    assert(self@.annotations[i as int] == self.annotations@[i as int]@);
                    match &self.annotations[i].shape {
                        Shape::Text { position, content, size } => Some((content.as_str(), *size)),
                        _ => None,
                    }
                },
            },
        }
    }

    /// The pointer moved.
    pub fn pointer_moved(&mut self, point: RawPoint)
        requires
            old(self)@.wf(),
        ensures
            final(self)@ == old(self)@.pointed(point),
            final(self)@.wf(),
    {
        let p = clamp_to_canvas(point, self.canvas.width(), self.canvas.height());
        self.pointer = Some(p);
        self.track(p);
    }

    /// The gesture in progress follows the pointer.
    fn track(&mut self, point: Point)
        requires
            old(self)@.wf(),
        ensures
            final(self)@ == old(self)@.followed(point),
            final(self)@.wf(),
    {
        let ghost start = self@;
        let mut taken = Interaction::Idle;
        core::mem::swap(&mut self.interaction, &mut taken);
        assert(taken@ == start.gesture);
        self.interaction = match taken {
            Interaction::Idle => Interaction::Idle,
            Interaction::DrawingLine { tool, anchor, current: _ } => Interaction::DrawingLine {
                tool,
                anchor,
                current: point,
            },
            Interaction::DrawingFreehand { mut points } => {
                let n: usize = points.len();
                if n == 0 || distance_sq(points[n - 1], point) >= MIN_FREEHAND_SPACING_SQ {
                    points.push(point);
                }
                Interaction::DrawingFreehand { points }
            },
            Interaction::Moving { id, grab, origin, preview: _ } => {
                let preview = translate_shape(&origin, point.offset_from(grab));
                Interaction::Moving { id, grab, origin, preview }
            },
            Interaction::Cropping { anchor, current: _ } => Interaction::Cropping {
                anchor,
                current: point,
            },
            Interaction::Redacting { kind, anchor, current: _ } => Interaction::Redacting {
                kind,
                anchor,
                current: point,
            },
        };
        assert(self@.annotations == start.annotations);
        assert(self@ == start.followed(point));
    }

    /// The id of the topmost annotation under `point`.
    fn hit_test(&self, point: Point) -> (r: Option<AnnotationId>)
        ensures
            r == topmost(self@.annotations, point),
    {
        let ghost list = self@.annotations;
        let mut i: usize = self.annotations.len();
        assert(list.take(i as int) =~= list);
        while i > 0
            invariant
                i <= self.annotations@.len(),
                list == self@.annotations,
                topmost(list, point) == topmost(list.take(i as int), point),
            decreases i,
        {
            let ghost upto = list.take(i as int);
            assert(upto.last() == self.annotations@[i - 1]@);
            assert(upto.drop_last() =~= list.take(i - 1));
            if shape_hit(&self.annotations[i - 1].shape, point, SELECT_TOLERANCE) {
                return Some(self.annotations[i - 1].id);
            }
            i = i - 1;
        }
        None
    }

    /// The pointer was pressed: selects, begins a gesture, or places a caption
    /// or a badge, by tool.
    pub fn pressed(&mut self, point: RawPoint)
        requires
            old(self)@.wf(),
            old(self)@.room_to_press(),
        ensures
            final(self)@ == old(self)@.pressed(point),
            final(self)@.wf(),
    {
        let ghost start = self@;
        let p = clamp_to_canvas(point, self.canvas.width(), self.canvas.height());
        self.pointer = Some(p);
        match self.tool {
            Tool::Select => match self.hit_test(p) {
                Some(id) => {
                    proof {
                        lemma_topmost_present(start.annotations, p);
                    }
                    self.selected = Some(id);
                    if let Some(i) = self.index_of(id) {
                        assert(start.annotations[i as int] == self.annotations@[i as int]@);
                        let origin = self.annotations[i].shape.clone();
                        let preview = origin.clone();
                        self.interaction = Interaction::Moving { id, grab: p, origin, preview };
                    }
                },
                None => {
                    self.selected = None;
                    self.interaction = Interaction::Idle;
                },
            },
            Tool::Crop => {
                self.interaction = Interaction::Cropping { anchor: p, current: p };
            },
            Tool::Arrow => {
                self.interaction =
                Interaction::DrawingLine { tool: LineTool::Arrow, anchor: p, current: p };
            },
            Tool::Rectangle => {
                self.interaction =
                Interaction::DrawingLine { tool: LineTool::Rectangle, anchor: p, current: p };
            },
            Tool::Ellipse => {
                self.interaction =
                Interaction::DrawingLine { tool: LineTool::Ellipse, anchor: p, current: p };
            },
            Tool::Freehand => {
                let mut points: Vec<Point> = Vec::new();
                points.push(p);
                assert(points@ =~= seq![p]);
                self.interaction = Interaction::DrawingFreehand { points };
            },
            Tool::Text => {
                let size: u32 = self.current_text_size;
                self.commit_new_annotation(
                    Shape::Text { position: p, content: String::new(), size },
                );
                self.interaction = Interaction::Idle;
            },
            Tool::Step => {
                let number: u32 = self.next_step;
                self.next_step = number + 1;
                self.commit_new_annotation(Shape::Step { position: p, number });
                self.interaction = Interaction::Idle;
            },
            Tool::Blur => {
                self.interaction =
                Interaction::Redacting { kind: RedactKind::Blur, anchor: p, current: p };
            },
            Tool::Pixelate => {
                self.interaction =
                Interaction::Redacting { kind: RedactKind::Pixelate, anchor: p, current: p };
            },
        }
        assert(self@.annotations =~= start.pressed(point).annotations);
        assert(self@ == start.pressed(point));
    }

    /// The pointer was released: ends the gesture. Reports whether the canvas
    /// itself changed.
    pub fn released(&mut self, point: RawPoint) -> (changed: bool)
        requires
            old(self)@.wf(),
            old(self)@.room_to_release(),
        ensures
            final(self)@ == old(self)@.released(point),
            final(self)@.wf(),
            changed == old(self)@.release_changes_canvas(point),
    {
        let ghost start = self@;
        self.pointer_moved(point);
        let ghost there = self@;
        let mut taken = Interaction::Idle;
        core::mem::swap(&mut self.interaction, &mut taken);
        assert(taken@ == there.gesture);
        let ghost idle = self@;
        assert(idle == (Sheet { gesture: Gesture::Idle, ..there }));
        match taken {
            Interaction::Idle => false,
            Interaction::DrawingLine { tool, anchor, current } => {
                if distance_sq(anchor, current) >= MIN_SHAPE_SIZE_SQ {
                    self.commit_new_annotation(line_tool_shape(tool, anchor, current));
                }
                false
            },
            Interaction::DrawingFreehand { points } => {
                if points.len() >= 2 {
                    self.commit_new_annotation(Shape::Freehand { points });
                }
                false
            },
            Interaction::Moving { id, grab, origin, preview } => {
                if !preview.same_as(&origin) {
                    self.push_undo();
                    let ghost kept = self@;
                    let ghost figure = preview@;
                    if let Some(i) = self.index_of(id) {
                        let a = &self.annotations[i];
                        let moved = Annotation {
                            id: a.id,
                            shape: preview,
                            color: a.color,
                            stroke_width: a.stroke_width,
                        };
                        self.annotations.set(i, moved);
                    }
                    proof {
                        let goal = restyled(
                            kept.annotations,
                            Some(id),
                            |m: Mark| Mark { shape: figure, ..m },
                        );
                        if !has_mark(kept.annotations, id) {
                            assert forall|k: int| 0 <= k < kept.annotations.len() implies (
                            #[trigger] kept.annotations[k]).id != id by {}
                        }
                        assert(self@.annotations =~= goal);
                        lemma_same_ids(kept.annotations, self@.annotations, kept.next_id);
                    }
                }
                false
            },
            Interaction::Cropping { anchor, current } => {
                let rect = rect_from_corners(anchor, current);
                self.pending_crop = if rect.width >= MIN_CROP_SIZE && rect.height >= MIN_CROP_SIZE {
                    Some(rect)
                } else {
                    None
                };
                false
            },
            Interaction::Redacting { kind, anchor, current } => {
                let rect = rect_from_corners(anchor, current);
                if rect.width >= MIN_CROP_SIZE && rect.height >= MIN_CROP_SIZE {
                    self.apply_redaction(kind, rect)
                } else {
                    false
                }
            },
        }
    }

    /// Adds an annotation in the current style and selects it.
    fn commit_new_annotation(&mut self, shape: Shape)
        requires
            old(self)@.wf(),
            old(self)@.next_id < u64::MAX,
        ensures
            final(self)@ == old(self)@.committed(shape@),
            final(self)@.wf(),
    {
        let ghost start = self@;
        let ghost figure = shape@;
        self.push_undo();
        let id: AnnotationId = self.next_id;
        self.next_id = id + 1;
        let annotation = Annotation {
            id,
            shape,
            color: self.current_color,
            stroke_width: self.current_width.pixels(),
        };
        let ghost mark = annotation@;
        self.annotations.push(annotation);
        self.selected = Some(id);
        proof {
            assert(self@.annotations =~= start.annotations.push(mark));
            assert(self@ == start.committed(figure));
            lemma_committed_wf(start, figure);
        }
    }

    /// Removes the selected annotation.
    pub fn delete_selected(&mut self)
        requires
            old(self)@.wf(),
        ensures
            final(self)@ == old(self)@.without_selected(),
            final(self)@.wf(),
    {
        let ghost start = self@;
        if let Some(id) = self.selected {
            if let Some(i) = self.index_of(id) {
                self.push_undo();
                self.annotations.remove(i);
                self.selected = None;
                assert(self@.annotations =~= start.annotations.remove(i as int));
                assert(self@.undo =~= start.remembered().undo);
            }
        }
    }

    /// Crops the canvas to the pending rectangle, moving the annotations along
    /// and dropping those that are left outside. Reports whether it did.
    pub fn apply_crop(&mut self) -> (applied: bool)
        requires
            old(self)@.wf(),
        ensures
            applied == old(self)@.crop_applies(),
            final(self)@ == old(self)@.with_crop(),
            final(self)@.wf(),
    {
        let ghost start = self@;
        let rect = match self.pending_crop {
            None => {
                return false;
            },
            Some(rect) => rect,
        };
        let pixel_rect = crop_pixel_rect(rect);
        let cut = match self.canvas.crop(pixel_rect) {
            None => {
                return false;
            },
            Some(cut) => cut,
        };
        self.push_undo();
        let d = Offset { dx: -(256 * pixel_rect.x as i64), dy: -(256 * pixel_rect.y as i64) };
        let width: u32 = cut.width();
        let height: u32 = cut.height();
        let mut kept: Vec<Annotation> = Vec::new();
        let mut i: usize = 0;
        let ghost list = start.annotations;
        assert(marks(kept@) =~= cropped_marks(list.take(0), d, width, height));
        while i < self.annotations.len()
            invariant
                i <= self.annotations@.len(),
                list == marks(self.annotations@),
                self@ == start.remembered(),
                marks(kept@) == cropped_marks(list.take(i as int), d, width, height),
            decreases self.annotations@.len() - i,
        {
            let a = &self.annotations[i];
            let shape = translate_shape(&a.shape, d);
            let ghost upto = list.take(i + 1);
            let ghost before = marks(kept@);
            proof {
                assert(upto.drop_last() =~= list.take(i as int));
                assert(upto.last() == a@);
            }
            if touches_canvas(shape_bounds(&shape), width, height) {
                let moved = Annotation {
                    id: a.id,
                    shape,
                    color: a.color,
                    stroke_width: a.stroke_width,
                };
                let ghost m = moved@;
                kept.push(moved);
                assert(marks(kept@) =~= before.push(m));
            }
            i = i + 1;
        }
        assert(list.take(i as int) =~= list);
        self.annotations = kept;
        self.canvas = Arc::new(cut);
        self.selected = None;
        self.pending_crop = None;
        self.interaction = Interaction::Idle;
        proof {
            assert(self@ == start.with_crop());
            lemma_cropped_ascend(list, d, width, height, start.next_id);
        }
        true
    }

    /// Drops the pending crop.
    pub fn cancel_crop(&mut self)
        requires
            old(self)@.wf(),
        ensures
            final(self)@ == old(self)@.without_crop(),
            final(self)@.wf(),
    {
        self.pending_crop = None;
        self.interaction = Interaction::Idle;
    }

    /// Redacts the canvas under `rect`. Reports whether it did.
    fn apply_redaction(&mut self, kind: RedactKind, rect: Rect) -> (applied: bool)
        requires
            old(self)@.wf(),
        ensures
            applied == (spec_redact_rect(rect, old(self)@.canvas.width, old(self)@.canvas.height)
                is Some),
            final(self)@ == old(self)@.with_redaction(kind, rect),
            final(self)@.wf(),
    {
        let width: u32 = self.canvas.width();
        let height: u32 = self.canvas.height();
        let pixel_rect = match redact_pixel_rect(rect, width, height) {
            None => {
                return false;
            },
            Some(r) => r,
        };
        let mut pixels: Vec<u8> = self.canvas.pixels().clone();
        assert(pixels@ =~= self@.canvas.pixels);
        let size: usize = pixels.len();
        match kind {
            RedactKind::Blur => blur_region(
                &mut pixels,
                width,
                height,
                pixel_rect,
                BLUR_RADIUS_PX,
            ),
            RedactKind::Pixelate => pixelate_region(
                &mut pixels,
                width,
                height,
                pixel_rect,
                PIXELATE_BLOCK_PX,
            ),
        }
        match Frame::new(width, height, self.canvas.scale(), pixels) {
            None => false,
            Some(frame) => {
                self.push_undo();
                self.canvas = Arc::new(frame);
                true
            },
        }
    }

    /// Remembers the present version; nothing is left to redo.
    fn push_undo(&mut self)
        requires
            old(self)@.wf(),
        ensures
            final(self)@ == old(self)@.remembered(),
            final(self)@.wf(),
            final(self).annotations == old(self).annotations,
    {
        let ghost start = self@;
        let snapshot = Snapshot {
            canvas: shared(&self.canvas),
            annotations: copy_annotations(&self.annotations),
        };
        let ghost v = snapshot@;
        self.undo_stack.push(snapshot);
        self.redo_stack.clear();
        assert(self@.undo =~= start.undo.push(v));
        assert(self@.redo =~= Seq::<Version>::empty());
    }

    /// Goes back to the version before the last change.
    pub fn undo(&mut self)
        requires
            old(self)@.wf(),
        ensures
            final(self)@ == old(self)@.undone(),
            final(self)@.wf(),
    {
        let ghost start = self@;
        let previous = match self.undo_stack.pop() {
            None => {
                return ;
            },
            Some(previous) => previous,
        };
        assert(start.undo.last() == previous@);
        let present = Snapshot {
            canvas: shared(&self.canvas),
            annotations: copy_annotations(&self.annotations),
        };
        let ghost v = present@;
        self.redo_stack.push(present);
        self.canvas = previous.canvas;
        self.annotations = previous.annotations;
        self.selected = None;
        self.pending_crop = None;
        self.interaction = Interaction::Idle;
        assert(self@.undo =~= start.undo.drop_last());
        assert(self@.redo =~= start.redo.push(v));
        assert(start.undo[start.undo.len() - 1] == start.undo.last());
    }

    /// Goes forward again to the version that undo left.
    pub fn redo(&mut self)
        requires
            old(self)@.wf(),
        ensures
            final(self)@ == old(self)@.redone(),
            final(self)@.wf(),
    {
        let ghost start = self@;
        let next = match self.redo_stack.pop() {
            None => {
                return ;
            },
            Some(next) => next,
        };
        assert(start.redo.last() == next@);
        let present = Snapshot {
            canvas: shared(&self.canvas),
            annotations: copy_annotations(&self.annotations),
        };
        let ghost v = present@;
        self.undo_stack.push(present);
        self.canvas = next.canvas;
        self.annotations = next.annotations;
        self.selected = None;
        self.pending_crop = None;
        self.interaction = Interaction::Idle;
        assert(self@.redo =~= start.redo.drop_last());
        assert(self@.undo =~= start.undo.push(v));
        assert(start.redo[start.redo.len() - 1] == start.redo.last());
    }
}

/// The words and size of the selected caption.
pub open spec fn selected_caption(s: Sheet) -> Option<(Seq<char>, u32)> {
    match s.selected {
        None => None,
        Some(id) => if has_mark(s.annotations, id) {
            match s.annotations[mark_index(s.annotations, id)].shape {
                Figure::Text { position, content, size } => Some((content, size)),
                _ => None,
            }
        } else {
            None
        },
    }
}

proof fn lemma_same_ids(a: Seq<Mark>, b: Seq<Mark>, next: AnnotationId)
    requires
        ids_ascend(a, next),
        a.len() == b.len(),
        forall|i: int| 0 <= i < a.len() ==> (#[trigger] b[i]).id == a[i].id,
    ensures
        ids_ascend(b, next),
        forall|id: AnnotationId| has_mark(a, id) ==> #[trigger] has_mark(b, id),
{
    assert forall|i: int, j: int| 0 <= i < j < b.len() implies (#[trigger] b[i]).id < (
    #[trigger] b[j]).id by {
        assert(a[i].id < a[j].id);
    }
    assert forall|id: AnnotationId| has_mark(a, id) implies #[trigger] has_mark(b, id) by {
        let i = choose|i: int| 0 <= i < a.len() && (#[trigger] a[i]).id == id;
        assert(b[i].id == id);
    }
}

/// Restyling the selection keeps a session well formed.
proof fn lemma_restyled_wf(before: Sheet, after: Sheet, f: spec_fn(Mark) -> Mark)
    requires
        before.wf(),
        after.annotations == restyled(before.annotations, before.selected, f),
        forall|m: Mark| (#[trigger] f(m)).id == m.id,
        after.next_id == before.next_id,
        after.undo == before.undo,
        after.redo == before.redo,
        after.selected == before.selected,
    ensures
        after.wf(),
{
    assert forall|i: int| 0 <= i < before.annotations.len() implies (
    #[trigger] after.annotations[i]).id == before.annotations[i].id by {}
    lemma_same_ids(before.annotations, after.annotations, before.next_id);
}

proof fn lemma_committed_wf(s: Sheet, shape: Figure)
    requires
        s.wf(),
        s.next_id < u64::MAX,
    ensures
        s.committed(shape).wf(),
{
    let t = s.committed(shape);
    let n = s.annotations.len() as int;
    assert(t.annotations[n].id == s.next_id);
    assert forall|i: int| 0 <= i < t.undo.len() implies ids_ascend(
        (#[trigger] t.undo[i]).annotations,
        t.next_id,
    ) by {
        if i < s.undo.len() {
            assert(t.undo[i] == s.undo[i]);
        }
    }
}

proof fn lemma_topmost_present(list: Seq<Mark>, p: Point)
    ensures
        topmost(list, p) matches Some(id) ==> has_mark(list, id),
    decreases list.len(),
{
    if list.len() > 0 {
        if spec_hit(list.last().shape, p, SELECT_TOLERANCE as int) {
            assert(list[list.len() - 1].id == list.last().id);
        } else {
            let rest = list.drop_last();
            lemma_topmost_present(rest, p);
            if let Some(id) = topmost(rest, p) {
                let i = choose|i: int| 0 <= i < rest.len() && (#[trigger] rest[i]).id == id;
                assert(list[i].id == id);
            }
        }
    }
}

proof fn lemma_cropped_ascend(
    list: Seq<Mark>,
    d: Offset,
    width: u32,
    height: u32,
    next: AnnotationId,
)
    requires
        ids_ascend(list, next),
    ensures
        ids_ascend(cropped_marks(list, d, width, height), next),
        forall|i: int|
            0 <= i < cropped_marks(list, d, width, height).len() ==> list.len() > 0 && (
            #[trigger] cropped_marks(list, d, width, height)[i]).id <= list.last().id,
    decreases list.len(),
{
    if list.len() > 0 {
        let front = list.drop_last();
        assert(ids_ascend(front, next)) by {
            assert forall|i: int, j: int| 0 <= i < j < front.len() implies (
            #[trigger] front[i]).id < (#[trigger] front[j]).id by {
                assert(list[i].id < list[j].id);
            }
            assert forall|i: int| 0 <= i < front.len() implies (#[trigger] front[i]).id < next by {
                assert(list[i].id < next);
            }
        }
        lemma_cropped_ascend(front, d, width, height, next);
        let rest = cropped_marks(front, d, width, height);
        let out = cropped_marks(list, d, width, height);
        assert(list[list.len() - 1].id < next);
        assert forall|i: int| 0 <= i < rest.len() implies (#[trigger] rest[i]).id
            < list.last().id by {
            assert(front.last() == list[list.len() - 2]);
            assert(list[list.len() - 2].id < list[list.len() - 1].id);
        }
    }
}

} // verus!
