//! The editor's canvas: what is drawn over the image, what input there means,
//! and how the pointer looks.
use vstd::prelude::*;
use vstd::string::*;

use crate::compose::{Annotation, Mark, STEP_BADGE_FONT, arrow_head, head_of_arrow, headless, marks};
use crate::editor::{EditorModel, Gesture, Interaction, Sheet};
use crate::fit::{Extent, FitTransform};
use crate::shapes::{
    Color, ColorPalette, Figure, SELECT_TOLERANCE, Shape, line_tool_shape, rect_from_corners,
    shape_bounds, shape_hit, spec_bounds, spec_from_corners, spec_hit, spec_line_shape,
};
use crate::text::{decimal, decimal_text};
use crate::units::{Point, Rect, SUBPIXELS, coord, spec_coord};

verus! {

/// The radius of a step badge, in subpixels.
pub const BADGE_RADIUS: u32 = 3584;

/// How wide the preview of a shape is drawn, in subpixels of the view (4 px).
pub const PREVIEW_WIDTH: u32 = 1024;

/// How wide a selection's outline is drawn, in subpixels of the view (2 px).
pub const OUTLINE_WIDTH: u32 = 512;

/// How far a selection's outline stands off, in subpixels of the image (6 px).
pub const OUTLINE_MARGIN: u32 = 1536;

/// A colour of the palette, or the theme's accent.
#[derive(Debug, Clone, Copy, PartialEq, Eq, Structural)]
pub enum Paint {
    Plain(Color),
    Accent,
}

/// What a line is drawn with; widths are in subpixels of the view.
#[derive(Debug, Clone, Copy, PartialEq, Eq, Structural)]
pub struct Pen {
    pub paint: Paint,
    pub width: u32,
}

/// A rectangle of the view, in subpixels.
#[derive(Debug, Clone, Copy, PartialEq, Eq, Structural)]
pub struct Band {
    pub x: i64,
    pub y: i64,
    pub width: i64,
    pub height: i64,
}

/// One thing to draw, in subpixels of the view.
#[derive(Debug)]
pub enum DrawOp {
    Line { from: Point, to: Point, pen: Pen },
    Triangle { a: Point, b: Point, c: Point, paint: Paint },
    Outline { corner: Point, size: Extent, pen: Pen, dashed: bool },
    Oval { corner: Point, size: Extent, pen: Pen },
    Trace { points: Vec<Point>, pen: Pen },
    Disc { center: Point, radius: u32, paint: Paint },
    Words { content: String, position: Point, em: u32, paint: Paint, centered: bool },
    Dim(Band),
}

/// One thing to draw, apart from how it is held.
pub enum Drawn {
    Line { from: Point, to: Point, pen: Pen },
    Triangle { a: Point, b: Point, c: Point, paint: Paint },
    Outline { corner: Point, size: Extent, pen: Pen, dashed: bool },
    Oval { corner: Point, size: Extent, pen: Pen },
    Trace { points: Seq<Point>, pen: Pen },
    Disc { center: Point, radius: u32, paint: Paint },
    Words { content: Seq<char>, position: Point, em: u32, paint: Paint, centered: bool },
    Dim(Band),
}

impl View for DrawOp {
    type V = Drawn;

    open spec fn view(&self) -> Drawn {
        match *self {
            DrawOp::Line { from, to, pen } => Drawn::Line { from, to, pen },
            DrawOp::Triangle { a, b, c, paint } => Drawn::Triangle { a, b, c, paint },
            DrawOp::Outline { corner, size, pen, dashed } => Drawn::Outline {
                corner,
                size,
                pen,
                dashed,
            },
            DrawOp::Oval { corner, size, pen } => Drawn::Oval { corner, size, pen },
            DrawOp::Trace { points, pen } => Drawn::Trace { points: points@, pen },
            DrawOp::Disc { center, radius, paint } => Drawn::Disc { center, radius, paint },
            DrawOp::Words { content, position, em, paint, centered } => Drawn::Words {
                content: content@,
                position,
                em,
                paint,
                centered,
            },
            DrawOp::Dim(band) => Drawn::Dim(band),
        }
    }
}

/// A list of things to draw, apart from how it is held.
pub open spec fn drawing(list: Seq<DrawOp>) -> Seq<Drawn> {
    list.map_values(|op: DrawOp| op@)
}

/// A width that can be seen: never under a pixel.
pub open spec fn visible(width: u32) -> u32 {
    if width < SUBPIXELS {
        SUBPIXELS as u32
    } else {
        width
    }
}

fn at_least_a_pixel(width: u32) -> (r: u32)
    ensures
        r == visible(width),
{
    if width < SUBPIXELS as u32 {
        SUBPIXELS as u32
    } else {
        width
    }
}

/// Where a rectangle of the image begins in the view.
pub open spec fn view_corner(rect: Rect, fit: FitTransform) -> Point {
    fit.spec_to_view(Point { x: rect.x, y: rect.y })
}

/// How large a rectangle of the image is in the view.
pub open spec fn view_size(rect: Rect, fit: FitTransform) -> Extent {
    Extent { width: fit.spec_scaled(rect.width), height: fit.spec_scaled(rect.height) }
}

/// Points of the image, in the view.
pub open spec fn view_points(points: Seq<Point>, fit: FitTransform) -> Seq<Point> {
    points.map_values(|p: Point| fit.spec_to_view(p))
}

/// What a shape is drawn as. The width is in subpixels of the view.
pub open spec fn shape_drawn(
    figure: Figure,
    fit: FitTransform,
    paint: Paint,
    width: u32,
    palette: ColorPalette,
) -> Seq<Drawn> {
    let pen = Pen { paint, width: visible(width) };
    match figure {
        Figure::Arrow { start, end } => {
            let from = fit.spec_to_view(start);
            let to = fit.spec_to_view(end);
            let shaft = seq![Drawn::Line { from, to, pen }];
            if headless(from, to) {
                shaft
            } else {
                let head = arrow_head(from, to, width);
                shaft.push(Drawn::Triangle { a: to, b: head.left, c: head.right, paint })
            }
        },
        Figure::Rectangle { rect } => seq![
            Drawn::Outline {
                corner: view_corner(rect, fit),
                size: view_size(rect, fit),
                pen,
                dashed: false,
            },
        ],
        Figure::Ellipse { rect } => seq![
            Drawn::Oval { corner: view_corner(rect, fit), size: view_size(rect, fit), pen },
        ],
        Figure::Freehand { points } => if points.len() < 2 {
            Seq::empty()
        } else {
            seq![Drawn::Trace { points: view_points(points, fit), pen }]
        },
        Figure::Text { position, content, size } => seq![
            Drawn::Words {
                content,
                position: fit.spec_to_view(position),
                em: visible(fit.spec_scaled(size)),
                paint,
                centered: false,
            },
        ],
        Figure::Step { position, number } => seq![
            Drawn::Disc {
                center: fit.spec_to_view(position),
                radius: fit.spec_scaled(BADGE_RADIUS),
                paint: Paint::Plain(palette.terracotta),
            },
            Drawn::Words {
                content: decimal_text(number as nat),
                position: fit.spec_to_view(position),
                em: visible(fit.spec_scaled_text(STEP_BADGE_FONT)),
                paint: Paint::Plain(palette.ivory),
                centered: true,
            },
        ],
    }
}

proof fn lemma_drawing_push(list: Seq<DrawOp>, op: DrawOp)
    ensures
        drawing(list.push(op)) == drawing(list).push(op@),
{
    assert(drawing(list.push(op)) =~= drawing(list).push(op@));
}

/// Adds one thing to draw.
fn put(out: &mut Vec<DrawOp>, op: DrawOp)
    ensures
        drawing(final(out)@) == drawing(old(out)@).push(op@),
{
    proof {
        lemma_drawing_push(out@, op);
    }
    out.push(op);
}

fn to_view_points(points: &Vec<Point>, fit: FitTransform) -> (r: Vec<Point>)
    requires
        fit.wf(),
    ensures
        r@ == view_points(points@, fit),
{
    let mut out: Vec<Point> = Vec::new();
    let mut i: usize = 0;
    while i < points.len()
        invariant
            i <= points@.len(),
            fit.wf(),
            out@ =~= view_points(points@.take(i as int), fit),
        decreases points@.len() - i,
    {
        proof {
            assert(points@.take(i + 1) =~= points@.take(i as int).push(points@[i as int]));
        }
        out.push(fit.to_view(points[i]));
        i = i + 1;
    }
    assert(points@.take(i as int) =~= points@);
    out
}

fn rect_in_view(rect: Rect, fit: FitTransform) -> (r: (Point, Extent))
    requires
        fit.wf(),
    ensures
        r.0 == view_corner(rect, fit),
        r.1 == view_size(rect, fit),
{
    (
        fit.to_view(Point { x: rect.x, y: rect.y }),
        Extent { width: fit.scaled(rect.width), height: fit.scaled(rect.height) },
    )
}

/// Draws one shape. The width is in subpixels of the view.
pub fn draw_shape(
    out: &mut Vec<DrawOp>,
    fit: FitTransform,
    shape: &Shape,
    paint: Paint,
    width: u32,
    palette: ColorPalette,
)
    requires
        fit.wf(),
    ensures
        drawing(final(out)@) == drawing(old(out)@) + shape_drawn(
            shape@,
            fit,
            paint,
            width,
            palette,
        ),
{
    let ghost before = drawing(out@);
    let pen = Pen { paint, width: at_least_a_pixel(width) };
    match shape {
        Shape::Arrow { start, end } => {
            let from = fit.to_view(*start);
            let to = fit.to_view(*end);
            put(out, DrawOp::Line { from, to, pen });
            if let Some(head) = head_of_arrow(from, to, width) {
                put(out, DrawOp::Triangle { a: to, b: head.left, c: head.right, paint });
            }
        },
        Shape::Rectangle { rect } => {
            let (corner, size) = rect_in_view(*rect, fit);
            put(out, DrawOp::Outline { corner, size, pen, dashed: false });
        },
        Shape::Ellipse { rect } => {
            let (corner, size) = rect_in_view(*rect, fit);
            put(out, DrawOp::Oval { corner, size, pen });
        },
        Shape::Freehand { points } => {
            if points.len() >= 2 {
                let points = to_view_points(points, fit);
                put(out, DrawOp::Trace { points, pen });
            }
        },
        Shape::Text { position, content, size } => {
            let em: u32 = at_least_a_pixel(fit.scaled(*size));
            put(
                out,
                DrawOp::Words {
                    content: content.clone(),
                    position: fit.to_view(*position),
                    em,
                    paint,
                    centered: false,
                },
            );
        },
        Shape::Step { position, number } => {
            let center = fit.to_view(*position);
            put(
                out,
                DrawOp::Disc {
                    center,
                    radius: fit.scaled(BADGE_RADIUS),
                    paint: Paint::Plain(palette.terracotta),
                },
            );
            let em: u32 = at_least_a_pixel(fit.scaled_text(STEP_BADGE_FONT));
            put(
                out,
                DrawOp::Words {
                    content: decimal(*number as u64),
                    position: center,
                    em,
                    paint: Paint::Plain(palette.ivory),
                    centered: true,
                },
            );
        },
    }
    assert(drawing(out@) =~= before + shape_drawn(shape@, fit, paint, width, palette));
}

/// A rectangle with a margin all round it.
pub open spec fn spec_expanded(rect: Rect, margin: u32) -> Rect {
    Rect {
        x: spec_coord(rect.x - margin) as i32,
        y: spec_coord(rect.y - margin) as i32,
        width: wider(rect.width, margin),
        height: wider(rect.height, margin),
    }
}

/// An extent with a margin on both sides.
pub open spec fn wider(extent: u32, margin: u32) -> u32 {
    if extent + 2 * margin > u32::MAX {
        u32::MAX
    } else {
        (extent + 2 * margin) as u32
    }
}

fn with_margin(extent: u32, margin: u32) -> (r: u32)
    ensures
        r == wider(extent, margin),
{
    let sum: u64 = extent as u64 + 2 * margin as u64;
    if sum > u32::MAX as u64 {
        u32::MAX
    } else {
        sum as u32
    }
}

fn expanded(rect: Rect, margin: u32) -> (r: Rect)
    ensures
        r == spec_expanded(rect, margin),
{
    Rect {
        x: coord(rect.x as i64 - margin as i64),
        y: coord(rect.y as i64 - margin as i64),
        width: with_margin(rect.width, margin),
        height: with_margin(rect.height, margin),
    }
}

/// The dashed outline of a selected shape.
pub open spec fn highlight(figure: Figure, fit: FitTransform) -> Drawn {
    let rect = spec_expanded(spec_bounds(figure), OUTLINE_MARGIN);
    Drawn::Outline {
        corner: view_corner(rect, fit),
        size: view_size(rect, fit),
        pen: Pen { paint: Paint::Accent, width: OUTLINE_WIDTH },
        dashed: true,
    }
}

/// Draws the dashed outline of a selected shape.
pub fn draw_selection_highlight(out: &mut Vec<DrawOp>, fit: FitTransform, shape: &Shape)
    requires
        fit.wf(),
    ensures
        drawing(final(out)@) == drawing(old(out)@).push(highlight(shape@, fit)),
{
    let (corner, size) = rect_in_view(expanded(shape_bounds(shape), OUTLINE_MARGIN), fit);
    let pen = Pen { paint: Paint::Accent, width: OUTLINE_WIDTH };
    put(out, DrawOp::Outline { corner, size, pen, dashed: true });
}

/// Whether a band covers anything.
pub open spec fn shows(band: Band) -> bool {
    band.width > 0 && band.height > 0
}

/// The bands above, below, left and right of a rectangle of the view.
pub open spec fn bands(corner: Point, size: Extent, view: Extent) -> Seq<Band> {
    seq![
        Band { x: 0, y: 0, width: view.width as i64, height: corner.y as i64 },
        Band {
            x: 0,
            y: (corner.y + size.height) as i64,
            width: view.width as i64,
            height: (view.height - corner.y - size.height) as i64,
        },
        Band { x: 0, y: corner.y as i64, width: corner.x as i64, height: size.height as i64 },
        Band {
            x: (corner.x + size.width) as i64,
            y: corner.y as i64,
            width: (view.width - corner.x - size.width) as i64,
            height: size.height as i64,
        },
    ]
}

/// The bands that cover something.
pub open spec fn dims(list: Seq<Band>) -> Seq<Drawn>
    decreases list.len(),
{
    if list.len() == 0 {
        Seq::empty()
    } else if shows(list.last()) {
        dims(list.drop_last()).push(Drawn::Dim(list.last()))
    } else {
        dims(list.drop_last())
    }
}

/// A region that is to be acted on: all but it dimmed, and it outlined.
pub open spec fn region_dimmed(rect: Rect, fit: FitTransform, view: Extent) -> Seq<Drawn> {
    let corner = view_corner(rect, fit);
    let size = view_size(rect, fit);
    dims(bands(corner, size, view)).push(
        Drawn::Outline {
            corner,
            size,
            pen: Pen { paint: Paint::Accent, width: OUTLINE_WIDTH },
            dashed: false,
        },
    )
}

fn add_band(out: &mut Vec<DrawOp>, band: Band)
    ensures
        drawing(final(out)@) == (if shows(band) {
            drawing(old(out)@).push(Drawn::Dim(band))
        } else {
            drawing(old(out)@)
        }),
{
    if band.width > 0 && band.height > 0 {
        put(out, DrawOp::Dim(band));
    }
}

/// Dims all but a region, and outlines it.
pub fn draw_region_dimming(out: &mut Vec<DrawOp>, fit: FitTransform, rect: Rect, view: Extent)
    requires
        fit.wf(),
    ensures
        drawing(final(out)@) == drawing(old(out)@) + region_dimmed(rect, fit, view),
{
    let ghost before = drawing(out@);
    let (corner, size) = rect_in_view(rect, fit);
    let x: i64 = corner.x as i64;
    let y: i64 = corner.y as i64;
    let width: i64 = size.width as i64;
    let height: i64 = size.height as i64;
    let across: i64 = view.width as i64;
    let down: i64 = view.height as i64;
    let ghost list = bands(corner, size, view);
    proof {
        assert(list.take(0) =~= Seq::<Band>::empty());
        assert(list.take(1).drop_last() =~= list.take(0));
        assert(list.take(2).drop_last() =~= list.take(1));
        assert(list.take(3).drop_last() =~= list.take(2));
        assert(list.take(4).drop_last() =~= list.take(3));
        assert(list.take(4) =~= list);
        assert(before + dims(list.take(0)) =~= before);
    }
    add_band(out, Band { x: 0, y: 0, width: across, height: y });
    assert(drawing(out@) =~= before + dims(list.take(1)));
    add_band(out, Band { x: 0, y: y + height, width: across, height: down - y - height });
    assert(drawing(out@) =~= before + dims(list.take(2)));
    add_band(out, Band { x: 0, y, width: x, height });
    assert(drawing(out@) =~= before + dims(list.take(3)));
    add_band(out, Band { x: x + width, y, width: across - x - width, height });
    assert(drawing(out@) =~= before + dims(list.take(4)));
    let pen = Pen { paint: Paint::Accent, width: OUTLINE_WIDTH };
    put(out, DrawOp::Outline { corner, size, pen, dashed: false });
    assert(drawing(out@) =~= before + region_dimmed(rect, fit, view));
}

/// The shape that a mark is drawn as: where it is being moved to, while it is.
pub open spec fn spec_effective(m: Mark, gesture: Gesture) -> Figure {
    match gesture {
        Gesture::Moving { id, grab, origin, preview } => if id == m.id {
            preview
        } else {
            m.shape
        },
        _ => m.shape,
    }
}

/// The marks drawn, each with its outline if it is the selected one.
pub open spec fn marks_drawn(
    list: Seq<Mark>,
    gesture: Gesture,
    selected: Option<u64>,
    fit: FitTransform,
    palette: ColorPalette,
) -> Seq<Drawn>
    decreases list.len(),
{
    if list.len() == 0 {
        Seq::empty()
    } else {
        let m = list.last();
        let figure = spec_effective(m, gesture);
        let below = marks_drawn(list.drop_last(), gesture, selected, fit, palette);
        let drawn = below + shape_drawn(
            figure,
            fit,
            Paint::Plain(m.color.spec_resolve(palette)),
            fit.spec_scaled(m.stroke_width as u32),
            palette,
        );
        if selected == Some(m.id) {
            drawn.push(highlight(figure, fit))
        } else {
            drawn
        }
    }
}

/// What shows of the gesture in progress.
pub open spec fn gesture_drawn(
    gesture: Gesture,
    fit: FitTransform,
    view: Extent,
    palette: ColorPalette,
) -> Seq<Drawn> {
    match gesture {
        Gesture::DrawingLine { tool, anchor, current } => shape_drawn(
            spec_line_shape(tool, anchor, current),
            fit,
            Paint::Accent,
            PREVIEW_WIDTH,
            palette,
        ),
        Gesture::DrawingFreehand { points } => shape_drawn(
            Figure::Freehand { points },
            fit,
            Paint::Accent,
            PREVIEW_WIDTH,
            palette,
        ),
        Gesture::Cropping { anchor, current } => region_dimmed(
            spec_from_corners(anchor, current),
            fit,
            view,
        ),
        Gesture::Redacting { kind, anchor, current } => region_dimmed(
            spec_from_corners(anchor, current),
            fit,
            view,
        ),
        _ => Seq::empty(),
    }
}

/// All that is drawn over the image: the marks from the oldest to the newest,
/// then the gesture in progress.
pub open spec fn spec_scene(
    s: Sheet,
    fit: FitTransform,
    view: Extent,
    palette: ColorPalette,
) -> Seq<Drawn> {
    marks_drawn(s.annotations, s.gesture, s.selected, fit, palette) + gesture_drawn(
        s.gesture,
        fit,
        view,
        palette,
    )
}

fn draw_marks(
    out: &mut Vec<DrawOp>,
    list: &Vec<Annotation>,
    interaction: &Interaction,
    selected: Option<u64>,
    fit: FitTransform,
    palette: ColorPalette,
)
    requires
        fit.wf(),
        old(out)@.len() == 0,
    ensures
        drawing(final(out)@) == marks_drawn(
            marks(list@),
            interaction@,
            selected,
            fit,
            palette,
        ),
{
    let ghost all = marks(list@);
    proof {
        assert(all.take(0) =~= Seq::<Mark>::empty());
        assert(drawing(out@) =~= Seq::<Drawn>::empty());
    }
    let mut i: usize = 0;
    while i < list.len()
        invariant
            i <= list@.len(),
            fit.wf(),
            all == marks(list@),
            drawing(out@) == marks_drawn(
                all.take(i as int),
                interaction@,
                selected,
                fit,
                palette,
            ),
        decreases list@.len() - i,
    {
        let annotation = &list[i];
        proof {
            assert(all.take(i + 1).drop_last() =~= all.take(i as int));
            assert(all.take(i + 1).last() == annotation@);
        }
        let shape = effective_shape(annotation, interaction);
        draw_shape(
            out,
            fit,
            shape,
            Paint::Plain(annotation.color.resolve(palette)),
            fit.scaled(annotation.stroke_width as u32),
            palette,
        );
        let chosen: bool = match selected {
            Some(id) => id == annotation.id,
            None => false,
        };
        if chosen {
            draw_selection_highlight(out, fit, shape);
        }
        i = i + 1;
    }
    assert(all.take(i as int) =~= all);
}

/// All that is drawn over the image.
pub fn draw(
    model: &EditorModel,
    fit: FitTransform,
    view: Extent,
    palette: ColorPalette,
) -> (r: Vec<DrawOp>)
    requires
        fit.wf(),
    ensures
        drawing(r@) == spec_scene(model@, fit, view, palette),
{
    let mut out: Vec<DrawOp> = Vec::new();
    let interaction = model.interaction();
    draw_marks(&mut out, model.annotations(), interaction, model.selected(), fit, palette);
    let ghost before = drawing(out@);
    match interaction {
        Interaction::DrawingLine { tool, anchor, current } => {
            let shape = line_tool_shape(*tool, *anchor, *current);
            draw_shape(&mut out, fit, &shape, Paint::Accent, PREVIEW_WIDTH, palette);
        },
        Interaction::DrawingFreehand { points } => {
            let copy = points.clone();
            assert(copy@ =~= points@);
            let shape = Shape::Freehand { points: copy };
            draw_shape(&mut out, fit, &shape, Paint::Accent, PREVIEW_WIDTH, palette);
        },
        Interaction::Cropping { anchor, current } => {
            draw_region_dimming(&mut out, fit, rect_from_corners(*anchor, *current), view);
        },
        Interaction::Redacting { kind, anchor, current } => {
            draw_region_dimming(&mut out, fit, rect_from_corners(*anchor, *current), view);
        },
        _ => {
            assert(before + Seq::<Drawn>::empty() =~= before);
        },
    }
    out
}

/// How the pointer looks over the canvas.
#[derive(Debug, Clone, Copy, PartialEq, Eq, Structural)]
pub enum CanvasPointer {
    Plain,
    Grab,
    Grabbing,
    Crosshair,
}

/// Whether a press at a point would pick one of the marks.
pub open spec fn any_hit(list: Seq<Mark>, p: Point) -> bool {
    exists|i: int|
        0 <= i < list.len() && spec_hit((#[trigger] list[i]).shape, p, SELECT_TOLERANCE as int)
}

fn hits_any(list: &Vec<Annotation>, p: Point) -> (r: bool)
    ensures
        r == any_hit(marks(list@), p),
{
    let ghost all = marks(list@);
    let mut i: usize = 0;
    while i < list.len()
        invariant
            i <= list@.len(),
            all == marks(list@),
            forall|k: int|
                0 <= k < i ==> !spec_hit((#[trigger] all[k]).shape, p, SELECT_TOLERANCE as int),
        decreases list@.len() - i,
    {
        if shape_hit(&list[i].shape, p, SELECT_TOLERANCE) {
            assert(all[i as int] == list@[i as int]@);
            return true;
        }
        assert(all[i as int] == list@[i as int]@);
        i = i + 1;
    }
    false
}

/// How the pointer looks at a point of the image: a cross while something is
/// drawn, a hand where there is something to move.
pub open spec fn spec_mouse_interaction(s: Sheet, at: Point) -> CanvasPointer {
    match s.gesture {
        Gesture::Moving { id, grab, origin, preview } => CanvasPointer::Grabbing,
        Gesture::Idle => if any_hit(s.annotations, at) {
            CanvasPointer::Grab
        } else {
            CanvasPointer::Plain
        },
        _ => CanvasPointer::Crosshair,
    }
}

/// How the pointer looks at a point of the image.
pub fn mouse_interaction(model: &EditorModel, at: Point) -> (r: CanvasPointer)
    ensures
        r == spec_mouse_interaction(model@, at),
{
    match model.interaction() {
        Interaction::Moving { id, grab, origin, preview } => CanvasPointer::Grabbing,
        Interaction::Idle => if hits_any(model.annotations(), at) {
            CanvasPointer::Grab
        } else {
            CanvasPointer::Plain
        },
        _ => CanvasPointer::Crosshair,
    }
}

/// An input event over the canvas, as far as the editor tells them apart.
#[derive(Debug, Clone, Copy, PartialEq, Eq, Structural)]
pub enum CanvasEvent {
    CursorMoved,
    LeftPressed,
    LeftReleased,
    Other,
}

/// What a canvas event means: which message it becomes, and at which point.
#[derive(Debug, Clone, Copy, PartialEq, Eq, Structural)]
pub enum CanvasMessage {
    Nothing,
    PointerMoved(Point),
    Pressed(Point),
    Released(Point),
}

/// The point that an event is at: under the cursor where it is over the canvas,
/// else where the pointer last was.
pub open spec fn event_point(
    fit: FitTransform,
    cursor: Option<Point>,
    last: Option<Point>,
) -> Option<Point> {
    match cursor {
        Some(p) => Some(fit.spec_to_image(p)),
        None => last,
    }
}

pub open spec fn spec_canvas_message(
    event: CanvasEvent,
    fit: FitTransform,
    cursor: Option<Point>,
    last: Option<Point>,
) -> CanvasMessage {
    match event {
        CanvasEvent::CursorMoved => match cursor {
            Some(p) => CanvasMessage::PointerMoved(fit.spec_to_image(p)),
            None => CanvasMessage::Nothing,
        },
        CanvasEvent::LeftPressed => match event_point(fit, cursor, last) {
            Some(p) => CanvasMessage::Pressed(p),
            None => CanvasMessage::Nothing,
        },
        CanvasEvent::LeftReleased => match event_point(fit, cursor, last) {
            Some(p) => CanvasMessage::Released(p),
            None => CanvasMessage::Nothing,
        },
        CanvasEvent::Other => CanvasMessage::Nothing,
    }
}

/// What an event over the canvas means. `cursor` is where the cursor is in the
/// view, if it is over it; `last` is where the pointer last was on the image. A
/// drag that leaves the view so still ends.
pub fn canvas_message(
    event: CanvasEvent,
    fit: FitTransform,
    cursor: Option<Point>,
    last: Option<Point>,
) -> (r: CanvasMessage)
    requires
        fit.wf(),
    ensures
        r == spec_canvas_message(event, fit, cursor, last),
{
    let at: Option<Point> = match cursor {
        Some(p) => Some(fit.to_image(p)),
        None => None,
    };
    let point: Option<Point> = match at {
        Some(p) => Some(p),
        None => last,
    };
    match event {
        CanvasEvent::CursorMoved => match at {
            Some(p) => CanvasMessage::PointerMoved(p),
            None => CanvasMessage::Nothing,
        },
        CanvasEvent::LeftPressed => match point {
            Some(p) => CanvasMessage::Pressed(p),
            None => CanvasMessage::Nothing,
        },
        CanvasEvent::LeftReleased => match point {
            Some(p) => CanvasMessage::Released(p),
            None => CanvasMessage::Nothing,
        },
        CanvasEvent::Other => CanvasMessage::Nothing,
    }
}

/// The shape that an annotation is drawn as.
pub fn effective_shape<'a>(annotation: &'a Annotation, interaction: &'a Interaction) -> (r:
    &'a Shape)
    ensures
        r@ == spec_effective(annotation@, interaction@),
{
    match interaction {
        Interaction::Moving { id, grab, origin, preview } => if *id == annotation.id {
            preview
        } else {
            &annotation.shape
        },
        _ => &annotation.shape,
    }
}

/// Whether a band takes in a position of the view.
pub open spec fn in_band(band: Band, x: int, y: int) -> bool {
    band.x <= x < band.x + band.width && band.y <= y < band.y + band.height
}

/// Dimming spares the region and nothing else: of a region on the view, no
/// position is dimmed; of the rest of the view, every position is, once.
pub proof fn law_dimming_spares_the_region(
    corner: Point,
    size: Extent,
    view: Extent,
    x: int,
    y: int,
)
    requires
        0 <= corner.x,
        corner.x + size.width <= view.width,
        0 <= corner.y,
        corner.y + size.height <= view.height,
        0 <= x < view.width,
        0 <= y < view.height,
    ensures
        ({
            let inside = corner.x <= x < corner.x + size.width && corner.y <= y < corner.y
                + size.height;
            let list = bands(corner, size, view);
            let n = |i: int|
                if in_band(list[i], x, y) {
                    1int
                } else {
                    0int
                };
            n(0) + n(1) + n(2) + n(3) == (if inside {
                0int
            } else {
                1int
            })
        }),
{
}

/// Nothing is drawn over an image without annotations while nothing is done to
/// it.
pub proof fn law_untouched_images_are_shown_bare(
    s: Sheet,
    fit: FitTransform,
    view: Extent,
    palette: ColorPalette,
)
    requires
        s.annotations.len() == 0,
        s.gesture is Idle,
    ensures
        spec_scene(s, fit, view, palette).len() == 0,
{
}

/// While nothing is selected and nothing is being done, what is drawn is each
/// annotation in turn.
pub proof fn law_annotations_are_drawn_in_order(
    s: Sheet,
    fit: FitTransform,
    view: Extent,
    palette: ColorPalette,
)
    requires
        s.annotations.len() > 0,
        s.gesture is Idle,
        s.selected is None,
    ensures
        ({
            let m = s.annotations.last();
            let below = Sheet { annotations: s.annotations.drop_last(), ..s };
            spec_scene(s, fit, view, palette) == spec_scene(below, fit, view, palette)
                + shape_drawn(
                m.shape,
                fit,
                Paint::Plain(m.color.spec_resolve(palette)),
                fit.spec_scaled(m.stroke_width as u32),
                palette,
            )
        }),
{
    let m = s.annotations.last();
    let below = Sheet { annotations: s.annotations.drop_last(), ..s };
    let top = shape_drawn(
        m.shape,
        fit,
        Paint::Plain(m.color.spec_resolve(palette)),
        fit.spec_scaled(m.stroke_width as u32),
        palette,
    );
    let a = marks_drawn(below.annotations, s.gesture, s.selected, fit, palette);
    assert(spec_scene(below, fit, view, palette) =~= a);
    assert(spec_scene(s, fit, view, palette) =~= a + top);
}

} // verus!
