//! Laws of the editor's tools: what a press, a drag and a release do with each of
//! them, and what choosing, restyling and deleting change. Lengths are in
//! subpixels, 256 to the pixel.
use vstd::prelude::*;

use crate::compose::Mark;
use crate::editor::{
    Gesture, Sheet, cropped_marks, has_mark, mark_index, moved_mark, on_canvas, redacted,
    spec_crop_rect, spec_redact_rect, topmost,
};
use crate::paint_laws::{along_stroke, channel, law_near_a_segment};
use crate::picture_laws::{
    area_mean, box_mean, has_pixel, law_blur_averages, law_crop_is_what_lay_under_it,
    law_mosaic_flattens, same_pixel, tile_begin, tile_end,
};
use crate::pixmap::{Picture, well_formed};
use crate::shapes::{
    AnnotationColor, Figure, RedactKind, StrokeWidth, Tool, moves_freely, spec_bounds, spec_hit,
    spec_translate, text_width,
};
use crate::units::{Offset, PixelRect, Point, RawPoint, Rect};

verus! {

/// A coordinate of the pointer, brought onto a canvas side of `extent` pixels; one
/// that is no number counts as the near end.
pub open spec fn landed(v: Option<i32>, extent: u32) -> int {
    match v {
        None => 0,
        Some(c) => if c < 0 {
            0
        } else if c > 256 * extent {
            256 * extent
        } else {
            c as int
        },
    }
}

/// Whether `p` is where the pointer is on the canvas.
pub open spec fn lands_at(s: Sheet, raw: RawPoint, p: Point) -> bool {
    p.x == landed(raw.x, s.canvas.width) && p.y == landed(raw.y, s.canvas.height)
}

proof fn lemma_lands(s: Sheet, raw: RawPoint, p: Point)
    requires
        lands_at(s, raw, p),
    ensures
        s.onto(raw) == p,
{
}

/// The square of the distance between two points.
pub open spec fn gap_sq(a: Point, b: Point) -> int {
    (b.x - a.x) * (b.x - a.x) + (b.y - a.y) * (b.y - a.y)
}

/// The stroke that a width stands for: three, six or ten pixels.
pub open spec fn stroke_of(width: StrokeWidth) -> int {
    match width {
        StrokeWidth::Thin => 768,
        StrokeWidth::Medium => 1536,
        StrokeWidth::Thick => 2560,
    }
}

/// Whether one annotation was added behind the others, in the style that was
/// chosen, and is the one selected; what was there before can be brought back.
pub open spec fn drew(s: Sheet, t: Sheet, shape: Figure) -> bool {
    &&& t.annotations.len() == s.annotations.len() + 1
    &&& forall|i: int|
        0 <= i < s.annotations.len() ==> #[trigger] t.annotations[i] == s.annotations[i]
    &&& t.annotations.last().shape == shape
    &&& t.annotations.last().color == s.color
    &&& t.annotations.last().stroke_width == stroke_of(s.width)
    &&& t.selected == Some(t.annotations.last().id)
    &&& t.canvas == s.canvas
    &&& t.undo.len() == s.undo.len() + 1
    &&& t.undo.last().annotations == s.annotations
    &&& t.undo.last().canvas == s.canvas
    &&& t.redo.len() == 0
}

/// Whether the document is as it was.
pub open spec fn untouched(s: Sheet, t: Sheet) -> bool {
    t.annotations == s.annotations && t.canvas == s.canvas && t.undo == s.undo && t.redo == s.redo
}

proof fn lemma_gap_sq(a: Point, b: Point)
    ensures
        gap_sq(a, b) == crate::shapes::spec_dist_sq(a.x as int, a.y as int, b.x as int, b.y as int),
{
    let dx = b.x - a.x;
    let dy = b.y - a.y;
    assert((-dx) * (-dx) == dx * dx && (-dy) * (-dy) == dy * dy) by (nonlinear_arith);
}

/// A drag with the arrow tool draws an arrow from where it began to where it ended,
/// unless that is under three pixels.
pub proof fn law_arrow_tool_draws_an_arrow(
    s: Sheet,
    from: RawPoint,
    to: RawPoint,
    a: Point,
    b: Point,
)
    requires
        s.tool is Arrow,
        lands_at(s, from, a),
        lands_at(s, to, b),
    ensures
        ({
            let t = s.pressed(from).released(to);
            if gap_sq(a, b) >= 768 * 768 {
                drew(s, t, Figure::Arrow { start: a, end: b })
            } else {
                untouched(s, t)
            }
        }),
{
    lemma_lands(s, from, a);
    lemma_lands(s, to, b);
    lemma_gap_sq(a, b);
}

/// Whether a rectangle has the two points for opposite corners.
pub open spec fn spans(rect: Rect, a: Point, b: Point) -> bool {
    &&& (rect.x == a.x && rect.x + rect.width == b.x) || (rect.x == b.x && rect.x + rect.width
        == a.x)
    &&& (rect.y == a.y && rect.y + rect.height == b.y) || (rect.y == b.y && rect.y + rect.height
        == a.y)
}

/// A drag with the rectangle tool draws the rectangle between where it began and
/// where it ended, and one with the ellipse tool an ellipse there, unless that is
/// under three pixels.
pub proof fn law_box_tools_draw_between_the_corners(
    s: Sheet,
    from: RawPoint,
    to: RawPoint,
    a: Point,
    b: Point,
    rect: Rect,
)
    requires
        s.tool is Rectangle || s.tool is Ellipse,
        lands_at(s, from, a),
        lands_at(s, to, b),
        spans(rect, a, b),
    ensures
        ({
            let t = s.pressed(from).released(to);
            if gap_sq(a, b) >= 768 * 768 {
                drew(
                    s,
                    t,
                    if s.tool is Rectangle {
                        Figure::Rectangle { rect }
                    } else {
                        Figure::Ellipse { rect }
                    },
                )
            } else {
                untouched(s, t)
            }
        }),
{
    lemma_lands(s, from, a);
    lemma_lands(s, to, b);
    lemma_gap_sq(a, b);
    assert(crate::shapes::spec_from_corners(a, b) == rect);
}

/// A freehand line begins where it is pressed, goes on to wherever the pointer is
/// three pixels or more from its last point, and ends up on the canvas once it has
/// two points.
pub proof fn law_freehand_follows_the_pointer(s: Sheet, raw: RawPoint, p: Point, points: Seq<Point>)
    requires
        lands_at(s, raw, p),
    ensures
        s.tool is Freehand ==> s.pressed(raw).gesture == (Gesture::DrawingFreehand {
            points: seq![p],
        }) && untouched(s, s.pressed(raw)),
        s.gesture == (Gesture::DrawingFreehand { points }) && points.len() > 0 ==> ({
            let on = if gap_sq(points.last(), p) >= 768 * 768 {
                points.push(p)
            } else {
                points
            };
            &&& s.pointed(raw).gesture == (Gesture::DrawingFreehand { points: on })
            &&& untouched(s, s.pointed(raw))
            &&& on.len() >= 2 ==> drew(s, s.released(raw), Figure::Freehand { points: on })
            &&& on.len() < 2 ==> untouched(s, s.released(raw))
            &&& s.released(raw).gesture is Idle
        }),
{
    lemma_lands(s, raw, p);
    if points.len() > 0 {
        lemma_gap_sq(points.last(), p);
    }
}

/// A press with the text tool puts an empty caption of the chosen size there, and
/// one with the step tool a badge with the next number, the first of them one.
pub proof fn law_press_tools_place_at_once(s: Sheet, raw: RawPoint, p: Point)
    requires
        lands_at(s, raw, p),
        s.has_room(),
    ensures
        s.tool is Text ==> drew(
            s,
            s.pressed(raw),
            (Figure::Text { position: p, content: Seq::empty(), size: s.text_size }),
        ) && s.pressed(raw).next_step == s.next_step,
        s.tool is Step ==> drew(
            s,
            s.pressed(raw),
            (Figure::Step { position: p, number: s.next_step }),
        ) && s.pressed(raw).next_step == s.next_step + 1,
        Sheet::fresh(s.canvas).next_step == 1,
        s.pressed(raw).gesture is Idle || !(s.tool is Text || s.tool is Step),
{
    lemma_lands(s, raw, p);
}

/// Whether a press at `p` is on a shape, or within six pixels of it: of some point
/// of the line that an arrow or a freehand stroke is, and of the rectangle that any
/// other shape takes up.
pub open spec fn hits(f: Figure, p: Point) -> bool {
    match f {
        Figure::Arrow { start, end } => along_stroke(p.x as int, p.y as int, start, end, 3072),
        Figure::Freehand { points } => exists|i: int|
            0 <= i < points.len() - 1 && along_stroke(
                p.x as int,
                p.y as int,
                #[trigger] points[i],
                points[i + 1],
                3072,
            ),
        Figure::Rectangle { rect } => hits_box(rect, p),
        Figure::Ellipse { rect } => hits_box(rect, p),
        Figure::Text { position, content, size } => hits_box(spec_bounds(f), p),
        Figure::Step { position, number } => hits_box(spec_bounds(f), p),
    }
}

/// Whether `p` is within six pixels of a rectangle, or in it.
pub open spec fn hits_box(rect: Rect, p: Point) -> bool {
    &&& rect.x - 6 * 256 <= p.x < rect.x + rect.width + 6 * 256
    &&& rect.y - 6 * 256 <= p.y < rect.y + rect.height + 6 * 256
}

/// A press within six pixels of a shape hits it.
pub proof fn lemma_hits(f: Figure, p: Point)
    ensures
        spec_hit(f, p, 1536) <==> hits(f, p),
{
    let (px, py) = (p.x as int, p.y as int);
    match f {
        Figure::Arrow { start, end } => {
            law_near_a_segment(px, py, start, end, 3072);
        },
        Figure::Freehand { points } => {
            assert forall|i: int| 0 <= i < points.len() - 1 implies #[trigger] along_stroke(
                px,
                py,
                points[i],
                points[i + 1],
                3072,
            ) == crate::shapes::spec_near_segment(px, py, points[i], points[i + 1], 3072) by {
                law_near_a_segment(px, py, points[i], points[i + 1], 3072);
            }
            if spec_hit(f, p, 1536) {
                let i = choose|i: int|
                    0 <= i < points.len() - 1 && crate::shapes::spec_near_segment(
                        px,
                        py,
                        #[trigger] points[i],
                        points[i + 1],
                        3072,
                    );
                assert(along_stroke(px, py, points[i], points[i + 1], 3072));
            }
            if hits(f, p) {
                let i = choose|i: int|
                    0 <= i < points.len() - 1 && along_stroke(
                        px,
                        py,
                        #[trigger] points[i],
                        points[i + 1],
                        3072,
                    );
                assert(crate::shapes::spec_near_segment(
                    px,
                    py,
                    points[i],
                    points[i + 1],
                    3072,
                ));
            }
        },
        _ => {},
    }
}

/// A caption takes up six tenths of its size for every character and 1.3 times its
/// size in height, from its position on, but at least a pixel each way; a badge
/// fourteen pixels on every side of its middle; a line as little as holds all of
/// its points.
pub proof fn law_bounds_hold_the_shape(f: Figure, i: int)
    ensures
        f matches Figure::Text { position, content, size } ==> ({
            let b = spec_bounds(f);
            let wide = content.len() * size * 6;
            let high = size * 13;
            &&& b.x == position.x && b.y == position.y
            &&& b.width >= 256 && b.height >= 256
            &&& wide >= 2560 && wide < 10 * u32::MAX ==> 10 * b.width <= wide < 10 * b.width + 10
            &&& wide < 2560 ==> b.width == 256
            &&& high >= 2560 && high < 10 * u32::MAX ==> 10 * b.height <= high < 10 * b.height + 10
            &&& high < 2560 ==> b.height == 256
        }),
        f matches Figure::Step { position, number } ==> (i32::MIN + 3584 <= position.x
            && i32::MIN + 3584 <= position.y ==> ({
            let b = spec_bounds(f);
            &&& b.x + 14 * 256 == position.x && b.x + b.width == position.x + 14 * 256
            &&& b.y + 14 * 256 == position.y && b.y + b.height == position.y + 14 * 256
        })),
        f matches Figure::Arrow { start, end } ==> spans(spec_bounds(f), start, end),
        f matches Figure::Rectangle { rect } ==> spec_bounds(f) == rect,
        f matches Figure::Ellipse { rect } ==> spec_bounds(f) == rect,
        f matches Figure::Freehand { points } ==> (0 <= i < points.len() ==> ({
            let b = spec_bounds(f);
            &&& b.x <= points[i].x <= b.x + b.width
            &&& b.y <= points[i].y <= b.y + b.height
        })),
        f matches Figure::Freehand { points } ==> (points.len() > 0 ==> ({
            let b = spec_bounds(f);
            &&& exists|k: int| 0 <= k < points.len() && (#[trigger] points[k]).x == b.x
            &&& exists|k: int| 0 <= k < points.len() && (#[trigger] points[k]).y == b.y
            &&& exists|k: int|
                0 <= k < points.len() && (#[trigger] points[k]).x == b.x + b.width
            &&& exists|k: int|
                0 <= k < points.len() && (#[trigger] points[k]).y == b.y + b.height
        })),
{
    match f {
        Figure::Freehand { points } => {
            if points.len() > 0 {
                lemma_extremes(points, true);
                lemma_extremes(points, false);
            }
        },
        Figure::Text { position, content, size } => {
            let n = content.len() as int;
            let k = n * size;
            assert(k >= 0) by (nonlinear_arith)
                requires
                    k == n * size as int,
                    n >= 0,
                    size >= 0,
            ;
            assert(content.len() * size * 6 == k * 6);
            assert(text_width(n, size as int) == crate::units::spec_clamp(
                k * 6 / 10,
                256,
                u32::MAX as int,
            ));
        },
        _ => {},
    }
}

spec fn along(p: Point, horizontal: bool) -> int {
    if horizontal {
        p.x as int
    } else {
        p.y as int
    }
}

proof fn lemma_extremes(points: Seq<Point>, horizontal: bool)
    requires
        points.len() > 0,
    ensures
        forall|i: int|
            0 <= i < points.len() ==> crate::shapes::spec_least(points, horizontal) <= along(
                #[trigger] points[i],
                horizontal,
            ) <= crate::shapes::spec_greatest(points, horizontal),
        exists|i: int|
            0 <= i < points.len() && along(#[trigger] points[i], horizontal)
                == crate::shapes::spec_least(points, horizontal),
        exists|i: int|
            0 <= i < points.len() && along(#[trigger] points[i], horizontal)
                == crate::shapes::spec_greatest(points, horizontal),
    decreases points.len(),
{
    let n = points.len() - 1;
    assert(points.last() == points[n]);
    if points.len() == 1 {
        assert(along(points[0], horizontal) == crate::shapes::spec_least(points, horizontal));
    } else {
        let rest = points.drop_last();
        lemma_extremes(rest, horizontal);
        assert forall|i: int| 0 <= i < points.len() implies crate::shapes::spec_least(
            points,
            horizontal,
        ) <= along(#[trigger] points[i], horizontal) <= crate::shapes::spec_greatest(
            points,
            horizontal,
        ) by {
            if i < n {
                assert(rest[i] == points[i]);
            }
        }
        let lo = choose|i: int|
            0 <= i < rest.len() && along(#[trigger] rest[i], horizontal)
                == crate::shapes::spec_least(rest, horizontal);
        let hi = choose|i: int|
            0 <= i < rest.len() && along(#[trigger] rest[i], horizontal)
                == crate::shapes::spec_greatest(rest, horizontal);
        assert(rest[lo] == points[lo] && rest[hi] == points[hi]);
        let p = along(points[n], horizontal);
    }
}

/// What a press picks is on top: the annotation that is selected was hit, and none
/// drawn after it was; where nothing is selected, none was hit.
pub proof fn law_select_takes_the_topmost(s: Sheet, raw: RawPoint, p: Point)
    requires
        s.tool is Select,
        s.wf(),
        lands_at(s, raw, p),
    ensures
        untouched(s, s.pressed(raw)),
        match s.pressed(raw).selected {
            Some(id) => exists|i: int|
                {
                    &&& 0 <= i < s.annotations.len()
                    &&& (#[trigger] s.annotations[i]).id == id
                    &&& hits(s.annotations[i].shape, p)
                    &&& forall|j: int|
                        i < j < s.annotations.len() ==> !hits(
                            (#[trigger] s.annotations[j]).shape,
                            p,
                        )
                },
            None => forall|j: int|
                0 <= j < s.annotations.len() ==> !hits((#[trigger] s.annotations[j]).shape, p),
        },
{
    lemma_lands(s, raw, p);
    lemma_topmost(s.annotations, p);
    if let Some(id) = topmost(s.annotations, p) {
        let i = choose|i: int| is_topmost(s.annotations, p, i) && s.annotations[i].id == id;
        assert(s.annotations[i].id == id);
    }
}

/// Whether annotation `i` is hit and none after it is.
spec fn is_topmost(list: Seq<Mark>, p: Point, i: int) -> bool {
    &&& 0 <= i < list.len()
    &&& hits(list[i].shape, p)
    &&& forall|j: int| i < j < list.len() ==> !hits((#[trigger] list[j]).shape, p)
}

proof fn lemma_topmost(list: Seq<Mark>, p: Point)
    ensures
        match topmost(list, p) {
            Some(id) => exists|i: int| #[trigger] is_topmost(list, p, i) && list[i].id == id,
            None => forall|j: int| 0 <= j < list.len() ==> !hits((#[trigger] list[j]).shape, p),
        },
    decreases list.len(),
{
    if list.len() > 0 {
        let n = list.len() - 1;
        lemma_hits(list.last().shape, p);
        if spec_hit(list.last().shape, p, 1536) {
            assert(is_topmost(list, p, n) && list[n].id == list.last().id);
        } else {
            let rest = list.drop_last();
            lemma_topmost(rest, p);
            match topmost(rest, p) {
                Some(id) => {
                    let i = choose|i: int| #[trigger] is_topmost(rest, p, i) && rest[i].id == id;
                    assert forall|j: int| i < j < list.len() implies !hits(
                        (#[trigger] list[j]).shape,
                        p,
                    ) by {
                        if j < n {
                            assert(list[j] == rest[j]);
                        }
                    }
                    assert(list[i] == rest[i]);
                    assert(is_topmost(list, p, i) && list[i].id == id);
                },
                None => {
                    assert forall|j: int| 0 <= j < list.len() implies !hits(
                        (#[trigger] list[j]).shape,
                        p,
                    ) by {
                        if j < n {
                            assert(list[j] == rest[j]);
                        }
                    }
                },
            }
        }
    }
}

/// The distance between two coordinates.
pub open spec fn apart(a: i32, b: i32) -> int {
    if a <= b {
        b - a
    } else {
        a - b
    }
}

/// The lesser of two coordinates.
pub open spec fn nearer(a: i32, b: i32) -> int {
    if a <= b {
        a as int
    } else {
        b as int
    }
}

/// Whether a drag is four pixels or more each way.
pub open spec fn is_wide_drag(a: Point, b: Point) -> bool {
    apart(a.x, b.x) >= 1024 && apart(a.y, b.y) >= 1024
}

/// Which pixels of a canvas side a redaction takes that was dragged from `a` to
/// `b`: where it begins and how many they are, each to the nearest pixel, all of
/// them on the canvas.
pub open spec fn redacted_side(a: i32, b: i32, extent: u32) -> (int, int) {
    let near = (nearer(a, b) + 128) / 256;
    let at = if near < extent {
        near
    } else {
        extent - 1
    };
    let long = (apart(a, b) + 128) / 256;
    (
        at,
        if at + long <= extent {
            long
        } else {
            extent - at
        },
    )
}

/// Whether a redaction dragged from `a` to `b` takes pixel `(x, y)`.
pub open spec fn redacts_pixel(p: Picture, a: Point, b: Point, x: int, y: int) -> bool {
    let (left, across) = redacted_side(a.x, b.x, p.width);
    let (top, down) = redacted_side(a.y, b.y, p.height);
    left <= x < left + across && top <= y < top + down
}

proof fn lemma_redacted_side(a: i32, b: i32, extent: u32)
    requires
        0 <= a <= 256 * extent,
        0 <= b <= 256 * extent,
        apart(a, b) >= 1024,
    ensures
        ({
            let (at, long) = redacted_side(a, b, extent);
            let lo = nearer(a, b);
            let hi = nearer(a, b) + apart(a, b);
            &&& 0 <= at && 0 < long && at + long <= extent
            &&& crate::editor::spec_redact_span(
                crate::units::spec_clamp(lo, 0, 256 * extent),
                crate::units::spec_clamp(hi, 0, 256 * extent),
                extent,
            ) == (at, long)
        }),
{
}

proof fn lemma_redaction_rect(a: Point, b: Point, w: u32, h: u32)
    requires
        0 <= a.x <= 256 * w,
        0 <= b.x <= 256 * w,
        0 <= a.y <= 256 * h,
        0 <= b.y <= 256 * h,
        is_wide_drag(a, b),
    ensures
        ({
            let (left, across) = redacted_side(a.x, b.x, w);
            let (top, down) = redacted_side(a.y, b.y, h);
            spec_redact_rect(crate::shapes::spec_from_corners(a, b), w, h) == Some(
                PixelRect {
                    x: left as u32,
                    y: top as u32,
                    width: across as u32,
                    height: down as u32,
                },
            )
        }),
{
    lemma_redacted_side(a.x, b.x, w);
    lemma_redacted_side(a.y, b.y, h);
    let rect = crate::shapes::spec_from_corners(a, b);
    assert(rect.x == nearer(a.x, b.x) && rect.y == nearer(a.y, b.y));
    assert(rect.spec_right() == nearer(a.x, b.x) + apart(a.x, b.x));
    assert(rect.spec_bottom() == nearer(a.y, b.y) + apart(a.y, b.y));
}

proof fn lemma_redaction_area(
    s: Sheet,
    from: RawPoint,
    to: RawPoint,
    a: Point,
    b: Point,
    kind: RedactKind,
)
    requires
        s.tool == (match kind {
            RedactKind::Blur => Tool::Blur,
            RedactKind::Pixelate => Tool::Pixelate,
        }),
        lands_at(s, from, a),
        lands_at(s, to, b),
        s.canvas.width > 0,
        s.canvas.height > 0,
    ensures
        ({
            let t = s.pressed(from).released(to);
            let (left, across) = redacted_side(a.x, b.x, s.canvas.width);
            let (top, down) = redacted_side(a.y, b.y, s.canvas.height);
            let rect = PixelRect {
                x: left as u32,
                y: top as u32,
                width: across as u32,
                height: down as u32,
            };
            if is_wide_drag(a, b) {
                &&& 0 <= left && 0 < across && left + across <= s.canvas.width
                &&& 0 <= top && 0 < down && top + down <= s.canvas.height
                &&& t.canvas == redacted(s.canvas, kind, rect)
                &&& t.annotations == s.annotations
                &&& t.undo == s.undo.push(s.version())
            } else {
                untouched(s, t)
            }
        }),
{
    lemma_lands(s, from, a);
    lemma_lands(s, to, b);
    let mid = s.pressed(from);
    assert(mid.gesture == (Gesture::Redacting { kind, anchor: a, current: a }));
    assert(mid.onto(to) == b);
    assert(mid.pointed(to).gesture == (Gesture::Redacting { kind, anchor: a, current: b }));
    let rect = crate::shapes::spec_from_corners(a, b);
    assert(rect.width == apart(a.x, b.x) && rect.height == apart(a.y, b.y));
    if is_wide_drag(a, b) {
        lemma_redacted_side(a.x, b.x, s.canvas.width);
        lemma_redacted_side(a.y, b.y, s.canvas.height);
        lemma_redaction_rect(a, b, s.canvas.width, s.canvas.height);
    }
}

/// A drag of four pixels or more each way with the blur tool averages what lies
/// under it: every channel of a pixel there becomes the mean, along its column, of
/// the means along the rows, of what lay within fourteen pixels of it. Nothing else
/// changes, and a shorter drag changes nothing.
pub proof fn law_blur_tool_averages(
    s: Sheet,
    from: RawPoint,
    to: RawPoint,
    a: Point,
    b: Point,
    x: int,
    y: int,
    c: int,
)
    requires
        s.tool is Blur,
        lands_at(s, from, a),
        lands_at(s, to, b),
        well_formed(s.canvas),
        has_pixel(s.canvas, x, y),
        0 <= c < 4,
    ensures
        ({
            let t = s.pressed(from).released(to);
            &&& t.canvas.width == s.canvas.width && t.canvas.height == s.canvas.height
            &&& t.annotations == s.annotations
            &&& channel(t.canvas.pixels, t.canvas.width as int, x, y, c) == (if is_wide_drag(a, b)
                && redacts_pixel(s.canvas, a, b, x, y) {
                box_mean(s.canvas, x, y, c)
            } else {
                channel(s.canvas.pixels, s.canvas.width as int, x, y, c) as int
            })
        }),
{
    lemma_redaction_area(s, from, to, a, b, RedactKind::Blur);
    let (left, across) = redacted_side(a.x, b.x, s.canvas.width);
    let (top, down) = redacted_side(a.y, b.y, s.canvas.height);
    let rect = PixelRect {
        x: left as u32,
        y: top as u32,
        width: across as u32,
        height: down as u32,
    };
    if is_wide_drag(a, b) {
        law_blur_averages(s.canvas, rect, x, y, c);
    }
}

/// A drag of four pixels or more each way with the pixelate tool flattens what lies
/// under it: tiles of eighteen pixels are laid from its corner, the last ones cut
/// short at its far edges, and every channel of a pixel becomes the mean of its
/// tile. Nothing else changes, and a shorter drag changes nothing.
pub proof fn law_pixelate_tool_flattens(
    s: Sheet,
    from: RawPoint,
    to: RawPoint,
    a: Point,
    b: Point,
    x: int,
    y: int,
    c: int,
)
    requires
        s.tool is Pixelate,
        lands_at(s, from, a),
        lands_at(s, to, b),
        well_formed(s.canvas),
        has_pixel(s.canvas, x, y),
        0 <= c < 4,
    ensures
        ({
            let t = s.pressed(from).released(to);
            let (left, across) = redacted_side(a.x, b.x, s.canvas.width);
            let (top, down) = redacted_side(a.y, b.y, s.canvas.height);
            &&& t.canvas.width == s.canvas.width && t.canvas.height == s.canvas.height
            &&& t.annotations == s.annotations
            &&& channel(t.canvas.pixels, t.canvas.width as int, x, y, c) == (if is_wide_drag(a, b)
                && redacts_pixel(s.canvas, a, b, x, y) {
                area_mean(
                    s.canvas,
                    tile_begin(x, left),
                    tile_end(x, left, left + across),
                    tile_begin(y, top),
                    tile_end(y, top, top + down),
                    c,
                )
            } else {
                channel(s.canvas.pixels, s.canvas.width as int, x, y, c) as int
            })
        }),
{
    lemma_redaction_area(s, from, to, a, b, RedactKind::Pixelate);
    let (left, across) = redacted_side(a.x, b.x, s.canvas.width);
    let (top, down) = redacted_side(a.y, b.y, s.canvas.height);
    let rect = PixelRect {
        x: left as u32,
        y: top as u32,
        width: across as u32,
        height: down as u32,
    };
    if is_wide_drag(a, b) {
        law_mosaic_flattens(s.canvas, rect, x, y, c);
    }
}

/// Whether the points of `g` are those of `f`, each moved by `(dx, dy)`, and all
/// else about it is as in `f`.
pub open spec fn shifted_by(f: Figure, g: Figure, dx: int, dy: int) -> bool {
    match (f, g) {
        (Figure::Arrow { start: a, end: b }, Figure::Arrow { start: u, end: v }) => u.x == a.x + dx
            && u.y == a.y + dy && v.x == b.x + dx && v.y == b.y + dy,
        (Figure::Rectangle { rect: r }, Figure::Rectangle { rect: q }) => q.x == r.x + dx && q.y
            == r.y + dy && q.width == r.width && q.height == r.height,
        (Figure::Ellipse { rect: r }, Figure::Ellipse { rect: q }) => q.x == r.x + dx && q.y == r.y
            + dy && q.width == r.width && q.height == r.height,
        (Figure::Freehand { points: p }, Figure::Freehand { points: q }) => q.len() == p.len()
            && forall|i: int|
            0 <= i < p.len() ==> (#[trigger] q[i]).x == p[i].x + dx && q[i].y == p[i].y + dy,
        (
            Figure::Text { position: p, content: t, size: n },
            Figure::Text { position: q, content: u, size: m },
        ) => q.x == p.x + dx && q.y == p.y + dy && u == t && m == n,
        (Figure::Step { position: p, number: n }, Figure::Step { position: q, number: m }) => q.x
            == p.x + dx && q.y == p.y + dy && m == n,
        _ => false,
    }
}

proof fn lemma_shifted(f: Figure, d: Offset)
    requires
        moves_freely(f, d),
    ensures
        shifted_by(f, spec_translate(f, d), d.dx as int, d.dy as int),
{
    if let Figure::Freehand { points } = f {
        assert forall|i: int| 0 <= i < points.len() implies crate::shapes::point_moves_freely(
            #[trigger] points[i],
            d,
        ) by {}
    }
}

/// A drag with the selection tool moves what was pressed by as much as the pointer
/// went, and nothing else, unless the shape would leave the range of coordinates.
pub proof fn law_select_tool_moves_what_was_pressed(
    s: Sheet,
    from: RawPoint,
    to: RawPoint,
    a: Point,
    b: Point,
    i: int,
)
    requires
        s.tool is Select,
        s.wf(),
        lands_at(s, from, a),
        lands_at(s, to, b),
        0 <= i < s.annotations.len(),
        moves_freely(
            s.annotations[i].shape,
            (Offset { dx: (b.x - a.x) as i64, dy: (b.y - a.y) as i64 }),
        ),
    ensures
        ({
            let t = s.pressed(from).released(to);
            &&& t.canvas == s.canvas
            &&& t.annotations.len() == s.annotations.len()
            &&& t.selected == s.pressed(from).selected
            &&& t.annotations[i].id == s.annotations[i].id
            &&& t.annotations[i].color == s.annotations[i].color
            &&& t.annotations[i].stroke_width == s.annotations[i].stroke_width
            &&& t.selected == Some(s.annotations[i].id) ==> shifted_by(
                s.annotations[i].shape,
                t.annotations[i].shape,
                b.x - a.x,
                b.y - a.y,
            )
            &&& t.selected != Some(s.annotations[i].id) ==> t.annotations[i].shape
                == s.annotations[i].shape
        }),
{
    lemma_lands(s, from, a);
    lemma_lands(s, to, b);
    let d = Offset { dx: (b.x - a.x) as i64, dy: (b.y - a.y) as i64 };
    let t = s.pressed(from).released(to);
    match topmost(s.annotations, a) {
        None => {},
        Some(id) => {
            lemma_topmost(s.annotations, a);
            let k = choose|k: int| #[trigger]
                is_topmost(s.annotations, a, k) && s.annotations[k].id == id;
            let at = mark_index(s.annotations, id);
            assert(s.annotations[k].id == id);
            assert(0 <= at < s.annotations.len() && s.annotations[at].id == id);
            assert(at == k) by {
                if at < k {
                    assert(s.annotations[at].id < s.annotations[k].id);
                } else if k < at {
                    assert(s.annotations[k].id < s.annotations[at].id);
                }
            }
            let origin = s.annotations[at].shape;
            let preview = spec_translate(origin, d);
            if s.annotations[i].id == id {
                assert(i == at) by {
                    if at < i {
                        assert(s.annotations[at].id < s.annotations[i].id);
                    } else if i < at {
                        assert(s.annotations[i].id < s.annotations[at].id);
                    }
                }
                lemma_shifted(origin, d);
            }
        },
    }
}

/// Choosing a colour or a width is for what is drawn next, and for what is
/// selected; nothing else changes.
pub proof fn law_restyling_changes_the_selected(
    s: Sheet,
    color: AnnotationColor,
    width: StrokeWidth,
    i: int,
)
    requires
        0 <= i < s.annotations.len(),
    ensures
        ({
            let t = s.with_color(color);
            let m = s.annotations[i];
            let n = t.annotations[i];
            &&& t.color == color && t.width == s.width && t.text_size == s.text_size
            &&& t.selected == s.selected && t.tool == s.tool && t.canvas == s.canvas
            &&& n.id == m.id && n.shape == m.shape && n.stroke_width == m.stroke_width
            &&& n.color == (if s.selected == Some(m.id) {
                color
            } else {
                m.color
            })
        }),
        ({
            let t = s.with_width(width);
            let m = s.annotations[i];
            let n = t.annotations[i];
            &&& t.width == width && t.color == s.color && t.text_size == s.text_size
            &&& t.selected == s.selected && t.tool == s.tool && t.canvas == s.canvas
            &&& n.id == m.id && n.shape == m.shape && n.color == m.color
            &&& n.stroke_width == (if s.selected == Some(m.id) {
                stroke_of(width)
            } else {
                m.stroke_width as int
            })
        }),
{
}

/// Choosing a text size, of at least a pixel, is for the captions placed next and
/// for the one selected; writing changes the words of the caption selected; nothing
/// else changes.
pub proof fn law_rewording_changes_the_selected_caption(
    s: Sheet,
    size: u32,
    words: Seq<char>,
    i: int,
)
    requires
        0 <= i < s.annotations.len(),
    ensures
        ({
            let t = s.with_text_size(size);
            let m = s.annotations[i];
            let n = t.annotations[i];
            let least = if size < 256 {
                256
            } else {
                size
            };
            &&& t.text_size == least && t.color == s.color && t.width == s.width
            &&& t.selected == s.selected && t.tool == s.tool && t.canvas == s.canvas
            &&& n.id == m.id && n.color == m.color && n.stroke_width == m.stroke_width
            &&& n.shape == (match m.shape {
                Figure::Text { position, content, size: old } => if s.selected == Some(m.id) {
                    Figure::Text { position, content, size: least }
                } else {
                    m.shape
                },
                _ => m.shape,
            })
        }),
        ({
            let t = s.with_text_content(words);
            let m = s.annotations[i];
            let n = t.annotations[i];
            &&& t.text_size == s.text_size && t.color == s.color && t.width == s.width
            &&& t.selected == s.selected && t.tool == s.tool && t.canvas == s.canvas
            &&& n.id == m.id && n.color == m.color && n.stroke_width == m.stroke_width
            &&& n.shape == (match m.shape {
                Figure::Text { position, content, size: old } => if s.selected == Some(m.id) {
                    Figure::Text { position, content: words, size: old }
                } else {
                    m.shape
                },
                _ => m.shape,
            })
        }),
{
}

/// Deleting takes out the selected annotation and no other; those behind it close
/// up. Without a selection it does nothing.
pub proof fn law_delete_takes_out_the_selected(s: Sheet, i: int)
    requires
        s.wf(),
    ensures
        s.selected is None ==> s.without_selected() == s,
        0 <= i < s.annotations.len() && s.selected == Some(s.annotations[i].id) ==> ({
            let t = s.without_selected();
            &&& t.canvas == s.canvas
            &&& t.selected is None
            &&& t.annotations.len() == s.annotations.len() - 1
            &&& forall|j: int| 0 <= j < i ==> #[trigger] t.annotations[j] == s.annotations[j]
            &&& forall|j: int|
                i <= j < t.annotations.len() ==> #[trigger] t.annotations[j] == s.annotations[j + 1]
        }),
{
    if let Some(id) = s.selected {
        if 0 <= i < s.annotations.len() && s.annotations[i].id == id {
            let at = mark_index(s.annotations, id);
            assert(has_mark(s.annotations, id));
            assert(at == i) by {
                if at < i {
                    assert(s.annotations[at].id < s.annotations[i].id);
                } else if i < at {
                    assert(s.annotations[i].id < s.annotations[at].id);
                }
            }
        }
    }
}

/// Choosing a tool ends the gesture; every tool but the selection one drops the
/// selection, and leaving the crop tool drops the pending crop. The document, and
/// what is drawn next, stay.
pub proof fn law_choosing_a_tool_keeps_the_document(s: Sheet, tool: Tool)
    ensures
        ({
            let t = s.with_tool(tool);
            &&& untouched(s, t)
            &&& t.tool == tool
            &&& t.gesture is Idle
            &&& t.color == s.color && t.width == s.width && t.text_size == s.text_size
            &&& t.selected == (if tool == Tool::Select {
                s.selected
            } else {
                None
            })
            &&& t.pending_crop == (if s.tool == Tool::Crop && tool != Tool::Crop {
                None
            } else {
                s.pending_crop
            })
        }),
{
}

/// A drag of four pixels or more each way with the crop tool asks for the rectangle
/// between its ends; a shorter one for none. Nothing is cut before that is applied.
pub proof fn law_crop_tool_asks_for_a_rectangle(
    s: Sheet,
    from: RawPoint,
    to: RawPoint,
    a: Point,
    b: Point,
)
    requires
        s.tool is Crop,
        lands_at(s, from, a),
        lands_at(s, to, b),
    ensures
        ({
            let t = s.pressed(from).released(to);
            &&& untouched(s, t)
            &&& t.pending_crop is Some <==> is_wide_drag(a, b)
            &&& t.pending_crop matches Some(rect) ==> spans(rect, a, b)
        }),
        untouched(s, s.without_crop()),
        s.without_crop().pending_crop is None,
{
    lemma_lands(s, from, a);
    lemma_lands(s, to, b);
}

/// `v` subpixels to the nearest pixel.
pub open spec fn nearest_pixel(v: int) -> int {
    (v + 128) / 256
}

/// Applying a crop keeps what lies under its rectangle, rounded to pixels: pixel
/// `(x, y)` of the new canvas is the one as far from the rectangle's corner on the
/// old one, and the new canvas has every pixel of the old one under the rectangle.
/// Nothing stays selected or pending.
pub proof fn law_crop_keeps_the_pixels_in_place(s: Sheet, rect: Rect, x: int, y: int)
    requires
        s.pending_crop == Some(rect),
        well_formed(s.canvas),
        rect.x >= 0,
        rect.y >= 0,
        rect.width >= 1024,
        rect.height >= 1024,
        nearest_pixel(rect.x as int) < s.canvas.width,
        nearest_pixel(rect.y as int) < s.canvas.height,
    ensures
        ({
            let t = s.with_crop();
            let left = nearest_pixel(rect.x as int);
            let top = nearest_pixel(rect.y as int);
            &&& has_pixel(t.canvas, x, y) <==> 0 <= x < nearest_pixel(rect.width as int) && 0 <= y
                < nearest_pixel(rect.height as int) && has_pixel(s.canvas, left + x, top + y)
            &&& has_pixel(t.canvas, x, y) ==> same_pixel(
                t.canvas,
                x,
                y,
                s.canvas,
                left + x,
                top + y,
            )
            &&& well_formed(t.canvas)
            &&& t.canvas.scale == s.canvas.scale
            &&& t.selected is None && t.pending_crop is None && t.gesture is Idle
            &&& t.undo == s.undo.push(s.version())
        }),
{
    let pixels = spec_crop_rect(rect);
    assert(pixels.x == nearest_pixel(rect.x as int));
    assert(pixels.y == nearest_pixel(rect.y as int));
    assert(pixels.width == nearest_pixel(rect.width as int));
    assert(pixels.height == nearest_pixel(rect.height as int));
    assert(s.crop_applies());
    law_crop_is_what_lay_under_it(s.canvas, pixels, x, y);
}

/// Whether any of a rectangle lies on a canvas.
pub open spec fn shows_on(rect: Rect, p: Picture) -> bool {
    &&& rect.x < 256 * p.width && rect.x + rect.width > 0
    &&& rect.y < 256 * p.height && rect.y + rect.height > 0
}

/// Applying a crop moves the annotations along with the pixels under them: those
/// that still show are kept, in their order, each as far from the new corner as it
/// was from the crop's; the rest are dropped.
pub proof fn law_crop_moves_the_annotations_along(s: Sheet, rect: Rect)
    requires
        s.pending_crop == Some(rect),
        rect.x >= 0,
        rect.y >= 0,
        rect.width >= 1024,
        rect.height >= 1024,
        nearest_pixel(rect.x as int) < s.canvas.width,
        nearest_pixel(rect.y as int) < s.canvas.height,
        forall|i: int|
            0 <= i < s.annotations.len() ==> moves_freely(
                (#[trigger] s.annotations[i]).shape,
                (Offset {
                    dx: -(256 * nearest_pixel(rect.x as int)) as i64,
                    dy: -(256 * nearest_pixel(rect.y as int)) as i64,
                }),
            ),
    ensures
        follows(
            s.annotations,
            s.with_crop().annotations,
            -(256 * nearest_pixel(rect.x as int)),
            -(256 * nearest_pixel(rect.y as int)),
            s.with_crop().canvas,
        ),
{
    let pixels = spec_crop_rect(rect);
    assert(pixels.x == nearest_pixel(rect.x as int));
    assert(pixels.y == nearest_pixel(rect.y as int));
    assert(s.crop_applies());
    let d = Offset { dx: -(256 * pixels.x) as i64, dy: -(256 * pixels.y) as i64 };
    lemma_follows(s.annotations, d, s.with_crop().canvas);
}

/// Whether `m` is `n` moved by `(dx, dy)`.
pub open spec fn carried_over(m: Mark, n: Mark, dx: int, dy: int) -> bool {
    n.id == m.id && n.color == m.color && n.stroke_width == m.stroke_width && shifted_by(
        m.shape,
        n.shape,
        dx,
        dy,
    )
}

/// Whether `new` holds those of the old annotations that show on a canvas once they
/// are moved by `(dx, dy)`, moved so, in their order, and no others.
pub open spec fn follows(old: Seq<Mark>, new: Seq<Mark>, dx: int, dy: int, p: Picture) -> bool
    decreases old.len(),
{
    if old.len() == 0 {
        new.len() == 0
    } else {
        ||| (new.len() > 0 && carried_over(old.last(), new.last(), dx, dy) && shows_on(
            spec_bounds(new.last().shape),
            p,
        ) && follows(old.drop_last(), new.drop_last(), dx, dy, p))
        ||| (follows(old.drop_last(), new, dx, dy, p) && forall|gone: Mark| #[trigger]
            carried_over(old.last(), gone, dx, dy) ==> !shows_on(spec_bounds(gone.shape), p))
    }
}

proof fn lemma_shifted_unique(f: Figure, g: Figure, d: Offset)
    requires
        moves_freely(f, d),
        shifted_by(f, g, d.dx as int, d.dy as int),
    ensures
        g == spec_translate(f, d),
{
    match (f, g) {
        (Figure::Freehand { points: p }, Figure::Freehand { points: q }) => {
            let r = p.map_values(|v: Point| v.spec_translated(d));
            assert forall|i: int| 0 <= i < p.len() implies q[i] == r[i] by {
                assert(crate::shapes::point_moves_freely(p[i], d));
                assert(q[i].x == p[i].x + d.dx && q[i].y == p[i].y + d.dy);
            }
            assert(q =~= r);
        },
        _ => {},
    }
}

proof fn lemma_follows(list: Seq<Mark>, d: Offset, p: Picture)
    requires
        forall|i: int| 0 <= i < list.len() ==> moves_freely((#[trigger] list[i]).shape, d),
    ensures
        follows(
            list,
            cropped_marks(list, d, p.width, p.height),
            d.dx as int,
            d.dy as int,
            p,
        ),
    decreases list.len(),
{
    if list.len() > 0 {
        let rest = list.drop_last();
        let m = moved_mark(list.last(), d);
        let out = cropped_marks(list, d, p.width, p.height);
        let fewer = cropped_marks(rest, d, p.width, p.height);
        assert forall|i: int| 0 <= i < rest.len() implies moves_freely(
            (#[trigger] rest[i]).shape,
            d,
        ) by {
            assert(rest[i] == list[i]);
        }
        lemma_follows(rest, d, p);
        assert(moves_freely(list[list.len() - 1].shape, d));
        lemma_shifted(list.last().shape, d);
        if on_canvas(spec_bounds(m.shape), p.width, p.height) {
            assert(out.last() == m);
            assert(out.drop_last() =~= fewer);
        } else {
            assert forall|gone: Mark| #[trigger]
                carried_over(list.last(), gone, d.dx as int, d.dy as int) implies !shows_on(
                spec_bounds(gone.shape),
                p,
            ) by {
                lemma_shifted_unique(list.last().shape, gone.shape, d);
            }
        }
    }
}

/// A session starts on its canvas with nothing on it and nothing to take back, with the
/// selection tool, in terracotta and of medium width.
pub proof fn law_a_session_starts_empty(canvas: Picture)
    ensures
        ({
            let s = Sheet::fresh(canvas);
            &&& s.canvas == canvas
            &&& s.annotations.len() == 0 && s.undo.len() == 0 && s.redo.len() == 0
            &&& s.tool is Select && s.color is Terracotta && s.width is Medium
            &&& s.selected is None && s.pending_crop is None && s.gesture is Idle
            &&& s.pointer is None
        }),
{
}

/// Of a drag only its two ends count: wherever the pointer went on the way, what it
/// comes to is the same. A freehand line alone takes the way itself.
pub proof fn law_only_the_ends_of_a_drag_count(s: Sheet, via: RawPoint, to: RawPoint)
    requires
        !(s.gesture is DrawingFreehand),
    ensures
        s.pointed(via).pointed(to) == s.pointed(to),
        s.pointed(via).released(to) == s.released(to),
        untouched(s, s.pointed(via)),
        s.pointed(via).selected == s.selected,
        s.pointed(via).tool == s.tool,
{
    assert(s.pointed(via).onto(to) == s.onto(to));
}

} // verus!
