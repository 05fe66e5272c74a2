//! What is seen of an image in a view: where its points lie there, and what is drawn
//! over it, told by where things are on the image.
use vstd::prelude::*;

use crate::canvas::{
    Band, CanvasEvent, CanvasMessage, Drawn, Paint, Pen, bands, dims, highlight, in_band,
    law_dimming_spares_the_region, marks_drawn, region_dimmed, shape_drawn, spec_canvas_message,
    spec_expanded, spec_mouse_interaction, spec_scene, view_corner, view_size,
};
use crate::compose::{Mark, div_round};
use crate::editor::{Gesture, Sheet};
use crate::fit::{Extent, FitTransform, solid};
use crate::gesture_laws::{gap_sq, hits, lemma_hits, spans};
use crate::paint_laws::{behind_tip, law_arrow_head_points_at_the_end, picked};
use crate::shapes::{ColorPalette, Figure, spec_bounds, spec_dist_sq, spec_from_corners, spec_hit};
use crate::text::{law_decimal_reads_back, number_of};
use crate::units::{Point, Rect, spec_clamp};

verus! {

/// Whether `v` is what comes nearest to `n / d`; at an end of the range of
/// coordinates, to what is held there.
pub open spec fn comes_nearest(v: int, n: int, d: int, least: int, most: int) -> bool {
    &&& least <= v <= most
    &&& v > least ==> 2 * (d * v - n) <= d
    &&& v < most ==> 2 * (d * v - n) >= -d
}

proof fn lemma_nearest(n: int, d: int, least: int, most: int)
    requires
        d > 0,
        least <= most,
    ensures
        comes_nearest(
            spec_clamp(div_round(n, d), least, most),
            n,
            d,
            least,
            most,
        ),
{
    let q = div_round(n, d);
    let v = spec_clamp(q, least, most);
    let top = if n >= 0 {
        2 * n + d
    } else {
        d - 2 * n
    };
    let whole = top / (2 * d);
    vstd::arithmetic::div_mod::lemma_fundamental_div_mod(top, 2 * d);
    assert(0 <= top % (2 * d) < 2 * d);
    assert((2 * d) * whole == 2 * (d * whole)) by (nonlinear_arith);
    assert(d * (-whole) == -(d * whole)) by (nonlinear_arith);
    assert(2 * (d * q - n) <= d && 2 * (d * q - n) >= -d);
    if v < q {
        assert(d * v <= d * q) by (nonlinear_arith)
            requires
                v <= q,
                d > 0,
        ;
    } else if v > q {
        assert(d * v >= d * q) by (nonlinear_arith)
            requires
                v >= q,
                d > 0,
        ;
    }
}

/// Whether an image is shown at the scale `num / den`: as large as it can be without
/// leaving the view.
pub open spec fn fills(image: Extent, view: Extent, num: int, den: int) -> bool {
    &&& num > 0 && den > 0
    &&& image.width * num <= view.width * den
    &&& image.height * num <= view.height * den
    &&& image.width * num == view.width * den || image.height * num == view.height * den
}

/// The image is shown as large as it can be without leaving the view.
pub proof fn law_image_fills_the_view(image: Extent, view: Extent)
    requires
        solid(image),
        solid(view),
    ensures
        ({
            let fit = FitTransform::spec_new(image, view);
            fills(image, view, fit.num as int, fit.den as int)
        }),
{
    assert(image.width as int * view.height as int == view.height as int * image.width as int)
        by (nonlinear_arith);
    assert(image.height as int * view.width as int == view.width as int * image.height as int)
        by (nonlinear_arith);
    assert(image.width as int * view.width as int == view.width as int * image.width as int)
        by (nonlinear_arith);
    assert(image.height as int * view.height as int == view.height as int * image.height as int)
        by (nonlinear_arith);
}

/// Whether a coordinate of the image is shown at `v`: `num / den` times as far from the
/// middle of the view as it is from the middle of the image, to the nearest subpixel.
pub open spec fn shown_at(v: i32, c: i32, across: u32, span: u32, num: int, den: int) -> bool {
    comes_nearest(
        v as int,
        (2 * c - across) * num + span * den,
        2 * den,
        i32::MIN as int,
        i32::MAX as int,
    )
}

/// Whether a point of the image is shown at `v`.
pub open spec fn point_shown_at(
    v: Point,
    p: Point,
    image: Extent,
    view: Extent,
    fit: FitTransform,
) -> bool {
    &&& shown_at(v.x, p.x, image.width, view.width, fit.num as int, fit.den as int)
    &&& shown_at(v.y, p.y, image.height, view.height, fit.num as int, fit.den as int)
}

proof fn lemma_u32_range(a: u32, b: u32)
    ensures
        0 <= a * b <= 0xffff_ffff * 0xffff_ffff,
{
    assert(0 <= a * b <= 0xffff_ffff * 0xffff_ffff) by (nonlinear_arith)
        requires
            0 <= a <= 0xffff_ffff,
            0 <= b <= 0xffff_ffff,
    ;
}

proof fn lemma_centred(c: int, across: int, span: int, num: int, den: int)
    ensures
        (2 * c - across) * num + span * den == 2 * c * num + (span * den - across * num),
        (2 * c - span) * den + across * num == 2 * c * den - (span * den - across * num),
{
    assert((2 * c - across) * num == 2 * c * num - across * num) by (nonlinear_arith);
    assert((2 * c - span) * den == 2 * c * den - span * den) by (nonlinear_arith);
}

/// The image is shown in the middle of the view: a point is as far from the middle of
/// the view as it is from the middle of the image, times the scale; and the point of
/// the image under one of the view is found by the same rule backwards.
pub proof fn law_points_are_shown_about_the_middle(image: Extent, view: Extent, p: Point)
    requires
        solid(image),
        solid(view),
    ensures
        ({
            let fit = FitTransform::spec_new(image, view);
            &&& point_shown_at(fit.spec_to_view(p), p, image, view, fit)
            &&& shown_at(
                fit.spec_to_image(p).x,
                p.x,
                view.width,
                image.width,
                fit.den as int,
                fit.num as int,
            )
            &&& shown_at(
                fit.spec_to_image(p).y,
                p.y,
                view.height,
                image.height,
                fit.den as int,
                fit.num as int,
            )
        }),
{
    let fit = FitTransform::spec_new(image, view);
    let n = fit.num as int;
    let d = fit.den as int;
    lemma_u32_range(view.width, fit.den);
    lemma_u32_range(view.height, fit.den);
    lemma_u32_range(image.width, fit.num);
    lemma_u32_range(image.height, fit.num);
    lemma_centred(p.x as int, image.width as int, view.width as int, n, d);
    lemma_centred(p.y as int, image.height as int, view.height as int, n, d);
    let least = i32::MIN as int;
    let most = i32::MAX as int;
    lemma_nearest((2 * p.x - image.width) * n + view.width * d, 2 * d, least, most);
    lemma_nearest((2 * p.y - image.height) * n + view.height * d, 2 * d, least, most);
    lemma_nearest((2 * p.x - view.width) * d + image.width * n, 2 * n, least, most);
    lemma_nearest((2 * p.y - view.height) * d + image.height * n, 2 * n, least, most);
}

/// Where there is no image or no view, points lie where they are.
pub proof fn law_nothing_is_moved_without_a_view(image: Extent, view: Extent, p: Point, length: u32)
    requires
        !solid(image) || !solid(view),
    ensures
        FitTransform::spec_new(image, view).spec_to_view(p) == p,
        FitTransform::spec_new(image, view).spec_to_image(p) == p,
        FitTransform::spec_new(image, view).spec_scaled(length) == length,
{
    let fit = FitTransform::spec_new(image, view);
    assert(2 * p.x * fit.num == 2 * p.x && 2 * p.y * fit.num == 2 * p.y);
    assert(2 * p.x * fit.den == 2 * p.x && 2 * p.y * fit.den == 2 * p.y);
    assert(length * fit.num == length);
    lemma_halves(p.x as int);
    lemma_halves(p.y as int);
    assert((2 * length + 1) / 2 == length);
}

proof fn lemma_halves(v: int)
    ensures
        div_round(2 * v, 2) == v,
{
    if v >= 0 {
        assert((2 * (2 * v) + 2) / 4 == v);
    } else {
        assert((2 - 2 * (2 * v)) / 4 == -v);
    }
}

/// Whether a length of the image is `v` long in the view, to the nearest subpixel.
pub open spec fn length_shown(v: u32, length: u32, fit: FitTransform) -> bool {
    comes_nearest(v as int, length * fit.num, fit.den as int, 0, u32::MAX as int)
}

/// Whether letters of the image, whose size is told in `1 / 4096` of a subpixel, are `v`
/// high in the view, to the nearest subpixel.
pub open spec fn letters_shown(v: u32, size: u64, fit: FitTransform) -> bool {
    comes_nearest(v as int, size * fit.num, fit.den * 4096, 0, u32::MAX as int)
}

/// Lengths are scaled as the image is, and so are the letters of a badge.
pub proof fn law_lengths_are_scaled(fit: FitTransform, length: u32, size: u64)
    requires
        fit.wf(),
    ensures
        length_shown(fit.spec_scaled(length), length, fit),
        letters_shown(fit.spec_scaled_text(size), size, fit),
{
    lemma_nearest(length * fit.num, fit.den as int, 0, u32::MAX as int);
    lemma_nearest(size * fit.num, fit.den * 4096, 0, u32::MAX as int);
}

/// Whether a rectangle of the image is shown at `corner`, of that size.
pub open spec fn rect_shown(
    corner: Point,
    size: Extent,
    rect: Rect,
    image: Extent,
    view: Extent,
    fit: FitTransform,
) -> bool {
    &&& point_shown_at(corner, Point { x: rect.x, y: rect.y }, image, view, fit)
    &&& length_shown(size.width, rect.width, fit)
    &&& length_shown(size.height, rect.height, fit)
}

proof fn lemma_rect_shown(rect: Rect, image: Extent, view: Extent)
    requires
        solid(image),
        solid(view),
    ensures
        ({
            let fit = FitTransform::spec_new(image, view);
            &&& fit.wf()
            &&& rect_shown(
                view_corner(rect, fit),
                view_size(rect, fit),
                rect,
                image,
                view,
                fit,
            )
        }),
{
    let fit = FitTransform::spec_new(image, view);
    lemma_fit_wf(image, view);
    law_points_are_shown_about_the_middle(image, view, Point { x: rect.x, y: rect.y });
    law_lengths_are_scaled(fit, rect.width, 0);
    law_lengths_are_scaled(fit, rect.height, 0);
}

proof fn lemma_fit_wf(image: Extent, view: Extent)
    ensures
        FitTransform::spec_new(image, view).wf(),
{
    let fit = FitTransform::spec_new(image, view);
    lemma_u32_range(view.width, fit.den);
    lemma_u32_range(view.height, fit.den);
    lemma_u32_range(image.width, fit.num);
    lemma_u32_range(image.height, fit.num);
}

/// A pen's width: what was asked for, at least a pixel.
pub open spec fn pen_width(pen: Pen, width: u32) -> bool {
    pen.width == (if width < 256 {
        256
    } else {
        width
    })
}

/// A rectangle is drawn as a rectangle's outline where it is shown, and an ellipse as an
/// oval there: one thing each, in the paint and the width asked for.
pub proof fn law_boxes_are_drawn_where_they_are_shown(
    rect: Rect,
    image: Extent,
    view: Extent,
    paint: Paint,
    width: u32,
    palette: ColorPalette,
)
    requires
        solid(image),
        solid(view),
    ensures
        ({
            let fit = FitTransform::spec_new(image, view);
            let drawn = shape_drawn(Figure::Rectangle { rect }, fit, paint, width, palette);
            &&& drawn.len() == 1
            &&& drawn[0] matches Drawn::Outline { corner, size, pen, dashed } && rect_shown(
                corner,
                size,
                rect,
                image,
                view,
                fit,
            ) && pen.paint == paint && pen_width(pen, width) && !dashed
        }),
        ({
            let fit = FitTransform::spec_new(image, view);
            let drawn = shape_drawn(Figure::Ellipse { rect }, fit, paint, width, palette);
            &&& drawn.len() == 1
            &&& drawn[0] matches Drawn::Oval { corner, size, pen } && rect_shown(
                corner,
                size,
                rect,
                image,
                view,
                fit,
            ) && pen.paint == paint && pen_width(pen, width)
        }),
{
    lemma_rect_shown(rect, image, view);
}

/// An arrow is drawn as a line from where its start is shown to where its end is; if
/// that is half a pixel or more, with a head there that points at the end.
pub proof fn law_arrows_are_drawn_to_their_end(
    start: Point,
    end: Point,
    image: Extent,
    view: Extent,
    paint: Paint,
    width: u32,
    palette: ColorPalette,
    length: int,
)
    requires
        solid(image),
        solid(view),
    ensures
        ({
            let fit = FitTransform::spec_new(image, view);
            let drawn = shape_drawn(Figure::Arrow { start, end }, fit, paint, width, palette);
            &&& drawn.len() > 0
            &&& drawn[0] matches Drawn::Line { from, to, pen } && {
                &&& point_shown_at(from, start, image, view, fit)
                &&& point_shown_at(to, end, image, view, fit)
                &&& pen.paint == paint && pen_width(pen, width)
                &&& gap_sq(from, to) < 16384 ==> drawn.len() == 1
                &&& gap_sq(from, to) >= 16384 ==> drawn.len() == 2 && drawn[1] is Triangle
                &&& drawn.len() == 2 && length > 0 && length * length <= gap_sq(from, to) < (length
                    + 1) * (length + 1) ==> (drawn[1] matches Drawn::Triangle { a, b, c, paint: p }
                    && a == to && p == paint && head_behind(to, b, c, from, width, length))
            }
        }),
{
    law_points_are_shown_about_the_middle(image, view, start);
    law_points_are_shown_about_the_middle(image, view, end);
    let fit = FitTransform::spec_new(image, view);
    let from = fit.spec_to_view(start);
    let to = fit.spec_to_view(end);
    let dx = to.x - from.x;
    let dy = to.y - from.y;
    assert((-dx) * (-dx) == dx * dx && (-dy) * (-dy) == dy * dy) by (nonlinear_arith);
    assert(gap_sq(from, to) == spec_dist_sq(from.x as int, from.y as int, to.x as int, to.y as int));
    if length > 0 && length * length <= gap_sq(from, to) < (length + 1) * (length + 1) {
        law_arrow_head_points_at_the_end(from, to, width, length);
    }
}

/// Whether `b` and `c` are the back corners of the head of an arrow `length` long that
/// points at `to`: the head is four strokes, at least twelve pixels and at most the
/// whole arrow.
pub open spec fn head_behind(
    to: Point,
    b: Point,
    c: Point,
    from: Point,
    width: u32,
    length: int,
) -> bool {
    let wanted = if 4 * width >= 3072 {
        4 * width
    } else {
        3072
    };
    let head = if wanted <= length {
        wanted
    } else {
        length
    };
    &&& behind_tip(b, to, to.x - from.x, to.y - from.y, head, length, 10, 3)
    &&& behind_tip(c, to, to.x - from.x, to.y - from.y, head, length, 10, -3)
}

/// A freehand line of two points or more is drawn through every point where it is
/// shown, in order; a shorter one not at all.
pub proof fn law_traces_are_drawn_point_by_point(
    points: Seq<Point>,
    image: Extent,
    view: Extent,
    paint: Paint,
    width: u32,
    palette: ColorPalette,
    i: int,
)
    requires
        solid(image),
        solid(view),
        0 <= i < points.len(),
    ensures
        ({
            let fit = FitTransform::spec_new(image, view);
            let drawn = shape_drawn(Figure::Freehand { points }, fit, paint, width, palette);
            &&& points.len() < 2 ==> drawn.len() == 0
            &&& points.len() >= 2 ==> drawn.len() == 1 && (drawn[0] matches Drawn::Trace {
                points: trace,
                pen,
            } && trace.len() == points.len() && point_shown_at(
                trace[i],
                points[i],
                image,
                view,
                fit,
            ) && pen.paint == paint && pen_width(pen, width))
        }),
{
    law_points_are_shown_about_the_middle(image, view, points[i]);
}

/// A caption is drawn as its words where it is shown, at its own size, scaled; a badge
/// as a terracotta disc fourteen pixels in radius, scaled, with its number in ivory in
/// the middle.
pub proof fn law_words_are_drawn_where_they_are_shown(
    position: Point,
    content: Seq<char>,
    size: u32,
    number: u32,
    image: Extent,
    view: Extent,
    paint: Paint,
    width: u32,
    palette: ColorPalette,
)
    requires
        solid(image),
        solid(view),
    ensures
        ({
            let fit = FitTransform::spec_new(image, view);
            let drawn = shape_drawn(
                Figure::Text { position, content, size },
                fit,
                paint,
                width,
                palette,
            );
            &&& drawn.len() == 1
            &&& drawn[0] matches Drawn::Words { content: words, position: at, em, paint: p, centered }
                && words == content && point_shown_at(at, position, image, view, fit) && p == paint
                && !centered && (exists|long: u32| #[trigger]
                length_shown(long, size, fit) && em == (if long < 256 {
                    256
                } else {
                    long
                }))
        }),
        ({
            let fit = FitTransform::spec_new(image, view);
            let drawn = shape_drawn(Figure::Step { position, number }, fit, paint, width, palette);
            &&& drawn.len() == 2
            &&& drawn[0] matches Drawn::Disc { center, radius, paint: p } && point_shown_at(
                center,
                position,
                image,
                view,
                fit,
            ) && length_shown(radius, 3584, fit) && p == Paint::Plain(palette.terracotta)
            &&& drawn[1] matches Drawn::Words { content: words, position: at, em, paint: p, centered }
                && number_of(words) == number && point_shown_at(
                at,
                position,
                image,
                view,
                fit,
            ) && p == Paint::Plain(palette.ivory) && centered && (exists|long: u32| #[trigger]
                letters_shown(long, 15414066, fit) && em == (if long < 256 {
                    256
                } else {
                    long
                }))
        }),
{
    let fit = FitTransform::spec_new(image, view);
    lemma_fit_wf(image, view);
    law_points_are_shown_about_the_middle(image, view, position);
    law_lengths_are_scaled(fit, size, 0);
    law_lengths_are_scaled(fit, 3584, 15414066);
    assert(letters_shown(fit.spec_scaled_text(15414066), 15414066, fit));
    law_decimal_reads_back(number as nat);
    assert(length_shown(fit.spec_scaled(size), size, fit));
}

/// The shape of an annotation while it is being moved is where it is moved to; else it
/// is its own.
pub open spec fn seen_shape(m: Mark, gesture: Gesture) -> Figure {
    match gesture {
        Gesture::Moving { id, grab, origin, preview } => if m.id == id {
            preview
        } else {
            m.shape
        },
        _ => m.shape,
    }
}

/// Whether an outline is the dashed one that stands six pixels off a shape's bounds.
pub open spec fn marks_out(
    op: Drawn,
    bounds: Rect,
    image: Extent,
    view: Extent,
    fit: FitTransform,
) -> bool {
    op matches Drawn::Outline { corner, size, pen, dashed } && {
        &&& dashed
        &&& pen.paint == Paint::Accent
        &&& pen.width == 512
        &&& i32::MIN + 1536 <= bounds.x && i32::MIN + 1536 <= bounds.y && bounds.width + 3072
            <= u32::MAX && bounds.height + 3072 <= u32::MAX ==> rect_shown(
            corner,
            size,
            Rect {
                x: (bounds.x - 1536) as i32,
                y: (bounds.y - 1536) as i32,
                width: (bounds.width + 3072) as u32,
                height: (bounds.height + 3072) as u32,
            },
            image,
            view,
            fit,
        )
    }
}

/// While nothing is drawn, what is seen is every annotation in turn, the newest on top:
/// each in its colour and its width, scaled, where it is moved to if it is being moved,
/// and with a dashed outline round it if it is selected.
pub proof fn law_the_newest_annotation_is_drawn_last(
    s: Sheet,
    image: Extent,
    view: Extent,
    palette: ColorPalette,
)
    requires
        solid(image),
        solid(view),
        s.annotations.len() > 0,
        s.gesture is Idle || s.gesture is Moving,
    ensures
        ({
            let fit = FitTransform::spec_new(image, view);
            let m = s.annotations.last();
            let below = Sheet { annotations: s.annotations.drop_last(), ..s };
            let under = spec_scene(below, fit, view, palette);
            let all = spec_scene(s, fit, view, palette);
            exists|stroke: u32| #[trigger]
                length_shown(stroke, m.stroke_width as u32, fit) && ({
                    let top = shape_drawn(
                        seen_shape(m, s.gesture),
                        fit,
                        Paint::Plain(picked(m.color, palette)),
                        stroke,
                        palette,
                    );
                    if s.selected == Some(m.id) {
                        all.len() > 0 && all.drop_last() == under + top && marks_out(
                            all.last(),
                            spec_bounds(seen_shape(m, s.gesture)),
                            image,
                            view,
                            fit,
                        )
                    } else {
                        all == under + top
                    }
                })
        }),
{
    let fit = FitTransform::spec_new(image, view);
    lemma_fit_wf(image, view);
    let m = s.annotations.last();
    let f = seen_shape(m, s.gesture);
    let below = Sheet { annotations: s.annotations.drop_last(), ..s };
    let stroke = fit.spec_scaled(m.stroke_width as u32);
    law_lengths_are_scaled(fit, m.stroke_width as u32, 0);
    let top = shape_drawn(f, fit, Paint::Plain(picked(m.color, palette)), stroke, palette);
    let a = marks_drawn(below.annotations, s.gesture, s.selected, fit, palette);
    assert(spec_scene(below, fit, view, palette) =~= a);
    if s.selected == Some(m.id) {
        let rect = spec_expanded(spec_bounds(f), 1536);
        lemma_rect_shown(rect, image, view);
        assert(spec_scene(s, fit, view, palette) =~= (a + top).push(highlight(f, fit)));
        assert(spec_scene(s, fit, view, palette).drop_last() =~= a + top);
    } else {
        assert(spec_scene(s, fit, view, palette) =~= a + top);
    }
}

/// While a shape is being drawn, it is seen on top of everything, in the accent and four
/// pixels wide: the very shape that letting go adds, if it adds one.
pub proof fn law_the_preview_is_what_will_be_added(
    s: Sheet,
    fit: FitTransform,
    view: Extent,
    palette: ColorPalette,
)
    requires
        s.gesture is DrawingLine || s.gesture is DrawingFreehand,
        s.finished().annotations.len() > s.annotations.len(),
    ensures
        spec_scene(s, fit, view, palette) == spec_scene(
            (Sheet { gesture: Gesture::Idle, ..s }),
            fit,
            view,
            palette,
        ) + shape_drawn(
            s.finished().annotations.last().shape,
            fit,
            Paint::Accent,
            1024,
            palette,
        ),
{
    let still = Sheet { gesture: Gesture::Idle, ..s };
    lemma_marks_without_a_move(s.annotations, s.gesture, s.selected, fit, palette);
    let a = marks_drawn(s.annotations, Gesture::Idle, s.selected, fit, palette);
    assert(spec_scene(still, fit, view, palette) =~= a);
}

proof fn lemma_marks_without_a_move(
    list: Seq<Mark>,
    gesture: Gesture,
    selected: Option<u64>,
    fit: FitTransform,
    palette: ColorPalette,
)
    requires
        !(gesture is Moving),
    ensures
        marks_drawn(list, gesture, selected, fit, palette) == marks_drawn(
            list,
            Gesture::Idle,
            selected,
            fit,
            palette,
        ),
    decreases list.len(),
{
    if list.len() > 0 {
        lemma_marks_without_a_move(list.drop_last(), gesture, selected, fit, palette);
    }
}

/// Whether a thing to draw darkens a position of the view.
pub open spec fn darkens(op: Drawn, x: int, y: int) -> bool {
    op matches Drawn::Dim(band) && band.x <= x < band.x + band.width && band.y <= y < band.y
        + band.height
}

proof fn lemma_dims(list: Seq<Band>, x: int, y: int)
    ensures
        (exists|k: int| 0 <= k < dims(list).len() && darkens(#[trigger] dims(list)[k], x, y)) <==> (
        exists|k: int| 0 <= k < list.len() && in_band(#[trigger] list[k], x, y)),
    decreases list.len(),
{
    if list.len() > 0 {
        let rest = list.drop_last();
        let last = list.last();
        lemma_dims(rest, x, y);
        if exists|k: int| 0 <= k < dims(list).len() && darkens(#[trigger] dims(list)[k], x, y) {
            let k = choose|k: int|
                0 <= k < dims(list).len() && darkens(#[trigger] dims(list)[k], x, y);
            if k < dims(rest).len() {
                assert(darkens(dims(rest)[k], x, y));
                let j = choose|j: int| 0 <= j < rest.len() && in_band(#[trigger] rest[j], x, y);
                assert(in_band(list[j], x, y));
            } else {
                assert(in_band(list[list.len() - 1], x, y));
            }
        }
        if exists|k: int| 0 <= k < list.len() && in_band(#[trigger] list[k], x, y) {
            let k = choose|k: int| 0 <= k < list.len() && in_band(#[trigger] list[k], x, y);
            if k < rest.len() {
                assert(in_band(rest[k], x, y));
                let j = choose|j: int|
                    0 <= j < dims(rest).len() && darkens(#[trigger] dims(rest)[j], x, y);
                assert(darkens(dims(list)[j], x, y));
            } else {
                assert(darkens(dims(list)[dims(list).len() - 1], x, y));
            }
        }
    }
}

/// While a region is being marked for a crop or a redaction, all of the view but the
/// region is darkened and the region is outlined, on top of everything.
pub proof fn law_marked_regions_stay_bright(
    s: Sheet,
    image: Extent,
    view: Extent,
    palette: ColorPalette,
    from: Point,
    to: Point,
    x: int,
    y: int,
)
    requires
        solid(image),
        solid(view),
        (s.gesture matches Gesture::Cropping { anchor, current } && anchor == from && current == to)
            || (s.gesture matches Gesture::Redacting { kind, anchor, current } && anchor == from
            && current == to),
        0 <= from.x,
        0 <= from.y,
        0 <= to.x,
        0 <= to.y,
        0 <= x < view.width,
        0 <= y < view.height,
    ensures
        ({
            let fit = FitTransform::spec_new(image, view);
            let under = spec_scene((Sheet { gesture: Gesture::Idle, ..s }), fit, view, palette);
            let all = spec_scene(s, fit, view, palette);
            let n = under.len() as int;
            &&& all.len() > n
            &&& all.take(n) == under
            &&& all.last() matches Drawn::Outline { corner, size, pen, dashed } && {
                &&& !dashed && pen.paint == Paint::Accent && pen.width == 512
                &&& exists|rect: Rect| #[trigger]
                    spans(rect, from, to) && rect_shown(corner, size, rect, image, view, fit)
                &&& 0 <= corner.x && corner.x + size.width <= view.width && 0 <= corner.y && corner.y
                    + size.height <= view.height ==> ((exists|k: int|
                    n <= k < all.len() - 1 && darkens(#[trigger] all[k], x, y)) <==> !(corner.x <= x
                    < corner.x + size.width && corner.y <= y < corner.y + size.height))
            }
        }),
{
    let fit = FitTransform::spec_new(image, view);
    lemma_fit_wf(image, view);
    let still = Sheet { gesture: Gesture::Idle, ..s };
    let under = spec_scene(still, fit, view, palette);
    let all = spec_scene(s, fit, view, palette);
    let n = under.len() as int;
    lemma_marks_without_a_move(s.annotations, s.gesture, s.selected, fit, palette);
    let a = marks_drawn(s.annotations, Gesture::Idle, s.selected, fit, palette);
    assert(under =~= a);
    let rect = spec_from_corners(from, to);
    assert(spans(rect, from, to));
    lemma_rect_shown(rect, image, view);
    let corner = view_corner(rect, fit);
    let size = view_size(rect, fit);
    let list = bands(corner, size, view);
    let dark = dims(list);
    assert(all =~= under + region_dimmed(rect, fit, view));
    assert(all.take(n) =~= under);
    if 0 <= corner.x && corner.x + size.width <= view.width && 0 <= corner.y && corner.y
        + size.height <= view.height {
        lemma_dims(list, x, y);
        law_dimming_spares_the_region(corner, size, view, x, y);
        let inside = corner.x <= x < corner.x + size.width && corner.y <= y < corner.y
            + size.height;
        assert((exists|k: int| 0 <= k < list.len() && in_band(#[trigger] list[k], x, y))
            <==> !inside) by {
            if !inside {
                assert(in_band(list[0], x, y) || in_band(list[1], x, y) || in_band(list[2], x, y)
                    || in_band(list[3], x, y));
            }
        }
        if exists|k: int| 0 <= k < dark.len() && darkens(#[trigger] dark[k], x, y) {
            let k = choose|k: int| 0 <= k < dark.len() && darkens(#[trigger] dark[k], x, y);
            assert(all[n + k] == dark[k]);
        }
        if exists|k: int| n <= k < all.len() - 1 && darkens(#[trigger] all[k], x, y) {
            let k = choose|k: int| n <= k < all.len() - 1 && darkens(#[trigger] all[k], x, y);
            assert(all[k] == dark[k - n]);
        }
    }
}

/// An event over the canvas is at the point of the image under the cursor, or, off the
/// canvas, where the pointer last was; motion off the canvas is none. Motion, presses
/// and releases stay what they are.
pub proof fn law_events_are_where_the_pointer_is(
    image: Extent,
    view: Extent,
    cursor: Point,
    last: Option<Point>,
)
    requires
        solid(image),
        solid(view),
    ensures
        ({
            let fit = FitTransform::spec_new(image, view);
            let at = |q: Point|
                shown_at(q.x, cursor.x, view.width, image.width, fit.den as int, fit.num as int)
                    && shown_at(
                    q.y,
                    cursor.y,
                    view.height,
                    image.height,
                    fit.den as int,
                    fit.num as int,
                );
            &&& spec_canvas_message(CanvasEvent::CursorMoved, fit, Some(cursor), last) matches
                CanvasMessage::PointerMoved(q) && at(q)
            &&& spec_canvas_message(CanvasEvent::LeftPressed, fit, Some(cursor), last) matches
                CanvasMessage::Pressed(q) && at(q)
            &&& spec_canvas_message(CanvasEvent::LeftReleased, fit, Some(cursor), last) matches
                CanvasMessage::Released(q) && at(q)
            &&& spec_canvas_message(CanvasEvent::CursorMoved, fit, None, last) is Nothing
            &&& last is None ==> spec_canvas_message(CanvasEvent::LeftPressed, fit, None, last)
                is Nothing && spec_canvas_message(CanvasEvent::LeftReleased, fit, None, last)
                is Nothing
            &&& last matches Some(p) ==> spec_canvas_message(
                CanvasEvent::LeftPressed,
                fit,
                None,
                last,
            ) == CanvasMessage::Pressed(p) && spec_canvas_message(
                CanvasEvent::LeftReleased,
                fit,
                None,
                last,
            ) == CanvasMessage::Released(p)
            &&& spec_canvas_message(CanvasEvent::Other, fit, Some(cursor), last) is Nothing
        }),
{
    law_points_are_shown_about_the_middle(image, view, cursor);
}

/// The pointer is a hand where a press would hit an annotation, closed while one is
/// moved, and a cross while something is drawn or marked.
pub proof fn law_the_hand_shows_what_can_be_moved(s: Sheet, at: Point)
    ensures
        ({
            let looks = spec_mouse_interaction(s, at);
            &&& looks is Grabbing <==> s.gesture is Moving
            &&& looks is Crosshair <==> !(s.gesture is Moving) && !(s.gesture is Idle)
            &&& s.gesture is Idle ==> (looks is Grab <==> exists|i: int|
                0 <= i < s.annotations.len() && hits((#[trigger] s.annotations[i]).shape, at))
        }),
{
    assert forall|i: int| 0 <= i < s.annotations.len() implies hits(
        (#[trigger] s.annotations[i]).shape,
        at,
    ) == spec_hit(s.annotations[i].shape, at, 1536) by {
        lemma_hits(s.annotations[i].shape, at);
    }
}

} // verus!
