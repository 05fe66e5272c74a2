//! What a selection comes to: where it lies after each gesture, told by where the
//! pointer went.
use vstd::prelude::*;

use crate::capture::{spec_pixel_size, spec_scaled};
use crate::overlay::{
    Action, Drag, Handle, InputEvent, Message, Selecting, first_handle, near_handle, output_bounds,
    spec_clamp_point, spec_clamp_value, spec_message_from_event, spec_readout_place,
    spec_readout_size, spec_resize, spec_settle_position, spec_settle_shape, spec_to_logical,
    spec_toolbar,
};
use crate::shapes::spec_from_corners;
use crate::units::{Point, RawPoint, Rect};

verus! {

/// A coordinate of the pointer, held between zero and `limit`; one that is no number
/// counts as zero.
pub open spec fn held_to(v: Option<i32>, limit: int) -> int {
    match v {
        None => 0,
        Some(c) => if c < 0 {
            0
        } else if c > limit {
            limit
        } else {
            c as int
        },
    }
}

/// Whether `p` is where the pointer is on the output.
pub open spec fn points_at(s: Selecting, raw: RawPoint, p: Point) -> bool {
    p.x == held_to(raw.x, s.bounds.width as int) && p.y == held_to(raw.y, s.bounds.height as int)
}

proof fn lemma_points_at(s: Selecting, raw: RawPoint, p: Point)
    requires
        output_bounds(s.bounds),
        points_at(s, raw, p),
    ensures
        spec_clamp_point(raw, s.bounds) == p,
{
}

/// Where a near edge dragged to `v` comes to rest: on the output's near edge if it is
/// within eight pixels of it, else on the nearest pixel boundary.
pub open spec fn near_edge(v: int) -> int {
    if v <= 2048 {
        0
    } else {
        256 * ((v + 128) / 256)
    }
}

/// Where a far edge dragged to `v` comes to rest, likewise.
pub open spec fn far_edge(v: int, limit: int) -> int {
    if limit - v <= 2048 {
        limit
    } else {
        256 * ((v + 128) / 256)
    }
}

/// Whether `r` is what comes of edges at `left`, `top`, `right` and `bottom`.
pub open spec fn rests(r: Rect, left: int, top: int, right: int, bottom: int, bounds: Rect) -> bool {
    &&& r.x == near_edge(left)
    &&& r.y == near_edge(top)
    &&& r.x + r.width == far_edge(right, bounds.width as int)
    &&& r.y + r.height == far_edge(bottom, bounds.height as int)
}

proof fn lemma_side_rests(lo: int, hi: int, limit: int)
    requires
        0 <= lo <= hi <= limit <= i32::MAX,
        limit % 256 == 0,
    ensures
        0 <= near_edge(lo) <= far_edge(hi, limit) <= limit,
{
}

proof fn lemma_rests(rect: Rect, bounds: Rect)
    requires
        output_bounds(bounds),
        0 <= rect.x,
        rect.x + rect.width <= bounds.width,
        0 <= rect.y,
        rect.y + rect.height <= bounds.height,
    ensures
        rests(
            spec_settle_shape(rect, bounds),
            rect.x as int,
            rect.y as int,
            rect.x + rect.width,
            rect.y + rect.height,
            bounds,
        ),
{
    lemma_side_rests(rect.x as int, rect.x + rect.width, bounds.width as int);
    lemma_side_rests(rect.y as int, rect.y + rect.height, bounds.height as int);
}

/// The lesser of two coordinates.
pub open spec fn lesser(a: int, b: int) -> int {
    if a <= b {
        a
    } else {
        b
    }
}

/// The greater of two coordinates.
pub open spec fn greater(a: int, b: int) -> int {
    if a <= b {
        b
    } else {
        a
    }
}

proof fn lemma_drag_settles(s: Selecting, from: RawPoint, to: RawPoint, a: Point, b: Point)
    requires
        output_bounds(s.bounds),
        s.selection is None,
        s.drag is Idle,
        points_at(s, from, a),
        points_at(s, to, b),
    ensures
        s.after(Message::CursorMoved(from)).after(Message::Pressed).after(
            Message::CursorMoved(to),
        ).selection == Some(spec_settle_shape(spec_from_corners(a, b), s.bounds)),
{
    lemma_points_at(s, from, a);
    lemma_points_at(s, to, b);
    let one = s.after(Message::CursorMoved(from));
    assert(one == Selecting { cursor: Some(from), ..s });
    let two = one.after(Message::Pressed);
    assert(two == Selecting { drag: Drag::Creating { anchor: a }, ..one });
    let three = two.after(Message::CursorMoved(to));
    assert(two.bounds == s.bounds);
    assert(three == Selecting {
        selection: Some(spec_settle_shape(spec_from_corners(a, b), s.bounds)),
        cursor: Some(to),
        ..two
    });
}

proof fn lemma_corners_rest(a: Point, b: Point, bounds: Rect)
    requires
        output_bounds(bounds),
        0 <= a.x <= bounds.width,
        0 <= b.x <= bounds.width,
        0 <= a.y <= bounds.height,
        0 <= b.y <= bounds.height,
    ensures
        rests(
            spec_settle_shape(spec_from_corners(a, b), bounds),
            lesser(a.x as int, b.x as int),
            lesser(a.y as int, b.y as int),
            greater(a.x as int, b.x as int),
            greater(a.y as int, b.y as int),
            bounds,
        ),
{
    let rect = spec_from_corners(a, b);
    lemma_rests(rect, bounds);
    assert(rect.x == lesser(a.x as int, b.x as int));
    assert(rect.y == lesser(a.y as int, b.y as int));
    assert(rect.x + rect.width == greater(a.x as int, b.x as int));
    assert(rect.y + rect.height == greater(a.y as int, b.y as int));
}

/// A drag on an output without a selection selects the rectangle between where it
/// began and where it ended, each edge brought to rest.
pub proof fn law_drag_selects_between_its_ends(
    s: Selecting,
    from: RawPoint,
    to: RawPoint,
    a: Point,
    b: Point,
)
    requires
        s.wf(),
        s.selection is None,
        s.drag is Idle,
        points_at(s, from, a),
        points_at(s, to, b),
    ensures
        ({
            let t = s.after(Message::CursorMoved(from)).after(Message::Pressed).after(
                Message::CursorMoved(to),
            );
            &&& t.selection is Some
            &&& rests(
                t.selection->0,
                lesser(a.x as int, b.x as int),
                lesser(a.y as int, b.y as int),
                greater(a.x as int, b.x as int),
                greater(a.y as int, b.y as int),
                s.bounds,
            )
        }),
{
    lemma_drag_settles(s, from, to, a, b);
    lemma_corners_rest(a, b, s.bounds);
}

/// Whether a handle moves the left edge.
pub open spec fn on_left(handle: Handle) -> bool {
    handle is TopLeft || handle is Left || handle is BottomLeft
}

/// Whether a handle moves the right edge.
pub open spec fn on_right(handle: Handle) -> bool {
    handle is TopRight || handle is Right || handle is BottomRight
}

/// Whether a handle moves the top edge.
pub open spec fn on_top(handle: Handle) -> bool {
    handle is TopLeft || handle is Top || handle is TopRight
}

/// Whether a handle moves the bottom edge.
pub open spec fn on_bottom(handle: Handle) -> bool {
    handle is BottomLeft || handle is Bottom || handle is BottomRight
}

/// Where a handle sits along one side of a rectangle.
pub open spec fn sits_at(near: bool, far: bool, at: int, extent: int) -> int {
    if near {
        at
    } else if far {
        at + extent
    } else {
        at + extent / 2
    }
}

/// Whether `p` is within twelve pixels of a handle, each way.
pub open spec fn grips(handle: Handle, r: Rect, p: Point) -> bool {
    let x = sits_at(on_left(handle), on_right(handle), r.x as int, r.width as int);
    let y = sits_at(on_top(handle), on_bottom(handle), r.y as int, r.height as int);
    x - 3072 <= p.x <= x + 3072 && y - 3072 <= p.y <= y + 3072
}

/// Whether `p` lies on a rectangle.
pub open spec fn lies_on(r: Rect, p: Point) -> bool {
    r.x <= p.x <= r.x + r.width && r.y <= p.y <= r.y + r.height
}

/// Whether a handle is at a corner.
pub open spec fn at_corner(handle: Handle) -> bool {
    (on_left(handle) || on_right(handle)) && (on_top(handle) || on_bottom(handle))
}

proof fn lemma_first_grip(r: Rect, p: Point)
    ensures
        match first_handle(r, p, 3072, 0) {
            Some(handle) => grips(handle, r, p) && ((exists|corner: Handle| #[trigger]
                grips(corner, r, p) && at_corner(corner)) ==> at_corner(handle)),
            None => forall|handle: Handle| !#[trigger] grips(handle, r, p),
        },
{
    reveal_with_fuel(first_handle, 9);
    assert(forall|handle: Handle| #[trigger]
        grips(handle, r, p) <==> near_handle(handle, r, p, 3072));
    assert(forall|handle: Handle|
        at_corner(handle) <==> handle is TopLeft || handle is TopRight || handle is BottomRight
            || handle is BottomLeft);
}

/// A press within reach of a handle pulls at one that is, a corner before an edge; one
/// elsewhere on the selection takes hold of all of it; any other begins a new one.
pub proof fn law_press_takes_what_is_under_it(s: Selecting, raw: RawPoint, p: Point)
    requires
        output_bounds(s.bounds),
        s.cursor == Some(raw),
        points_at(s, raw, p),
    ensures
        ({
            let t = s.after(Message::Pressed);
            match s.selection {
                None => t.drag == (Drag::Creating { anchor: p }) && t.selection is None,
                Some(r) => match t.drag {
                    Drag::Resizing { handle } => grips(handle, r, p) && t.selection == Some(r) && (
                    (exists|corner: Handle| #[trigger] grips(corner, r, p) && at_corner(corner))
                        ==> at_corner(handle)),
                    Drag::Moving { grab, origin } => grab == p && origin == r && lies_on(r, p)
                        && t.selection == Some(r) && forall|handle: Handle|
                        !#[trigger] grips(handle, r, p),
                    Drag::Creating { anchor } => anchor == p && t.selection is None && !lies_on(
                        r,
                        p,
                    ) && forall|handle: Handle| !#[trigger] grips(handle, r, p),
                    Drag::Idle => false,
                },
            }
        }),
{
    lemma_points_at(s, raw, p);
    if let Some(r) = s.selection {
        lemma_first_grip(r, p);
    }
}

/// Pulling at a handle puts the edges it moves where the pointer is and leaves the
/// others where they are; an edge pulled past its opposite swaps with it, and the
/// pointer then holds the handle on the other side. Each edge is brought to rest.
pub proof fn law_pulling_moves_the_edges_to_the_pointer(
    s: Selecting,
    raw: RawPoint,
    p: Point,
    handle: Handle,
    r: Rect,
)
    requires
        s.wf(),
        s.drag == (Drag::Resizing { handle }),
        s.selection == Some(r),
        points_at(s, raw, p),
    ensures
        ({
            let t = s.after(Message::CursorMoved(raw));
            let left = if on_left(handle) {
                p.x as int
            } else {
                r.x as int
            };
            let right = if on_right(handle) {
                p.x as int
            } else {
                r.x + r.width
            };
            let top = if on_top(handle) {
                p.y as int
            } else {
                r.y as int
            };
            let bottom = if on_bottom(handle) {
                p.y as int
            } else {
                r.y + r.height
            };
            &&& t.selection is Some
            &&& rests(
                t.selection->0,
                lesser(left, right),
                lesser(top, bottom),
                greater(left, right),
                greater(top, bottom),
                s.bounds,
            )
            &&& t.drag matches Drag::Resizing { handle: held } && {
                &&& on_left(held) == (if left <= right {
                    on_left(handle)
                } else {
                    on_right(handle)
                })
                &&& on_right(held) == (if left <= right {
                    on_right(handle)
                } else {
                    on_left(handle)
                })
                &&& on_top(held) == (if top <= bottom {
                    on_top(handle)
                } else {
                    on_bottom(handle)
                })
                &&& on_bottom(held) == (if top <= bottom {
                    on_bottom(handle)
                } else {
                    on_top(handle)
                })
            }
        }),
{
    let again = RawPoint { x: Some(p.x), y: Some(p.y) };
    let (next, held) = spec_resize(r, handle, again, s.bounds);
    assert(s.after(Message::CursorMoved(raw)).selection == Some(spec_settle_shape(next, s.bounds))
        && s.after(Message::CursorMoved(raw)).drag == (Drag::Resizing { handle: held })) by {
        lemma_points_at(s, raw, p);
    }
    lemma_pulled(r, handle, p, s.bounds);
    lemma_rests(next, s.bounds);
}

proof fn lemma_pulled(r: Rect, handle: Handle, p: Point, bounds: Rect)
    requires
        output_bounds(bounds),
        r.within(bounds),
        0 <= p.x <= bounds.width,
        0 <= p.y <= bounds.height,
    ensures
        ({
            let again = RawPoint { x: Some(p.x), y: Some(p.y) };
            let (next, held) = spec_resize(r, handle, again, bounds);
            let left = if on_left(handle) {
                p.x as int
            } else {
                r.x as int
            };
            let right = if on_right(handle) {
                p.x as int
            } else {
                r.x + r.width
            };
            let top = if on_top(handle) {
                p.y as int
            } else {
                r.y as int
            };
            let bottom = if on_bottom(handle) {
                p.y as int
            } else {
                r.y + r.height
            };
            &&& 0 <= next.x && next.x == lesser(left, right)
            &&& 0 <= next.y && next.y == lesser(top, bottom)
            &&& next.x + next.width == greater(left, right) && greater(left, right) <= bounds.width
            &&& next.y + next.height == greater(top, bottom) && greater(top, bottom) <= bounds.height
            &&& on_left(held) == (if left <= right {
                on_left(handle)
            } else {
                on_right(handle)
            })
            &&& on_right(held) == (if left <= right {
                on_right(handle)
            } else {
                on_left(handle)
            })
            &&& on_top(held) == (if top <= bottom {
                on_top(handle)
            } else {
                on_bottom(handle)
            })
            &&& on_bottom(held) == (if top <= bottom {
                on_bottom(handle)
            } else {
                on_top(handle)
            })
        }),
{
}

/// Where one side of a moved selection comes to rest: with its near end on the
/// output's if that is within eight pixels, else with its far end likewise, else on
/// the nearest pixel boundary; and never off the output.
pub open spec fn slid(v: int, extent: int, limit: int) -> int {
    if -2048 <= v <= 2048 {
        0
    } else if -2048 <= v + extent - limit <= 2048 {
        limit - extent
    } else if v < 0 {
        0
    } else if v + extent > limit {
        limit - extent
    } else {
        256 * ((v + 128) / 256)
    }
}

proof fn lemma_slid(rect: Rect, bounds: Rect)
    requires
        output_bounds(bounds),
        rect.width <= bounds.width,
        rect.height <= bounds.height,
        rect.width as int % 256 == 0,
        rect.height as int % 256 == 0,
        rect.x > i32::MIN,
        rect.x < i32::MAX,
        rect.y > i32::MIN,
        rect.y < i32::MAX,
    ensures
        spec_settle_position(rect, bounds).x == slid(
            rect.x as int,
            rect.width as int,
            bounds.width as int,
        ),
        spec_settle_position(rect, bounds).y == slid(
            rect.y as int,
            rect.height as int,
            bounds.height as int,
        ),
{
}

/// Dragging a selection moves it by as much as the pointer goes, each side brought to
/// rest on the output; its size stays.
pub proof fn law_moving_follows_the_pointer(
    s: Selecting,
    raw: RawPoint,
    p: Point,
    grab: Point,
    origin: Rect,
)
    requires
        s.wf(),
        s.drag == (Drag::Moving { grab, origin }),
        s.bounds.spec_contains(grab),
        points_at(s, raw, p),
    ensures
        ({
            let t = s.after(Message::CursorMoved(raw));
            &&& t.drag == s.drag
            &&& t.selection is Some
            &&& (t.selection->0).width == origin.width
            &&& (t.selection->0).height == origin.height
            &&& origin.x + p.x - grab.x < i32::MAX ==> (t.selection->0).x == slid(
                origin.x + p.x - grab.x,
                origin.width as int,
                s.bounds.width as int,
            )
            &&& origin.y + p.y - grab.y < i32::MAX ==> (t.selection->0).y == slid(
                origin.y + p.y - grab.y,
                origin.height as int,
                s.bounds.height as int,
            )
        }),
{
    lemma_points_at(s, raw, p);
    let x = origin.x + p.x - grab.x;
    let y = origin.y + p.y - grab.y;
    let rect = Rect {
        x: if x < i32::MAX {
            x as i32
        } else {
            0
        },
        y: if y < i32::MAX {
            y as i32
        } else {
            0
        },
        ..origin
    };
    lemma_slid(rect, s.bounds);
}

/// Of a drag that selects or moves, only its two ends count: wherever the pointer went on
/// the way, the selection is the same.
pub proof fn law_the_way_of_a_drag_is_irrelevant(s: Selecting, via: RawPoint, to: RawPoint)
    requires
        s.drag is Creating || s.drag is Moving,
    ensures
        s.after(Message::CursorMoved(via)).after(Message::CursorMoved(to)) == s.after(
            Message::CursorMoved(to),
        ),
        s.after(Message::CursorMoved(via)).drag == s.drag,
{
}

/// Only a drag moves with the pointer, only a press begins one, and a release ends it.
/// What the release leaves is the selection as it was, if it is four pixels or more
/// each way.
pub proof fn law_gestures_begin_and_end(s: Selecting, raw: RawPoint)
    ensures
        s.drag is Idle ==> s.after(Message::CursorMoved(raw)).selection == s.selection && s.after(
            Message::CursorMoved(raw),
        ).drag is Idle,
        s.after(Message::CursorMoved(raw)).cursor == Some(raw),
        s.cursor is None ==> s.after(Message::Pressed) == s,
        s.after(Message::Released).drag is Idle,
        s.after(Message::Released).selection == (match s.selection {
            Some(r) => if r.width >= 1024 && r.height >= 1024 {
                Some(r)
            } else {
                None
            },
            None => None,
        }),
{
}

/// The pointer shows what a press would do: a hand where it would move the selection, a
/// cross where it would begin a new one, and an arrow along the way that the handle
/// under it moves.
pub proof fn law_the_pointer_tells_what_a_press_does(s: Selecting, raw: RawPoint)
    requires
        s.cursor == Some(raw),
    ensures
        ({
            let looks = s.looks_at(raw);
            match s.after(Message::Pressed).drag {
                Drag::Resizing { handle } => {
                    let h = on_left(handle) || on_right(handle);
                    let v = on_top(handle) || on_bottom(handle);
                    &&& looks is ResizingHorizontally <==> h && !v
                    &&& looks is ResizingVertically <==> v && !h
                    &&& looks is ResizingDiagonallyDown <==> h && v && on_left(handle) == on_top(
                        handle,
                    )
                    &&& looks is ResizingDiagonallyUp <==> h && v && on_left(handle) != on_top(
                        handle,
                    )
                },
                Drag::Moving { grab, origin } => looks is Grab,
                Drag::Creating { anchor } => looks is Crosshair,
                Drag::Idle => true,
            }
        }),
{
}

/// Escape leaves without a capture in every state, Enter takes the selection if there
/// is one, and neither changes anything else.
pub proof fn law_keys_end_the_selection(s: Selecting, captured: bool)
    ensures
        spec_message_from_event(InputEvent::EscapePressed, captured) matches Some(m) && s.answer(m)
            == Action::Cancel && s.after(m) == s,
        spec_message_from_event(InputEvent::EnterPressed, captured) matches Some(m) && s.after(m)
            == s && (s.answer(m) is Confirm <==> s.selection is Some) && (s.selection is None
            ==> s.answer(m) is Nothing),
{
}

/// The pointer's events do what the pointer did: motion moves the cursor there, a
/// press that no button took begins a drag, a release ends it. A press that a button
/// took does nothing here.
pub proof fn law_pointer_events_reach_the_selection(event: InputEvent, captured: bool)
    ensures
        ({
            let meant = spec_message_from_event(event, captured);
            match event {
                InputEvent::CursorMoved(raw) => meant == Some(Message::CursorMoved(raw)),
                InputEvent::LeftPressed => if captured {
                    meant is None
                } else {
                    meant == Some(Message::Pressed)
                },
                InputEvent::LeftReleased => meant == Some(Message::Released),
                InputEvent::Other => meant is None,
                _ => true,
            }
        }),
{
}

/// The pointer asks for nothing by itself: only a confirmation, a cancellation or a button
/// ends the selection.
pub proof fn law_the_pointer_asks_for_nothing(s: Selecting, raw: RawPoint)
    ensures
        s.answer(Message::CursorMoved(raw)) is Nothing,
        s.answer(Message::Pressed) is Nothing,
        s.answer(Message::Released) is Nothing,
        s.answer(Message::ToolbarPressed) is Nothing,
{
}

/// The buttons take the whole output, or the window that has the focus if there is
/// one.
pub proof fn law_buttons_take_the_output_or_the_window(s: Selecting)
    ensures
        s.answer(Message::SelectFullOutput) == Action::Confirm(s.logical),
        s.answer(Message::SelectWindow) == (match s.focused_window {
            Some(window) => Action::ConfirmWindow(window),
            None => Action::Nothing,
        }),
        s.answer(Message::Cancel) == Action::Cancel,
        s.answer(Message::ToolbarPressed) == Action::Nothing,
{
}

/// The toolbar has a button to take the selection, one to leave, one to take the whole
/// output and one to take the focused window, in that order; each that can be pressed
/// does so, and one cannot be pressed exactly where there is nothing for it to take.
pub proof fn law_the_toolbar_does_what_it_offers(s: Selecting)
    ensures
        ({
            let bar = spec_toolbar(s.selection is Some, s.focused_window is Some);
            &&& bar.len() == 4
            &&& bar[0].name is Capture && bar[1].name is Cancel && bar[2].name is FullScreen
                && bar[3].name is Window
            &&& bar[0].message is Some <==> s.selection is Some
            &&& bar[0].message matches Some(m) ==> s.answer(m) is Confirm && s.after(m) == s
                && m is Confirm
            &&& bar[1].message matches Some(m) && s.answer(m) == Action::Cancel
            &&& bar[2].message matches Some(m) && s.answer(m) == Action::Confirm(s.logical)
                && m is SelectFullOutput
            &&& bar[3].message is Some <==> s.focused_window is Some
            &&& bar[3].message matches Some(m) ==> s.answer(m) == Action::ConfirmWindow(
                s.focused_window->0,
            )
        }),
{
}

/// Whether `n` is the whole number nearest to `v * scale / 120`.
pub open spec fn is_scaled(v: int, scale: int, n: int) -> bool {
    -60 <= 120 * n - v * scale <= 60
}

proof fn lemma_scaled(v: int, scale: int)
    requires
        scale >= 0,
    ensures
        is_scaled(v, scale, spec_scaled(v, scale)),
{
    let p = v * scale;
    if v >= 0 {
        assert((p + 60) / 120 * 120 <= p + 60 < (p + 60) / 120 * 120 + 120);
    } else {
        assert((60 - p) / 120 * 120 <= 60 - p < (60 - p) / 120 * 120 + 120);
    }
}

/// The readout counts the pixels of the output that the selection takes: on each axis
/// from the pixel nearest to its near edge to the one nearest to its far edge, at the
/// output's scale.
pub proof fn law_readout_counts_the_pixels(s: Selecting, r: Rect)
    requires
        s.wf(),
        s.selection == Some(r),
        r.width > 0,
        r.height > 0,
        s.scale > 0,
        s.logical.x + s.bounds.width as int / 256 <= i32::MAX,
        s.logical.y + s.bounds.height as int / 256 <= i32::MAX,
        (s.bounds.width as int / 256) * s.scale <= 0x7fff_ffff,
        (s.bounds.height as int / 256) * s.scale <= 0x7fff_ffff,
    ensures
        exists|left: int, right: int| #[trigger]
            is_scaled(r.x as int / 256, s.scale as int, left) && #[trigger] is_scaled(
                (r.x + r.width) / 256,
                s.scale as int,
                right,
            ) && spec_readout_size(r, s).0 == right - left,
        exists|top: int, bottom: int| #[trigger]
            is_scaled(r.y as int / 256, s.scale as int, top) && #[trigger] is_scaled(
                (r.y + r.height) / 256,
                s.scale as int,
                bottom,
            ) && spec_readout_size(r, s).1 == bottom - top,
{
    let k = s.scale as int;
    lemma_axis_readout(r.x as int, r.width as int, s.bounds.width as int, k);
    lemma_axis_readout(r.y as int, r.height as int, s.bounds.height as int, k);
    let left = spec_scaled(r.x as int / 256, k);
    let right = spec_scaled((r.x + r.width) / 256, k);
    let top = spec_scaled(r.y as int / 256, k);
    let bottom = spec_scaled((r.y + r.height) / 256, k);
    assert(is_scaled(r.x as int / 256, k, left) && is_scaled((r.x + r.width) / 256, k, right));
    assert(is_scaled(r.y as int / 256, k, top) && is_scaled((r.y + r.height) / 256, k, bottom));
    let l = spec_to_logical(r, s.logical);
    assert(l.x - s.logical.x == r.x as int / 256 && l.width == r.width as int / 256);
    assert(l.y - s.logical.y == r.y as int / 256 && l.height == r.height as int / 256);
    assert(spec_pixel_size(l, s.logical, s.scale) == Some(
        ((right - left) as u32, (bottom - top) as u32),
    ));
}

proof fn lemma_axis_readout(at: int, extent: int, limit: int, scale: int)
    requires
        0 <= at,
        0 <= extent,
        at + extent <= limit,
        scale > 0,
        (limit / 256) * scale <= 0x7fff_ffff,
    ensures
        ({
            let near = spec_scaled(at / 256, scale);
            let far = spec_scaled((at + extent) / 256, scale);
            &&& is_scaled(at / 256, scale, near)
            &&& is_scaled((at + extent) / 256, scale, far)
            &&& 0 <= near <= far <= 0x7fff_ffff
        }),
{
    let a = at / 256;
    let b = (at + extent) / 256;
    let c = limit / 256;
    lemma_scaled(a, scale);
    lemma_scaled(b, scale);
    assert(0 <= a * scale <= b * scale <= c * scale) by (nonlinear_arith)
        requires
            0 <= a <= b <= c,
            scale > 0,
    ;
}

/// Without a scale the readout counts logical pixels.
pub proof fn law_readout_without_a_scale(s: Selecting, r: Rect)
    requires
        s.wf(),
        s.selection == Some(r),
        r.width > 0,
        r.height > 0,
        s.scale == 0,
    ensures
        256 * spec_readout_size(r, s).0 == r.width,
        256 * spec_readout_size(r, s).1 == r.height,
{
}

/// The readout stands a gap above the selection where there is room for it, else a gap
/// below its top edge, level with its left edge as far as the output reaches, and
/// never off the output.
pub proof fn law_readout_stands_by_the_selection(r: Rect, bounds: Rect, gap: u32, height: u32)
    requires
        output_bounds(bounds),
        0 <= r.x,
        r.x + r.width <= bounds.width,
        0 <= r.y,
        r.y + r.height <= bounds.height,
    ensures
        ({
            let (x, y) = spec_readout_place(r, bounds, gap, height);
            &&& 0 <= x <= bounds.width && 0 <= y <= bounds.height
            &&& r.y >= gap + height ==> y + height + gap == r.y
            &&& r.y < gap + height && r.y + gap <= bounds.height ==> y == r.y + gap
            &&& r.x + 34816 <= bounds.width ==> x == r.x
            &&& r.x + 34816 > bounds.width && bounds.width >= 34816 ==> x + 34816 == bounds.width
        }),
{
}

/// A value brought into a range is itself where it is in it, else the nearer end. A range
/// that runs backwards, or lacks its high end, and a value that is none, give the low
/// end; without one, zero.
pub proof fn law_a_value_is_brought_into_its_range(v: i64, lo: i64, hi: i64, most: Option<i64>)
    ensures
        ({
            let r = spec_clamp_value(Some(v), Some(lo), Some(hi));
            &&& lo <= hi ==> lo <= r <= hi && (lo <= v <= hi ==> r == v) && (v < lo ==> r == lo) && (
            v > hi ==> r == hi)
            &&& hi < lo ==> r == lo
        }),
        spec_clamp_value(None, Some(lo), most) == lo,
        spec_clamp_value(Some(v), Some(lo), None) == lo,
        spec_clamp_value(Some(v), None, most) == 0,
        spec_clamp_value(None, None, most) == 0,
{
}

} // verus!
