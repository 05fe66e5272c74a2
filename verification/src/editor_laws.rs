//! Laws of an editing session: what undo restores, what a click leaves alone,
//! what is never reused.
use vstd::prelude::*;

use crate::blur::law_blur_stays_inside;
use crate::compose::Mark;
use crate::editor::{
    BLUR_RADIUS_PX, Gesture, PIXELATE_BLOCK_PX, Sheet, cropped_marks, far_side, on_canvas, redacted,
    spec_clamp_to_canvas, topmost,
};
use crate::pixmap::Picture;
use crate::redact::{law_pixelate_stays_inside, under_rect};
use crate::shapes::{Figure, RedactKind, law_translate_by_nothing, spec_bounds, spec_dist_sq};
use crate::units::{Offset, PixelRect, RawPoint};

verus! {

/// Undoing a change brings back exactly the canvas and the annotations from
/// before it, and leaves as much to undo as there was before.
pub proof fn law_undo_restores(before: Sheet, after: Sheet)
    requires
        after.undo == before.undo.push(before.version()),
    ensures
        after.undone().canvas == before.canvas,
        after.undone().annotations == before.annotations,
        after.undone().undo == before.undo,
        after.undone().redo.len() > 0,
{
    assert(after.undone().undo =~= before.undo);
}

/// Something that may change the canvas or the annotations so that it can be
/// undone.
pub enum Change {
    Press(RawPoint),
    Release(RawPoint),
    Delete,
    Crop,
}

/// The session after it.
pub open spec fn changed(s: Sheet, change: Change) -> Sheet {
    match change {
        Change::Press(raw) => s.pressed(raw),
        Change::Release(raw) => s.released(raw),
        Change::Delete => s.without_selected(),
        Change::Crop => s.with_crop(),
    }
}

/// Undo takes back the last change. Whatever changes the canvas or the
/// annotations is remembered, and undoing what was remembered brings back the
/// canvas and the annotations from before it, leaves it to be redone, and leaves
/// nothing selected or pending. Where there is nothing to undo, undoing changes
/// nothing.
pub proof fn law_undo_takes_back_a_change(s: Sheet, change: Change)
    ensures
        changed(s, change).version() != s.version() ==> changed(s, change).undo != s.undo,
        changed(s, change).undo != s.undo ==> ({
            let back = changed(s, change).undone();
            &&& changed(s, change).undo == s.undo.push(s.version())
            &&& back.version() == s.version()
            &&& back.undo == s.undo
            &&& back.redo.len() == 1
            &&& back.selected is None
            &&& back.pending_crop is None
        }),
        s.undo.len() == 0 ==> s.undone() == s,
{
    let raw = match change {
        Change::Press(raw) => raw,
        Change::Release(raw) => raw,
        _ => RawPoint { x: None, y: None },
    };
    law_changes_are_remembered(s, raw);
    law_only_remembered_changes(s, raw);
    let t = changed(s, change);
    if t.undo != s.undo {
        assert(t.undo == s.undo.push(s.version()) && t.redo.len() == 0);
        law_undo_restores(s, t);
    }
}

/// Redoing what was just undone brings back the session, but for what undo
/// drops: the selection, the pending crop and the gesture.
pub proof fn law_undo_redo_round_trips(s: Sheet)
    requires
        s.undo.len() > 0,
    ensures
        s.undone().redone() == (Sheet {
            selected: None,
            pending_crop: None,
            gesture: Gesture::Idle,
            ..s
        }),
{
    let back = s.undone();
    assert(back.redone().undo =~= s.undo);
    assert(back.redone().redo =~= s.redo);
}

/// Undoing what was just redone does the same the other way round.
pub proof fn law_redo_undo_round_trips(s: Sheet)
    requires
        s.redo.len() > 0,
    ensures
        s.redone().undone() == (Sheet {
            selected: None,
            pending_crop: None,
            gesture: Gesture::Idle,
            ..s
        }),
{
    let on = s.redone();
    assert(on.undone().undo =~= s.undo);
    assert(on.undone().redo =~= s.redo);
}

/// Whether `after` is `before` with its version remembered and nothing left to
/// redo, or with both stacks as they were.
pub open spec fn stacks_kept_or_pushed(before: Sheet, after: Sheet) -> bool {
    ||| (after.undo == before.undo && after.redo == before.redo)
    ||| (after.undo == before.undo.push(before.version()) && after.redo.len() == 0)
}

/// Every change that can be undone remembers the version before it and clears
/// what could be redone; every other step leaves both stacks alone.
pub proof fn law_changes_are_remembered(s: Sheet, raw: RawPoint)
    ensures
        stacks_kept_or_pushed(s, s.pressed(raw)),
        stacks_kept_or_pushed(s, s.released(raw)),
        stacks_kept_or_pushed(s, s.without_selected()),
        stacks_kept_or_pushed(s, s.with_crop()),
{
}

/// A step that adds nothing to undo leaves the canvas and the annotations as
/// they are.
pub proof fn law_only_remembered_changes(s: Sheet, raw: RawPoint)
    ensures
        s.pressed(raw).undo == s.undo ==> s.pressed(raw).version() == s.version(),
        s.released(raw).undo == s.undo ==> s.released(raw).version() == s.version(),
        s.without_selected().undo == s.undo ==> s.without_selected().version() == s.version(),
        s.with_crop().undo == s.undo ==> s.with_crop().version() == s.version(),
{
    let n = s.undo.len();
    assert(s.undo.push(s.version()).len() == n + 1);
}

/// A click with the selection tool, pressed and released in one place, changes
/// neither the canvas nor an annotation, and gives nothing to undo.
pub proof fn law_click_to_select_changes_nothing(s: Sheet, raw: RawPoint)
    requires
        s.tool is Select,
    ensures
        s.pressed(raw).released(raw).version() == s.version(),
        s.pressed(raw).released(raw).undo == s.undo,
        s.pressed(raw).released(raw).redo == s.redo,
        s.pressed(raw).released(raw).selected == topmost(s.annotations, s.onto(raw)),
{
    let down = s.pressed(raw);
    match down.gesture {
        Gesture::Moving { id, grab, origin, preview } => {
            law_translate_by_nothing(origin);
        },
        _ => {},
    }
}

/// A click with a drawing, cropping or redacting tool, pressed and released in
/// one place, changes nothing.
pub proof fn law_click_draws_nothing(s: Sheet, raw: RawPoint)
    requires
        s.tool is Arrow || s.tool is Rectangle || s.tool is Ellipse || s.tool is Freehand
            || s.tool is Crop || s.tool is Blur || s.tool is Pixelate,
    ensures
        s.pressed(raw).released(raw).version() == s.version(),
        s.pressed(raw).released(raw).undo == s.undo,
        s.pressed(raw).released(raw).redo == s.redo,
{
    let p = s.onto(raw);
    assert(spec_dist_sq(p.x as int, p.y as int, p.x as int, p.y as int) == 0);
    assert(seq![p].last() == p);
}

/// A caption or a badge is placed by the press alone; the release adds nothing.
pub proof fn law_placing_needs_no_drag(s: Sheet, raw: RawPoint, later: RawPoint)
    requires
        s.tool is Text || s.tool is Step,
    ensures
        s.pressed(raw).annotations.len() == s.annotations.len() + 1,
        s.pressed(raw).released(later).annotations == s.pressed(raw).annotations,
        s.pressed(raw).released(later).undo == s.pressed(raw).undo,
{
}

/// A badge gets the next number, and that number is never given again: every
/// step keeps the counter, but for placing a badge, which raises it.
pub proof fn law_badge_numbers_are_never_reused(s: Sheet, raw: RawPoint)
    requires
        s.has_room(),
    ensures
        s.tool is Step ==> s.pressed(raw).next_step == s.next_step + 1
            && s.pressed(raw).annotations.last().shape == (Figure::Step {
            position: s.onto(raw),
            number: s.next_step,
        }),
        !(s.tool is Step) ==> s.pressed(raw).next_step == s.next_step,
        s.released(raw).next_step == s.next_step,
        s.pointed(raw).next_step == s.next_step,
        s.without_selected().next_step == s.next_step,
        s.with_crop().next_step == s.next_step,
        s.undone().next_step == s.next_step,
        s.redone().next_step == s.next_step,
{
}

/// Ids only ever grow.
pub proof fn law_ids_are_never_reused(s: Sheet, raw: RawPoint)
    requires
        s.has_room(),
    ensures
        s.pressed(raw).next_id >= s.next_id,
        s.released(raw).next_id >= s.next_id,
        s.without_selected().next_id == s.next_id,
        s.with_crop().next_id == s.next_id,
        s.undone().next_id == s.next_id,
        s.redone().next_id == s.next_id,
{
}

/// The pointer is always on the canvas.
pub proof fn law_pointer_stays_on_canvas(raw: RawPoint, width: u32, height: u32)
    ensures
        0 <= spec_clamp_to_canvas(raw, width, height).x <= far_side(width),
        0 <= spec_clamp_to_canvas(raw, width, height).y <= far_side(height),
{
}

/// After a crop every annotation touches the canvas.
pub proof fn law_crop_keeps_what_is_visible(list: Seq<Mark>, d: Offset, width: u32, height: u32)
    ensures
        forall|i: int|
            0 <= i < cropped_marks(list, d, width, height).len() ==> on_canvas(
                spec_bounds((#[trigger] cropped_marks(list, d, width, height)[i]).shape),
                width,
                height,
            ),
        cropped_marks(list, d, width, height).len() <= list.len(),
    decreases list.len(),
{
    if list.len() > 0 {
        law_crop_keeps_what_is_visible(list.drop_last(), d, width, height);
    }
}

/// Once a crop is applied there is none pending, and applying again does
/// nothing.
pub proof fn law_crop_applies_once(s: Sheet)
    requires
        s.crop_applies(),
    ensures
        s.with_crop().pending_crop is None,
        !s.with_crop().crop_applies(),
        s.with_crop().with_crop() == s.with_crop(),
{
}

/// A redaction changes no byte outside its rectangle, and keeps the picture's
/// dimensions.
pub proof fn law_redaction_stays_inside(p: Picture, kind: RedactKind, rect: PixelRect)
    ensures
        redacted(p, kind, rect).width == p.width,
        redacted(p, kind, rect).height == p.height,
        redacted(p, kind, rect).pixels.len() == p.pixels.len(),
        forall|i: int|
            0 <= i < p.pixels.len() && !under_rect(
                p.pixels.len() as int,
                p.width as int,
                p.height as int,
                rect,
                i,
            ) ==> #[trigger] redacted(p, kind, rect).pixels[i] == p.pixels[i],
{
    law_blur_stays_inside(
        p.pixels,
        p.width as int,
        p.height as int,
        rect,
        BLUR_RADIUS_PX as int,
    );
    law_pixelate_stays_inside(
        p.pixels,
        p.width as int,
        p.height as int,
        rect,
        PIXELATE_BLOCK_PX as int,
    );
}

/// Restyling changes no geometry but a caption's size: it gives nothing to undo.
pub proof fn law_restyling_is_not_remembered(
    s: Sheet,
    color: crate::shapes::AnnotationColor,
    width: crate::shapes::StrokeWidth,
    size: u32,
    words: Seq<char>,
)
    ensures
        s.with_color(color).undo == s.undo,
        s.with_width(width).undo == s.undo,
        s.with_text_size(size).undo == s.undo,
        s.with_text_content(words).undo == s.undo,
        s.with_color(color).annotations.len() == s.annotations.len(),
        s.with_width(width).annotations.len() == s.annotations.len(),
        s.with_text_size(size).annotations.len() == s.annotations.len(),
        s.with_text_content(words).annotations.len() == s.annotations.len(),
{
}

} // verus!
