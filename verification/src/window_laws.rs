//! What the windows do: what a press asks for, what an answer changes, told by what is
//! seen in them.
use vstd::prelude::*;
use vstd::string::*;

use crate::app::{
    AudioChoice, CaptureMode, Choice, Errand, Front, Message as AppMessage, Row, Screen, Selections,
};
use crate::cli::{
    CastTarget, CliRunError, RecordKind, RecordOptions, RecordStep, ShotKind, reported,
    spec_record_step,
};
use crate::config::{AudioSource, CaptureConfig, VideoPreset};
use crate::editor::Version;
use crate::editor_state::{Desk, EditorButton, Message as DeskMessage, Wish};
use crate::export::spec_quality;
use crate::history::{HistoryItem, name_or_path, size_label};
use crate::imaging::ImageFormat;
use crate::library::{
    AnimatedFormat, Library, Message, Request, RowAction, RowButton, is_path, item_at, row_buttons,
    without_path,
};
use crate::overlay::ToolbarName;
use crate::path_laws::{law_the_extension_asks_for_the_format, same_letters};
use crate::paths::{extension_of, same_path_as};
use crate::picker::hex_text;
use crate::shapes::{AnnotationColor, StrokeWidth, TextSizeScale, TextSizeStop, Tool};
use crate::text::trimmed_text;
use crate::units::RawPoint;

verus! {

/// Whether item `i` is the first at a path.
pub open spec fn is_first_at(l: Library, path: Seq<char>, i: int) -> bool {
    &&& 0 <= i < l.items.len()
    &&& same_path_as(l.items[i].spec_path()@, path)
    &&& forall|j: int|
        0 <= j < i ==> !same_path_as((#[trigger] l.items[j]).spec_path()@, path)
}

/// Whether no item is at a path.
pub open spec fn none_at(l: Library, path: Seq<char>) -> bool {
    forall|j: int|
        0 <= j < l.items.len() ==> !same_path_as((#[trigger] l.items[j]).spec_path()@, path)
}

proof fn lemma_first_at(items: Seq<HistoryItem>, path: Seq<char>, from: int, i: int)
    requires
        0 <= from <= i < items.len(),
        same_path_as(items[i].spec_path()@, path),
        forall|j: int|
            from <= j < i ==> !same_path_as((#[trigger] items[j]).spec_path()@, path),
    ensures
        item_at(items, path, from) == Some(items[i]),
    decreases i - from,
{
    if from < i {
        assert(!same_path_as(items[from].spec_path()@, path));
        lemma_first_at(items, path, from + 1, i);
    }
}

proof fn lemma_none_at(items: Seq<HistoryItem>, path: Seq<char>, from: int)
    requires
        0 <= from <= items.len(),
        forall|j: int|
            from <= j < items.len() ==> !same_path_as((#[trigger] items[j]).spec_path()@, path),
    ensures
        item_at(items, path, from) is None,
    decreases items.len() - from,
{
    if from < items.len() {
        assert(!same_path_as(items[from].spec_path()@, path));
        lemma_none_at(items, path, from + 1);
    }
}

/// What a row asks for is about its own item: opening edits a screenshot and shows the
/// folder of a recording, copying copies a screenshot and refuses a recording, deleting
/// takes the item and what is saved beside it.
pub proof fn law_a_row_asks_about_its_item(l: Library, path: String, i: int)
    requires
        is_first_at(l, path@, i),
    ensures
        ({
            let open = Message::OpenRequested(path);
            let copy = Message::CopyRequested(path);
            let delete = Message::DeleteConfirmed(path);
            &&& l.after(open) == l
            &&& l.after(delete).items == l.items && l.after(delete).pending_delete is None
            &&& match l.items[i] {
                HistoryItem::Screenshot(entry) => {
                    &&& l.answer(open) == Request::Edit(entry.path@)
                    &&& l.answer(copy) == Request::Copy(path@) && l.after(copy) == l
                    &&& l.answer(delete) == (Request::Delete {
                        path: path@,
                        sidecar: match entry.png_sidecar {
                            Some(beside) => Some(beside@),
                            None => None,
                        },
                    })
                },
                HistoryItem::Recording(file) => {
                    &&& l.answer(open) == Request::OpenDir(file.path@)
                    &&& l.answer(copy) is Nothing
                    &&& l.after(copy).feedback == Some(
                        Err::<Seq<char>, Seq<char>>("Recordings can't be copied to the clipboard"@),
                    )
                    &&& l.after(copy).items == l.items
                    &&& l.answer(delete) == (Request::Delete { path: path@, sidecar: None })
                },
            }
        }),
{
    lemma_first_at(l.items, path@, 0, i);
}

/// Nothing comes of a request about an item that is not there.
pub proof fn law_a_row_that_is_gone_asks_nothing(l: Library, path: String)
    requires
        none_at(l, path@),
    ensures
        l.answer(Message::OpenRequested(path)) is Nothing,
        l.answer(Message::CopyRequested(path)) is Nothing,
        l.after(Message::CopyRequested(path)) == l,
        l.answer(Message::DeleteConfirmed(path)) is Nothing,
{
    lemma_none_at(l.items, path@, 0);
}

/// A deletion is asked for, then confirmed or cancelled, and takes its item out once the
/// file is gone: that item, and no other. A deletion that failed takes none.
pub proof fn law_a_deletion_takes_out_its_item(
    l: Library,
    path: String,
    why: String,
)
    ensures
        l.after(Message::DeleteRequested(path)) == (Library { pending_delete: Some(path@), ..l }),
        l.answer(Message::DeleteRequested(path)) is Nothing,
        l.after(Message::DeleteCancelled) == (Library { pending_delete: None, ..l }),
        l.answer(Message::DeleteCancelled) is Nothing,
        l.after(Message::DeleteFinished(path, Ok(()))).items == l.items.filter(
            |item: HistoryItem| !same_path_as(item.spec_path()@, path@),
        ),
        l.after(Message::DeleteFinished(path, Ok(()))).feedback == Some(
            Ok::<Seq<char>, Seq<char>>("Deleted"@),
        ),
        l.after(Message::DeleteFinished(path, Err(why))) == (Library {
            feedback: Some(Err(why@)),
            ..l
        }),
{
    lemma_without_is_a_filter(l.items, path@);
}

proof fn lemma_without_is_a_filter(items: Seq<HistoryItem>, path: Seq<char>)
    ensures
        without_path(items, path) == items.filter(
            |item: HistoryItem| !same_path_as(item.spec_path()@, path),
        ),
    decreases items.len(),
{
    reveal(Seq::filter);
    let other = |item: HistoryItem| !same_path_as(item.spec_path()@, path);
    if items.len() > 0 {
        lemma_without_is_a_filter(items.drop_last(), path);
        assert(other(items.last()) == !same_path_as(items.last().spec_path()@, path));
    }
    assert(without_path(items, path) =~= items.filter(other));
}

/// An export is asked for in the format that was pressed, of the file it was pressed on,
/// and what came of it is told.
pub proof fn law_an_export_is_of_what_was_pressed(
    l: Library,
    path: String,
    format: AnimatedFormat,
    out: String,
    bytes: u64,
    why: String,
)
    ensures
        l.exporting is None ==> l.answer(Message::ExportRequested(path, format)) == (
        Request::Export { source: path@, format }) && l.after(
            Message::ExportRequested(path, format),
        ) == (Library { exporting: Some(path@), ..l }),
        l.after(Message::ExportFinished(path, Ok((out, bytes)))).feedback == Some(
            Ok::<Seq<char>, Seq<char>>(
                "Exported "@ + name_or_path(out@) + " ("@ + size_label(bytes) + ")"@,
            ),
        ),
        l.after(Message::ExportFinished(path, Err(why))).feedback == Some(
            Err::<Seq<char>, Seq<char>>(why@),
        ),
        l.after(Message::ExportFinished(path, Err(why))).items == l.items,
        l.answer(Message::ExportFinished(path, Err(why))) is Nothing,
{
}

/// The other requests: to load anew, and to show the folder that a file is in. What came
/// of a copy is told.
pub proof fn law_the_library_passes_requests_on(l: Library, path: String, why: String)
    ensures
        l.answer(Message::Refresh) is Reload,
        l.after(Message::Refresh) == l,
        l.answer(Message::ShowInFolderRequested(path)) == Request::OpenDir(path@),
        l.after(Message::ShowInFolderRequested(path)) == l,
        l.after(Message::CopyFinished(Ok(()))) == (Library {
            feedback: Some(Ok("Copied to clipboard"@)),
            ..l
        }),
        l.after(Message::CopyFinished(Err(why))) == (Library { feedback: Some(Err(why@)), ..l }),
        l.answer(Message::CopyFinished(Err(why))) is Nothing,
{
}

/// Whether a row has a button for an action, and it can be pressed.
pub open spec fn offers(row: Seq<RowButton>, action: RowAction) -> bool {
    exists|k: int| 0 <= k < row.len() && (#[trigger] row[k]).action == action && row[k].enabled
}

/// While a deletion is pending a row offers to confirm and to cancel it, and nothing
/// else. At other times it offers to open and to delete, a screenshot to copy it and to
/// show its folder, a recording to export it, unless that is being done.
pub proof fn law_a_row_offers_what_fits(
    recording: bool,
    deleting: bool,
    exporting: bool,
    format: AnimatedFormat,
)
    ensures
        ({
            let row = row_buttons(recording, deleting, exporting);
            &&& offers(row, RowAction::ConfirmDelete) <==> deleting
            &&& offers(row, RowAction::CancelDelete) <==> deleting
            &&& offers(row, RowAction::Open) <==> !deleting
            &&& offers(row, RowAction::Delete) <==> !deleting
            &&& offers(row, RowAction::Copy) <==> !deleting && !recording
            &&& offers(row, RowAction::ShowInFolder) <==> !deleting && !recording
            &&& offers(row, RowAction::Export(format)) <==> !deleting && recording && !exporting
        }),
{
    let row = row_buttons(recording, deleting, exporting);
    if deleting {
        assert(row[0].action is ConfirmDelete && row[1].action is CancelDelete);
    } else if recording {
        assert(row[0].action is Open && row[1].action == RowAction::Export(AnimatedFormat::Gif)
            && row[2].action == RowAction::Export(AnimatedFormat::AnimatedWebp)
            && row[3].action is Delete);
        if !exporting {
            assert(row[1].enabled && row[2].enabled);
        }
    } else {
        assert(row[0].action is Open && row[1].action is Copy && row[2].action is ShowInFolder
            && row[3].action is Delete);
    }
}

/// Every tool button and every movement of the pointer does to the session what it says
/// and nothing to the rest of the window.
pub proof fn law_editing_changes_the_session(d: Desk, m: DeskMessage)
    ensures
        ({
            let e = d.after(m);
            match m {
                DeskMessage::ToolSelected(tool) => e == (Desk {
                    sheet: d.sheet.with_tool(tool),
                    ..d
                }),
                DeskMessage::ColorSelected(color) => e == (Desk {
                    sheet: d.sheet.with_color(color),
                    ..d
                }),
                DeskMessage::WidthSelected(width) => e == (Desk {
                    sheet: d.sheet.with_width(width),
                    ..d
                }),
                DeskMessage::PointerMoved(p) => e == (Desk { sheet: d.sheet.pointed(p), ..d }),
                DeskMessage::Pressed(p) => e == (Desk { sheet: d.sheet.pressed(p), ..d }),
                DeskMessage::Released(p) => e == (Desk { sheet: d.sheet.released(p), ..d }),
                DeskMessage::TextContentChanged(text) => e == (Desk {
                    sheet: d.sheet.with_text_content(text@),
                    ..d
                }),
                _ => true,
            }
        }),
{
}

/// The undo button brings back the version before the last change, and the redo button
/// the one after it; each can be taken back by the other.
pub proof fn law_undo_and_redo_do_what_they_say(d: Desk)
    ensures
        ({
            let s = d.sheet;
            let t = d.after(EditorButton::Undo.spec_message()).sheet;
            &&& s.undo.len() > 0 ==> t.version() == s.undo.last() && t.undo == s.undo.drop_last()
                && t.redo == s.redo.push(s.version())
            &&& s.undo.len() == 0 ==> t.version() == s.version()
        }),
        ({
            let s = d.sheet;
            let t = d.after(EditorButton::Redo.spec_message()).sheet;
            &&& s.redo.len() > 0 ==> t.version() == s.redo.last() && t.redo == s.redo.drop_last()
                && t.undo == s.undo.push(s.version())
            &&& s.redo.len() == 0 ==> t.version() == s.version()
        }),
{
    let s = d.sheet;
    if s.undo.len() > 0 {
        let last = s.undo.last();
        assert(s.undone().version() == Version {
            canvas: last.canvas,
            annotations: last.annotations,
        });
    }
    if s.redo.len() > 0 {
        let last = s.redo.last();
        assert(s.redone().version() == Version {
            canvas: last.canvas,
            annotations: last.annotations,
        });
    }
}

/// The other buttons above the canvas take out what is selected, and apply or drop the
/// crop.
pub proof fn law_buttons_do_what_they_say(d: Desk, button: EditorButton)
    ensures
        ({
            let t = d.after(button.spec_message());
            &&& button is Delete ==> t == (Desk { sheet: d.sheet.without_selected(), ..d })
            &&& button is ApplyCrop ==> t == (Desk { sheet: d.sheet.with_crop(), ..d })
            &&& button is CancelCrop ==> t.sheet.pending_crop is None && t.sheet.version()
                == d.sheet.version()
        }),
{
}

/// The size that a button asks for is the theme's for it.
pub proof fn law_text_sizes_are_the_themes(d: Desk)
    ensures
        ({
            let least = |size: u32|
                if size < 256 {
                    256u32
                } else {
                    size
                };
            &&& d.after(DeskMessage::TextSizeSelected(TextSizeStop::Small)).sheet.text_size == least(
                d.text_sizes.small,
            )
            &&& d.after(DeskMessage::TextSizeSelected(TextSizeStop::Medium)).sheet.text_size
                == least(d.text_sizes.medium)
            &&& d.after(DeskMessage::TextSizeSelected(TextSizeStop::Large)).sheet.text_size == least(
                d.text_sizes.large,
            )
        }),
{
}

/// Whether a format is the one that a path asks for, or the one chosen where the path
/// asks for none.
pub open spec fn is_asked(path: Seq<char>, chosen: ImageFormat, format: ImageFormat) -> bool {
    let png = extension_of(path) matches Some(ext) && same_letters(ext, seq!['p', 'n', 'g']);
    let webp = extension_of(path) matches Some(ext) && same_letters(
        ext,
        seq!['w', 'e', 'b', 'p'],
    );
    &&& png ==> format is Png
    &&& webp ==> format is Webp
    &&& !png && !webp ==> format == chosen
}

/// Saving goes to the file that is edited, saving under another name to the path that was
/// typed, without the white space around it; each in the format that its path asks for,
/// at the quality that was typed. Copying goes to no file.
pub proof fn law_a_save_goes_where_it_says(d: Desk, button: EditorButton)
    requires
        !d.busy,
    ensures
        ({
            let asked = d.answer(button.spec_message());
            let typed = trimmed_text(d.save_as);
            match button {
                EditorButton::Save => asked matches Wish::Save { target, format, quality }
                    && saves_to(d, d.path, target, format, quality),
                EditorButton::SaveAndCopy => asked matches Wish::SaveAndCopy {
                    target,
                    format,
                    quality,
                } && saves_to(d, d.path, target, format, quality),
                EditorButton::SaveAs => if typed.len() > 0 {
                    asked matches Wish::Save { target, format, quality } && saves_to(
                        d,
                        typed,
                        target,
                        format,
                        quality,
                    )
                } else {
                    asked is Nothing
                },
                EditorButton::Copy => asked is Copy,
                _ => asked is Nothing || asked is RefreshCanvas,
            }
        }),
{
    law_the_extension_asks_for_the_format(d.path, d.export_format);
    law_the_extension_asks_for_the_format(trimmed_text(d.save_as), d.export_format);
}

/// Whether a save goes to `path`, in the format that it asks for, at the quality that was
/// typed.
pub open spec fn saves_to(
    d: Desk,
    path: Seq<char>,
    target: Seq<char>,
    format: ImageFormat,
    quality: u8,
) -> bool {
    &&& target == path
    &&& is_asked(path, d.export_format, format)
    &&& quality == spec_quality(trimmed_text(d.quality_text), d.webp_quality)
}

/// While work goes on the window is busy; a save under an empty name is none.
pub proof fn law_work_keeps_the_window_busy(d: Desk, button: EditorButton)
    requires
        !d.busy,
    ensures
        d.after(button.spec_message()).busy <==> (button is Save || button is Copy
            || button is SaveAndCopy || (button is SaveAs && trimmed_text(d.save_as).len() > 0)),
        d.after(button.spec_message()).path == d.path,
{
}

/// What was chosen for saving is what it says, and changes nothing else.
pub proof fn law_choices_for_saving_are_kept(d: Desk, format: ImageFormat, text: String)
    ensures
        d.after(DeskMessage::ExportFormatSelected(format)) == (Desk { export_format: format, ..d }),
        d.after(DeskMessage::ExportQualityChanged(text)) == (Desk { quality_text: text@, ..d }),
        d.after(DeskMessage::SaveAsPathChanged(text)) == (Desk { save_as: text@, ..d }),
{
}

/// Once a file is saved, it is the one that is edited, and the user is told where it is;
/// a failure is told and changes nothing else.
pub proof fn law_a_saved_file_is_the_one_edited(d: Desk, m: DeskMessage)
    ensures
        ({
            let e = d.after(m);
            match m {
                DeskMessage::SaveFinished(Ok(path)) => e == (Desk {
                    path: path@,
                    save_as: path@,
                    busy: false,
                    feedback: Some(Ok("Saved: "@ + path@)),
                    ..d
                }),
                DeskMessage::SaveAndCopyFinished(Ok(path)) => e == (Desk {
                    path: path@,
                    save_as: path@,
                    busy: false,
                    feedback: Some(Ok("Saved & copied: "@ + path@)),
                    ..d
                }),
                DeskMessage::SaveFinished(Err(why)) => e == (Desk {
                    busy: false,
                    feedback: Some(Err(why@)),
                    ..d
                }),
                DeskMessage::SaveAndCopyFinished(Err(why)) => e == (Desk {
                    busy: false,
                    feedback: Some(Err(why@)),
                    ..d
                }),
                _ => true,
            }
        }),
{
}

/// A copy changes no path; how it went is told.
pub proof fn law_a_copy_changes_no_path(d: Desk, why: String)
    ensures
        d.after(DeskMessage::CopyFinished(Ok(()))) == (Desk {
            busy: false,
            feedback: Some(Ok("Copied to the clipboard"@)),
            ..d
        }),
        d.after(DeskMessage::CopyFinished(Err(why))) == (Desk {
            busy: false,
            feedback: Some(Err(why@)),
            ..d
        }),
{
}

/// The canvas is shown anew after what may change it, and only then.
pub proof fn law_the_canvas_is_shown_anew(d: Desk, p: RawPoint)
    ensures
        d.answer(DeskMessage::Undo) is RefreshCanvas,
        d.answer(DeskMessage::Redo) is RefreshCanvas,
        d.sheet.with_crop().canvas != d.sheet.canvas ==> d.answer(
            DeskMessage::ApplyCrop,
        ) is RefreshCanvas,
        d.sheet.released(p).canvas != d.sheet.canvas ==> d.answer(
            DeskMessage::Released(p),
        ) is RefreshCanvas,
        d.answer(DeskMessage::Pressed(p)) is Nothing,
        d.answer(DeskMessage::PointerMoved(p)) is Nothing,
        d.answer(DeskMessage::DeleteSelected) is Nothing,
{
}

/// What is chosen changes that one thing.
pub proof fn law_a_choice_changes_one_thing(s: Selections, choice: Choice)
    ensures
        ({
            let t = s.spec_with(choice);
            &&& t.mode == (match choice {
                Choice::Mode(mode) => mode,
                _ => s.mode,
            })
            &&& t.target == (match choice {
                Choice::Target(target) => target,
                _ => s.target,
            })
            &&& t.record_target == (match choice {
                Choice::RecordTarget(target) => target,
                _ => s.record_target,
            })
            &&& t.delay == (match choice {
                Choice::Delay(delay) => delay,
                _ => s.delay,
            })
            &&& t.cursor == (match choice {
                Choice::Cursor(cursor) => cursor,
                _ => s.cursor,
            })
            &&& t.format == (match choice {
                Choice::Format(format) => format,
                _ => s.format,
            })
            &&& t.preset == (match choice {
                Choice::Preset(preset) => preset,
                _ => s.preset,
            })
            &&& t.audio == (match choice {
                Choice::Audio(audio) => audio,
                _ => s.audio,
            })
        }),
{
}

/// A capture is of the mode that is chosen, hides the window that is there, and takes
/// what is not chosen in the window from the settings.
pub proof fn law_a_capture_takes_the_rest_from_the_settings(f: Front)
    requires
        f.connected,
        !f.busy,
    ensures
        f.chosen.mode is Screenshot ==> (f.answer(AppMessage::Capture) matches Errand::Screenshot {
            hide,
            options,
        } && hide == f.open && options.webp_quality == f.config.webp_quality && options.png_also
            == f.config.png_also && options.output_dir == f.config.save_dir && options.toasts
            == f.config.toasts && options.copy == f.config.copy && !options.no_daemon
            && options.kind == f.chosen.target && options.delay == f.chosen.delay && options.cursor
            == f.chosen.cursor && options.format == f.chosen.format),
        f.chosen.mode is Record ==> (f.answer(AppMessage::Capture) matches Errand::Record {
            hide,
            recording,
        } && hide == f.open && recording.action is Start && !recording.dry_run
            && recording.audio_mic_source == f.config.audio_mic_source
            && recording.audio_system_source == f.config.audio_system_source
            && recording.audio_offset == f.config.audio_offset && recording.cursor
            == f.config.cursor && recording.output_dir == f.config.save_dir
            && recording.vaapi_device == f.config.vaapi_device && recording.kind
            == f.chosen.record_target && recording.preset == f.chosen.preset && recording.audio
            == (match f.chosen.audio {
            AudioChoice::NoAudio => None::<AudioSource>,
            AudioChoice::Mic => Some(AudioSource::Mic),
            AudioChoice::System => Some(AudioSource::System),
            AudioChoice::Both => Some(AudioSource::Both),
        })),
        f.answer(AppMessage::PickColorRequested) == (Errand::PickColor { hide: f.open }),
        f.after(AppMessage::Capture).busy,
        f.after(AppMessage::PickColorRequested).busy,
        f.after(AppMessage::Capture).feedback is None,
{
}

/// What became of a capture is told: where it was saved, the colour that was picked, or
/// why not.
pub proof fn law_a_capture_is_told(f: Front, m: AppMessage)
    ensures
        ({
            let told = f.after(m).feedback;
            match m {
                AppMessage::ScreenshotFinished(Ok(path)) => told == Some(
                    Ok::<Seq<char>, Seq<char>>("Saved: "@ + path@),
                ),
                AppMessage::ScreenshotFinished(Err(why)) => told == Some(
                    Err::<Seq<char>, Seq<char>>(why@),
                ),
                AppMessage::PickColorFinished(Ok(color)) => told == Some(
                    Ok::<Seq<char>, Seq<char>>("Picked "@ + hex_text(color)),
                ),
                AppMessage::PickColorFinished(Err(why)) => told == Some(
                    Err::<Seq<char>, Seq<char>>(why@),
                ),
                _ => true,
            }
        }),
{
}

/// What became of a recording that is waited for is told, and why one did not begin.
pub proof fn law_a_recording_is_told(f: Front, m: AppMessage)
    ensures
        ({
            let g = f.after(m);
            match m {
                AppMessage::RecordingFinishedSignal(path) => f.recording_pending ==> g.feedback
                    == Some(Ok::<Seq<char>, Seq<char>>("Recording saved: "@ + path@)),
                AppMessage::RecordingErrorSignal(why) => f.recording_pending ==> g.feedback == Some(
                    Err::<Seq<char>, Seq<char>>(why@),
                ),
                AppMessage::RecordingRequested(Err(why)) => g.feedback == Some(
                    Err::<Seq<char>, Seq<char>>(why@),
                ) && !g.busy && (f.open ==> f.answer(m) is Show),
                _ => true,
            }
        }),
{
}

/// The window is dragged and closed while there is one; without one, closing ends the
/// program. The daemon's answer to the first call is told if it is a refusal.
pub proof fn law_the_window_obeys(f: Front, m: AppMessage)
    ensures
        ({
            let asked = f.answer(m);
            let g = f.after(m);
            match m {
                AppMessage::DragWindow => g == f && (f.open ==> asked is Drag) && (!f.open
                    ==> asked is Nothing),
                AppMessage::ClosePressed => g == f && (f.open ==> asked is Close) && (!f.open
                    ==> asked is Exit),
                AppMessage::WindowOpened => g == (Front { open: true, ..f }),
                AppMessage::Connected(Ok(_)) => g == (Front { connected: true, ..f }),
                AppMessage::Connected(Err(why)) => g == (Front { feedback: Some(Err(why@)), ..f }),
                AppMessage::Selected(choice) => g == (Front {
                    chosen: f.chosen.spec_with(choice),
                    ..f
                }),
                _ => true,
            }
        }),
{
}

/// The library is shown with the items it was asked for with, and left for the main
/// screen.
pub proof fn law_the_library_is_opened_and_closed(f: Front, m: AppMessage)
    ensures
        ({
            let g = f.after(m);
            match m {
                AppMessage::HistoryRequested(items) => g.screen matches Screen::History(l)
                    && l.items == items@ && l.pending_delete is None && l.feedback is None,
                AppMessage::HistoryReloaded(items) => f.screen matches Screen::History(old) ==> (
                g.screen matches Screen::History(l) && l.items == items@ && l.exporting
                    == old.exporting),
                AppMessage::HistoryClosed => g.screen is Main,
                _ => true,
            }
        }),
{
}

/// Messages to the library, and to the editor, reach the one that is shown.
pub proof fn law_messages_reach_what_is_shown(f: Front, m: AppMessage)
    ensures
        ({
            let g = f.after(m);
            let asked = f.answer(m);
            match m {
                AppMessage::History(h) => match f.screen {
                    Screen::History(l) => g.screen == Screen::History(l.after(h)) && asked
                        == Errand::History(l.answer(h)),
                    _ => g.screen == f.screen && asked is Nothing,
                },
                AppMessage::Editor(e) => match f.screen {
                    Screen::Editor { path, editor: Ok(desk) } => g.screen == (Screen::Editor {
                        path,
                        editor: Ok(desk.after(e)),
                    }) && asked == Errand::Editor(desk.answer(e)),
                    _ => g == f && asked is Nothing,
                },
                _ => true,
            }
        }),
{
}

/// A window starts with what the settings say, on the whole screen.
pub proof fn law_a_window_starts_with_the_settings(config: CaptureConfig)
    ensures
        ({
            let s = Selections::spec_initial(config);
            &&& s.mode is Screenshot && s.target is Fullscreen && s.record_target is Fullscreen
            &&& s.delay == config.delay && s.cursor == config.cursor && s.format
                == config.image_format && s.preset == config.video_preset
            &&& s.audio is NoAudio <==> config.audio is None
            &&& s.audio is Mic <==> config.audio == Some(AudioSource::Mic)
            &&& s.audio is System <==> config.audio == Some(AudioSource::System)
        }),
{
}

/// A title names the file that is edited.
pub proof fn law_a_title_names_what_is_shown(f: Front)
    ensures
        f.screen is Main ==> f.spec_title() == "Saola Capture"@,
        f.screen is History ==> f.spec_title() == "Saola Capture — History"@,
        f.screen matches Screen::Editor { path, editor: Ok(desk) } ==> f.spec_title()
            == "Saola Capture — "@ + name_or_path(desk.path),
        f.screen matches Screen::Editor { path, editor: Err(_) } ==> f.spec_title()
            == "Saola Capture — "@ + name_or_path(path),
{
}

/// A request about recording starts where it says start, stops where it says stop, and
/// stops where it is to toggle what is known to go on; a trial run does neither and
/// casts the window that was named, or the focused monitor.
pub proof fn law_a_record_request_does_what_it_says(options: RecordOptions, going: Option<bool>)
    ensures
        ({
            let step = spec_record_step(options, going);
            &&& step is Stop <==> !options.dry_run && (options.action is Stop || (options.action
                is Toggle && going == Some(true)))
            &&& step is Start <==> !options.dry_run && (options.action is Start || (options.action
                is Toggle && going != Some(true)))
            &&& step matches RecordStep::DryRun(target) ==> (target matches CastTarget::Window {
                id,
            } ==> options.window_id == Some(id)) && (target is FocusedMonitor <==> options.window_id
                is None)
        }),
{
}

/// The distance between two sizes.
pub open spec fn off(a: u32, b: u32) -> int {
    if a <= b {
        b - a
    } else {
        a - b
    }
}

/// The size that a caption is shown to have is the nearest of the theme's three, the
/// smaller of two that are as near.
pub proof fn law_the_nearest_size_is_shown(sizes: TextSizeScale, size: u32)
    ensures
        ({
            let s = off(sizes.small, size);
            let m = off(sizes.medium, size);
            let l = off(sizes.large, size);
            match sizes.spec_nearest(size) {
                TextSizeStop::Small => s <= m && s <= l,
                TextSizeStop::Medium => m < s && m <= l,
                TextSizeStop::Large => l < s && l < m,
            }
        }),
{
}

/// Whether a choice is offered: a pill of some row makes it.
pub open spec fn offered(rows: Seq<Row>, choice: Choice) -> bool {
    exists|r: int, k: int|
        0 <= r < rows.len() && 0 <= k < rows[r].pills.len() && (
        #[trigger] rows[r].pills[k]).choice == choice
}

/// A pill is lit exactly where what it chooses is what is chosen.
pub proof fn law_what_is_chosen_is_lit(s: Selections, choice: Choice)
    ensures
        s.has(choice) <==> (match choice {
            Choice::Mode(mode) => s.mode == mode,
            Choice::Target(target) => s.target == target,
            Choice::RecordTarget(target) => s.record_target == target,
            Choice::Delay(delay) => s.delay == delay,
            Choice::Cursor(cursor) => s.cursor == cursor,
            Choice::Format(format) => s.format == format,
            Choice::Preset(preset) => s.preset == preset,
            Choice::Audio(audio) => s.audio == audio,
        }),
        s.spec_with(choice).has(choice),
        forall|r: int, k: int|
            0 <= r < s.spec_rows().len() && 0 <= k < s.spec_rows()[r].pills.len() ==> (
            #[trigger] s.spec_rows()[r].pills[k]).selected == s.has(
                s.spec_rows()[r].pills[k].choice,
            ),
{
    let rows = s.spec_rows();
    assert forall|r: int, k: int|
        0 <= r < rows.len() && 0 <= k < rows[r].pills.len() implies (
    #[trigger] rows[r].pills[k]).selected == s.has(rows[r].pills[k].choice) by {
        lemma_pill(s, r, k);
    }
}

proof fn lemma_pill(s: Selections, r: int, k: int)
    requires
        0 <= r < s.spec_rows().len(),
        0 <= k < s.spec_rows()[r].pills.len(),
    ensures
        s.spec_rows()[r].pills[k].selected == s.has(s.spec_rows()[r].pills[k].choice),
{
    assert(k == 0 || k == 1 || k == 2 || k == 3);
}

/// The main screen offers both modes, and for the mode that is chosen every target, and
/// every format or every preset and sound; and no wait, or one of three, five or ten
/// seconds.
pub proof fn law_the_main_screen_offers_every_choice(s: Selections, choice: Choice)
    ensures
        offered(s.spec_rows(), choice) <==> (match choice {
            Choice::Mode(_) => true,
            Choice::Target(_) => s.mode is Screenshot,
            Choice::Format(_) => s.mode is Screenshot,
            Choice::RecordTarget(_) => s.mode is Record,
            Choice::Preset(_) => s.mode is Record,
            Choice::Audio(_) => s.mode is Record,
            Choice::Delay(delay) => delay == 0 || delay == 3 || delay == 5 || delay == 10,
            Choice::Cursor(_) => false,
        }),
{
    let rows = s.spec_rows();
    assert(s.mode is Screenshot || s.mode is Record);
    let at = match choice {
        Choice::Mode(mode) => (
            0int,
            if mode is Screenshot {
                0int
            } else {
                1int
            },
        ),
        Choice::Target(target) => (
            1int,
            match target {
                ShotKind::Fullscreen => 0int,
                ShotKind::Region => 1int,
                ShotKind::Window => 2int,
            },
        ),
        Choice::RecordTarget(target) => (
            1int,
            match target {
                RecordKind::Fullscreen => 0int,
                RecordKind::Region => 1int,
                RecordKind::Window => 2int,
            },
        ),
        Choice::Format(format) => (
            2int,
            if format is Webp {
                0int
            } else {
                1int
            },
        ),
        Choice::Preset(preset) => (
            2int,
            match preset {
                VideoPreset::Hevc => 0int,
                VideoPreset::Av1 => 1int,
                VideoPreset::H264 => 2int,
            },
        ),
        Choice::Audio(audio) => (
            3int,
            match audio {
                AudioChoice::NoAudio => 0int,
                AudioChoice::Mic => 1int,
                AudioChoice::System => 2int,
                AudioChoice::Both => 3int,
            },
        ),
        Choice::Delay(delay) => (
            if s.mode is Screenshot {
                3int
            } else {
                4int
            },
            if delay == 0 {
                0int
            } else if delay == 3 {
                1int
            } else if delay == 5 {
                2int
            } else {
                3int
            },
        ),
        Choice::Cursor(_) => (0int, 0int),
    };
    let (r, k) = at;
    if 0 <= r < rows.len() && 0 <= k < rows[r].pills.len() && rows[r].pills[k].choice == choice {
        assert(offered(rows, choice));
    }
}

/// What a choice is called.
pub open spec fn called(choice: Choice) -> Seq<char> {
    (match choice {
        Choice::Mode(mode) => match mode {
            CaptureMode::Screenshot => "Screenshot",
            CaptureMode::Record => "Record",
        },
        Choice::Target(target) => match target {
            ShotKind::Fullscreen => "Full screen",
            ShotKind::Region => "Region",
            ShotKind::Window => "Window",
        },
        Choice::RecordTarget(target) => match target {
            RecordKind::Fullscreen => "Full screen",
            RecordKind::Region => "Region",
            RecordKind::Window => "Window",
        },
        Choice::Delay(delay) => if delay == 0 {
            "No delay"
        } else if delay == 3 {
            "3s"
        } else if delay == 5 {
            "5s"
        } else {
            "10s"
        },
        Choice::Format(format) => match format {
            ImageFormat::Webp => "WebP",
            ImageFormat::Png => "PNG",
        },
        Choice::Preset(preset) => match preset {
            VideoPreset::Hevc => "HEVC",
            VideoPreset::Av1 => "AV1",
            VideoPreset::H264 => "H.264",
        },
        Choice::Audio(audio) => match audio {
            AudioChoice::NoAudio => "No audio",
            AudioChoice::Mic => "Mic",
            AudioChoice::System => "System",
            AudioChoice::Both => "Both",
        },
        Choice::Cursor(_) => "",
    })@
}

/// Every pill says what it chooses.
pub proof fn law_pills_say_what_they_choose(s: Selections, r: int, k: int)
    requires
        0 <= r < s.spec_rows().len(),
        0 <= k < s.spec_rows()[r].pills.len(),
    ensures
        s.spec_rows()[r].pills[k].label == called(s.spec_rows()[r].pills[k].choice),
{
    assert(k == 0 || k == 1 || k == 2 || k == 3);
}

/// The labels of the tools and their settings are their names.
pub proof fn law_labels_are_names(
    tool: Tool,
    color: AnnotationColor,
    width: StrokeWidth,
    stop: TextSizeStop,
)
    ensures
        tool.spec_label() == (match tool {
            Tool::Select => "Select",
            Tool::Crop => "Crop",
            Tool::Arrow => "Arrow",
            Tool::Rectangle => "Rectangle",
            Tool::Ellipse => "Ellipse",
            Tool::Freehand => "Freehand",
            Tool::Text => "Text",
            Tool::Step => "Step",
            Tool::Blur => "Blur",
            Tool::Pixelate => "Pixelate",
        })@,
        color.spec_label() == (match color {
            AnnotationColor::Terracotta => "Terracotta",
            AnnotationColor::Ink => "Ink",
            AnnotationColor::Ivory => "Ivory",
        })@,
        width.spec_label() == (match width {
            StrokeWidth::Thin => "Thin",
            StrokeWidth::Medium => "Medium",
            StrokeWidth::Thick => "Thick",
        })@,
        stop.spec_label() == (match stop {
            TextSizeStop::Small => "Small",
            TextSizeStop::Medium => "Medium",
            TextSizeStop::Large => "Large",
        })@,
{
}

/// The labels of buttons say what the buttons do.
pub proof fn law_buttons_say_what_they_do(
    button: EditorButton,
    name: ToolbarName,
    action: RowAction,
    exporting: bool,
    recording: bool,
)
    ensures
        button.spec_label() == (match button {
            EditorButton::Undo => "Undo",
            EditorButton::Redo => "Redo",
            EditorButton::Delete => "Delete",
            EditorButton::ApplyCrop => "Apply Crop",
            EditorButton::CancelCrop => "Cancel Crop",
            EditorButton::Save => "Save",
            EditorButton::SaveAs => "Save As",
            EditorButton::Copy => "Copy",
            EditorButton::SaveAndCopy => "Save & Copy",
        })@,
        name.spec_label() == (match name {
            ToolbarName::Capture => "Capture",
            ToolbarName::Cancel => "Cancel",
            ToolbarName::FullScreen => "Full screen",
            ToolbarName::Window => "Window",
        })@,
        (RowButton { action, enabled: true, exporting, recording }).spec_label() == (match action {
            RowAction::Open => if recording {
                "Show in folder"
            } else {
                "Open"
            },
            RowAction::Copy => "Copy",
            RowAction::ShowInFolder => "Show in folder",
            RowAction::Export(format) => if exporting {
                "Exporting…"
            } else if format is Gif {
                "Export GIF"
            } else {
                "Export WebP"
            },
            RowAction::Delete => "Delete",
            RowAction::ConfirmDelete => "Delete",
            RowAction::CancelDelete => "Cancel",
        })@,
{
}

/// The row of an item goes by the item: what is deleted or exported elsewhere changes
/// nothing about it.
pub proof fn law_a_row_goes_by_its_item(l: Library, item: HistoryItem)
    ensures
        ({
            let here = |path: Option<Seq<char>>|
                path matches Some(p) && same_path_as(p, item.spec_path()@);
            let row = l.row_of(item);
            &&& offers(row, RowAction::ConfirmDelete) <==> here(l.pending_delete)
            &&& offers(row, RowAction::Open) <==> !here(l.pending_delete)
            &&& offers(row, RowAction::Copy) <==> !here(l.pending_delete) && item is Screenshot
            &&& offers(row, RowAction::Export(AnimatedFormat::Gif)) <==> !here(l.pending_delete)
                && item is Recording && !here(l.exporting)
        }),
{
    law_a_row_offers_what_fits(
        item is Recording,
        is_path(l.pending_delete, item.spec_path()@),
        is_path(l.exporting, item.spec_path()@),
        AnimatedFormat::Gif,
    );
}

/// A command prints its answer, or that it failed and why.
pub proof fn law_a_command_reports(answer: String, err: CliRunError)
    ensures
        reported(Ok(answer)) == (answer@, true),
        reported(Err(err)).0 == "saola-capture: "@ + err.spec_message(),
        !reported(Err(err)).1,
{
}

} // verus!
