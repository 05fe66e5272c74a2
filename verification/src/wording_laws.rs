//! What is said, and to whom: the words for every state that has them.
use vstd::prelude::*;
use vstd::string::*;

use crate::app::{CaptureMode, Front};
use crate::cli::{CliRunError, RecordKind, ShotKind, WindowAction, dry_run_audio_told, started_told};
use crate::config::{AudioSource, CaptureConfig, VideoPreset};
use crate::daemon::{ShutdownReason, refusal};
use crate::history::{HistoryItem, size_label};
use crate::imaging::ImageFormat;
use crate::library::{item_kind, meta_of};
use crate::overlay::{Selecting, spec_readout_size, spec_readout_text};
use crate::recorder::{NegotiatedFormat, NegotiatedGuard, RecorderError, size_text};
use crate::text::{decimal_text, law_decimal_reads_back, number_of};
use crate::units::Rect;

verus! {

/// Kinds, codecs and sources go by their own names, no two by one.
pub proof fn law_names_tell_apart(
    shot: ShotKind,
    record: RecordKind,
    preset: VideoPreset,
    source: AudioSource,
)
    ensures
        shot.name() == (match shot {
            ShotKind::Fullscreen => "fullscreen",
            ShotKind::Region => "region",
            ShotKind::Window => "window",
        })@,
        record.name() == (match record {
            RecordKind::Fullscreen => "fullscreen",
            RecordKind::Region => "region",
            RecordKind::Window => "window",
        })@,
        preset.name() == (match preset {
            VideoPreset::Hevc => "hevc",
            VideoPreset::Av1 => "av1",
            VideoPreset::H264 => "h264",
        })@,
        source.name() == (match source {
            AudioSource::Mic => "mic",
            AudioSource::System => "system",
            AudioSource::Both => "both",
        })@,
{
}

/// A window is asked for by its name: the main one, or the one that edits a file, by its
/// path.
pub proof fn law_windows_are_asked_for_by_name(path: String)
    ensures
        WindowAction::mode_name(None) == "main"@,
        ({
            let name = WindowAction::mode_name(Some(WindowAction::Edit { path }));
            &&& name.len() == 5 + path@.len()
            &&& name.take(5) == "edit:"@
            &&& name.skip(5) == path@
        }),
{
    reveal_strlit("edit:");
    let name = "edit:"@ + path@;
    assert(name.take(5) =~= "edit:"@);
    assert(name.skip(5) =~= path@);
}

/// A failure is told in its own words; only that of the runtime needs an introduction.
pub proof fn law_failures_are_told_in_their_own_words(err: CliRunError)
    ensures
        match err {
            CliRunError::Args(why) => err.spec_message() == why.message@,
            CliRunError::Bus(why) => err.spec_message() == why@,
            CliRunError::Client(why) => err.spec_message() == why@,
            CliRunError::Runtime(why) => err.spec_message() == "could not start an async runtime: "@
                + why@,
            CliRunError::Capture(why) => err.spec_message() == why@,
            CliRunError::Storage(why) => err.spec_message() == why@,
            CliRunError::Cast(why) => err.spec_message() == why@,
        },
{
}

/// What is printed of a recording that began names its codec and its sound.
pub proof fn law_a_started_recording_names_what_it_is(
    preset: VideoPreset,
    audio: Option<AudioSource>,
)
    ensures
        started_told(preset, audio) == "recording started (preset="@ + preset.name() + ", audio="@
            + (if audio is Some {
            (audio->0).name()
        } else {
            "none"@
        }) + ") — stop it with `saola-capture record stop`"@,
        audio matches Some(source) ==> dry_run_audio_told(source)
            == "saola-capture: dry run: --audio "@ + source.name()
            + " is ignored — a dry run negotiates video only and writes nothing"@,
{
}

/// A request that is refused is told why: the recorder is busy, idle, or stopping already.
pub proof fn law_refusals_say_why(err: RecorderError)
    ensures
        err.spec_message() == (match err {
            RecorderError::AlreadyRecording =>
                "a recording is already in progress — stop it first (saola-capture record stop)",
            RecorderError::NotRecording => "nothing is recording",
            RecorderError::AlreadyStopping => "the recording is already stopping",
        })@,
        refusal() == "a region selection is already in progress"@,
{
}

/// A cast that changed its size is told both sizes, the one before first.
pub proof fn law_a_changed_size_is_told(g: NegotiatedGuard, f: NegotiatedFormat)
    ensures
        g.refusal(f) == "the cast changed size from "@ + size_text(g.spec.width, g.spec.height)
            + " to "@ + size_text(f.width, f.height)
            + " — an encoder cannot change size once it has started"@,
        size_text(f.width, f.height) == decimal_text(f.width as nat) + "x"@ + decimal_text(
            f.height as nat,
        ),
        number_of(decimal_text(f.width as nat)) == f.width,
        number_of(decimal_text(f.height as nat)) == f.height,
{
    law_decimal_reads_back(f.width as nat);
    law_decimal_reads_back(f.height as nat);
}

/// The daemon says why it ends.
pub proof fn law_the_daemon_says_why_it_ends(reason: ShutdownReason)
    ensures
        match reason {
            ShutdownReason::Signal => reason.spec_log()
                == "saola-capture: daemon: received SIGTERM/SIGINT — shutting down"@,
            ShutdownReason::AlreadyRunning => reason.spec_log()
                == "saola-capture: daemon: another instance already owns io.saola.Capture1 — exiting"@,
            ShutdownReason::DBusUnavailable(err) => reason.spec_log()
                == "saola-capture: daemon: could not serve io.saola.Capture1: "@ + err@,
            ShutdownReason::TrayQuit => reason.spec_log()
                == "saola-capture: daemon: quit via the tray menu — shutting down"@,
        },
{
}

/// A row says what its item is: a screenshot of its kind, or a recording.
pub proof fn law_a_row_says_what_its_item_is(item: HistoryItem)
    ensures
        item matches HistoryItem::Screenshot(entry) ==> item_kind(item) == entry.kind@,
        item is Recording ==> item_kind(item) == "recording"@,
{
}

/// The main screen says what pressing its button does, and what last happened; until the
/// daemon is there and nothing else is to be told, that it is waited for.
pub proof fn law_the_main_screen_says_how_things_are(f: Front)
    ensures
        f.capture_label() == (match f.chosen.mode {
            CaptureMode::Screenshot => "Capture",
            CaptureMode::Record => "Start Recording",
        })@,
        f.feedback matches Some(Ok(text)) ==> f.note() == Some(text),
        f.feedback matches Some(Err(text)) ==> f.note() == Some(text),
        f.feedback is None && f.connected ==> f.note() is None,
        f.feedback is None && !f.connected ==> f.note() == Some("Connecting to the daemon…"@),
{
}

/// Without a settings file captures are WebP of good quality, shown with the pointer, told
/// and copied at once; recordings are HEVC and silent.
pub proof fn law_the_settings_have_their_defaults()
    ensures
        ({
            let c = CaptureConfig::spec_default();
            &&& c.image_format == ImageFormat::Webp && c.webp_quality == 90 && !c.png_also
            &&& c.video_preset == VideoPreset::Hevc && c.audio is None && c.audio_offset == 130
            &&& c.cursor && c.delay == 0 && c.toasts && c.copy
            &&& c.save_dir is None && c.vaapi_device is None && c.audio_mic_source is None
                && c.audio_system_source is None
        }),
{
}

/// Under an item's name stand its kind and its size.
pub proof fn law_a_row_tells_kind_and_size(item: HistoryItem)
    ensures
        item matches HistoryItem::Screenshot(entry) ==> meta_of(item) == entry.kind@ + " · "@
            + size_label(entry.bytes),
        item matches HistoryItem::Recording(file) ==> meta_of(item) == "recording"@ + " · "@
            + size_label(file.bytes),
{
}

/// The readout tells the width and then the height.
pub proof fn law_the_readout_tells_both_sides(rect: Rect, s: Selecting) -> (r: (Seq<char>, Seq<char>))
    ensures
        spec_readout_text(rect, s) == r.0 + " × "@ + r.1,
        number_of(r.0) == spec_readout_size(rect, s).0,
        number_of(r.1) == spec_readout_size(rect, s).1,
{
    let (width, height) = spec_readout_size(rect, s);
    law_decimal_reads_back(width as nat);
    law_decimal_reads_back(height as nat);
    (decimal_text(width as nat), decimal_text(height as nat))
}

} // verus!
