//! What the command line asks for, and what it prints.
use vstd::prelude::*;
use vstd::string::*;

use crate::capture::LogicalRect;
use crate::config::{AudioSource, CaptureConfig, VideoPreset};
use crate::imaging::ImageFormat;
use crate::text::joined;

verus! {

/// What a screenshot shows.
#[derive(Debug, Clone, Copy, PartialEq, Eq, Structural)]
pub enum ShotKind {
    Fullscreen,
    Region,
    Window,
}

impl ShotKind {
    pub open spec fn name(self) -> Seq<char> {
        match self {
            ShotKind::Fullscreen => "fullscreen"@,
            ShotKind::Region => "region"@,
            ShotKind::Window => "window"@,
        }
    }

    pub fn as_str(self) -> (r: &'static str)
        ensures
            r@ == self.name(),
    {
        match self {
            ShotKind::Fullscreen => "fullscreen",
            ShotKind::Region => "region",
            ShotKind::Window => "window",
        }
    }
}

/// What a recording shows.
#[derive(Debug, Clone, Copy, PartialEq, Eq, Structural)]
pub enum RecordKind {
    Fullscreen,
    Region,
    Window,
}

impl RecordKind {
    pub open spec fn name(self) -> Seq<char> {
        match self {
            RecordKind::Fullscreen => "fullscreen"@,
            RecordKind::Region => "region"@,
            RecordKind::Window => "window"@,
        }
    }

    pub fn as_str(self) -> (r: &'static str)
        ensures
            r@ == self.name(),
    {
        match self {
            RecordKind::Fullscreen => "fullscreen",
            RecordKind::Region => "region",
            RecordKind::Window => "window",
        }
    }
}

/// What is to be done about a recording.
#[derive(Debug, Clone, Copy, PartialEq, Eq, Structural)]
pub enum RecordActionKind {
    Start,
    Stop,
    Toggle,
}

/// Why options cannot be used together.
#[derive(Debug)]
pub struct CliError {
    pub message: String,
}

/// How to take a screenshot.
#[derive(Debug)]
pub struct CaptureOptions {
    pub kind: ShotKind,
    /// A region that need not be selected any more.
    pub geometry: Option<LogicalRect>,
    /// A window other than the focused one.
    pub window_id: Option<u64>,
    pub delay: u32,
    pub cursor: bool,
    pub format: ImageFormat,
    pub webp_quality: u8,
    pub png_also: bool,
    pub output_dir: Option<String>,
    pub toasts: bool,
    pub copy: bool,
    pub no_daemon: bool,
}

/// How to record.
#[derive(Debug)]
pub struct RecordOptions {
    pub action: RecordActionKind,
    pub kind: RecordKind,
    pub preset: VideoPreset,
    pub audio: Option<AudioSource>,
    pub audio_mic_source: Option<String>,
    pub audio_system_source: Option<String>,
    /// How much later the sound is put, in milliseconds.
    pub audio_offset: i32,
    pub dry_run: bool,
    pub geometry: Option<LogicalRect>,
    pub window_id: Option<u64>,
    pub cursor: bool,
    pub output_dir: Option<String>,
    pub vaapi_device: Option<String>,
}

/// A text that may be there, copied.
fn copied(text: &Option<String>) -> (r: Option<String>)
    ensures
        r == *text,
{
    match text {
        Some(t) => Some(t.clone()),
        None => None,
    }
}

/// How the app window takes a screenshot: as it was set there, the rest as the
/// settings say. A region is always selected on screen, and a window is always
/// the focused one.
pub open spec fn spec_capture_options(
    config: CaptureConfig,
    target: ShotKind,
    delay: u32,
    cursor: bool,
    format: ImageFormat,
) -> CaptureOptions {
    CaptureOptions {
        kind: target,
        geometry: None,
        window_id: None,
        delay,
        cursor,
        format,
        webp_quality: config.webp_quality,
        png_also: config.png_also,
        output_dir: config.save_dir,
        toasts: config.toasts,
        copy: config.copy,
        no_daemon: false,
    }
}

/// How the app window takes a screenshot. What can be set there never clashes.
pub fn resolve_capture_options(
    config: &CaptureConfig,
    target: ShotKind,
    delay: u32,
    cursor: bool,
    format: ImageFormat,
) -> (r: Result<CaptureOptions, CliError>)
    ensures
        r == Ok::<CaptureOptions, CliError>(
            spec_capture_options(*config, target, delay, cursor, format),
        ),
{
    Ok(
        CaptureOptions {
            kind: target,
            geometry: None,
            window_id: None,
            delay,
            cursor,
            format,
            webp_quality: config.webp_quality,
            png_also: config.png_also,
            output_dir: copied(&config.save_dir),
            toasts: config.toasts,
            copy: config.copy,
            no_daemon: false,
        },
    )
}

/// How the app window records.
pub open spec fn spec_record_options(
    config: CaptureConfig,
    target: RecordKind,
    preset: VideoPreset,
    audio: Option<AudioSource>,
) -> RecordOptions {
    RecordOptions {
        action: RecordActionKind::Start,
        kind: target,
        preset,
        audio,
        audio_mic_source: config.audio_mic_source,
        audio_system_source: config.audio_system_source,
        audio_offset: config.audio_offset,
        dry_run: false,
        geometry: None,
        window_id: None,
        cursor: config.cursor,
        output_dir: config.save_dir,
        vaapi_device: config.vaapi_device,
    }
}

/// How the app window records: as it was set there, the rest as the settings
/// say.
pub fn record_options(
    config: &CaptureConfig,
    target: RecordKind,
    preset: VideoPreset,
    audio: Option<AudioSource>,
) -> (r: RecordOptions)
    ensures
        r == spec_record_options(*config, target, preset, audio),
{
    RecordOptions {
        action: RecordActionKind::Start,
        kind: target,
        preset,
        audio,
        audio_mic_source: copied(&config.audio_mic_source),
        audio_system_source: copied(&config.audio_system_source),
        audio_offset: config.audio_offset,
        dry_run: false,
        geometry: None,
        window_id: None,
        cursor: config.cursor,
        output_dir: copied(&config.save_dir),
        vaapi_device: copied(&config.vaapi_device),
    }
}

/// Which window to open.
#[derive(Debug)]
pub enum WindowAction {
    Edit { path: String },
}

impl WindowAction {
    /// The name of a window on the bus.
    pub open spec fn mode_name(action: Option<WindowAction>) -> Seq<char> {
        match action {
            None => "main"@,
            Some(WindowAction::Edit { path }) => "edit:"@ + path@,
        }
    }

    /// The name of a window on the bus.
    pub fn dbus_mode(action: Option<&WindowAction>) -> (r: String)
        ensures
            r@ == WindowAction::mode_name(
                match action {
                    Some(a) => Some(*a),
                    None => None,
                },
            ),
    {
        match action {
            None => "main".to_owned(),
            Some(WindowAction::Edit { path }) => joined("edit:", path.as_str()),
        }
    }
}

/// Whether a request about recording means to stop: a toggle stops exactly what
/// is known to be recording.
pub open spec fn spec_stops(action: RecordActionKind, recording: Option<bool>) -> bool {
    match action {
        RecordActionKind::Stop => true,
        RecordActionKind::Start => false,
        RecordActionKind::Toggle => recording == Some(true),
    }
}

/// Whether a request about recording means to stop. `recording` is whether a
/// recording is going on, if that could be learnt.
pub fn stops(action: RecordActionKind, recording: Option<bool>) -> (r: bool)
    ensures
        r == spec_stops(action, recording),
{
    match action {
        RecordActionKind::Stop => true,
        RecordActionKind::Start => false,
        RecordActionKind::Toggle => match recording {
            Some(going) => going,
            None => false,
        },
    }
}

/// A toggle does the opposite of what is going on.
pub proof fn law_toggle_flips(going: bool)
    ensures
        spec_stops(RecordActionKind::Toggle, Some(going)) == going,
        spec_stops(RecordActionKind::Toggle, None) == spec_stops(RecordActionKind::Start, None),
{
}

/// What is printed once a recording has started.
pub open spec fn started_told(preset: VideoPreset, audio: Option<AudioSource>) -> Seq<char> {
    "recording started (preset="@ + preset.name() + ", audio="@ + (match audio {
        Some(source) => source.name(),
        None => "none"@,
    }) + ") — stop it with `saola-capture record stop`"@
}

/// What is printed once a recording has started: the audio that was asked for,
/// whether or not there was such a device.
pub fn started_text(preset: VideoPreset, audio: Option<AudioSource>) -> (r: String)
    ensures
        r@ == started_told(preset, audio),
{
    let mut out: String = joined("recording started (preset=", preset.as_str());
    out.append(", audio=");
    match audio {
        Some(source) => out.append(source.as_str()),
        None => out.append("none"),
    }
    out.append(") — stop it with `saola-capture record stop`");
    out
}

/// What a trial run casts.
#[derive(Debug, Clone, Copy, PartialEq, Eq, Structural)]
pub enum CastTarget {
    Window { id: u64 },
    FocusedMonitor,
}

/// What a trial run casts: the window that was named, else the focused monitor.
pub open spec fn spec_dry_run_target(options: RecordOptions) -> CastTarget {
    match options.window_id {
        Some(id) => CastTarget::Window { id },
        None => CastTarget::FocusedMonitor,
    }
}

/// What a trial run casts.
pub fn dry_run_target(options: &RecordOptions) -> (r: CastTarget)
    ensures
        r == spec_dry_run_target(*options),
{
    match options.window_id {
        Some(id) => CastTarget::Window { id },
        None => CastTarget::FocusedMonitor,
    }
}

/// What is to be done for a request about recording.
#[derive(Debug, Clone, Copy, PartialEq, Eq, Structural)]
pub enum RecordStep {
    /// Cast this for a while in this process, and keep nothing. The daemon is
    /// not asked for anything.
    DryRun(CastTarget),
    /// Have the daemon stop.
    Stop,
    /// Have the daemon start.
    Start,
}

/// What is to be done for a request about recording.
pub open spec fn spec_record_step(options: RecordOptions, recording: Option<bool>) -> RecordStep {
    if options.dry_run {
        RecordStep::DryRun(spec_dry_run_target(options))
    } else if spec_stops(options.action, recording) {
        RecordStep::Stop
    } else {
        RecordStep::Start
    }
}

/// What is to be done for a request about recording. `recording` is whether a
/// recording is going on, if that could be learnt; a trial run need not ask.
pub fn record_step(options: &RecordOptions, recording: Option<bool>) -> (r: RecordStep)
    ensures
        r == spec_record_step(*options, recording),
{
    if options.dry_run {
        RecordStep::DryRun(dry_run_target(options))
    } else if stops(options.action, recording) {
        RecordStep::Stop
    } else {
        RecordStep::Start
    }
}

/// A trial run has nothing to do with the daemon: whatever it is asked to do
/// and whatever is going on, neither a start nor a stop comes of it. Anything
/// else ends in one of the two.
pub proof fn law_dry_run_leaves_the_daemon_alone(
    options: RecordOptions,
    recording: Option<bool>,
    other: Option<bool>,
)
    ensures
        spec_record_step(options, recording) is DryRun <==> options.dry_run,
        options.dry_run ==> spec_record_step(options, recording) == spec_record_step(
            options,
            other,
        ),
{
}

/// What a trial run says of the sound that was asked for.
pub open spec fn dry_run_audio_told(source: AudioSource) -> Seq<char> {
    "saola-capture: dry run: --audio "@ + source.name()
        + " is ignored — a dry run negotiates video only and writes nothing"@
}

/// What a trial run says of sound, if any was asked for: there is none in it.
pub fn dry_run_audio_note(options: &RecordOptions) -> (r: Option<String>)
    ensures
        match (r, options.audio) {
            (Some(note), Some(source)) => note@ == dry_run_audio_told(source),
            (None, None) => true,
            _ => false,
        },
{
    match options.audio {
        Some(source) => {
            let mut note: String = joined("saola-capture: dry run: --audio ", source.as_str());
            note.append(" is ignored — a dry run negotiates video only and writes nothing");
            Some(note)
        },
        None => None,
    }
}

/// Why a command failed. Each case carries its own words.
#[derive(Debug)]
pub enum CliRunError {
    Args(CliError),
    Bus(String),
    Client(String),
    Runtime(String),
    Capture(String),
    Storage(String),
    Cast(String),
}

impl CliRunError {
    pub open spec fn spec_message(self) -> Seq<char> {
        match self {
            CliRunError::Args(err) => err.message@,
            CliRunError::Bus(err) => err@,
            CliRunError::Client(err) => err@,
            CliRunError::Runtime(err) => "could not start an async runtime: "@ + err@,
            CliRunError::Capture(err) => err@,
            CliRunError::Storage(err) => err@,
            CliRunError::Cast(err) => err@,
        }
    }

    /// The failure in words.
    pub fn message(&self) -> (r: String)
        ensures
            r@ == self.spec_message(),
    {
        match self {
            CliRunError::Args(err) => err.message.clone(),
            CliRunError::Bus(err) => err.clone(),
            CliRunError::Client(err) => err.clone(),
            CliRunError::Runtime(err) => joined("could not start an async runtime: ", err.as_str()),
            CliRunError::Capture(err) => err.clone(),
            CliRunError::Storage(err) => err.clone(),
            CliRunError::Cast(err) => err.clone(),
        }
    }
}

/// What a command prints, and where.
#[derive(Debug)]
pub struct Report {
    pub line: String,
    /// Whether the command succeeded: then the line goes to standard output,
    /// else to standard error.
    pub success: bool,
}

/// What a command prints, and whether it succeeded.
pub open spec fn reported(result: Result<String, CliRunError>) -> (Seq<char>, bool) {
    match result {
        Ok(message) => (message@, true),
        Err(err) => ("saola-capture: "@ + err.spec_message(), false),
    }
}

/// What a command prints: its answer, or why it failed.
pub fn report(result: Result<String, CliRunError>) -> (r: Report)
    ensures
        (r.line@, r.success) == reported(result),
{
    match result {
        Ok(message) => Report { line: message, success: true },
        Err(err) => Report {
            line: joined("saola-capture: ", err.message().as_str()),
            success: false,
        },
    }
}

} // verus!
