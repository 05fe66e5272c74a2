use saola_capture::app::{
    App, AppAction, AudioChoice, CaptureMode, Choice, Message, ViewState, WindowMode, WindowSizes,
    editor_error_text, editor_window_size, window_height, window_mode_from_action,
};
use saola_capture::cli::{
    CastTarget, CliError, CliRunError, RecordActionKind, RecordKind, RecordStep, ShotKind,
    WindowAction, dry_run_audio_note, dry_run_target, record_options, record_step, report,
    resolve_capture_options, started_text, stops,
};
use saola_capture::config::{AudioSource, CaptureConfig, VideoPreset};
use saola_capture::editor_state::EditorState;
use saola_capture::history::{HistoryItem, RecordingFile};
use saola_capture::imaging::ImageFormat;
use saola_capture::library;
use saola_capture::picker::PickedColor;
use saola_capture::pixmap::Frame;
use saola_capture::shapes::{Color, ColorPalette, TextSizeScale, Tool};

#[test]
fn no_action_is_the_main_window() {
    assert_eq!(window_mode_from_action(None), WindowMode::Main);
}

#[test]
fn edit_action_carries_the_path() {
    let action = WindowAction::Edit {
        path: "/tmp/shot.webp".to_string(),
    };
    assert_eq!(
        window_mode_from_action(Some(&action)),
        WindowMode::Edit("/tmp/shot.webp".to_string())
    );
}

#[test]
fn each_target_resolves_to_its_own_shot_kind_with_no_geometry_or_window_id() {
    let config = CaptureConfig::default();
    for (target, expected) in [
        (ShotKind::Fullscreen, ShotKind::Fullscreen),
        (ShotKind::Region, ShotKind::Region),
        (ShotKind::Window, ShotKind::Window),
    ] {
        let options =
            resolve_capture_options(&config, target, 0, true, ImageFormat::Webp).unwrap();
        assert_eq!(options.kind, expected);
        assert_eq!(options.geometry, None, "the app never skips the overlay");
        assert_eq!(
            options.window_id, None,
            "the app never picks a window id directly"
        );
    }
}

#[test]
fn cursor_and_delay_and_format_all_carry_through() {
    let config = CaptureConfig::default();
    let options =
        resolve_capture_options(&config, ShotKind::Fullscreen, 5, false, ImageFormat::Png)
            .unwrap();
    assert_eq!(options.delay, 5);
    assert!(!options.cursor);
    assert_eq!(options.format, ImageFormat::Png);
}

#[test]
fn cursor_true_overrides_a_false_config_default() {
    let config = CaptureConfig {
        cursor: false,
        ..CaptureConfig::default()
    };
    let options =
        resolve_capture_options(&config, ShotKind::Fullscreen, 0, true, ImageFormat::Webp)
            .unwrap();
    assert!(options.cursor, "the UI's toggle state must win");
}

#[test]
fn record_options_always_requests_start() {
    let options = record_options(
        &CaptureConfig::default(),
        RecordKind::Fullscreen,
        VideoPreset::Av1,
        Some(AudioSource::Both),
    );
    assert_eq!(options.action, RecordActionKind::Start);
    assert_eq!(options.kind, RecordKind::Fullscreen);
    assert_eq!(options.preset, VideoPreset::Av1);
    assert_eq!(options.audio, Some(AudioSource::Both));
}

#[test]
fn record_options_carries_the_chosen_target_with_no_geometry_or_window_id() {
    for target in [
        RecordKind::Fullscreen,
        RecordKind::Region,
        RecordKind::Window,
    ] {
        let options =
            record_options(&CaptureConfig::default(), target, VideoPreset::Hevc, None);
        assert_eq!(options.kind, target);
        assert_eq!(options.geometry, None, "the app never skips the overlay");
        assert_eq!(
            options.window_id, None,
            "the app never picks a window id directly"
        );
    }
}

#[test]
fn audio_choice_round_trips_through_option_audio_source() {
    assert_eq!(AudioChoice::NoAudio.to_option(), None);
    assert_eq!(AudioChoice::Mic.to_option(), Some(AudioSource::Mic));
    assert_eq!(AudioChoice::System.to_option(), Some(AudioSource::System));
    assert_eq!(AudioChoice::Both.to_option(), Some(AudioSource::Both));
}

#[test]
fn every_audio_source_has_its_choice() {
    for source in [
        None,
        Some(AudioSource::Mic),
        Some(AudioSource::System),
        Some(AudioSource::Both),
    ] {
        assert_eq!(AudioChoice::from_option(source).to_option(), source);
    }
}

#[test]
fn record_options_come_from_the_settings() {
    let config = CaptureConfig {
        save_dir: Some("/home/me/Captures".to_string()),
        vaapi_device: Some("/dev/dri/renderD128".to_string()),
        audio_mic_source: Some("mic".to_string()),
        audio_system_source: Some("speakers.monitor".to_string()),
        audio_offset: -250,
        cursor: false,
        ..CaptureConfig::default()
    };
    let options = record_options(&config, RecordKind::Region, VideoPreset::H264, None);
    assert_eq!(options.output_dir.as_deref(), Some("/home/me/Captures"));
    assert_eq!(options.vaapi_device.as_deref(), Some("/dev/dri/renderD128"));
    assert_eq!(options.audio_mic_source.as_deref(), Some("mic"));
    assert_eq!(options.audio_system_source.as_deref(), Some("speakers.monitor"));
    assert_eq!(options.audio_offset, -250);
    assert!(!options.cursor);
    assert!(!options.dry_run);
}

#[test]
fn the_settings_have_their_defaults() {
    let config = CaptureConfig::default();
    assert_eq!(config.image_format, ImageFormat::Webp);
    assert_eq!(config.webp_quality, 90);
    assert!(!config.png_also);
    assert_eq!(config.video_preset, VideoPreset::Hevc);
    assert_eq!(config.vaapi_device, None);
    assert_eq!(config.audio, None);
    assert_eq!(config.audio_offset, 130);
    assert!(config.cursor);
    assert_eq!(config.delay, 0);
    assert!(config.toasts);
    assert!(config.copy);
}

fn palette() -> ColorPalette {
    ColorPalette {
        terracotta: Color::rgb(0xC6, 0x71, 0x39),
        ink: Color::rgb(0x0C, 0x0A, 0x00),
        ivory: Color::rgb(0xFF, 0xFF, 0xF0),
    }
}

fn sizes() -> TextSizeScale {
    TextSizeScale {
        small: 12 * 256,
        medium: 20 * 256,
        large: 40 * 256,
    }
}

fn main_window() -> App {
    App::boot(
        WindowMode::Main,
        Err("not read".to_string()),
        CaptureConfig::default(),
        palette(),
        sizes(),
    )
}

fn ready_window() -> App {
    let mut app = main_window();
    app.update(Message::WindowOpened);
    app.update(Message::Connected(Ok(())));
    app
}

fn note(app: &App) -> Option<String> {
    app.main_view().note
}

#[test]
fn a_window_opens_with_what_the_settings_say() {
    let config = CaptureConfig {
        audio: Some(AudioSource::System),
        delay: 3,
        cursor: false,
        image_format: ImageFormat::Png,
        video_preset: VideoPreset::Av1,
        ..CaptureConfig::default()
    };
    let app = App::boot(
        WindowMode::Main,
        Err(String::new()),
        config,
        palette(),
        sizes(),
    );
    let chosen = app.chosen();
    assert_eq!(chosen.mode, CaptureMode::Screenshot);
    assert_eq!(chosen.target, ShotKind::Fullscreen);
    assert_eq!(chosen.record_target, RecordKind::Fullscreen);
    assert_eq!(chosen.delay, 3);
    assert!(!chosen.cursor);
    assert_eq!(chosen.format, ImageFormat::Png);
    assert_eq!(chosen.preset, VideoPreset::Av1);
    assert_eq!(chosen.audio, AudioChoice::System);
    assert!(!app.is_busy());
}

#[test]
fn capturing_needs_the_daemon() {
    let mut app = main_window();
    assert_eq!(note(&app).as_deref(), Some("Connecting to the daemon…"));
    assert!(!app.main_view().can_capture);
    assert!(matches!(app.update(Message::Capture), AppAction::Nothing));
    assert_eq!(
        note(&app).as_deref(),
        Some("not connected to the daemon yet — try again in a moment")
    );
    assert!(matches!(
        app.update(Message::PickColorRequested),
        AppAction::Nothing
    ));
    app.update(Message::Connected(Err("no bus".to_string())));
    assert_eq!(note(&app).as_deref(), Some("no bus"));
    assert!(!app.is_busy());
}

#[test]
fn a_screenshot_hides_the_window_until_it_is_saved() {
    let mut app = ready_window();
    app.update(Message::Selected(Choice::Target(ShotKind::Region)));
    app.update(Message::Selected(Choice::Delay(5)));
    app.update(Message::Selected(Choice::Cursor(false)));
    app.update(Message::Selected(Choice::Format(ImageFormat::Png)));
    match app.update(Message::Capture) {
        AppAction::Screenshot { hide, options } => {
            assert!(hide);
            assert_eq!(options.kind, ShotKind::Region);
            assert_eq!(options.delay, 5);
            assert!(!options.cursor);
            assert_eq!(options.format, ImageFormat::Png);
        }
        other => panic!("expected a screenshot, got {other:?}"),
    }
    assert!(app.is_busy());
    assert!(matches!(app.update(Message::Capture), AppAction::Nothing));
    assert!(matches!(
        app.update(Message::PickColorRequested),
        AppAction::Nothing
    ));
    let shown = app.update(Message::ScreenshotFinished(Ok("/tmp/a.png".to_string())));
    assert!(matches!(shown, AppAction::Show));
    assert!(!app.is_busy());
    assert_eq!(note(&app).as_deref(), Some("Saved: /tmp/a.png"));
}

#[test]
fn a_failed_screenshot_brings_the_window_back_too() {
    let mut app = ready_window();
    app.update(Message::Capture);
    let shown = app.update(Message::ScreenshotFinished(Err("no outputs".to_string())));
    assert!(matches!(shown, AppAction::Show));
    assert_eq!(note(&app).as_deref(), Some("no outputs"));
}

#[test]
fn a_recording_keeps_the_window_hidden_until_it_ends() {
    let mut app = ready_window();
    app.update(Message::Selected(Choice::Mode(CaptureMode::Record)));
    app.update(Message::Selected(Choice::RecordTarget(RecordKind::Window)));
    app.update(Message::Selected(Choice::Preset(VideoPreset::H264)));
    app.update(Message::Selected(Choice::Audio(AudioChoice::Mic)));
    match app.update(Message::Capture) {
        AppAction::Record { hide, recording } => {
            assert!(hide);
            assert_eq!(recording.kind, RecordKind::Window);
            assert_eq!(recording.preset, VideoPreset::H264);
            assert_eq!(recording.audio, Some(AudioSource::Mic));
        }
        other => panic!("expected a recording, got {other:?}"),
    }
    let live = app.update(Message::RecordingRequested(Ok(())));
    assert!(matches!(live, AppAction::Nothing));
    assert!(app.is_busy() && app.is_recording_pending());
    assert_eq!(note(&app).as_deref(), Some("Recording…"));
    let shown = app.update(Message::RecordingFinishedSignal("/tmp/a.mkv".to_string()));
    assert!(matches!(shown, AppAction::Show));
    assert!(!app.is_busy() && !app.is_recording_pending());
    assert_eq!(note(&app).as_deref(), Some("Recording saved: /tmp/a.mkv"));
}

#[test]
fn a_recording_that_fails_brings_the_window_back() {
    let mut app = ready_window();
    app.update(Message::Selected(Choice::Mode(CaptureMode::Record)));
    app.update(Message::Capture);
    let refused = app.update(Message::RecordingRequested(Err("no ffmpeg".to_string())));
    assert!(matches!(refused, AppAction::Show));
    assert_eq!(note(&app).as_deref(), Some("no ffmpeg"));

    app.update(Message::Capture);
    app.update(Message::RecordingRequested(Ok(())));
    let died = app.update(Message::RecordingErrorSignal("ffmpeg died".to_string()));
    assert!(matches!(died, AppAction::Show));
    assert_eq!(note(&app).as_deref(), Some("ffmpeg died"));
}

#[test]
fn the_end_of_another_recording_is_ignored() {
    let mut app = ready_window();
    let other = app.update(Message::RecordingFinishedSignal("/tmp/b.mkv".to_string()));
    assert!(matches!(other, AppAction::Nothing));
    let failed = app.update(Message::RecordingErrorSignal("died".to_string()));
    assert!(matches!(failed, AppAction::Nothing));
    assert_eq!(note(&app), None);
}

#[test]
fn a_mode_switch_clobbers_no_choice() {
    let mut app = ready_window();
    app.update(Message::Selected(Choice::Target(ShotKind::Window)));
    let before = app.chosen();
    app.update(Message::Selected(Choice::Mode(CaptureMode::Record)));
    app.update(Message::Selected(Choice::Mode(CaptureMode::Screenshot)));
    assert_eq!(app.chosen(), before);
}

#[test]
fn picking_a_color_reports_its_hex() {
    let mut app = ready_window();
    assert!(matches!(
        app.update(Message::PickColorRequested),
        AppAction::PickColor { hide: true }
    ));
    let red = PickedColor {
        r: 1_000_000_000,
        g: 0,
        b: 0,
    };
    let shown = app.update(Message::PickColorFinished(Ok(red)));
    assert!(matches!(shown, AppAction::Show));
    assert_eq!(note(&app).as_deref(), Some("Picked #FF0000"));
}

#[test]
fn closing_before_the_window_is_there_ends_the_process() {
    let mut app = main_window();
    assert!(matches!(app.update(Message::ClosePressed), AppAction::Exit));
    assert!(matches!(app.update(Message::DragWindow), AppAction::Nothing));
    app.update(Message::WindowOpened);
    assert!(matches!(app.update(Message::ClosePressed), AppAction::Close));
    assert!(matches!(app.update(Message::DragWindow), AppAction::Drag));
}

#[test]
fn the_main_screen_lists_the_rows_of_its_mode() {
    let mut app = ready_window();
    let labels = |app: &App| -> Vec<&'static str> {
        app.main_view().rows.iter().map(|r| r.label).collect()
    };
    assert_eq!(labels(&app), vec!["Mode", "Target", "Format", "Delay"]);
    assert_eq!(app.main_view().capture_label, "Capture");
    app.update(Message::Selected(Choice::Mode(CaptureMode::Record)));
    assert_eq!(
        labels(&app),
        vec!["Mode", "Target", "Preset", "Audio", "Delay"]
    );
    assert_eq!(app.main_view().capture_label, "Start Recording");
    let view = app.main_view();
    let chosen: Vec<&str> = view
        .rows
        .iter()
        .map(|row| {
            row.segments
                .iter()
                .find(|s| s.selected)
                .map(|s| s.label)
                .unwrap_or("")
        })
        .collect();
    assert_eq!(
        chosen,
        vec!["Record", "Full screen", "HEVC", "No audio", "No delay"]
    );
    assert!(view.can_capture && view.can_pick_color);
}

#[test]
fn the_title_names_what_is_shown() {
    let mut app = ready_window();
    assert_eq!(app.title(), "Saola Capture");
    app.update(Message::HistoryRequested(Vec::new()));
    assert_eq!(app.title(), "Saola Capture — History");
    app.update(Message::HistoryClosed);
    assert_eq!(app.title(), "Saola Capture");

    let failed = App::boot(
        WindowMode::Edit("/tmp/shot.webp".to_string()),
        Err("gone".to_string()),
        CaptureConfig::default(),
        palette(),
        sizes(),
    );
    assert_eq!(failed.title(), "Saola Capture — shot.webp");
    assert!(matches!(
        failed.screen(),
        ViewState::Editor { editor: Err(_), .. }
    ));
    assert_eq!(
        editor_error_text("gone"),
        "Could not open this image: gone"
    );
}

#[test]
fn the_title_follows_a_save_under_another_name() {
    let canvas = Frame::new(2, 2, 120, vec![0u8; 16]).expect("valid buffer");
    let editor = EditorState::open(
        "/tmp/a.webp",
        canvas,
        palette(),
        sizes(),
        ImageFormat::Webp,
        90,
    );
    let mut app = App::open_on(
        CaptureConfig::default(),
        ViewState::Editor {
            path: "/tmp/a.webp".to_string(),
            editor: Ok(editor),
        },
    );
    assert_eq!(app.title(), "Saola Capture — a.webp");
    app.update(Message::Editor(
        saola_capture::editor_state::Message::SaveFinished(Ok("/tmp/b.png".to_string())),
    ));
    assert_eq!(app.title(), "Saola Capture — b.png");
    app.update(Message::Editor(
        saola_capture::editor_state::Message::ToolSelected(Tool::Arrow),
    ));
    match app.screen() {
        ViewState::Editor { editor: Ok(state), .. } => {
            assert_eq!(state.model().tool(), Tool::Arrow)
        }
        _ => panic!("expected the editor"),
    }
}

#[test]
fn the_library_is_shown_in_the_same_window() {
    let mut app = ready_window();
    let item = HistoryItem::Recording(RecordingFile {
        path: "/tmp/Recording 1.mkv".to_string(),
        unix: 5,
        bytes: 10,
    });
    app.update(Message::HistoryRequested(vec![item]));
    match app.update(Message::History(library::Message::OpenRequested(
        "/tmp/Recording 1.mkv".to_string(),
    ))) {
        AppAction::History(library::Action::OpenDir(path)) => {
            assert_eq!(path, "/tmp/Recording 1.mkv")
        }
        other => panic!("expected the folder, got {other:?}"),
    }
    app.update(Message::HistoryClosed);
    assert!(matches!(
        app.update(Message::History(library::Message::DeleteCancelled)),
        AppAction::Nothing
    ));
}

#[test]
fn a_toggle_stops_what_is_recording() {
    assert!(stops(RecordActionKind::Stop, None));
    assert!(!stops(RecordActionKind::Start, Some(true)));
    assert!(stops(RecordActionKind::Toggle, Some(true)));
    assert!(!stops(RecordActionKind::Toggle, Some(false)));
    assert!(!stops(RecordActionKind::Toggle, None));
}

#[test]
fn a_started_recording_says_what_was_asked_for() {
    assert_eq!(
        started_text(VideoPreset::Hevc, None),
        "recording started (preset=hevc, audio=none) — stop it with `saola-capture record stop`"
    );
    assert_eq!(
        started_text(VideoPreset::Av1, Some(AudioSource::Both)),
        "recording started (preset=av1, audio=both) — stop it with `saola-capture record stop`"
    );
}

#[test]
fn a_trial_run_casts_the_named_window_or_the_focused_monitor() {
    let mut options = record_options(
        &CaptureConfig::default(),
        RecordKind::Fullscreen,
        VideoPreset::Hevc,
        None,
    );
    assert_eq!(dry_run_target(&options), CastTarget::FocusedMonitor);
    options.window_id = Some(42);
    assert_eq!(dry_run_target(&options), CastTarget::Window { id: 42 });
}

#[test]
fn windows_have_names_on_the_bus() {
    assert_eq!(WindowAction::dbus_mode(None), "main");
    let edit = WindowAction::Edit {
        path: "/tmp/a.webp".to_string(),
    };
    assert_eq!(WindowAction::dbus_mode(Some(&edit)), "edit:/tmp/a.webp");
}

#[test]
fn answers_and_failures_are_reported_apart() {
    let good = report(Ok("/tmp/a.webp".to_string()));
    assert!(good.success);
    assert_eq!(good.line, "/tmp/a.webp");

    let words = |err: CliRunError| -> String {
        let bad = report(Err(err));
        assert!(!bad.success);
        bad.line
    };
    let text = || "why".to_string();
    assert_eq!(
        words(CliRunError::Args(CliError { message: text() })),
        "saola-capture: why"
    );
    assert_eq!(words(CliRunError::Bus(text())), "saola-capture: why");
    assert_eq!(words(CliRunError::Client(text())), "saola-capture: why");
    assert_eq!(
        words(CliRunError::Runtime(text())),
        "saola-capture: could not start an async runtime: why"
    );
    assert_eq!(words(CliRunError::Capture(text())), "saola-capture: why");
    assert_eq!(words(CliRunError::Storage(text())), "saola-capture: why");
    assert_eq!(words(CliRunError::Cast(text())), "saola-capture: why");
}

#[test]
fn kinds_and_sources_have_their_names() {
    assert_eq!(ShotKind::Fullscreen.as_str(), "fullscreen");
    assert_eq!(ShotKind::Region.as_str(), "region");
    assert_eq!(ShotKind::Window.as_str(), "window");
    assert_eq!(RecordKind::Region.as_str(), "region");
    assert_eq!(AudioSource::Mic.as_str(), "mic");
    assert_eq!(AudioSource::System.as_str(), "system");
    assert_eq!(VideoPreset::H264.as_str(), "h264");
}

fn window_sizes() -> WindowSizes {
    WindowSizes {
        header: 46 * 256,
        list_row: 44 * 256,
        padding: 20 * 256,
        popover_width: 400 * 256,
    }
}

#[test]
fn window_height_is_taller_than_the_header_alone() {
    let sizes = window_sizes();
    assert!(window_height(&sizes) > u64::from(sizes.header));
    assert_eq!(window_height(&sizes), (46 + 12 * 44 + 4 * 20) * 256);
}

#[test]
fn editor_window_size_is_wider_than_the_main_popover() {
    let sizes = window_sizes();
    let (width, height) = editor_window_size(&sizes);
    assert!(width > u64::from(sizes.popover_width));
    assert!(height > u64::from(sizes.header));
    assert_eq!((width, height), (1200 * 256, (92 + 440) * 256));
}

fn clip(name: &str) -> HistoryItem {
    HistoryItem::Recording(RecordingFile {
        path: format!("/tmp/{name}"),
        unix: 5,
        bytes: 10,
    })
}

fn export(app: &mut App, name: &str) -> Option<String> {
    match app.update(Message::History(library::Message::ExportRequested(
        format!("/tmp/{name}"),
        library::AnimatedFormat::Gif,
    ))) {
        AppAction::History(library::Action::Export { source, .. }) => Some(source),
        AppAction::History(library::Action::Nothing) => None,
        other => panic!("expected an answer of the library, got {other:?}"),
    }
}

fn export_ends(app: &mut App, name: &str) {
    app.update(Message::History(library::Message::ExportFinished(
        format!("/tmp/{name}"),
        Ok(("/tmp/out.gif".to_string(), 1)),
    )));
}

#[test]
fn one_export_runs_at_a_time_whatever_is_shown() {
    let mut app = ready_window();
    app.update(Message::HistoryRequested(vec![clip("a.mkv"), clip("b.mkv")]));
    assert_eq!(export(&mut app, "a.mkv"), Some("/tmp/a.mkv".to_string()));
    assert_eq!(export(&mut app, "b.mkv"), None);

    assert!(matches!(
        app.update(Message::History(library::Message::Refresh)),
        AppAction::History(library::Action::Reload)
    ));
    app.update(Message::HistoryReloaded(vec![clip("b.mkv")]));
    assert_eq!(export(&mut app, "b.mkv"), None);

    app.update(Message::HistoryClosed);
    app.update(Message::HistoryClosed);
    export_ends(&mut app, "b.mkv");
    app.update(Message::HistoryRequested(vec![clip("b.mkv")]));
    assert_eq!(export(&mut app, "b.mkv"), None);
    app.update(Message::HistoryRequested(vec![clip("b.mkv")]));
    assert_eq!(export(&mut app, "b.mkv"), None);

    export_ends(&mut app, "a.mkv");
    assert_eq!(export(&mut app, "b.mkv"), Some("/tmp/b.mkv".to_string()));
}

#[test]
fn an_export_that_ends_unseen_makes_room() {
    let mut app = ready_window();
    app.update(Message::HistoryRequested(vec![clip("a.mkv")]));
    assert!(export(&mut app, "a.mkv").is_some());
    app.update(Message::HistoryClosed);
    export_ends(&mut app, "a.mkv");
    app.update(Message::HistoryReloaded(vec![clip("a.mkv")]));
    assert_eq!(app.title(), "Saola Capture");
    app.update(Message::HistoryRequested(vec![clip("a.mkv")]));
    assert!(export(&mut app, "a.mkv").is_some());
}

#[test]
fn a_trial_run_asks_the_daemon_for_nothing() {
    let mut options = record_options(
        &CaptureConfig::default(),
        RecordKind::Fullscreen,
        VideoPreset::Hevc,
        Some(AudioSource::Mic),
    );
    assert_eq!(record_step(&options, Some(true)), RecordStep::Start);
    options.action = RecordActionKind::Toggle;
    assert_eq!(record_step(&options, Some(true)), RecordStep::Stop);
    assert_eq!(record_step(&options, None), RecordStep::Start);
    options.dry_run = true;
    options.window_id = Some(7);
    for action in [
        RecordActionKind::Start,
        RecordActionKind::Stop,
        RecordActionKind::Toggle,
    ] {
        options.action = action;
        assert_eq!(
            record_step(&options, Some(true)),
            RecordStep::DryRun(CastTarget::Window { id: 7 })
        );
    }
    assert_eq!(
        dry_run_audio_note(&options).as_deref(),
        Some(
            "saola-capture: dry run: --audio mic is ignored — a dry run negotiates video only \
             and writes nothing"
        )
    );
    options.audio = None;
    assert_eq!(dry_run_audio_note(&options), None);
}
