use saola_capture::capture::{LogicalRect, OutputInfo, WindowRef};
use saola_capture::clock::{Duration, Instant};
use saola_capture::daemon::{
    Daemon, DaemonEvent, Effect, Message, Metrics, RegionOutcome, ServeOutcome, ShutdownReason,
    SurfaceContent, message_of, shutdown_of, toast_surface_settings,
};
use saola_capture::overlay::{self, InputEvent};
use saola_capture::pixmap::Frame;
use saola_capture::toast::{self, Motion};
use saola_capture::units::{Point, RawPoint};

fn metrics() -> Metrics {
    Metrics {
        card_width: 360 * 256,
        list_row: 44 * 256,
        card_gap: 8 * 256,
        top: 60 * 256,
        right: 12 * 256,
    }
}

fn motion() -> Motion {
    Motion {
        flash: 140,
        toast_in: 350,
        toast_idle: 5000,
        toast_out: 1000,
        toast_total: 6350,
        toast_max_stack: 3,
    }
}

fn at(ms: u64) -> Instant {
    Instant::from_nanos(ms * 1_000_000)
}

fn daemon() -> Daemon {
    Daemon::boot(metrics(), motion()).0
}

fn output() -> OutputInfo {
    OutputInfo {
        name: "DP-2".to_string(),
        logical: LogicalRect {
            x: 10,
            y: 20,
            width: 800,
            height: 600,
        },
        scale: 120,
        physical_width: 800,
        physical_height: 600,
    }
}

fn thumbnail() -> Frame {
    Frame::new(1, 1, 120, vec![0, 0, 0, 255]).expect("valid buffer")
}

fn taken(path: &str) -> Message {
    Message::CaptureTaken {
        path: path.to_string(),
        thumbnail: thumbnail(),
    }
}

/// The surfaces that were shown and hidden.
fn surfaces(effects: &[Effect]) -> (Vec<u64>, Vec<u64>) {
    let mut shown = Vec::new();
    let mut hidden = Vec::new();
    for effect in effects {
        match effect {
            Effect::Show { surface, .. } => shown.push(*surface),
            Effect::Hide(surface) => hidden.push(*surface),
            _ => {}
        }
    }
    (shown, hidden)
}

#[test]
fn the_flash_is_on_screen_from_the_start() {
    let (daemon, effects) = Daemon::boot(metrics(), motion());
    assert_eq!(effects.len(), 1);
    match &effects[0] {
        Effect::Show { surface, settings } => {
            assert_eq!(daemon.content(*surface), SurfaceContent::Flash);
            assert!(settings.fills_output && settings.events_transparent);
            assert!(!settings.exclusive_keyboard && !settings.covers_reserved);
        }
        other => panic!("expected a surface, got {other:?}"),
    }
    assert_eq!(daemon.content(99), SurfaceContent::Blank);
    let idle = daemon.wakeups(at(0));
    assert!(!idle.flash && !idle.toasts && !idle.countdown && !idle.input);
}

#[test]
fn a_capture_flashes_and_is_announced() {
    let mut daemon = daemon();
    let effects = daemon.update(taken("/tmp/a.webp"), at(1000));
    let (shown, hidden) = surfaces(&effects);
    assert_eq!((shown.len(), hidden.len()), (1, 0));
    assert_eq!(daemon.content(shown[0]), SurfaceContent::Toasts);
    assert_eq!(daemon.toasts().len(), 1);
    assert!(daemon.flash().is_active(at(1000), Duration::from_millis(140)));
    assert!(daemon.wakeups(at(1000)).flash);
    assert!(daemon.wakeups(at(1000)).toasts);
}

#[test]
fn the_toast_surface_is_sized_for_its_cards() {
    let mut daemon = daemon();
    let first = surfaces(&daemon.update(taken("/tmp/a.webp"), at(0))).0[0];
    let effects = daemon.update(taken("/tmp/b.webp"), at(10));
    match effects.as_slice() {
        [Effect::Hide(old), Effect::Show { surface, settings }] => {
            assert_eq!(*old, first);
            assert_eq!(daemon.content(first), SurfaceContent::Blank);
            assert_eq!(daemon.content(*surface), SurfaceContent::Toasts);
            assert_eq!(settings.height, 2 * 88 + 8);
            assert_eq!(settings.width, 360);
            assert_eq!((settings.margin_top, settings.margin_right), (60, 12));
            assert!(!settings.events_transparent);
        }
        other => panic!("expected the surface to be replaced, got {other:?}"),
    }
    assert!(daemon.update(Message::Toast(toast::Message::Tick), at(20)).is_empty());
    let gone = surfaces(&daemon.update(Message::Toast(toast::Message::Tick), at(60_000)));
    assert_eq!((gone.0.len(), gone.1.len()), (0, 1));
    assert!(daemon.toasts().is_empty());
}

#[test]
fn toast_settings_round_to_pixels() {
    let m = Metrics {
        card_width: 360 * 256 + 128,
        ..metrics()
    };
    assert_eq!(toast_surface_settings(&m, 1).width, 361);
    assert_eq!(toast_surface_settings(&m, 0).height, 88);
}

#[test]
fn clicking_a_toast_opens_what_it_announces() {
    let mut daemon = daemon();
    daemon.update(taken("/tmp/a.webp"), at(0));
    daemon.update(Message::RecordingFinished("/tmp/b.mkv".to_string()), at(0));
    let ids: Vec<u64> = daemon.toasts().toasts().iter().map(|t| t.id).collect();
    match daemon
        .update(Message::Toast(toast::Message::Clicked(ids[0])), at(10))
        .as_slice()
    {
        [Effect::OpenEditor(path)] => assert_eq!(path, "/tmp/a.webp"),
        other => panic!("expected the editor, got {other:?}"),
    }
    match daemon
        .update(Message::Toast(toast::Message::Clicked(ids[1])), at(10))
        .as_slice()
    {
        [Effect::OpenFolder(path)] => assert_eq!(path, "/tmp/b.mkv"),
        other => panic!("expected the folder, got {other:?}"),
    }
}

#[test]
fn failures_and_warnings_are_announced() {
    let mut daemon = daemon();
    daemon.update(Message::RecordingFailed("disk full".to_string()), at(0));
    daemon.update(
        Message::Warning {
            title: "No audio".to_string(),
            body: "no such device".to_string(),
        },
        at(0),
    );
    let texts: Vec<(String, String)> = daemon
        .toasts()
        .toasts()
        .iter()
        .map(|t| {
            let text = toast::card_text(&t.kind);
            (text.title, text.body)
        })
        .collect();
    assert_eq!(
        texts,
        vec![
            ("Recording failed".to_string(), "disk full".to_string()),
            ("No audio".to_string(), "no such device".to_string()),
        ]
    );
}

#[test]
fn a_countdown_has_its_surface_while_it_counts() {
    let mut daemon = daemon();
    let shown = surfaces(&daemon.update(Message::CountdownStarted(3), at(0))).0;
    assert_eq!(shown.len(), 1);
    assert_eq!(daemon.content(shown[0]), SurfaceContent::Countdown);
    assert_eq!(daemon.countdown().remaining_secs(at(0)), 3);
    assert!(daemon.update(Message::Countdown, at(1000)).is_empty());
    assert!(daemon.wakeups(at(1000)).countdown);
    let hidden = surfaces(&daemon.update(Message::Countdown, at(3000))).1;
    assert_eq!(hidden, shown);
    assert!(daemon.update(Message::CountdownStarted(0), at(4000)).is_empty());
}

fn region(daemon: &mut Daemon, focused_window: Option<WindowRef>) -> Vec<Effect> {
    daemon.update(
        Message::BeginRegion {
            output: output(),
            focused_window,
        },
        at(0),
    )
}

fn input(daemon: &mut Daemon, surface: u64, event: InputEvent) -> Vec<Effect> {
    daemon.update(
        Message::OverlayEvent {
            surface,
            event,
            captured: false,
        },
        at(0),
    )
}

fn moved(x: i16, y: i16) -> InputEvent {
    InputEvent::CursorMoved(RawPoint::at(Point::from_pixels(x, y)))
}

#[test]
fn a_region_is_selected_answered_and_cleared() {
    let mut daemon = daemon();
    let begun = region(&mut daemon, None);
    let surface = surfaces(&begun).0[0];
    match &begun[0] {
        Effect::Show { settings, .. } => {
            assert_eq!(settings.output.as_deref(), Some("DP-2"));
            assert_eq!(settings.namespace, Some("saola-capture-overlay"));
            assert!(settings.exclusive_keyboard && settings.covers_reserved);
        }
        other => panic!("expected the overlay, got {other:?}"),
    }
    assert_eq!(daemon.content(surface), SurfaceContent::Overlay);
    input(&mut daemon, surface, moved(100, 100));
    input(&mut daemon, surface, InputEvent::LeftPressed);
    input(&mut daemon, surface, moved(300, 250));
    input(&mut daemon, surface, InputEvent::LeftReleased);
    assert!(daemon.overlay().expect("selecting").selection().is_some());
    match input(&mut daemon, surface, InputEvent::EnterPressed).as_slice() {
        [Effect::Reply(RegionOutcome::Selected(r)), Effect::Hide(id)] => {
            assert_eq!((r.x, r.y, r.width, r.height), (110, 120, 200, 150));
            assert_eq!(*id, surface);
        }
        other => panic!("expected the answer and then the end, got {other:?}"),
    }
    assert!(daemon.overlay().is_none());
    assert_eq!(daemon.content(surface), SurfaceContent::Blank);
}

#[test]
fn a_second_selection_is_refused() {
    let mut daemon = daemon();
    region(&mut daemon, None);
    match region(&mut daemon, None).as_slice() {
        [Effect::Refuse(why)] => {
            assert_eq!(*why, "a region selection is already in progress")
        }
        other => panic!("expected a refusal, got {other:?}"),
    }
}

#[test]
fn input_on_another_surface_selects_nothing() {
    let mut daemon = daemon();
    let toast = surfaces(&daemon.update(taken("/tmp/a.webp"), at(0))).0[0];
    let overlay = surfaces(&region(&mut daemon, None)).0[0];
    assert_ne!(toast, overlay);
    assert!(input(&mut daemon, toast, InputEvent::EscapePressed).is_empty());
    assert!(daemon.overlay().is_some());
    assert!(daemon.wakeups(at(0)).input);
}

#[test]
fn escape_ends_a_selection() {
    let mut daemon = daemon();
    let surface = surfaces(&region(&mut daemon, None)).0[0];
    match input(&mut daemon, surface, InputEvent::EscapePressed).as_slice() {
        [Effect::Reply(RegionOutcome::Cancelled), Effect::Hide(id)] => assert_eq!(*id, surface),
        other => panic!("expected the end, got {other:?}"),
    }
    assert!(daemon.overlay().is_none());
    assert!(!surfaces(&region(&mut daemon, None)).0.is_empty(), "the next can begin");
}

#[test]
fn the_window_button_answers_with_the_window() {
    let mut daemon = daemon();
    region(&mut daemon, Some(WindowRef(7)));
    match daemon
        .update(Message::Overlay(overlay::Message::SelectWindow), at(0))
        .as_slice()
    {
        [Effect::Reply(RegionOutcome::SelectedWindow(window)), Effect::Hide(_)] => {
            assert_eq!(*window, WindowRef(7))
        }
        other => panic!("expected the window, got {other:?}"),
    }
}

#[test]
fn a_message_for_an_overlay_that_is_gone_does_nothing() {
    let mut daemon = daemon();
    assert!(daemon
        .update(Message::Overlay(overlay::Message::Confirm), at(0))
        .is_empty());
    assert!(daemon.update(Message::Flash, at(0)).is_empty());
}

#[test]
fn the_end_is_logged() {
    let mut daemon = daemon();
    let line = |daemon: &mut Daemon, reason: ShutdownReason| -> String {
        match daemon.update(Message::Shutdown(reason), at(0)).as_slice() {
            [Effect::Exit(line)] => line.clone(),
            other => panic!("expected the end, got {other:?}"),
        }
    };
    assert_eq!(
        line(&mut daemon, ShutdownReason::Signal),
        "saola-capture: daemon: received SIGTERM/SIGINT — shutting down"
    );
    assert_eq!(
        line(&mut daemon, ShutdownReason::AlreadyRunning),
        "saola-capture: daemon: another instance already owns io.saola.Capture1 — exiting"
    );
    assert_eq!(
        line(&mut daemon, ShutdownReason::DBusUnavailable("no bus".to_string())),
        "saola-capture: daemon: could not serve io.saola.Capture1: no bus"
    );
    assert_eq!(
        line(&mut daemon, ShutdownReason::TrayQuit),
        "saola-capture: daemon: quit via the tray menu — shutting down"
    );
}

#[test]
fn events_of_the_bus_become_messages() {
    assert!(matches!(
        message_of(DaemonEvent::QuitRequested),
        Message::Shutdown(ShutdownReason::TrayQuit)
    ));
    assert!(matches!(
        message_of(DaemonEvent::CountdownStarted { seconds: 5 }),
        Message::CountdownStarted(5)
    ));
    match message_of(DaemonEvent::RecordingFailed {
        message: "why".to_string(),
    }) {
        Message::RecordingFailed(why) => assert_eq!(why, "why"),
        other => panic!("expected a failure, got {other:?}"),
    }
    assert!(shutdown_of(ServeOutcome::Serving).is_none());
    assert!(matches!(
        shutdown_of(ServeOutcome::AlreadyRunning),
        Some(ShutdownReason::AlreadyRunning)
    ));
    match shutdown_of(ServeOutcome::Failed("no bus".to_string())) {
        Some(ShutdownReason::DBusUnavailable(err)) => assert_eq!(err, "no bus"),
        other => panic!("expected a failure, got {other:?}"),
    }
}

#[test]
fn every_surface_gets_a_new_number() {
    let mut daemon = daemon();
    let mut seen: Vec<u64> = vec![0];
    for n in 0..5 {
        let effects = daemon.update(taken("/tmp/a.webp"), at(n * 10_000));
        for surface in surfaces(&effects).0 {
            assert!(!seen.contains(&surface), "{surface}");
            seen.push(surface);
        }
        for surface in surfaces(&daemon.update(
            Message::Toast(toast::Message::Tick),
            at(n * 10_000 + 9_000),
        ))
        .0
        {
            assert!(!seen.contains(&surface), "{surface}");
            seen.push(surface);
        }
    }
    assert_eq!(seen.len(), 6);
    assert!(daemon.has_room());
}
