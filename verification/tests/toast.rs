use saola_capture::clock::{Duration, Instant};
use saola_capture::flash::Ratio;
use saola_capture::imaging::thumbnail_handle;
use saola_capture::picker::PickedColor;
use saola_capture::pixmap::Frame;
use saola_capture::toast::{
    Action, Message, Motion, Tile, Toast, ToastKind, ToastStack, card_stack_height, card_text,
    fraction, life_fraction, phase,
};

const CARD_WIDTH: f64 = 360.0;
const LIST_ROW: u32 = 44 * 256;
const GAP: u32 = 8 * 256;

fn theme() -> Motion {
    Motion {
        flash: 140,
        toast_in: 350,
        toast_idle: 5000,
        toast_out: 1000,
        toast_total: 6350,
        toast_max_stack: 3,
    }
}

fn start() -> Instant {
    Instant::from_nanos(1_000_000_000)
}

fn total_of(motion: &Motion) -> Duration {
    Duration::from_millis(motion.toast_total.into())
}

fn half(d: Duration) -> Duration {
    Duration { nanos: d.nanos / 2 }
}

fn times(d: Duration, n: u128) -> Duration {
    Duration { nanos: d.nanos * n }
}

fn value(ratio: Ratio) -> f64 {
    ratio.part as f64 / ratio.whole as f64
}

/// The offset in pixels, and the opacity.
fn phase_of(motion: &Motion, elapsed: Duration) -> (f64, f64) {
    let (offset, alpha) = phase(motion, elapsed);
    (value(offset) * CARD_WIDTH, value(alpha))
}

fn synthetic_frame(width: u32, height: u32) -> Frame {
    let mut pixels = Vec::with_capacity((width * height * 4) as usize);
    for y in 0..height {
        for x in 0..width {
            pixels.extend_from_slice(&[(x % 256) as u8, (y % 256) as u8, 0x40, 0xff]);
        }
    }
    Frame::new(width, height, 120, pixels).expect("well-formed synthetic frame")
}

#[test]
fn thumbnail_downscales_preserving_aspect_ratio() {
    let frame = synthetic_frame(2560, 1600);
    let thumb = thumbnail_handle(&frame, 128);
    let (w, h) = (thumb.width(), thumb.height());
    assert_eq!(w, 128, "the longer side hits the cap exactly");
    assert!(h < 128 && h > 0);
    assert_eq!(h, 80);
}

#[test]
fn thumbnail_never_upscales_a_small_frame() {
    let frame = synthetic_frame(20, 10);
    let thumb = thumbnail_handle(&frame, 128);
    assert_eq!((thumb.width(), thumb.height()), (20, 10));
}

#[test]
fn thumbnail_pixel_count_matches_its_declared_dimensions() {
    let frame = synthetic_frame(300, 300);
    let thumb = thumbnail_handle(&frame, 36);
    assert_eq!(
        thumb.pixels().len(),
        (thumb.width() * thumb.height() * 4) as usize
    );
}

fn toast_at(now: Instant) -> Toast {
    Toast {
        id: 0,
        kind: ToastKind::Capture {
            path: "/tmp/Screenshot_test.webp".to_string(),
            thumbnail: thumbnail_handle(&synthetic_frame(4, 4), 36),
        },
        elapsed_at_last_change: Duration::from_secs(0),
        resumed_at: Some(now),
    }
}

fn stack_paths(stack: &ToastStack) -> Vec<String> {
    stack
        .toasts()
        .iter()
        .filter_map(|toast| match &toast.kind {
            ToastKind::Capture { path, .. } => Some(path.clone()),
            ToastKind::Notice { .. }
            | ToastKind::Recording { .. }
            | ToastKind::Swatch { .. } => None,
        })
        .collect()
}

#[test]
fn elapsed_advances_while_running() {
    let now = start();
    let toast = toast_at(now);
    assert_eq!(
        toast.elapsed(now.after(Duration::from_secs(2))),
        Duration::from_secs(2)
    );
}

#[test]
fn pausing_freezes_elapsed_and_resuming_continues_from_there() {
    let now = start();
    let mut toast = toast_at(now);

    toast.pause(now.after(Duration::from_secs(1)));
    assert_eq!(
        toast.elapsed(now.after(Duration::from_secs(5))),
        Duration::from_secs(1)
    );

    toast.resume(now.after(Duration::from_secs(5)));
    assert_eq!(
        toast.elapsed(now.after(Duration::from_secs(6))),
        Duration::from_secs(2)
    );
}

#[test]
fn pausing_twice_in_a_row_is_a_no_op() {
    let now = start();
    let mut toast = toast_at(now);
    toast.pause(now.after(Duration::from_secs(1)));
    toast.pause(now.after(Duration::from_secs(3)));
    assert_eq!(
        toast.elapsed(now.after(Duration::from_secs(10))),
        Duration::from_secs(1)
    );
}

#[test]
fn resuming_twice_in_a_row_is_a_no_op() {
    let now = start();
    let mut toast = toast_at(now);
    toast.resume(now.after(Duration::from_secs(1)));
    assert_eq!(
        toast.elapsed(now.after(Duration::from_secs(2))),
        Duration::from_secs(2)
    );
}

#[test]
fn pushing_a_fourth_toast_drops_the_oldest() {
    let theme = theme();
    let now = start();
    let mut stack = ToastStack::default();
    let thumb = thumbnail_handle(&synthetic_frame(4, 4), 36);

    for n in 0..4 {
        stack.push(
            format!("/tmp/shot-{n}.webp"),
            thumb.clone(),
            &theme,
            now,
        );
    }

    assert_eq!(stack.len(), 3, "capped at motion.toast_max_stack");
    let paths = stack_paths(&stack);
    assert_eq!(
        paths,
        vec![
            "/tmp/shot-1.webp".to_string(),
            "/tmp/shot-2.webp".to_string(),
            "/tmp/shot-3.webp".to_string(),
        ],
        "the oldest (shot-0) was dropped; the newest three survive, oldest-first"
    );
}

#[test]
fn a_notice_toast_stacks_like_a_capture_but_opens_nothing() {
    let theme = theme();
    let now = start();
    let mut stack = ToastStack::default();

    stack.push(
        "/tmp/shot.webp".to_string(),
        thumbnail_handle(&synthetic_frame(4, 4), 36),
        &theme,
        now,
    );
    stack.push_notice(
        "Recording failed".to_string(),
        "ffmpeg exited with status 1: No space left on device".to_string(),
        &theme,
        now,
    );
    assert_eq!(stack.len(), 2);
    assert_eq!(stack_paths(&stack), vec!["/tmp/shot.webp".to_string()]);

    let capture_id = stack.toasts()[0].id;
    assert_eq!(
        stack.update(Message::Clicked(capture_id), now, &theme),
        Action::Open("/tmp/shot.webp".to_string())
    );
    let notice_id = stack.toasts()[1].id;
    assert_eq!(
        stack.update(Message::Clicked(notice_id), now, &theme),
        Action::Nothing
    );
}

#[test]
fn a_notice_toast_expires_like_any_other() {
    let theme = theme();
    let now = start();
    let mut stack = ToastStack::default();
    stack.push_notice(
        "Recording failed".to_string(),
        "disk full".to_string(),
        &theme,
        now,
    );

    let total = total_of(&theme);
    stack.update(Message::Tick, now.after(half(total)), &theme);
    assert_eq!(stack.len(), 1);
    stack.update(
        Message::Tick,
        now.after(total.plus(Duration::from_millis(1))),
        &theme,
    );
    assert!(stack.is_empty());
}

#[test]
fn tick_expires_a_toast_past_its_total_lifetime() {
    let theme = theme();
    let now = start();
    let mut stack = ToastStack::default();
    stack.push(
        "/tmp/a.webp".to_string(),
        thumbnail_handle(&synthetic_frame(4, 4), 36),
        &theme,
        now,
    );

    let total = total_of(&theme);
    let action = stack.update(Message::Tick, now.after(total), &theme);

    assert_eq!(action, Action::Nothing);
    assert!(stack.is_empty());
}

#[test]
fn tick_never_expires_a_hovered_toast() {
    let theme = theme();
    let now = start();
    let mut stack = ToastStack::default();
    stack.push(
        "/tmp/a.webp".to_string(),
        thumbnail_handle(&synthetic_frame(4, 4), 36),
        &theme,
        now,
    );
    let id = stack.toasts()[0].id;

    let _ = stack.update(Message::Hovered(id), now.after(Duration::from_secs(1)), &theme);

    let total = total_of(&theme);
    let far_future = now.after(times(total, 10));
    let _ = stack.update(Message::Tick, far_future, &theme);

    assert_eq!(
        stack.len(),
        1,
        "a paused toast's elapsed time never advances"
    );
}

#[test]
fn unhovering_resumes_the_countdown() {
    let theme = theme();
    let now = start();
    let mut stack = ToastStack::default();
    stack.push(
        "/tmp/a.webp".to_string(),
        thumbnail_handle(&synthetic_frame(4, 4), 36),
        &theme,
        now,
    );
    let id = stack.toasts()[0].id;

    let _ = stack.update(Message::Hovered(id), now.after(Duration::from_secs(1)), &theme);
    let _ = stack.update(Message::Unhovered(id), now.after(Duration::from_secs(4)), &theme);

    let total = total_of(&theme);
    let far_future = now.after(times(total, 10));
    let _ = stack.update(Message::Tick, far_future, &theme);

    assert!(stack.is_empty(), "resumed, so it must eventually expire");
}

#[test]
fn clicking_a_known_toast_opens_its_path() {
    let theme = theme();
    let now = start();
    let mut stack = ToastStack::default();
    stack.push(
        "/tmp/click-me.webp".to_string(),
        thumbnail_handle(&synthetic_frame(4, 4), 36),
        &theme,
        now,
    );
    let id = stack.toasts()[0].id;

    let action = stack.update(Message::Clicked(id), now, &theme);

    assert_eq!(action, Action::Open("/tmp/click-me.webp".to_string()));
}

#[test]
fn clicking_an_unknown_id_is_a_no_op() {
    let theme = theme();
    let now = start();
    let mut stack = ToastStack::default();
    stack.push(
        "/tmp/a.webp".to_string(),
        thumbnail_handle(&synthetic_frame(4, 4), 36),
        &theme,
        now,
    );

    let action = stack.update(Message::Clicked(9999), now, &theme);

    assert_eq!(action, Action::Nothing);
}

#[test]
fn phase_slides_in_from_a_full_card_width_to_zero() {
    let theme = theme();
    let in_dur = Duration::from_millis(theme.toast_in.into());

    let (offset_start, alpha_start) = phase_of(&theme, Duration::from_secs(0));
    assert_eq!(offset_start, CARD_WIDTH);
    assert_eq!(alpha_start, 0.0);

    let (offset_end, alpha_end) = phase_of(&theme, in_dur);
    assert_eq!(offset_end, 0.0);
    assert_eq!(alpha_end, 1.0);
}

#[test]
fn phase_is_fully_visible_and_stationary_at_rest() {
    let theme = theme();
    let in_dur = Duration::from_millis(theme.toast_in.into());
    let idle_dur = Duration::from_millis(theme.toast_idle.into());

    let (offset, alpha) = phase_of(&theme, in_dur.plus(half(idle_dur)));
    assert_eq!(offset, 0.0);
    assert_eq!(alpha, 1.0);
}

#[test]
fn phase_fades_to_zero_by_the_end_of_the_total_span() {
    let theme = theme();
    let total = total_of(&theme);

    let (offset, alpha) = phase_of(&theme, total);
    assert_eq!(offset, 0.0);
    assert_eq!(alpha, 0.0);
}

#[test]
fn life_fraction_counts_down_from_one_to_zero_over_the_total_span() {
    let theme = theme();
    let total = total_of(&theme);

    assert_eq!(value(life_fraction(&theme, Duration::from_secs(0))), 1.0);
    assert_eq!(value(life_fraction(&theme, total)), 0.0);
    let half = value(life_fraction(&theme, half(total)));
    assert!((half - 0.5).abs() < 0.01, "got {half}");
}

#[test]
fn fraction_clamps_and_guards_against_a_zero_total() {
    assert_eq!(value(fraction(Duration::from_secs(1), Duration::from_secs(0))), 1.0);
    assert_eq!(
        value(fraction(Duration::from_secs(100), Duration::from_secs(1))),
        1.0
    );
    assert_eq!(value(fraction(Duration::from_secs(0), Duration::from_secs(1))), 0.0);
}

#[test]
fn surface_height_grows_with_more_cards_and_never_shrinks_below_one() {
    let one = card_stack_height(LIST_ROW, GAP, 1);
    let three = card_stack_height(LIST_ROW, GAP, 3);
    assert!(three > one);
    assert_eq!(
        card_stack_height(LIST_ROW, GAP, 0),
        one,
        "clamped to at least one card"
    );
}

#[test]
fn a_thumbnail_takes_the_pixels_at_its_steps() {
    let thumb = thumbnail_handle(&synthetic_frame(4, 2), 2);
    assert_eq!((thumb.width(), thumb.height()), (2, 1));
    assert_eq!(thumb.pixels()[2..4], [0x40, 0xff]);
    assert_eq!(thumb.pixels()[6..8], [0x40, 0xff]);
    assert_ne!(thumb.pixels()[0], thumb.pixels()[4]);
}

#[test]
fn the_height_of_a_stack_is_its_cards_and_gaps() {
    assert_eq!(card_stack_height(LIST_ROW, GAP, 1), 88);
    assert_eq!(card_stack_height(LIST_ROW, GAP, 3), 3 * 88 + 2 * 8);
}

#[test]
fn a_recording_shows_its_folder_when_clicked() {
    let mut stack = ToastStack::default();
    stack.push_recording("/tmp/a.mkv".to_string(), &theme(), start());
    let id = stack.toasts()[0].id;
    assert_eq!(
        stack.update(Message::Clicked(id), start(), &theme()),
        Action::OpenDir("/tmp/a.mkv".to_string())
    );
}

#[test]
fn a_swatch_opens_nothing() {
    let mut stack = ToastStack::default();
    let rgb = PickedColor { r: 0, g: 0, b: 0 };
    stack.push_swatch("#000000".to_string(), rgb, &theme(), start());
    let id = stack.toasts()[0].id;
    assert_eq!(
        stack.update(Message::Clicked(id), start(), &theme()),
        Action::Nothing
    );
}

#[test]
fn cards_say_what_they_announce() {
    let capture = card_text(&ToastKind::Capture {
        path: "/tmp/a.webp".to_string(),
        thumbnail: synthetic_frame(1, 1),
    });
    assert_eq!(
        (capture.title.as_str(), capture.body.as_str()),
        ("Screenshot saved", "a.webp")
    );
    assert_eq!(capture.tile, Tile::Thumbnail);
    let notice = card_text(&ToastKind::Notice {
        title: "T".to_string(),
        body: "B".to_string(),
    });
    assert_eq!((notice.title.as_str(), notice.body.as_str()), ("T", "B"));
    assert_eq!(notice.tile, Tile::Blank);
    let recording = card_text(&ToastKind::Recording {
        path: "/tmp/a.mkv".to_string(),
    });
    assert_eq!(
        (recording.title.as_str(), recording.body.as_str()),
        ("Recording saved", "a.mkv")
    );
    let rgb = PickedColor {
        r: 1_000_000_000,
        g: 0,
        b: 0,
    };
    let swatch = card_text(&ToastKind::Swatch {
        hex: "#FF0000".to_string(),
        rgb,
    });
    assert_eq!(
        (swatch.title.as_str(), swatch.body.as_str(), swatch.mono),
        ("Color picked", "#FF0000", true)
    );
    assert_eq!(swatch.tile, Tile::Swatch(rgb));
}
