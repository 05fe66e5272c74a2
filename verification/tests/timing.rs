use saola_capture::clock::{Duration, Instant};
use saola_capture::countdown::Countdown;
use saola_capture::flash::{self, Flash, Ratio};
use saola_capture::toast::Motion;

fn start() -> Instant {
    Instant::from_nanos(5_000_000_000)
}

fn millis(ms: u64) -> Duration {
    Duration::from_millis(ms)
}

#[test]
fn idle_countdown_is_never_active_and_has_nothing_remaining() {
    let countdown = Countdown::default();
    let now = start();
    assert!(!countdown.is_active(now));
    assert_eq!(countdown.remaining_secs(now), 0);
}

#[test]
fn triggering_starts_the_countdown_at_the_full_duration() {
    let mut countdown = Countdown::default();
    let now = start();
    countdown.trigger(Duration::from_secs(3), now);
    assert!(countdown.is_active(now));
    assert_eq!(countdown.remaining_secs(now), 3);
}

#[test]
fn remaining_seconds_rounds_up_to_the_next_whole_second() {
    let mut countdown = Countdown::default();
    let now = start();
    countdown.trigger(Duration::from_secs(3), now);

    assert_eq!(countdown.remaining_secs(now.after(millis(600))), 3);
    assert_eq!(countdown.remaining_secs(now.after(millis(1000))), 2);
    assert_eq!(countdown.remaining_secs(now.after(millis(2999))), 1);
}

#[test]
fn the_countdown_becomes_inactive_exactly_at_its_total_duration() {
    let mut countdown = Countdown::default();
    let now = start();
    countdown.trigger(Duration::from_secs(2), now);

    assert!(countdown.is_active(now.after(millis(1999))));
    assert!(!countdown.is_active(now.after(millis(2000))));
    assert_eq!(countdown.remaining_secs(now.after(millis(2000))), 0);
    assert!(!countdown.is_active(now.after(millis(20_000))));
    assert_eq!(countdown.remaining_secs(now.after(millis(20_000))), 0);
}

#[test]
fn retriggering_restarts_the_countdown_from_the_new_total() {
    let mut countdown = Countdown::default();
    let now = start();
    countdown.trigger(Duration::from_secs(5), now);

    let later = now.after(Duration::from_secs(2));
    countdown.trigger(Duration::from_secs(3), later);

    assert_eq!(
        countdown.remaining_secs(later),
        3,
        "restarted from the new total, not continuing the old one"
    );
    assert!(countdown.is_active(later.after(Duration::from_secs(2))));
    assert!(!countdown.is_active(later.after(Duration::from_secs(3))));
}

#[test]
fn a_now_before_started_clamps_instead_of_underflowing() {
    let mut countdown = Countdown::default();
    let now = start();
    countdown.trigger(Duration::from_secs(4), now);
    assert_eq!(countdown.remaining_secs(now), 4);
    assert_eq!(countdown.remaining_secs(Instant::from_nanos(0)), 4);
}

const FADE_MS: u64 = 140;

fn fade() -> Duration {
    millis(FADE_MS)
}

fn value(ratio: Ratio) -> f64 {
    ratio.part as f64 / ratio.whole as f64
}

#[test]
fn idle_flash_is_never_active_and_fully_transparent() {
    let flash = Flash::default();
    let now = start();
    assert!(!flash.is_active(now, fade()));
    assert_eq!(value(flash.opacity(now, fade())), 0.0);
}

#[test]
fn triggering_starts_at_full_opacity() {
    let mut flash = Flash::default();
    let now = start();
    flash.trigger(now);
    assert!(flash.is_active(now, fade()));
    assert_eq!(value(flash.opacity(now, fade())), 1.0);
}

#[test]
fn opacity_fades_linearly_to_zero() {
    let mut flash = Flash::default();
    let now = start();
    flash.trigger(now);

    let half = value(flash.opacity(now.after(millis(FADE_MS / 2)), fade()));
    assert!((half - 0.5).abs() < 0.01, "got {half}");

    let three_quarters = value(flash.opacity(now.after(millis(FADE_MS * 3 / 4)), fade()));
    assert!((three_quarters - 0.25).abs() < 0.01, "got {three_quarters}");
}

#[test]
fn the_flash_becomes_inactive_exactly_at_fade_and_opacity_hits_zero() {
    let mut flash = Flash::default();
    let now = start();
    flash.trigger(now);

    assert!(flash.is_active(now.after(millis(FADE_MS - 1)), fade()));
    assert!(!flash.is_active(now.after(fade()), fade()));
    assert_eq!(value(flash.opacity(now.after(fade()), fade())), 0.0);
    assert_eq!(value(flash.opacity(now.after(millis(FADE_MS * 10)), fade())), 0.0);
}

#[test]
fn retriggering_restarts_the_fade_from_full_opacity() {
    let mut flash = Flash::default();
    let now = start();
    flash.trigger(now);
    let later = now.after(millis(FADE_MS / 2));
    flash.trigger(later);

    assert_eq!(
        value(flash.opacity(later, fade())),
        1.0,
        "restarted, not continued"
    );
    assert!(flash.is_active(later.after(millis(FADE_MS - 1)), fade()));
}

#[test]
fn a_long_faded_flash_stays_inert_without_ever_being_reset() {
    let mut flash = Flash::default();
    let now = start();
    flash.trigger(now);

    let far_future = now.after(millis(FADE_MS * 1000));
    assert!(!flash.is_active(far_future, fade()));
    assert_eq!(value(flash.opacity(far_future, fade())), 0.0);
}

#[test]
fn a_now_before_started_clamps_to_full_opacity_instead_of_underflowing() {
    let mut flash = Flash::default();
    let now = start();
    flash.trigger(now);
    assert_eq!(value(flash.opacity(now, fade())), 1.0);
    assert_eq!(value(flash.opacity(Instant::from_nanos(0), fade())), 1.0);
}

#[test]
fn a_ratio_and_its_rest_make_the_whole() {
    let third = Ratio { part: 1, whole: 3 };
    assert_eq!(third.rest(), Ratio { part: 2, whole: 3 });
    assert_eq!(third.rest().rest(), third);
}

#[test]
fn fade_reads_the_flash_token() {
    let motion = Motion {
        flash: 140,
        toast_in: 350,
        toast_idle: 5000,
        toast_out: 1000,
        toast_total: 6350,
        toast_max_stack: 3,
    };
    assert_eq!(
        flash::fade(&motion),
        Duration::from_millis(motion.flash.into())
    );
}
