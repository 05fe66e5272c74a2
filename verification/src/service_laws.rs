//! What the daemon and the recorder do, told by what happens to them.
use vstd::prelude::*;
use vstd::string::*;

use crate::clock::{Duration, Instant};
use crate::daemon::{
    DaemonEvent, Deed, Message, RegionOutcome, ServeOutcome, Service, Setting, ShutdownReason,
    spec_message_of, spec_shutdown_of, toast_setting,
};
use crate::flash::{Flash, fade_of};
use crate::overlay::{Action, Selecting};
use crate::recorder::{
    CastControl, NegotiatedFormat, NegotiatedGuard, Pump, PumpEvent, PumpOutcome, Recorder,
    RecorderError, StopOutcome,
};
use crate::toast::{News, Wanted, stack_height};
use crate::toast_laws::law_a_stack_is_as_high_as_its_cards;

verus! {

/// What happened is announced: a capture, a recording, a failure or a warning, each on
/// a card of its own; and nothing else is.
pub proof fn law_what_happened_is_announced(s: Service, m: Message, now: Instant)
    ensures
        ({
            let t = s.after(m, now);
            t.toasts == (match m {
                Message::CaptureTaken { path, thumbnail } => s.toasts.pushed(
                    News::Capture { path: path@, thumbnail: thumbnail@ },
                    s.motion,
                    now,
                ),
                Message::RecordingFinished(path) => s.toasts.pushed(
                    News::Recording { path: path@ },
                    s.motion,
                    now,
                ),
                Message::RecordingFailed(why) => s.toasts.pushed(
                    News::Notice { title: "Recording failed"@, body: why@ },
                    s.motion,
                    now,
                ),
                Message::Warning { title, body } => s.toasts.pushed(
                    News::Notice { title: title@, body: body@ },
                    s.motion,
                    now,
                ),
                Message::Toast(what) => s.toasts.after(what, now, s.motion),
                _ => s.toasts,
            })
        }),
{
}

/// The flash goes off when a capture is taken, and at no other time.
pub proof fn law_a_capture_sets_off_the_flash(s: Service, m: Message, now: Instant)
    ensures
        m is CaptureTaken ==> s.after(m, now).flash.started == Some(now),
        !(m is CaptureTaken) ==> s.after(m, now).flash == s.flash,
{
}

/// A countdown begins now and runs for the seconds it was asked for; nothing else
/// touches it. It is on the screen while it runs.
pub proof fn law_a_countdown_begins_when_asked(s: Service, m: Message, now: Instant)
    ensures
        ({
            let t = s.after(m, now);
            match m {
                Message::CountdownStarted(seconds) => {
                    &&& t.countdown.running == Some(
                        (now, Duration { nanos: (seconds * 1_000_000_000) as u128 }),
                    )
                    &&& t.countdown_surface is Some <==> t.countdown.active(now)
                },
                Message::Countdown => t.countdown == s.countdown && (t.countdown_surface is Some
                    <==> t.countdown.active(now)),
                _ => t.countdown == s.countdown && t.countdown_surface == s.countdown_surface,
            }
        }),
{
}

/// A click on a card opens what the card is of, before anything else is done.
pub proof fn law_a_clicked_card_is_opened(s: Service, what: crate::toast::Message, now: Instant)
    ensures
        ({
            let done = s.effects(Message::Toast(what), now);
            match s.toasts.answer(what) {
                Wanted::Open(path) => done.len() > 0 && done[0] == Deed::OpenEditor(path),
                Wanted::OpenDir(path) => done.len() > 0 && done[0] == Deed::OpenFolder(path),
                Wanted::Nothing => forall|k: int|
                    0 <= k < done.len() ==> (#[trigger] done[k]) is Show || done[k] is Hide,
            }
        }),
{
}

/// A region is selected on the output that was named: the overlay opens there with
/// nothing selected, if none is open.
pub proof fn law_a_region_is_selected_where_it_was_asked(s: Service, m: Message, now: Instant)
    requires
        s.overlay is None,
        m is BeginRegion,
    ensures
        ({
            let t = s.after(m, now);
            let done = s.effects(m, now);
            m matches Message::BeginRegion { output, focused_window } && {
                &&& t.overlay matches Some(o) && o.logical == output.logical && o.scale
                    == output.scale && o.focused_window == focused_window && o.selection is None
                    && o.drag is Idle && o.cursor is None
                &&& t.overlay_surface == Some(s.next)
                &&& done.len() == 1
                &&& done[0] matches Deed::Show { surface, settings } && surface == s.next
                    && covers_output(settings, output.name@)
            }
        }),
{
}

/// Whether a surface covers all of an output, the reserved parts too, and takes the
/// keyboard and the pointer.
pub open spec fn covers_output(settings: Setting, output: Seq<char>) -> bool {
    &&& settings.fills_output
    &&& settings.covers_reserved
    &&& settings.exclusive_keyboard
    &&& !settings.events_transparent
    &&& settings.output == Some(output)
}

/// What the overlay decided is what is answered: the region, the window or that nothing
/// was selected; and then the overlay is gone. Until it decides, nothing is answered.
pub proof fn law_the_answer_is_what_was_selected(
    s: Service,
    what: crate::overlay::Message,
    now: Instant,
    o: Selecting,
)
    requires
        s.overlay == Some(o),
    ensures
        ({
            let t = s.after(Message::Overlay(what), now);
            let done = s.effects(Message::Overlay(what), now);
            match o.answer(what) {
                Action::Nothing => done.len() == 0 && t.overlay == Some(o.after(what)),
                Action::Cancel => done.len() > 0 && done[0] == Deed::Reply(RegionOutcome::Cancelled)
                    && t.overlay is None && t.overlay_surface is None,
                Action::Confirm(region) => done.len() > 0 && done[0] == Deed::Reply(
                    RegionOutcome::Selected(region),
                ) && t.overlay is None && t.overlay_surface is None,
                Action::ConfirmWindow(window) => done.len() > 0 && done[0] == Deed::Reply(
                    RegionOutcome::SelectedWindow(window),
                ) && t.overlay is None && t.overlay_surface is None,
            }
        }),
{
}

/// The stack of toasts is on the screen while there is a card: in the corner, as wide as
/// a card and as high as the cards, taking what is clicked and nothing of the keyboard.
pub proof fn law_toasts_are_shown_at_their_size(s: Service, m: Message, now: Instant, k: int)
    requires
        m is CaptureTaken || m is RecordingFinished || m is RecordingFailed || m is Warning
            || m is Toast,
        0 <= k < s.effects(m, now).len(),
        s.effects(m, now)[k] is Show,
    ensures
        ({
            let t = s.after(m, now);
            let settings = s.effects(m, now)[k]->settings;
            let n = t.toasts.toasts.len() as int;
            &&& n > 0
            &&& t.toast_surface == Some(s.effects(m, now)[k]->surface)
            &&& !settings.fills_output && !settings.exclusive_keyboard
                && !settings.events_transparent && settings.output is None
            &&& -128 < 256 * settings.width - s.metrics.card_width <= 128
            &&& -128 < 256 * settings.margin_top - s.metrics.top <= 128
            &&& -128 < 256 * settings.margin_right - s.metrics.right <= 128
            &&& settings.height < u32::MAX ==> -128 < 256 * settings.height - (2 * (n
                * s.metrics.list_row) + (n - 1) * s.metrics.card_gap) <= 128
        }),
{
    let u = lemma_toast_step(s, m, now, k);
    lemma_toast_shown(u, s.effects(m, now)[k]);
}

proof fn lemma_toast_step(s: Service, m: Message, now: Instant, k: int) -> (u: Service)
    requires
        m is CaptureTaken || m is RecordingFinished || m is RecordingFailed || m is Warning
            || m is Toast,
        0 <= k < s.effects(m, now).len(),
        s.effects(m, now)[k] is Show,
    ensures
        s.after(m, now).toast_surface == u.toast_synced().toast_surface,
        s.after(m, now).toasts == u.toasts,
        u.toast_deeds().contains(s.effects(m, now)[k]),
        u.metrics == s.metrics,
{
    let op = s.effects(m, now)[k];
    let u = match m {
        Message::CaptureTaken { path, thumbnail } => Service {
            flash: Flash { started: Some(now) },
            ..s.with_news(News::Capture { path: path@, thumbnail: thumbnail@ }, now)
        },
        Message::RecordingFailed(why) => s.with_news(
            News::Notice { title: "Recording failed"@, body: why@ },
            now,
        ),
        Message::RecordingFinished(path) => s.with_news(News::Recording { path: path@ }, now),
        Message::Warning { title, body } => s.with_news(
            News::Notice { title: title@, body: body@ },
            now,
        ),
        Message::Toast(what) => Service { toasts: s.toasts.after(what, now, s.motion), ..s },
        _ => s,
    };
    let rest = u.toast_deeds();
    assert(s.after(m, now) == u.toast_synced());
    if let Message::Toast(what) = m {
        match s.toasts.answer(what) {
            Wanted::Nothing => {
                assert(rest[k] == op);
            },
            _ => {
                assert(k > 0 && rest[k - 1] == op);
            },
        }
    } else {
        assert(rest[k] == op);
    }
    assert(u.toast_synced().toasts == u.toasts);
    u
}

proof fn lemma_toast_shown(u: Service, op: Deed)
    requires
        u.toast_deeds().contains(op),
        op is Show,
    ensures
        ({
            let settings = op->settings;
            let n = u.toasts.toasts.len() as int;
            &&& n > 0
            &&& u.toast_synced().toast_surface == Some(op->surface)
            &&& !settings.fills_output && !settings.exclusive_keyboard
                && !settings.events_transparent && settings.output is None
            &&& -128 < 256 * settings.width - u.metrics.card_width <= 128
            &&& -128 < 256 * settings.margin_top - u.metrics.top <= 128
            &&& -128 < 256 * settings.margin_right - u.metrics.right <= 128
            &&& settings.height < u32::MAX ==> -128 < 256 * settings.height - (2 * (n
                * u.metrics.list_row) + (n - 1) * u.metrics.card_gap) <= 128
        }),
{
    let n = u.toasts.toasts.len() as int;
    law_a_stack_is_as_high_as_its_cards(u.metrics.list_row, u.metrics.card_gap, n);
    let high = stack_height(u.metrics.list_row, u.metrics.card_gap, n);
    assert(0 <= high <= u32::MAX);
    assert(op == (Deed::Show { surface: u.next, settings: toast_setting(u.metrics, n) }));
}

/// The flash and the countdown cover the output, and whatever is under them is clicked
/// and typed to as ever.
pub proof fn law_the_countdown_is_in_nobodys_way(s: Service, seconds: u32, now: Instant, k: int)
    requires
        0 <= k < s.effects(Message::CountdownStarted(seconds), now).len(),
    ensures
        s.effects(Message::CountdownStarted(seconds), now)[k] matches Deed::Show {
            surface,
            settings,
        } ==> settings.fills_output && settings.events_transparent && !settings.exclusive_keyboard,
{
}

/// A shutdown ends the daemon, once, with its reason.
pub proof fn law_a_shutdown_ends_the_daemon(s: Service, m: Message, now: Instant)
    ensures
        m is Shutdown ==> s.effects(m, now).len() == 1 && s.effects(m, now)[0] is Exit,
        m matches Message::Shutdown(reason) ==> s.effects(m, now)[0] == Deed::Exit(
            reason.spec_log(),
        ),
        m is Flash ==> s.effects(m, now).len() == 0 && s.after(m, now) == s,
{
}

/// A recording goes through its phases: asked for, begun with its handle, asked to stop,
/// and over. The clock runs from the request on, and the handle is held to the end.
pub proof fn law_a_recording_runs_its_course<H>(r: Recorder<H>, now: Instant, handle: H)
    requires
        r.wf(),
        r.phase is Idle,
    ensures
        ({
            let asked = r.starting(now);
            let live = asked.with_handle(handle);
            let ending = live.asked_to_stop();
            let over = ending.ended(None);
            &&& asked.phase is Starting && asked.started_at == Some(now) && asked.active is None
                && asked.last_error is None
            &&& asked.start_outcome() is Recording
            &&& live.phase is Recording && live.active == Some(handle) && live.started_at == Some(
                now,
            )
            &&& live.stop_answer() == Ok::<StopOutcome, RecorderError>(StopOutcome::Stopping)
            &&& ending.phase is Stopping && ending.active == Some(handle) && ending.started_at
                == Some(now)
            &&& over.phase is Idle && over.active is None && over.started_at is None
                && over.last_error is None
        }),
{
}

/// A stop is refused where nothing records and where it was asked for already, and a
/// refused one changes nothing.
pub proof fn law_a_stop_needs_a_recording<H>(r: Recorder<H>)
    ensures
        r.stop_answer() is Err <==> r.phase is Idle || r.phase is Stopping,
        r.phase is Idle ==> r.stop_answer() == Err::<StopOutcome, RecorderError>(
            RecorderError::NotRecording,
        ),
        r.phase is Stopping ==> r.stop_answer() == Err::<StopOutcome, RecorderError>(
            RecorderError::AlreadyStopping,
        ),
        r.stop_answer() is Err ==> r.asked_to_stop() == r,
{
}

/// An encoder that died ends its recording and leaves its reason; so does a start that
/// failed.
pub proof fn law_failures_leave_their_reason<H>(r: Recorder<H>, why: Seq<char>)
    ensures
        r.without_encoder(why).last_error == Some(why),
        r.phase is Recording || r.phase is Starting ==> r.without_encoder(why).phase is Stopping,
        r.without_encoder(why).active == r.active,
        r.without_encoder(why).ended(None).last_error == Some(why),
        r.failed_to_start(why).last_error == Some(why),
        r.failed_to_start(why).active is None,
{
}

/// The pump reads the stop flag, then the control channel, then waits for a frame; a
/// frame is written and the clock read, and so on round. A stop, a cast that ended or
/// failed, and an encoder that failed end it, each as what it was.
pub proof fn law_the_pump_goes_round(p: Pump, e: PumpEvent)
    ensures
        ({
            let q = p.after(e);
            match e {
                PumpEvent::StopFlag(true) => q.outcome == Some(PumpOutcome::StopRequested),
                PumpEvent::StopFlag(false) => q.next is ReadControl && q.outcome == p.outcome,
                PumpEvent::Control(None) => q.next is AwaitFrame && q.outcome == p.outcome,
                PumpEvent::Control(Some(CastControl::Ended)) => q.outcome == Some(
                    PumpOutcome::StreamEnded,
                ),
                PumpEvent::Control(Some(CastControl::Error(why))) => q.outcome == Some(
                    PumpOutcome::StreamError(why),
                ),
                PumpEvent::Control(Some(CastControl::Negotiated(_))) => q == p,
                PumpEvent::Frame(frame) => q.next is WriteFrame && q.in_hand == Some(frame)
                    && q.last == p.last,
                PumpEvent::NoFrameYet => q.next is ReadClock && q.last_health == p.last_health,
                PumpEvent::FramesGone => q.outcome == Some(PumpOutcome::StreamEnded),
                PumpEvent::Written(Ok(now)) => q.next is ReadClock && q.last == p.in_hand
                    && q.in_hand is None && q.last_health == now && (p.written < u64::MAX
                    ==> q.written == p.written + 1),
                PumpEvent::Written(Err(why)) => q.outcome == Some(PumpOutcome::EncoderFailed(why))
                    && q.last == p.last && q.next is Finish,
                PumpEvent::Clock(now) => if now.nanos >= p.last_health.nanos + 1_000_000_000 {
                    q.next is PollHealth && q.last_health == now
                } else {
                    q.next is ReadStopFlag && q.last_health == p.last_health
                },
                PumpEvent::Health(Ok(_)) => q.next is ReadStopFlag && q.outcome == p.outcome,
                PumpEvent::Health(Err(why)) => q.outcome == Some(PumpOutcome::EncoderFailed(why))
                    && q.next is Finish,
                PumpEvent::Sealed => q.next is Finish && q.outcome == p.outcome,
            }
        }),
{
}

/// Frames of the size that the encoder was started with are taken, and no others.
pub proof fn law_only_frames_of_one_size_are_taken(g: NegotiatedGuard, f: NegotiatedFormat)
    ensures
        g.admits(f) <==> f.width == g.spec.width && f.height == g.spec.height,
{
}

/// On each surface is drawn what it was put on the screen for; on one that is not there,
/// nothing.
pub proof fn law_a_surface_shows_what_it_is_for(s: Service, id: u64)
    requires
        s.wf(),
    ensures
        s.toast_surface == Some(id) ==> s.spec_content(id) is Toasts,
        s.overlay_surface == Some(id) ==> s.spec_content(id) is Overlay,
        s.countdown_surface == Some(id) ==> s.spec_content(id) is Countdown,
        s.spec_content(id) is Blank <==> !s.windows.contains_key(id),
        s.spec_content(id) is Toasts ==> s.toast_surface == Some(id),
        s.spec_content(id) is Overlay ==> s.overlay_surface == Some(id),
        s.spec_content(id) is Countdown ==> s.countdown_surface == Some(id),
{
}

/// What the bus service tells the daemon happens to the daemon: a capture, a region that
/// is asked for, a countdown, the end of a recording, a warning, or that it is to quit.
pub proof fn law_events_become_what_they_say(event: DaemonEvent, s: Service, now: Instant)
    ensures
        ({
            let m = spec_message_of(event);
            match event {
                DaemonEvent::CaptureTaken { path, thumbnail } => m == (Message::CaptureTaken {
                    path,
                    thumbnail,
                }),
                DaemonEvent::BeginRegion { output, focused_window } => m == (Message::BeginRegion {
                    output,
                    focused_window,
                }),
                DaemonEvent::CountdownStarted { seconds } => m == Message::CountdownStarted(seconds),
                DaemonEvent::RecordingFailed { message } => m == Message::RecordingFailed(message),
                DaemonEvent::RecordingFinished { path } => m == Message::RecordingFinished(path),
                DaemonEvent::Warning { title, body } => m == (Message::Warning { title, body }),
                DaemonEvent::QuitRequested => m is Shutdown && s.effects(m, now).len() == 1
                    && s.effects(m, now)[0] is Exit && m == Message::Shutdown(
                    ShutdownReason::TrayQuit,
                ),
            }
        }),
{
}

/// The daemon goes on exactly if it serves; another one, or a bus that fails, ends it.
pub proof fn law_the_daemon_goes_on_if_it_serves(outcome: ServeOutcome)
    ensures
        spec_shutdown_of(outcome) is None <==> outcome is Serving,
        outcome is AlreadyRunning ==> spec_shutdown_of(outcome) == Some(
            ShutdownReason::AlreadyRunning,
        ),
        outcome matches ServeOutcome::Failed(err) ==> spec_shutdown_of(outcome) == Some(
            ShutdownReason::DBusUnavailable(err),
        ),
{
}

/// The daemon sleeps unless something moves: the flash while it can be seen, the toasts
/// while there is one, the countdown while it runs; and it listens to input while a
/// region is selected.
pub proof fn law_the_daemon_wakes_for_what_moves(s: Service, now: Instant)
    ensures
        ({
            let w = s.spec_wakeups(now);
            &&& w.flash <==> s.flash.spec_opacity(now, fade_of(s.motion)).part > 0
            &&& w.toasts <==> s.toasts.toasts.len() > 0
            &&& w.countdown <==> s.countdown.seconds_left(now) > 0
            &&& w.input <==> s.overlay is Some
        }),
{
}

/// A start is let through where nothing records, and nowhere else; the time shown runs
/// from then on.
pub proof fn law_a_start_needs_an_idle_recorder<H>(r: Recorder<H>, now: Instant, later: Instant)
    requires
        r.wf(),
        now.nanos <= later.nanos,
    ensures
        r.start_answer() is Ok <==> r.phase is Idle,
        r.start_answer() is Err ==> r.start_answer() == Err::<(), RecorderError>(
            RecorderError::AlreadyRecording,
        ),
        r.phase is Idle ==> r.going_for(now) is None,
        r.starting(now).going_for(later) matches Some(d) && d.nanos == later.nanos - now.nanos,
{
}

} // verus!
