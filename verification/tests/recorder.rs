use std::collections::VecDeque;

use saola_capture::clock::{Duration, Instant};
use saola_capture::recorder::{
    CastControl, HEALTH_INTERVAL_NANOS, NegotiatedFormat, NegotiatedGuard, POLL_INTERVAL_NANOS,
    Phase, Pump, PumpAction, PumpEvent, PumpOutcome, RecorderError, RecorderState, StartOutcome,
    StopOutcome, VideoFrame, VideoSpec, pump_frames,
};

fn at(secs: u64) -> Instant {
    Instant::from_nanos(secs * 1_000_000_000)
}

fn state() -> RecorderState<u32> {
    RecorderState::default()
}

#[test]
fn the_happy_path_walks_all_four_phases() {
    let mut recorder = state();
    assert_eq!(recorder.phase(), Phase::Idle);
    assert!(!recorder.is_active());

    recorder.begin_start(at(100)).unwrap();
    assert_eq!(recorder.phase(), Phase::Starting);
    assert!(recorder.is_active());

    assert_eq!(recorder.started(7), StartOutcome::Recording);
    assert_eq!(recorder.phase(), Phase::Recording);

    assert_eq!(recorder.request_stop().unwrap(), StopOutcome::Stopping);
    assert_eq!(recorder.phase(), Phase::Stopping);
    assert!(recorder.is_active(), "a stopping recording is still busy");

    assert_eq!(recorder.finished(Ok(())), Some(7));
    assert_eq!(recorder.phase(), Phase::Idle);
    assert!(!recorder.is_active());
    assert_eq!(recorder.last_error(), None);
}

#[test]
fn a_second_start_is_refused_from_every_busy_phase() {
    for reach_phase in [Phase::Starting, Phase::Recording, Phase::Stopping] {
        let mut recorder = state();
        recorder.begin_start(at(100)).unwrap();
        if reach_phase != Phase::Starting {
            recorder.started(1);
        }
        if reach_phase == Phase::Stopping {
            recorder.request_stop().unwrap();
        }
        assert_eq!(recorder.phase(), reach_phase);
        assert_eq!(
            recorder.begin_start(at(100)),
            Err(RecorderError::AlreadyRecording),
            "{reach_phase:?}"
        );
    }
}

#[test]
fn stopping_nothing_says_so() {
    let mut recorder = state();
    assert_eq!(recorder.request_stop(), Err(RecorderError::NotRecording));
}

#[test]
fn stopping_twice_is_refused_rather_than_racing_the_first_stop() {
    let mut recorder = state();
    recorder.begin_start(at(100)).unwrap();
    recorder.started(1);
    recorder.request_stop().unwrap();
    assert_eq!(recorder.request_stop(), Err(RecorderError::AlreadyStopping));
}

#[test]
fn a_stop_during_start_is_queued_and_cancels_the_start() {
    let mut recorder = state();
    recorder.begin_start(at(100)).unwrap();

    assert_eq!(
        recorder.request_stop().unwrap(),
        StopOutcome::QueuedDuringStart
    );
    assert_eq!(recorder.phase(), Phase::Starting);

    assert_eq!(recorder.started(9), StartOutcome::StopImmediately);
    assert_eq!(recorder.phase(), Phase::Stopping);
    assert_eq!(recorder.finished(Ok(())), Some(9));
    assert_eq!(recorder.phase(), Phase::Idle);
}

#[test]
fn a_failed_start_returns_to_idle_and_remembers_why() {
    let mut recorder = state();
    recorder.begin_start(at(100)).unwrap();
    recorder.start_failed("no VAAPI device");
    assert_eq!(recorder.phase(), Phase::Idle);
    assert_eq!(recorder.last_error(), Some("no VAAPI device"));
    assert!(recorder.begin_start(at(100)).is_ok());
}

#[test]
fn an_encoder_death_moves_to_stopping_not_straight_to_idle() {
    let mut recorder = state();
    recorder.begin_start(at(100)).unwrap();
    recorder.started(3);

    recorder.encoder_died("ffmpeg exited with status 1: No space left on device");
    assert_eq!(
        recorder.phase(),
        Phase::Stopping,
        "teardown still has to happen"
    );
    assert_eq!(
        recorder.begin_start(at(100)),
        Err(RecorderError::AlreadyRecording)
    );
    assert_eq!(recorder.request_stop(), Err(RecorderError::AlreadyStopping));

    assert_eq!(recorder.finished(Err("disk full".to_string())), Some(3));
    assert_eq!(recorder.phase(), Phase::Idle);
    assert_eq!(recorder.last_error(), Some("disk full"));
}

#[test]
fn an_encoder_death_during_start_is_absorbed_too() {
    let mut recorder = state();
    recorder.begin_start(at(100)).unwrap();
    recorder.encoder_died("ffmpeg died before the first frame");
    assert_eq!(recorder.phase(), Phase::Stopping);
}

#[test]
fn elapsed_runs_from_the_start_request_and_resets_on_idle() {
    let mut recorder = state();
    let start = at(100);
    assert_eq!(recorder.elapsed(start), None);
    recorder.begin_start(start).unwrap();
    assert_eq!(
        recorder.elapsed(start.after(Duration::from_secs(9))),
        Some(Duration::from_secs(9))
    );
    recorder.started(1);
    assert_eq!(
        recorder.elapsed(start.after(Duration::from_secs(10))),
        Some(Duration::from_secs(10))
    );
    recorder.finished(Ok(()));
    assert_eq!(recorder.elapsed(start.after(Duration::from_secs(11))), None);
}

#[test]
fn a_start_that_lands_after_a_reset_is_cancelled_rather_than_resurrected() {
    let mut recorder = state();
    recorder.begin_start(at(100)).unwrap();
    recorder.start_failed("gave up");
    assert_eq!(recorder.started(5), StartOutcome::Cancelled);
    assert_eq!(recorder.phase(), Phase::Idle);
}

#[test]
fn every_refusal_names_something_the_user_can_do() {
    for err in [
        RecorderError::AlreadyRecording,
        RecorderError::NotRecording,
        RecorderError::AlreadyStopping,
    ] {
        let message = err.message();
        assert!(!message.is_empty(), "{err:?}");
    }
    assert!(RecorderError::AlreadyRecording
        .message()
        .contains("record stop"));
}

/// A sink that records what it was given and can be told to fail.
struct FakeSink {
    frames: Vec<usize>,
    fail_after: Option<usize>,
    dead: bool,
}

impl FakeSink {
    fn new() -> Self {
        Self {
            frames: Vec::new(),
            fail_after: None,
            dead: false,
        }
    }

    fn failing_after(count: usize) -> Self {
        Self {
            fail_after: Some(count),
            ..Self::new()
        }
    }

    fn write_video(&mut self, bytes: &[u8]) -> Result<(), String> {
        if self.dead || self.fail_after == Some(self.frames.len()) {
            self.dead = true;
            return Err("ffmpeg exited with status 1: No space left on device".to_string());
        }
        self.frames.push(bytes.len());
        Ok(())
    }

    fn poll_health(&mut self) -> Result<(), String> {
        if self.dead {
            Err("already dead".to_string())
        } else {
            Ok(())
        }
    }
}

/// Everything that a pump meets: what is queued, how long the cast is silent
/// first, and when the stop flag is set.
struct World {
    frames: VecDeque<VideoFrame>,
    /// Whether the cast still holds its end of the frame channel.
    frames_open: bool,
    silent_polls: u32,
    control: VecDeque<CastControl>,
    /// The flag is set once so many frames were written.
    stop_after: Option<u64>,
    sink: FakeSink,
    nanos: u64,
    health_polls: u32,
}

impl World {
    fn new(sink: FakeSink) -> Self {
        World {
            frames: VecDeque::new(),
            frames_open: true,
            silent_polls: 0,
            control: VecDeque::new(),
            stop_after: None,
            sink,
            nanos: 1_000_000_000,
            health_polls: 0,
        }
    }

    fn now(&self) -> Instant {
        Instant::from_nanos(self.nanos)
    }

    /// Does what the pump wants done, until it is over.
    fn run(&mut self, pump: &mut Pump) {
        let mut action = pump.next;
        loop {
            let event = match action {
                PumpAction::ReadStopFlag => PumpEvent::StopFlag(
                    self.stop_after.is_some_and(|count| pump.written >= count),
                ),
                PumpAction::ReadControl => PumpEvent::Control(self.control.pop_front()),
                PumpAction::AwaitFrame => {
                    if self.silent_polls > 0 {
                        self.silent_polls -= 1;
                        self.nanos += POLL_INTERVAL_NANOS as u64;
                        PumpEvent::NoFrameYet
                    } else {
                        match self.frames.pop_front() {
                            Some(frame) => PumpEvent::Frame(frame),
                            None if self.frames_open => {
                                self.nanos += POLL_INTERVAL_NANOS as u64;
                                PumpEvent::NoFrameYet
                            }
                            None => PumpEvent::FramesGone,
                        }
                    }
                }
                PumpAction::WriteFrame => {
                    let frame = pump.in_hand.as_ref().expect("a frame in hand");
                    let result = self.sink.write_video(&frame.bytes);
                    PumpEvent::Written(result.map(|()| Instant::from_nanos(self.nanos)))
                }
                PumpAction::ReadClock => PumpEvent::Clock(self.now()),
                PumpAction::PollHealth => {
                    self.health_polls += 1;
                    PumpEvent::Health(self.sink.poll_health())
                }
                PumpAction::SealLastFrame => {
                    let frame = pump.last.as_ref().expect("a frame to seal with");
                    let _ = self.sink.write_video(&frame.bytes);
                    PumpEvent::Sealed
                }
                PumpAction::Finish => return,
            };
            action = pump.step(event);
        }
    }
}

fn frame(width: u32, height: u32, sequence: u64) -> VideoFrame {
    VideoFrame {
        width,
        height,
        bytes: vec![0u8; (width as usize) * (height as usize) * 4],
        sequence,
        captured_at: at(1),
    }
}

fn guard_for(width: u32, height: u32) -> NegotiatedGuard {
    NegotiatedGuard::new(VideoSpec { width, height })
}

#[test]
fn the_pump_writes_every_frame_then_stops_on_the_flag() {
    let mut world = World::new(FakeSink::new());
    for sequence in 0..4 {
        world.frames.push_back(frame(8, 4, sequence));
    }
    world.stop_after = Some(4);

    let mut pump = pump_frames(guard_for(8, 4), None, world.now());
    world.run(&mut pump);
    assert_eq!(pump.outcome, Some(PumpOutcome::StopRequested));

    assert_eq!(world.sink.frames, vec![8 * 4 * 4; 5]);
    assert_eq!(pump.written, 4);
    assert!(PumpOutcome::StopRequested.is_clean());
}

#[test]
fn a_recording_that_never_saw_a_second_frame_is_still_sealed() {
    let mut world = World::new(FakeSink::new());
    world.stop_after = Some(0);

    let mut pump = pump_frames(guard_for(4, 4), Some(frame(4, 4, 0)), world.now());
    world.run(&mut pump);

    assert_eq!(pump.outcome, Some(PumpOutcome::StopRequested));
    assert_eq!(
        world.sink.frames,
        vec![4 * 4 * 4],
        "the seed frame is re-written once, at the stop"
    );
    assert_eq!(pump.written, 0, "no frame arrived from the cast");
}

#[test]
fn an_unclean_end_is_not_sealed() {
    let mut world = World::new(FakeSink::failing_after(2));
    for sequence in 0..5 {
        world.frames.push_back(frame(4, 4, sequence));
    }

    let mut pump = pump_frames(guard_for(4, 4), Some(frame(4, 4, 99)), world.now());
    world.run(&mut pump);

    assert!(!pump.outcome.expect("the pump is over").is_clean());
    assert_eq!(world.sink.frames.len(), 2, "no closing frame after a failure");
}

#[test]
fn a_failed_closing_frame_does_not_change_the_outcome() {
    let mut world = World::new(FakeSink::failing_after(0));
    world.stop_after = Some(0);

    let mut pump = pump_frames(guard_for(4, 4), Some(frame(4, 4, 0)), world.now());
    world.run(&mut pump);

    assert_eq!(pump.outcome, Some(PumpOutcome::StopRequested));
}

#[test]
fn the_pump_reports_an_encoder_death_and_stops_reading() {
    let mut world = World::new(FakeSink::failing_after(2));
    for sequence in 0..5 {
        world.frames.push_back(frame(4, 4, sequence));
    }

    let mut pump = pump_frames(guard_for(4, 4), None, world.now());
    world.run(&mut pump);

    match &pump.outcome {
        Some(PumpOutcome::EncoderFailed(why)) => {
            assert!(why.contains("No space left on device"), "{why}")
        }
        other => panic!("expected an encoder failure, got {other:?}"),
    }
    assert_eq!(pump.written, 2);
    assert!(!PumpOutcome::EncoderFailed(String::new()).is_clean());
}

#[test]
fn the_pump_ends_when_the_stream_says_it_ended() {
    let mut world = World::new(FakeSink::new());
    world.frames.push_back(frame(4, 4, 0));
    world.control.push_back(CastControl::Ended);

    let mut pump = pump_frames(guard_for(4, 4), None, world.now());
    world.run(&mut pump);
    assert_eq!(pump.outcome, Some(PumpOutcome::StreamEnded));
    assert!(
        pump.outcome.expect("the pump is over").is_clean(),
        "a compositor-ended cast still keeps the file"
    );
}

#[test]
fn the_pump_surfaces_a_stream_error() {
    let mut world = World::new(FakeSink::new());
    world.control.push_back(CastControl::Error(
        "the buffer was not a dmabuf".to_string(),
    ));

    let mut pump = pump_frames(guard_for(4, 4), None, world.now());
    world.run(&mut pump);
    assert_eq!(
        pump.outcome,
        Some(PumpOutcome::StreamError(
            "the buffer was not a dmabuf".to_string()
        ))
    );
}

#[test]
fn a_long_gap_between_frames_is_not_an_end() {
    let mut world = World::new(FakeSink::new());
    world.silent_polls = 3;
    world.frames.push_back(frame(4, 4, 0));
    world.stop_after = Some(1);

    let mut pump = pump_frames(guard_for(4, 4), None, world.now());
    world.run(&mut pump);
    assert_eq!(pump.outcome, Some(PumpOutcome::StopRequested));
    assert_eq!(pump.written, 1);
}

#[test]
fn a_disconnected_frame_channel_ends_the_pump() {
    let mut world = World::new(FakeSink::new());
    world.frames_open = false;

    let mut pump = pump_frames(guard_for(4, 4), None, world.now());
    world.run(&mut pump);
    assert_eq!(pump.outcome, Some(PumpOutcome::StreamEnded));
}

fn format(width: u32, height: u32) -> NegotiatedFormat {
    NegotiatedFormat {
        width,
        height,
        modifier: 0,
        framerate: (0, 1),
        max_framerate: (60000, 1000),
    }
}

#[test]
fn a_renegotiated_frame_size_is_fatal() {
    let mut world = World::new(FakeSink::new());
    world
        .control
        .push_back(CastControl::Negotiated(format(1920, 1080)));

    let mut pump = pump_frames(guard_for(2560, 1600), None, world.now());
    world.run(&mut pump);
    match &pump.outcome {
        Some(PumpOutcome::StreamError(why)) => {
            assert!(why.contains("2560x1600"), "{why}");
            assert!(why.contains("1920x1080"), "{why}");
        }
        other => panic!("expected a stream error, got {other:?}"),
    }
}

#[test]
fn a_repeated_identical_format_is_ignored() {
    let mut world = World::new(FakeSink::new());
    world
        .control
        .push_back(CastControl::Negotiated(format(64, 32)));
    world.frames.push_back(frame(64, 32, 0));
    world.frames_open = false;

    let mut pump = pump_frames(guard_for(64, 32), None, world.now());
    world.run(&mut pump);
    assert_eq!(pump.outcome, Some(PumpOutcome::StreamEnded));
    assert_eq!(pump.written, 1);
}

#[test]
fn a_silent_encoder_is_asked_for_a_sign_of_life() {
    let mut world = World::new(FakeSink::new());
    world.silent_polls = 2 * (HEALTH_INTERVAL_NANOS / POLL_INTERVAL_NANOS) as u32;
    world.frames.push_back(frame(4, 4, 0));
    world.stop_after = Some(1);

    let mut pump = pump_frames(guard_for(4, 4), None, world.now());
    world.run(&mut pump);
    assert_eq!(world.health_polls, 2);
    assert_eq!(pump.outcome, Some(PumpOutcome::StopRequested));
}

#[test]
fn an_encoder_that_died_in_silence_is_noticed() {
    let mut sink = FakeSink::new();
    sink.dead = true;
    let mut world = World::new(sink);
    world.silent_polls = 100;

    let mut pump = pump_frames(guard_for(4, 4), Some(frame(4, 4, 0)), world.now());
    world.run(&mut pump);
    assert_eq!(
        pump.outcome,
        Some(PumpOutcome::EncoderFailed("already dead".to_string()))
    );
    assert!(world.sink.frames.is_empty());
}

#[test]
fn the_handle_of_a_recording_can_be_reached_while_it_is_there() {
    let mut recorder = state();
    assert!(recorder.active_mut().is_none());
    recorder.begin_start(at(1)).unwrap();
    recorder.started(7);
    *recorder.active_mut().expect("recording") = 8;
    recorder.request_stop().unwrap();
    assert_eq!(recorder.finished(Ok(())), Some(8));
    assert!(recorder.active_mut().is_none());
}

#[test]
fn refusals_are_told_in_words() {
    assert_eq!(
        RecorderError::AlreadyRecording.message(),
        "a recording is already in progress — stop it first (saola-capture record stop)"
    );
    assert_eq!(RecorderError::NotRecording.message(), "nothing is recording");
    assert_eq!(
        RecorderError::AlreadyStopping.message(),
        "the recording is already stopping"
    );
}

#[test]
fn frames_reach_the_encoder_in_order_and_the_last_one_closes() {
    let mut world = World::new(FakeSink::new());
    for (sequence, width) in [3, 1, 4, 1, 5].into_iter().enumerate() {
        world.frames.push_back(frame(width, 1, sequence as u64));
    }
    world.frames_open = false;
    world.silent_polls = 2;

    let mut pump = pump_frames(guard_for(3, 1), Some(frame(9, 1, 0)), world.now());
    world.run(&mut pump);
    assert_eq!(pump.outcome, Some(PumpOutcome::StreamEnded));
    assert_eq!(world.sink.frames, vec![12, 4, 16, 4, 20, 20]);
    assert_eq!(pump.written, 5);
    assert_eq!(pump.last.map(|frame| frame.sequence), Some(4));
}

#[test]
fn a_frame_that_the_encoder_refuses_is_not_counted() {
    let mut world = World::new(FakeSink::failing_after(1));
    for (sequence, width) in [3, 1].into_iter().enumerate() {
        world.frames.push_back(frame(width, 1, sequence as u64));
    }
    let mut pump = pump_frames(guard_for(3, 1), None, world.now());
    world.run(&mut pump);
    assert!(matches!(pump.outcome, Some(PumpOutcome::EncoderFailed(_))));
    assert_eq!(world.sink.frames, vec![12]);
    assert_eq!(pump.written, 1);
    assert_eq!(pump.last.map(|frame| frame.sequence), Some(0));
}
