//! Recording: the phases that one recording goes through, and the pump that
//! carries frames from the cast to the encoder.
use vstd::prelude::*;
use vstd::string::*;

use crate::clock::{Duration, Instant};
use crate::text::{decimal, decimal_text};

verus! {

/// How long the pump waits for a frame before it looks up, in nanoseconds
/// (250 ms).
pub const POLL_INTERVAL_NANOS: u128 = 250_000_000;

/// How often a silent encoder is asked whether it is alive, in nanoseconds (1 s).
pub const HEALTH_INTERVAL_NANOS: u128 = 1_000_000_000;

/// Where a recording stands.
#[derive(Debug, Clone, Copy, PartialEq, Eq, Structural)]
pub enum Phase {
    Idle,
    Starting,
    Recording,
    Stopping,
}

/// Why a request was refused.
#[derive(Debug, Clone, Copy, PartialEq, Eq, Structural)]
pub enum RecorderError {
    AlreadyRecording,
    NotRecording,
    AlreadyStopping,
}

impl RecorderError {
    pub open spec fn spec_message(self) -> Seq<char> {
        match self {
            RecorderError::AlreadyRecording =>
                "a recording is already in progress — stop it first (saola-capture record stop)"@,
            RecorderError::NotRecording => "nothing is recording"@,
            RecorderError::AlreadyStopping => "the recording is already stopping"@,
        }
    }

    /// What the user is told.
    pub fn message(self) -> (r: &'static str)
        ensures
            r@ == self.spec_message(),
    {
        match self {
            RecorderError::AlreadyRecording =>
                "a recording is already in progress — stop it first (saola-capture record stop)",
            RecorderError::NotRecording => "nothing is recording",
            RecorderError::AlreadyStopping => "the recording is already stopping",
        }
    }
}

/// What becomes of a start that has come through.
#[derive(Debug, Clone, Copy, PartialEq, Eq, Structural)]
pub enum StartOutcome {
    Recording,
    /// A stop was asked for meanwhile: tear down again.
    StopImmediately,
    /// Nobody is waiting for it any more.
    Cancelled,
}

/// What becomes of a stop.
#[derive(Debug, Clone, Copy, PartialEq, Eq, Structural)]
pub enum StopOutcome {
    Stopping,
    QueuedDuringStart,
}

/// Everything about the recorder. `H` is what the caller holds a running
/// recording by.
pub struct Recorder<H> {
    pub phase: Phase,
    pub active: Option<H>,
    pub stop_pending: bool,
    pub started_at: Option<Instant>,
    pub last_error: Option<Seq<char>>,
}

impl<H> Recorder<H> {
    /// An idle recorder holds nothing; a recording one holds its handle and
    /// has no stop waiting; the clock runs exactly while it is not idle.
    pub open spec fn wf(self) -> bool {
        &&& self.phase is Idle <==> self.started_at is None
        &&& self.phase is Idle ==> self.active is None && !self.stop_pending
        &&& self.phase is Starting ==> self.active is None
        &&& self.phase is Recording ==> self.active is Some && !self.stop_pending
    }

    pub open spec fn idle() -> Recorder<H> {
        Recorder {
            phase: Phase::Idle,
            active: None,
            stop_pending: false,
            started_at: None,
            last_error: None,
        }
    }

    pub open spec fn starting(self, now: Instant) -> Recorder<H> {
        Recorder {
            phase: Phase::Starting,
            stop_pending: false,
            started_at: Some(now),
            last_error: None,
            ..self
        }
    }

    /// How long the recording has been going, from the request to start it on.
    pub open spec fn going_for(self, now: Instant) -> Option<Duration> {
        match self.started_at {
            Some(started) => Some(now.spec_since(started)),
            None => None,
        }
    }

    /// Whether a start is let through: only from idle.
    pub open spec fn start_answer(self) -> Result<(), RecorderError> {
        if self.phase is Idle {
            Ok(())
        } else {
            Err(RecorderError::AlreadyRecording)
        }
    }

    pub open spec fn start_outcome(self) -> StartOutcome {
        if !(self.phase is Starting) {
            StartOutcome::Cancelled
        } else if self.stop_pending {
            StartOutcome::StopImmediately
        } else {
            StartOutcome::Recording
        }
    }

    pub open spec fn with_handle(self, handle: H) -> Recorder<H> {
        match self.start_outcome() {
            StartOutcome::Cancelled => self,
            StartOutcome::StopImmediately => Recorder {
                phase: Phase::Stopping,
                active: Some(handle),
                stop_pending: false,
                ..self
            },
            StartOutcome::Recording => Recorder {
                phase: Phase::Recording,
                active: Some(handle),
                ..self
            },
        }
    }

    pub open spec fn failed_to_start(self, why: Seq<char>) -> Recorder<H> {
        Recorder {
            phase: Phase::Idle,
            active: None,
            stop_pending: false,
            started_at: None,
            last_error: Some(why),
        }
    }

    pub open spec fn stop_answer(self) -> Result<StopOutcome, RecorderError> {
        match self.phase {
            Phase::Idle => Err(RecorderError::NotRecording),
            Phase::Starting => Ok(StopOutcome::QueuedDuringStart),
            Phase::Recording => Ok(StopOutcome::Stopping),
            Phase::Stopping => Err(RecorderError::AlreadyStopping),
        }
    }

    pub open spec fn asked_to_stop(self) -> Recorder<H> {
        match self.phase {
            Phase::Starting => Recorder { stop_pending: true, ..self },
            Phase::Recording => Recorder { phase: Phase::Stopping, ..self },
            _ => self,
        }
    }

    pub open spec fn without_encoder(self, why: Seq<char>) -> Recorder<H> {
        Recorder {
            last_error: Some(why),
            phase: if self.phase is Starting || self.phase is Recording {
                Phase::Stopping
            } else {
                self.phase
            },
            ..self
        }
    }

    pub open spec fn ended(self, why: Option<Seq<char>>) -> Recorder<H> {
        Recorder {
            phase: Phase::Idle,
            active: None,
            stop_pending: false,
            started_at: None,
            last_error: match why {
                Some(text) => Some(text),
                None => self.last_error,
            },
        }
    }
}

/// The error's text, where there is one.
pub open spec fn failure_text(result: Result<(), String>) -> Option<Seq<char>> {
    match result {
        Ok(_) => None,
        Err(why) => Some(why@),
    }
}

/// The recorder's state: idle, or one recording in one of its phases.
#[derive(Debug)]
pub struct RecorderState<H> {
    phase: Phase,
    active: Option<H>,
    stop_pending: bool,
    started_at: Option<Instant>,
    last_error: Option<String>,
}

impl<H> View for RecorderState<H> {
    type V = Recorder<H>;

    closed spec fn view(&self) -> Recorder<H> {
        Recorder {
            phase: self.phase,
            active: self.active,
            stop_pending: self.stop_pending,
            started_at: self.started_at,
            last_error: match self.last_error {
                Some(text) => Some(text@),
                None => None,
            },
        }
    }
}

impl<H> Default for RecorderState<H> {
    fn default() -> (r: Self)
        ensures
            r@ == Recorder::<H>::idle(),
            r@.wf(),
    {
        RecorderState {
            phase: Phase::Idle,
            active: None,
            stop_pending: false,
            started_at: None,
            last_error: None,
        }
    }
}

impl<H> RecorderState<H> {
    pub fn phase(&self) -> (r: Phase)
        ensures
            r == self@.phase,
    {
        self.phase
    }

    /// Whether anything is going on.
    pub fn is_active(&self) -> (r: bool)
        ensures
            r == !(self@.phase is Idle),
    {
        self.phase != Phase::Idle
    }

    /// How long the recording has been going, from the request to start it on.
    pub fn elapsed(&self, now: Instant) -> (r: Option<Duration>)
        ensures
            r == self@.going_for(now),
    {
        match self.started_at {
            Some(started) => Some(now.since(started)),
            None => None,
        }
    }

    /// What last went wrong.
    pub fn last_error(&self) -> (r: Option<&str>)
        ensures
            match (r, self@.last_error) {
                (Some(a), Some(b)) => a@ == b,
                (None, None) => true,
                _ => false,
            },
    {
        match &self.last_error {
            Some(text) => Some(text.as_str()),
            None => None,
        }
    }

    /// The handle of the recording that is running or being torn down.
    pub fn active_mut(&mut self) -> (r: Option<&mut H>)
        ensures
            match r {
                Some(h) => old(self)@.active == Some(*h) && final(self)@ == (Recorder {
                    active: Some(*final(h)),
                    ..old(self)@
                }),
                None => old(self)@.active is None && final(self)@ == old(self)@,
            },
    {
        self.active.as_mut()
    }

    /// A start was asked for. Refused unless the recorder is idle.
    pub fn begin_start(&mut self, now: Instant) -> (r: Result<(), RecorderError>)
        requires
            old(self)@.wf(),
        ensures
            r == old(self)@.start_answer(),
            r is Ok ==> final(self)@ == old(self)@.starting(now),
            r is Err ==> final(self)@ == old(self)@,
            final(self)@.wf(),
    {
        if self.phase != Phase::Idle {
            return Err(RecorderError::AlreadyRecording);
        }
        self.phase = Phase::Starting;
        self.stop_pending = false;
        self.started_at = Some(now);
        self.last_error = None;
        Ok(())
    }

    /// The start came through. A stop that was asked for meanwhile takes
    /// effect now.
    pub fn started(&mut self, handle: H) -> (r: StartOutcome)
        requires
            old(self)@.wf(),
        ensures
            r == old(self)@.start_outcome(),
            final(self)@ == old(self)@.with_handle(handle),
            final(self)@.wf(),
    {
        if self.phase != Phase::Starting {
            return StartOutcome::Cancelled;
        }
        self.active = Some(handle);
        if self.stop_pending {
            self.stop_pending = false;
            self.phase = Phase::Stopping;
            StartOutcome::StopImmediately
        } else {
            self.phase = Phase::Recording;
            StartOutcome::Recording
        }
    }

    /// The start failed.
    pub fn start_failed(&mut self, why: &str)
        requires
            old(self)@.wf(),
        ensures
            final(self)@ == old(self)@.failed_to_start(why@),
            final(self)@.wf(),
    {
        self.phase = Phase::Idle;
        self.active = None;
        self.stop_pending = false;
        self.started_at = None;
        self.last_error = Some(why.to_owned());
    }

    /// A stop was asked for. During a start it waits for the start to come
    /// through.
    pub fn request_stop(&mut self) -> (r: Result<StopOutcome, RecorderError>)
        requires
            old(self)@.wf(),
        ensures
            r == old(self)@.stop_answer(),
            final(self)@ == old(self)@.asked_to_stop(),
            final(self)@.wf(),
    {
        match self.phase {
            Phase::Idle => Err(RecorderError::NotRecording),
            Phase::Starting => {
                self.stop_pending = true;
                Ok(StopOutcome::QueuedDuringStart)
            },
            Phase::Recording => {
                self.phase = Phase::Stopping;
                Ok(StopOutcome::Stopping)
            },
            Phase::Stopping => Err(RecorderError::AlreadyStopping),
        }
    }

    /// The encoder died: what it was recording is now being torn down.
    pub fn encoder_died(&mut self, why: &str)
        requires
            old(self)@.wf(),
        ensures
            final(self)@ == old(self)@.without_encoder(why@),
            final(self)@.wf(),
    {
        self.last_error = Some(why.to_owned());
        if self.phase == Phase::Starting || self.phase == Phase::Recording {
            self.phase = Phase::Stopping;
        }
    }

    /// The recording is over; its handle is given back.
    pub fn finished(&mut self, result: Result<(), String>) -> (r: Option<H>)
        requires
            old(self)@.wf(),
        ensures
            r == old(self)@.active,
            final(self)@ == old(self)@.ended(failure_text(result)),
            final(self)@.wf(),
    {
        self.phase = Phase::Idle;
        self.stop_pending = false;
        self.started_at = None;
        if let Err(why) = result {
            self.last_error = Some(why);
        }
        self.active.take()
    }
}

/// There is at most one recording: a start is let through from idle alone, and
/// from then on none other is until the recording has ended.
pub proof fn law_one_recording_at_a_time<H>(
    r: Recorder<H>,
    now: Instant,
    handle: H,
    why: Seq<char>,
)
    requires
        r.wf(),
        !(r.phase is Idle),
    ensures
        !(r.with_handle(handle).phase is Idle),
        !(r.asked_to_stop().phase is Idle),
        !(r.without_encoder(why).phase is Idle),
        r.failed_to_start(why).phase is Idle,
        r.ended(None).phase is Idle,
        r.ended(Some(why)).phase is Idle,
{
}

/// A stop asked for during a start is kept: the start never becomes a running
/// recording, and its handle is given back at the end.
pub proof fn law_queued_stop_cancels_the_start<H>(r: Recorder<H>, now: Instant, handle: H)
    requires
        r.wf(),
        r.phase is Idle,
    ensures
        r.starting(now).stop_answer() == Ok::<StopOutcome, RecorderError>(
            StopOutcome::QueuedDuringStart,
        ),
        r.starting(now).asked_to_stop().phase is Starting,
        r.starting(now).asked_to_stop().start_outcome() is StopImmediately,
        r.starting(now).asked_to_stop().with_handle(handle).phase is Stopping,
        r.starting(now).asked_to_stop().with_handle(handle).active == Some(handle),
{
}

/// However a recording ends, the next one can start, and the error that ended
/// it is there to read until then.
pub proof fn law_next_start_is_allowed<H>(r: Recorder<H>, now: Instant, why: Seq<char>)
    requires
        r.wf(),
    ensures
        r.ended(Some(why)).wf(),
        r.ended(Some(why)).phase is Idle,
        r.ended(Some(why)).last_error == Some(why),
        r.failed_to_start(why).phase is Idle,
        r.failed_to_start(why).last_error == Some(why),
        r.ended(Some(why)).starting(now).last_error is None,
{
}

/// A start that comes through after its recording was given up changes nothing.
pub proof fn law_late_start_is_dropped<H>(r: Recorder<H>, handle: H)
    requires
        r.wf(),
        r.phase is Idle || r.phase is Recording || r.phase is Stopping,
    ensures
        r.start_outcome() is Cancelled,
        r.with_handle(handle) == r,
{
}

/// One frame of a cast.
#[derive(Debug)]
pub struct VideoFrame {
    pub width: u32,
    pub height: u32,
    pub bytes: Vec<u8>,
    pub sequence: u64,
    pub captured_at: Instant,
}

/// What a cast announces of its frames.
#[derive(Debug, Clone, Copy)]
pub struct NegotiatedFormat {
    pub width: u32,
    pub height: u32,
    pub modifier: u64,
    pub framerate: (u32, u32),
    pub max_framerate: (u32, u32),
}

/// The frame size that the encoder was started with.
#[derive(Debug, Clone, Copy, PartialEq, Eq, Structural)]
pub struct VideoSpec {
    pub width: u32,
    pub height: u32,
}

/// Holds a cast to the frame size that its encoder was started with.
#[derive(Debug, Clone, Copy, PartialEq, Eq, Structural)]
pub struct NegotiatedGuard {
    pub spec: VideoSpec,
}

/// A size, as in `640x480`.
pub open spec fn size_text(width: u32, height: u32) -> Seq<char> {
    decimal_text(width as nat) + "x"@ + decimal_text(height as nat)
}

impl NegotiatedGuard {
    pub fn new(spec: VideoSpec) -> (r: NegotiatedGuard)
        ensures
            r.spec == spec,
    {
        NegotiatedGuard { spec }
    }

    pub open spec fn admits(self, format: NegotiatedFormat) -> bool {
        self.spec.width == format.width && self.spec.height == format.height
    }

    pub open spec fn refusal(self, format: NegotiatedFormat) -> Seq<char> {
        "the cast changed size from "@ + size_text(self.spec.width, self.spec.height) + " to "@
            + size_text(format.width, format.height)
            + " — an encoder cannot change size once it has started"@
    }

    /// Whether frames of this format can still be encoded.
    pub fn check(&self, format: &NegotiatedFormat) -> (r: Result<(), String>)
        ensures
            r is Ok <==> self.admits(*format),
            r matches Err(why) ==> why@ == self.refusal(*format),
    {
        if self.spec.width == format.width && self.spec.height == format.height {
            return Ok(());
        }
        let mut why: String = "the cast changed size from ".to_owned();
        why.append(size(self.spec.width, self.spec.height).as_str());
        why.append(" to ");
        why.append(size(format.width, format.height).as_str());
        why.append(" — an encoder cannot change size once it has started");
        Err(why)
    }
}

fn size(width: u32, height: u32) -> (r: String)
    ensures
        r@ == size_text(width, height),
{
    let mut out: String = decimal(width as u64);
    out.append("x");
    out.append(decimal(height as u64).as_str());
    out
}

/// What a cast's control channel says.
#[derive(Debug)]
pub enum CastControl {
    Negotiated(NegotiatedFormat),
    Error(String),
    Ended,
}

/// How a pump ended.
#[derive(Debug, PartialEq, Eq)]
pub enum PumpOutcome {
    StopRequested,
    StreamEnded,
    StreamError(String),
    EncoderFailed(String),
}

impl PumpOutcome {
    pub open spec fn clean(self) -> bool {
        self is StopRequested || self is StreamEnded
    }

    /// Whether what was recorded is whole.
    pub fn is_clean(&self) -> (r: bool)
        ensures
            r == self.clean(),
    {
        match self {
            PumpOutcome::StopRequested => true,
            PumpOutcome::StreamEnded => true,
            PumpOutcome::StreamError(_) => false,
            PumpOutcome::EncoderFailed(_) => false,
        }
    }
}

/// What the pump wants done next.
#[derive(Debug, Clone, Copy, PartialEq, Eq, Structural)]
pub enum PumpAction {
    /// Read the stop flag.
    ReadStopFlag,
    /// Take one message off the control channel, without waiting.
    ReadControl,
    /// Wait for a frame, no longer than the poll interval.
    AwaitFrame,
    /// Write the frame in hand to the encoder.
    WriteFrame,
    /// Read the clock.
    ReadClock,
    /// Ask the encoder whether it is alive.
    PollHealth,
    /// Write the last frame once more, so that the video lasts as long as the
    /// recording did.
    SealLastFrame,
    /// Stop: the outcome is known.
    Finish,
}

/// What came of what the pump wanted done.
#[derive(Debug)]
pub enum PumpEvent {
    StopFlag(bool),
    /// A control message, or none waiting or ever coming.
    Control(Option<CastControl>),
    Frame(VideoFrame),
    NoFrameYet,
    FramesGone,
    /// The frame was written, and when; or why not.
    Written(Result<Instant, String>),
    Clock(Instant),
    Health(Result<(), String>),
    /// The closing frame was written, or not: nothing depends on it.
    Sealed,
}

/// The pump between a cast and an encoder.
#[derive(Debug)]
pub struct Pump {
    pub guard: NegotiatedGuard,
    /// What is to be done next.
    pub next: PumpAction,
    /// The frame in hand, while it is being written.
    pub in_hand: Option<VideoFrame>,
    /// The last frame written.
    pub last: Option<VideoFrame>,
    /// How many frames the cast gave that were written.
    pub written: u64,
    /// When the encoder last gave a sign of life.
    pub last_health: Instant,
    /// How the pump ended, once it has.
    pub outcome: Option<PumpOutcome>,
}

impl Pump {
    /// Whether `event` answers what the pump wants done.
    pub open spec fn expects(self, event: PumpEvent) -> bool {
        match self.next {
            PumpAction::ReadStopFlag => event is StopFlag,
            PumpAction::ReadControl => event is Control,
            PumpAction::AwaitFrame => event is Frame || event is NoFrameYet || event is FramesGone,
            PumpAction::WriteFrame => event is Written,
            PumpAction::ReadClock => event is Clock,
            PumpAction::PollHealth => event is Health,
            PumpAction::SealLastFrame => event is Sealed,
            PumpAction::Finish => false,
        }
    }

    /// The pump ended: a clean end is sealed where there is a frame to seal it
    /// with.
    pub open spec fn ended(self, outcome: PumpOutcome) -> Pump {
        Pump {
            next: if outcome.clean() && self.last is Some {
                PumpAction::SealLastFrame
            } else {
                PumpAction::Finish
            },
            outcome: Some(outcome),
            ..self
        }
    }

    /// The pump after an event; after an announced format, where that is one
    /// that the guard admits.
    pub open spec fn after(self, event: PumpEvent) -> Pump {
        match event {
            PumpEvent::StopFlag(stop) => if stop {
                self.ended(PumpOutcome::StopRequested)
            } else {
                Pump { next: PumpAction::ReadControl, ..self }
            },
            PumpEvent::Control(message) => match message {
                None => Pump { next: PumpAction::AwaitFrame, ..self },
                Some(CastControl::Negotiated(_)) => self,
                Some(CastControl::Error(why)) => self.ended(PumpOutcome::StreamError(why)),
                Some(CastControl::Ended) => self.ended(PumpOutcome::StreamEnded),
            },
            PumpEvent::Frame(frame) => Pump {
                next: PumpAction::WriteFrame,
                in_hand: Some(frame),
                ..self
            },
            PumpEvent::NoFrameYet => Pump { next: PumpAction::ReadClock, ..self },
            PumpEvent::FramesGone => self.ended(PumpOutcome::StreamEnded),
            PumpEvent::Written(result) => match result {
                Ok(now) => Pump {
                    next: PumpAction::ReadClock,
                    in_hand: None,
                    last: self.in_hand,
                    written: (if self.written == u64::MAX {
                        0
                    } else {
                        self.written + 1
                    }) as u64,
                    last_health: now,
                    ..self
                },
                Err(why) => Pump { in_hand: None, ..self }.ended(PumpOutcome::EncoderFailed(why)),
            },
            PumpEvent::Clock(now) => if now.spec_since(self.last_health).nanos
                >= HEALTH_INTERVAL_NANOS {
                Pump { next: PumpAction::PollHealth, last_health: now, ..self }
            } else {
                Pump { next: PumpAction::ReadStopFlag, ..self }
            },
            PumpEvent::Health(result) => match result {
                Ok(_) => Pump { next: PumpAction::ReadStopFlag, ..self },
                Err(why) => self.ended(PumpOutcome::EncoderFailed(why)),
            },
            PumpEvent::Sealed => Pump { next: PumpAction::Finish, ..self },
        }
    }

    /// Whether `new` is the pump after `event`. A cast that changed its frame
    /// size ends the pump, with the guard's refusal as the reason.
    pub open spec fn steps_to(self, event: PumpEvent, new: Pump) -> bool {
        match event {
            PumpEvent::Control(Some(CastControl::Negotiated(format))) => if self.guard.admits(
                format,
            ) {
                new == self
            } else {
                &&& new.outcome matches Some(PumpOutcome::StreamError(why))
                &&& why@ == self.guard.refusal(format)
                &&& new == self.ended(new.outcome->0)
            },
            _ => new == self.after(event),
        }
    }

    /// The frame in hand is there while it is being written and at no other
    /// time; the outcome is known from the end on.
    pub open spec fn wf(self) -> bool {
        &&& self.in_hand is Some <==> self.next is WriteFrame
        &&& self.outcome is Some <==> self.next is SealLastFrame || self.next is Finish
        &&& self.next is SealLastFrame ==> self.last is Some && (self.outcome->0).clean()
    }

    /// Takes in what came of the last thing the pump wanted done, and says what
    /// it wants done next.
    pub fn step(&mut self, event: PumpEvent) -> (r: PumpAction)
        requires
            old(self).wf(),
            old(self).expects(event),
        ensures
            old(self).steps_to(event, *final(self)),
            r == final(self).next,
            final(self).wf(),
    {
        match event {
            PumpEvent::StopFlag(stop) => {
                if stop {
                    self.end(PumpOutcome::StopRequested);
                } else {
                    self.next = PumpAction::ReadControl;
                }
            },
            PumpEvent::Control(message) => match message {
                None => {
                    self.next = PumpAction::AwaitFrame;
                },
                Some(CastControl::Negotiated(format)) => {
                    let verdict = self.guard.check(&format);
                    if let Err(why) = verdict {
                        self.end(PumpOutcome::StreamError(why));
                    }
                },
                Some(CastControl::Error(why)) => {
                    self.end(PumpOutcome::StreamError(why));
                },
                Some(CastControl::Ended) => {
                    self.end(PumpOutcome::StreamEnded);
                },
            },
            PumpEvent::Frame(frame) => {
                self.in_hand = Some(frame);
                self.next = PumpAction::WriteFrame;
            },
            PumpEvent::NoFrameYet => {
                self.next = PumpAction::ReadClock;
            },
            PumpEvent::FramesGone => {
                self.end(PumpOutcome::StreamEnded);
            },
            PumpEvent::Written(result) => match result {
                Ok(now) => {
                    self.last = self.in_hand.take();
                    self.written = if self.written == u64::MAX {
                        0
                    } else {
                        self.written + 1
                    };
                    self.last_health = now;
                    self.next = PumpAction::ReadClock;
                },
                Err(why) => {
                    self.in_hand = None;
                    self.end(PumpOutcome::EncoderFailed(why));
                },
            },
            PumpEvent::Clock(now) => {
                if now.since(self.last_health).nanos >= HEALTH_INTERVAL_NANOS {
                    self.last_health = now;
                    self.next = PumpAction::PollHealth;
                } else {
                    self.next = PumpAction::ReadStopFlag;
                }
            },
            PumpEvent::Health(result) => match result {
                Ok(_) => {
                    self.next = PumpAction::ReadStopFlag;
                },
                Err(why) => {
                    self.end(PumpOutcome::EncoderFailed(why));
                },
            },
            PumpEvent::Sealed => {
                self.next = PumpAction::Finish;
            },
        }
        self.next
    }

    fn end(&mut self, outcome: PumpOutcome)
        ensures
            *final(self) == old(self).ended(outcome),
    {
        self.next = if outcome.is_clean() && self.last.is_some() {
            PumpAction::SealLastFrame
        } else {
            PumpAction::Finish
        };
        self.outcome = Some(outcome);
    }
}

/// The pump as it begins.
pub open spec fn begun(guard: NegotiatedGuard, seed: Option<VideoFrame>, now: Instant) -> Pump {
    Pump {
        guard,
        next: PumpAction::ReadStopFlag,
        in_hand: None,
        last: seed,
        written: 0,
        last_health: now,
        outcome: None,
    }
}

/// Begins to pump. `seed` is the frame that was written before, if one was;
/// `now` is when that was.
pub fn pump_frames(guard: NegotiatedGuard, seed: Option<VideoFrame>, now: Instant) -> (r: Pump)
    ensures
        r == begun(guard, seed, now),
        r.wf(),
{
    Pump {
        guard,
        next: PumpAction::ReadStopFlag,
        in_hand: None,
        last: seed,
        written: 0,
        last_health: now,
        outcome: None,
    }
}

/// An end that is not clean is never sealed, and a clean one always is where a
/// frame was ever written.
pub proof fn law_only_clean_ends_are_sealed(p: Pump, outcome: PumpOutcome)
    ensures
        p.ended(outcome).next is SealLastFrame <==> outcome.clean() && p.last is Some,
        p.ended(outcome).next is SealLastFrame || p.ended(outcome).next is Finish,
{
}

/// Frame silence is no failure: a wait that brought nothing never ends the
/// pump, and within the health interval does not even ask the encoder.
pub proof fn law_silence_is_no_end(p: Pump, now: Instant)
    requires
        p.wf(),
        p.next is AwaitFrame,
    ensures
        p.after(PumpEvent::NoFrameYet).outcome is None,
        p.after(PumpEvent::NoFrameYet).after(PumpEvent::Clock(now)).outcome is None,
        now.spec_since(p.last_health).nanos < HEALTH_INTERVAL_NANOS ==> p.after(
            PumpEvent::NoFrameYet,
        ).after(PumpEvent::Clock(now)).next is ReadStopFlag,
{
}

/// Whether the closing frame can be written does not change the outcome or the
/// count.
pub proof fn law_seal_changes_no_outcome(p: Pump)
    ensures
        p.after(PumpEvent::Sealed).outcome == p.outcome,
        p.after(PumpEvent::Sealed).written == p.written,
{
}

/// The stop flag is read between any two frames: after a frame is written, none
/// is awaited before the flag has been read again.
pub proof fn law_stop_is_seen_between_frames(p: Pump, now: Instant, later: Instant)
    requires
        p.wf(),
        p.next is WriteFrame,
        later.nanos - now.nanos < HEALTH_INTERVAL_NANOS,
    ensures
        p.after(PumpEvent::Written(Ok(now))).after(PumpEvent::Clock(later)).next is ReadStopFlag,
        p.after(PumpEvent::Written(Ok(now))).after(PumpEvent::Clock(later)).after(
            PumpEvent::StopFlag(true),
        ).outcome is Some,
        p.after(PumpEvent::Written(Ok(now))).after(PumpEvent::Clock(later)).after(
            PumpEvent::StopFlag(true),
        ).next is SealLastFrame,
{
}

/// Whether `pumps` are the pump from its first state on, each the one before it
/// after the event that it wanted.
pub open spec fn runs(pumps: Seq<Pump>, events: Seq<PumpEvent>) -> bool {
    &&& pumps.len() == events.len() + 1
    &&& forall|i: int|
        0 <= i < events.len() ==> (#[trigger] pumps[i]).expects(events[i]) && pumps[i].steps_to(
            events[i],
            pumps[i + 1],
        )
}

/// The frames that the cast gave, in order.
pub open spec fn received(events: Seq<PumpEvent>) -> Seq<VideoFrame>
    decreases events.len(),
{
    if events.len() == 0 {
        Seq::empty()
    } else {
        match events.last() {
            PumpEvent::Frame(frame) => received(events.drop_last()).push(frame),
            _ => received(events.drop_last()),
        }
    }
}

/// The frames that the encoder was given, in order: those in hand that it took,
/// and the closing one.
pub open spec fn encoded(pumps: Seq<Pump>, events: Seq<PumpEvent>) -> Seq<VideoFrame>
    decreases events.len(),
{
    if events.len() == 0 {
        Seq::empty()
    } else {
        let before = encoded(pumps, events.drop_last());
        let pump = pumps[events.len() - 1];
        match events.last() {
            PumpEvent::Written(Ok(_)) => before.push(pump.in_hand->0),
            PumpEvent::Sealed => before.push(pump.last->0),
            _ => before,
        }
    }
}

/// Whether the encoder refused the last frame.
pub open spec fn refused(events: Seq<PumpEvent>) -> bool {
    events.len() > 0 && (events.last() matches PumpEvent::Written(Err(_)))
}

/// The frames that the cast gave, but for one that is not written yet or that
/// the encoder refused.
pub open spec fn carried(pump: Pump, events: Seq<PumpEvent>) -> Seq<VideoFrame> {
    if pump.next is WriteFrame || refused(events) {
        received(events).drop_last()
    } else {
        received(events)
    }
}

/// What closes the video: the last frame once more, once a clean end has been
/// sealed.
pub open spec fn closing(pump: Pump) -> Seq<VideoFrame> {
    if pump.next is Finish && (pump.outcome->0).clean() && pump.last is Some {
        seq![pump.last->0]
    } else {
        Seq::empty()
    }
}

/// A whole run of the pump, up to any moment of it: the frames that the encoder
/// was given are the frames that the cast gave, each once and in order, and
/// after them, exactly on a clean end with a frame at hand, the last one once
/// more. Those before it are counted, as far as the counter goes, and the last
/// of them is the frame at hand.
#[verifier::rlimit(60)]
pub proof fn law_every_frame_is_carried_over(
    guard: NegotiatedGuard,
    seed: Option<VideoFrame>,
    now: Instant,
    pumps: Seq<Pump>,
    events: Seq<PumpEvent>,
)
    requires
        runs(pumps, events),
        pumps[0] == begun(guard, seed, now),
    ensures
        ({
            let pump = pumps.last();
            let frames = carried(pump, events);
            &&& pump.wf()
            &&& encoded(pumps, events) == frames + closing(pump)
            &&& pump.written == frames.len() % 0x1_0000_0000_0000_0000
            &&& pump.last == (if frames.len() > 0 {
                Some(frames.last())
            } else {
                seed
            })
            &&& pump.in_hand is Some ==> received(events) == frames.push(pump.in_hand->0)
            &&& refused(events) ==> pump.next is Finish && pump.outcome is Some && !(
            pump.outcome->0).clean()
        }),
    decreases events.len(),
{
    if events.len() == 0 {
        assert(encoded(pumps, events) =~= received(events) + closing(pumps.last()));
    } else {
        let n = events.len() as int;
        let event = events.last();
        let pump = pumps[n - 1];
        assert(pump.expects(events[n - 1]) && pump.steps_to(events[n - 1], pumps[n]));
        let shorter = pumps.drop_last();
        let fewer = events.drop_last();
        assert forall|i: int| 0 <= i < fewer.len() implies (#[trigger] shorter[i]).expects(fewer[i])
            && shorter[i].steps_to(fewer[i], shorter[i + 1]) by {
            assert(pumps[i].expects(events[i]) && pumps[i].steps_to(events[i], pumps[i + 1]));
        }
        law_every_frame_is_carried_over(guard, seed, now, shorter, fewer);
        lemma_encoded_prefix(pumps, shorter, fewer);
        assert(closing(pump) =~= Seq::<VideoFrame>::empty());
        lemma_carried_step(pump, pumps[n], fewer, events);
        assert(encoded(pumps, fewer) =~= carried(pump, fewer));
        lemma_encoded_step(pumps, events, carried(pump, fewer));
        assert(encoded(pumps, events) =~= carried(pumps[n], events) + closing(pumps[n]));
        let frames = carried(pump, fewer);
        let more = carried(pumps[n], events);
        if event matches PumpEvent::Written(Ok(_)) {
            assert(more.len() == frames.len() + 1);
            assert(more.last() == pump.in_hand->0);
        } else {
            assert(more == frames);
        }
    }
}

proof fn lemma_encoded_prefix(pumps: Seq<Pump>, shorter: Seq<Pump>, events: Seq<PumpEvent>)
    requires
        shorter.len() <= pumps.len(),
        events.len() <= shorter.len(),
        forall|i: int| 0 <= i < shorter.len() ==> #[trigger] shorter[i] == pumps[i],
    ensures
        encoded(shorter, events) == encoded(pumps, events),
    decreases events.len(),
{
    if events.len() > 0 {
        lemma_encoded_prefix(pumps, shorter, events.drop_last());
        assert(shorter[events.len() - 1] == pumps[events.len() - 1]);
    }
}

/// What one event adds to the frames encoded.
proof fn lemma_encoded_step(pumps: Seq<Pump>, events: Seq<PumpEvent>, before: Seq<VideoFrame>)
    requires
        events.len() > 0,
        before == encoded(pumps, events.drop_last()),
    ensures
        encoded(pumps, events) == (match events.last() {
            PumpEvent::Written(Ok(_)) => before.push(pumps[events.len() - 1].in_hand->0),
            PumpEvent::Sealed => before.push(pumps[events.len() - 1].last->0),
            _ => before,
        }),
{
}

/// What one event does to the frames carried over.
proof fn lemma_carried_step(
    pump: Pump,
    new: Pump,
    fewer: Seq<PumpEvent>,
    events: Seq<PumpEvent>,
)
    requires
        pump.wf(),
        events.len() > 0,
        fewer == events.drop_last(),
        pump.expects(events.last()),
        pump.steps_to(events.last(), new),
        pump.in_hand is Some ==> received(fewer) == carried(pump, fewer).push(pump.in_hand->0),
        !refused(fewer),
    ensures
        new.wf(),
        carried(new, events) == (match events.last() {
            PumpEvent::Written(Ok(_)) => carried(pump, fewer).push(pump.in_hand->0),
            _ => carried(pump, fewer),
        }),
        closing(new) == (match events.last() {
            PumpEvent::Sealed => seq![pump.last->0],
            _ => Seq::empty(),
        }),
        new.in_hand is Some ==> received(events) == carried(new, events).push(new.in_hand->0),
        match events.last() {
            PumpEvent::Written(Ok(_)) => new.last == pump.in_hand && pump.in_hand is Some
                && new.written == (if pump.written == u64::MAX {
                0
            } else {
                pump.written + 1
            }),
            _ => new.last == pump.last && new.written == pump.written,
        },
        refused(events) ==> new.next is Finish && new.outcome is Some && !(
        new.outcome->0).clean(),
{
    match events.last() {
        PumpEvent::Frame(frame) => {
            assert(received(events).drop_last() =~= received(fewer));
        },
        PumpEvent::Written(result) => {
            assert(received(events) == received(fewer));
            assert(received(fewer).drop_last() =~= carried(pump, fewer));
        },
        _ => {},
    }
}

} // verus!
