//! The daemon: which surfaces are on screen, and what each event does to them.
use std::collections::HashMap;

use vstd::prelude::*;
use vstd::std_specs::hash::*;
use vstd::string::*;

use crate::capture::{LogicalRect, OutputInfo, WindowRef};
use crate::clock::{Duration, Instant, NANOS_PER_SEC};
use crate::countdown::Countdown;
use crate::flash::{Flash, fade, fade_of};
use crate::overlay::{InputEvent, Overlay, Selecting, message_from_event, spec_message_from_event};
use crate::pixmap::Frame;
use crate::text::joined;
use crate::toast::{Motion, News, Stack, ToastStack, Wanted, card_stack_height, stack_height};
use crate::units::{round_px, spec_round_px};

verus! {

broadcast use group_hash_axioms;

/// What a surface is for.
#[derive(Debug, Clone, Copy, PartialEq, Eq, Structural)]
pub enum SurfaceRole {
    Flash,
    Toast,
    Overlay,
    Countdown,
}

/// The theme's measures that surfaces go by, in subpixels.
#[derive(Debug, Clone, Copy, PartialEq, Eq, Structural)]
pub struct Metrics {
    pub card_width: u32,
    pub list_row: u32,
    pub card_gap: u32,
    pub top: u32,
    pub right: u32,
}

/// How a surface lies on the screen. Every surface lies on the topmost layer.
#[derive(Debug)]
pub struct SurfaceSettings {
    /// Whether the surface is held at all four edges; else at the top and the
    /// right.
    pub fills_output: bool,
    /// The size in pixels; nothing where the surface fills the output.
    pub width: u32,
    pub height: u32,
    pub margin_top: u32,
    pub margin_right: u32,
    /// Whether the surface also covers what others reserve.
    pub covers_reserved: bool,
    pub exclusive_keyboard: bool,
    pub events_transparent: bool,
    /// The output that it lies on, if not the active one.
    pub output: Option<String>,
    pub namespace: Option<&'static str>,
}

/// A surface's settings, apart from how they are held.
pub struct Setting {
    pub fills_output: bool,
    pub width: u32,
    pub height: u32,
    pub margin_top: u32,
    pub margin_right: u32,
    pub covers_reserved: bool,
    pub exclusive_keyboard: bool,
    pub events_transparent: bool,
    pub output: Option<Seq<char>>,
    pub namespace: Option<Seq<char>>,
}

impl View for SurfaceSettings {
    type V = Setting;

    open spec fn view(&self) -> Setting {
        Setting {
            fills_output: self.fills_output,
            width: self.width,
            height: self.height,
            margin_top: self.margin_top,
            margin_right: self.margin_right,
            covers_reserved: self.covers_reserved,
            exclusive_keyboard: self.exclusive_keyboard,
            events_transparent: self.events_transparent,
            output: match self.output {
                Some(name) => Some(name@),
                None => None,
            },
            namespace: match self.namespace {
                Some(name) => Some(name@),
                None => None,
            },
        }
    }
}

/// The flash fills the output and lets every event through.
pub open spec fn flash_setting() -> Setting {
    Setting {
        fills_output: true,
        width: 0,
        height: 0,
        margin_top: 0,
        margin_right: 0,
        covers_reserved: false,
        exclusive_keyboard: false,
        events_transparent: true,
        output: None,
        namespace: None,
    }
}

pub fn flash_surface_settings() -> (r: SurfaceSettings)
    ensures
        r@ == flash_setting(),
{
    SurfaceSettings {
        fills_output: true,
        width: 0,
        height: 0,
        margin_top: 0,
        margin_right: 0,
        covers_reserved: false,
        exclusive_keyboard: false,
        events_transparent: true,
        output: None,
        namespace: None,
    }
}

/// The toasts stand at the top right, exactly as high as their cards.
pub open spec fn toast_setting(m: Metrics, count: int) -> Setting {
    Setting {
        fills_output: false,
        width: spec_round_px(m.card_width as int) as u32,
        height: stack_height(m.list_row, m.card_gap, count) as u32,
        margin_top: spec_round_px(m.top as int) as u32,
        margin_right: spec_round_px(m.right as int) as u32,
        covers_reserved: false,
        exclusive_keyboard: false,
        events_transparent: false,
        output: None,
        namespace: None,
    }
}

pub fn toast_surface_settings(m: &Metrics, count: usize) -> (r: SurfaceSettings)
    ensures
        r@ == toast_setting(*m, count as int),
{
    SurfaceSettings {
        fills_output: false,
        width: round_px(m.card_width as i64) as u32,
        height: card_stack_height(m.list_row, m.card_gap, count),
        margin_top: round_px(m.top as i64) as u32,
        margin_right: round_px(m.right as i64) as u32,
        covers_reserved: false,
        exclusive_keyboard: false,
        events_transparent: false,
        output: None,
        namespace: None,
    }
}

/// The overlay covers all of one output and takes the keyboard.
pub open spec fn overlay_setting(output: Seq<char>) -> Setting {
    Setting {
        fills_output: true,
        width: 0,
        height: 0,
        margin_top: 0,
        margin_right: 0,
        covers_reserved: true,
        exclusive_keyboard: true,
        events_transparent: false,
        output: Some(output),
        namespace: Some("saola-capture-overlay"@),
    }
}

pub fn overlay_surface_settings(output: &str) -> (r: SurfaceSettings)
    ensures
        r@ == overlay_setting(output@),
{
    SurfaceSettings {
        fills_output: true,
        width: 0,
        height: 0,
        margin_top: 0,
        margin_right: 0,
        covers_reserved: true,
        exclusive_keyboard: true,
        events_transparent: false,
        output: Some(output.to_owned()),
        namespace: Some("saola-capture-overlay"),
    }
}

/// The countdown fills the output and lets every event through.
pub open spec fn countdown_setting() -> Setting {
    Setting { namespace: Some("saola-capture-countdown"@), ..flash_setting() }
}

pub fn countdown_surface_settings() -> (r: SurfaceSettings)
    ensures
        r@ == countdown_setting(),
{
    SurfaceSettings {
        fills_output: true,
        width: 0,
        height: 0,
        margin_top: 0,
        margin_right: 0,
        covers_reserved: false,
        exclusive_keyboard: false,
        events_transparent: true,
        output: None,
        namespace: Some("saola-capture-countdown"),
    }
}

/// Why the daemon ends.
#[derive(Debug)]
pub enum ShutdownReason {
    Signal,
    AlreadyRunning,
    DBusUnavailable(String),
    TrayQuit,
}

impl ShutdownReason {
    pub open spec fn spec_log(self) -> Seq<char> {
        match self {
            ShutdownReason::Signal =>
                "saola-capture: daemon: received SIGTERM/SIGINT — shutting down"@,
            ShutdownReason::AlreadyRunning =>
                "saola-capture: daemon: another instance already owns io.saola.Capture1 — exiting"@,
            ShutdownReason::DBusUnavailable(err) =>
                "saola-capture: daemon: could not serve io.saola.Capture1: "@ + err@,
            ShutdownReason::TrayQuit =>
                "saola-capture: daemon: quit via the tray menu — shutting down"@,
        }
    }

    /// The line that is logged.
    pub fn log(&self) -> (r: String)
        ensures
            r@ == self.spec_log(),
    {
        match self {
            ShutdownReason::Signal =>
                "saola-capture: daemon: received SIGTERM/SIGINT — shutting down".to_owned(),
            ShutdownReason::AlreadyRunning =>
                "saola-capture: daemon: another instance already owns io.saola.Capture1 — exiting".to_owned(),
            ShutdownReason::DBusUnavailable(err) => joined(
                "saola-capture: daemon: could not serve io.saola.Capture1: ",
                err.as_str(),
            ),
            ShutdownReason::TrayQuit =>
                "saola-capture: daemon: quit via the tray menu — shutting down".to_owned(),
        }
    }
}

/// How a selection of a region ended.
#[derive(Debug, Clone, Copy, PartialEq, Eq, Structural)]
pub enum RegionOutcome {
    Cancelled,
    Selected(LogicalRect),
    SelectedWindow(WindowRef),
}

/// What the daemon does.
#[derive(Debug)]
pub enum Effect {
    /// Log a line and end.
    Exit(String),
    OpenEditor(String),
    OpenFolder(String),
    /// Tell the one who asked last that no region can be selected, and why.
    Refuse(&'static str),
    /// Tell the one who asked for a region how it ended.
    Reply(RegionOutcome),
    /// Put a surface on the screen.
    Show { surface: u64, settings: SurfaceSettings },
    /// Take a surface off the screen.
    Hide(u64),
}

/// What the daemon does, apart from how it is held.
pub enum Deed {
    Exit(Seq<char>),
    OpenEditor(Seq<char>),
    OpenFolder(Seq<char>),
    Refuse(Seq<char>),
    Reply(RegionOutcome),
    Show { surface: u64, settings: Setting },
    Hide(u64),
}

impl View for Effect {
    type V = Deed;

    open spec fn view(&self) -> Deed {
        match *self {
            Effect::Exit(line) => Deed::Exit(line@),
            Effect::OpenEditor(path) => Deed::OpenEditor(path@),
            Effect::OpenFolder(path) => Deed::OpenFolder(path@),
            Effect::Refuse(why) => Deed::Refuse(why@),
            Effect::Reply(outcome) => Deed::Reply(outcome),
            Effect::Show { surface, settings } => Deed::Show { surface, settings: settings@ },
            Effect::Hide(surface) => Deed::Hide(surface),
        }
    }
}

/// What is done, in order, apart from how it is held.
pub open spec fn deeds(list: Seq<Effect>) -> Seq<Deed> {
    list.map_values(|e: Effect| e@)
}

/// What happens to the daemon.
#[derive(Debug)]
pub enum Message {
    Shutdown(ShutdownReason),
    CaptureTaken { path: String, thumbnail: Frame },
    /// The flash is to be drawn again.
    Flash,
    Toast(crate::toast::Message),
    BeginRegion { output: OutputInfo, focused_window: Option<WindowRef> },
    OverlayEvent { surface: u64, event: InputEvent, captured: bool },
    Overlay(crate::overlay::Message),
    CountdownStarted(u32),
    /// The countdown is to be drawn again.
    Countdown,
    RecordingFailed(String),
    RecordingFinished(String),
    Warning { title: String, body: String },
}

/// What the bus service tells the daemon.
#[derive(Debug)]
pub enum DaemonEvent {
    CaptureTaken { path: String, thumbnail: Frame },
    BeginRegion { output: OutputInfo, focused_window: Option<WindowRef> },
    CountdownStarted { seconds: u32 },
    RecordingFailed { message: String },
    RecordingFinished { path: String },
    Warning { title: String, body: String },
    QuitRequested,
}

/// What an event of the bus service means.
pub open spec fn spec_message_of(event: DaemonEvent) -> Message {
    match event {
        DaemonEvent::CaptureTaken { path, thumbnail } => Message::CaptureTaken {
            path,
            thumbnail,
        },
        DaemonEvent::BeginRegion { output, focused_window } => Message::BeginRegion {
            output,
            focused_window,
        },
        DaemonEvent::CountdownStarted { seconds } => Message::CountdownStarted(seconds),
        DaemonEvent::RecordingFailed { message } => Message::RecordingFailed(message),
        DaemonEvent::RecordingFinished { path } => Message::RecordingFinished(path),
        DaemonEvent::Warning { title, body } => Message::Warning { title, body },
        DaemonEvent::QuitRequested => Message::Shutdown(ShutdownReason::TrayQuit),
    }
}

/// What an event of the bus service means.
pub fn message_of(event: DaemonEvent) -> (r: Message)
    ensures
        r == spec_message_of(event),
{
    match event {
        DaemonEvent::CaptureTaken { path, thumbnail } => Message::CaptureTaken {
            path,
            thumbnail,
        },
        DaemonEvent::BeginRegion { output, focused_window } => Message::BeginRegion {
            output,
            focused_window,
        },
        DaemonEvent::CountdownStarted { seconds } => Message::CountdownStarted(seconds),
        DaemonEvent::RecordingFailed { message } => Message::RecordingFailed(message),
        DaemonEvent::RecordingFinished { path } => Message::RecordingFinished(path),
        DaemonEvent::Warning { title, body } => Message::Warning { title, body },
        DaemonEvent::QuitRequested => Message::Shutdown(ShutdownReason::TrayQuit),
    }
}

/// How serving the bus began.
#[derive(Debug)]
pub enum ServeOutcome {
    Serving,
    AlreadyRunning,
    Failed(String),
}

/// Why the daemon ends at once, if it could not begin to serve.
pub open spec fn spec_shutdown_of(outcome: ServeOutcome) -> Option<ShutdownReason> {
    match outcome {
        ServeOutcome::Serving => None,
        ServeOutcome::AlreadyRunning => Some(ShutdownReason::AlreadyRunning),
        ServeOutcome::Failed(err) => Some(ShutdownReason::DBusUnavailable(err)),
    }
}

/// Why the daemon ends at once, if it could not begin to serve.
pub fn shutdown_of(outcome: ServeOutcome) -> (r: Option<ShutdownReason>)
    ensures
        r == spec_shutdown_of(outcome),
{
    match outcome {
        ServeOutcome::Serving => None,
        ServeOutcome::AlreadyRunning => Some(ShutdownReason::AlreadyRunning),
        ServeOutcome::Failed(err) => Some(ShutdownReason::DBusUnavailable(err)),
    }
}

/// Everything about the daemon.
pub struct Service {
    pub metrics: Metrics,
    pub motion: Motion,
    /// The surfaces on the screen, and what each is for.
    pub windows: Map<u64, SurfaceRole>,
    /// The number of the next surface.
    pub next: u64,
    pub flash: Flash,
    pub toasts: Stack,
    pub toast_surface: Option<u64>,
    /// How many cards the toast surface has room for.
    pub toast_count: nat,
    pub overlay: Option<Selecting>,
    pub overlay_surface: Option<u64>,
    pub countdown: Countdown,
    pub countdown_surface: Option<u64>,
}

/// What the second one to ask for a region is told.
pub open spec fn refusal() -> Seq<char> {
    "a region selection is already in progress"@
}

impl Service {
    /// Whether a surface is the one that some part of the daemon uses.
    pub open spec fn uses(self, surface: Option<u64>, role: SurfaceRole) -> bool {
        match surface {
            Some(id) => self.windows.contains_key(id) && self.windows[id] == role,
            None => true,
        }
    }

    /// The registry holds exactly the surfaces in use, each with its role, and
    /// no number is used twice; the overlay has its surface exactly while it is
    /// there.
    pub open spec fn registered(self) -> bool {
        &&& forall|id: u64| #[trigger] self.windows.contains_key(id) ==> id < self.next
        &&& self.uses(self.toast_surface, SurfaceRole::Toast)
        &&& self.uses(self.overlay_surface, SurfaceRole::Overlay)
        &&& self.uses(self.countdown_surface, SurfaceRole::Countdown)
        &&& forall|id: u64| #[trigger]
            self.windows.contains_key(id) ==> match self.windows[id] {
                SurfaceRole::Flash => true,
                SurfaceRole::Toast => self.toast_surface == Some(id),
                SurfaceRole::Overlay => self.overlay_surface == Some(id),
                SurfaceRole::Countdown => self.countdown_surface == Some(id),
            }
        &&& exists|id: u64| #[trigger]
            self.windows.contains_key(id) && self.windows[id] is Flash
        &&& (self.toast_surface is Some <==> self.toast_count > 0)
        &&& (self.overlay is Some <==> self.overlay_surface is Some)
        &&& (self.overlay matches Some(s) ==> s.wf())
    }

    /// Beside that, the toast surface has room for exactly the cards there are.
    pub open spec fn wf(self) -> bool {
        self.registered() && self.toast_count == self.toasts.toasts.len()
    }

    /// The daemon as it starts: with the flash on screen, unseen.
    pub open spec fn fresh(metrics: Metrics, motion: Motion) -> Service {
        Service {
            metrics,
            motion,
            windows: Map::empty().insert(0, SurfaceRole::Flash),
            next: 1,
            flash: Flash { started: None },
            toasts: Stack { toasts: Seq::empty(), next_id: 0 },
            toast_surface: None,
            toast_count: 0,
            overlay: None,
            overlay_surface: None,
            countdown: Countdown { running: None },
            countdown_surface: None,
        }
    }

    pub open spec fn mapped(self, role: SurfaceRole) -> Service {
        Service {
            windows: self.windows.insert(self.next, role),
            next: (self.next + 1) as u64,
            ..self
        }
    }

    pub open spec fn unmapped(self, id: u64) -> Service {
        Service { windows: self.windows.remove(id), ..self }
    }

    /// The daemon with a toast surface of the right size, if it needs one.
    pub open spec fn toast_synced(self) -> Service {
        let needed = self.toasts.toasts.len();
        match self.toast_surface {
            None => if needed == 0 {
                self
            } else {
                Service {
                    toast_surface: Some(self.next),
                    toast_count: needed,
                    ..self.mapped(SurfaceRole::Toast)
                }
            },
            Some(id) => if needed == 0 {
                Service { toast_surface: None, toast_count: 0, ..self.unmapped(id) }
            } else if needed != self.toast_count {
                Service {
                    toast_surface: Some(self.next),
                    toast_count: needed,
                    ..self.unmapped(id).mapped(SurfaceRole::Toast)
                }
            } else {
                self
            },
        }
    }

    pub open spec fn toast_deeds(self) -> Seq<Deed> {
        let needed = self.toasts.toasts.len();
        let map = Deed::Show {
            surface: self.next,
            settings: toast_setting(self.metrics, needed as int),
        };
        match self.toast_surface {
            None => if needed == 0 {
                Seq::empty()
            } else {
                seq![map]
            },
            Some(id) => if needed == 0 {
                seq![Deed::Hide(id)]
            } else if needed != self.toast_count {
                seq![Deed::Hide(id), map]
            } else {
                Seq::empty()
            },
        }
    }

    /// The daemon with a countdown surface exactly while it counts.
    pub open spec fn countdown_synced(self, now: Instant) -> Service {
        match self.countdown_surface {
            None => if self.countdown.active(now) {
                Service {
                    countdown_surface: Some(self.next),
                    ..self.mapped(SurfaceRole::Countdown)
                }
            } else {
                self
            },
            Some(id) => if self.countdown.active(now) {
                self
            } else {
                Service { countdown_surface: None, ..self.unmapped(id) }
            },
        }
    }

    pub open spec fn countdown_deeds(self, now: Instant) -> Seq<Deed> {
        match self.countdown_surface {
            None => if self.countdown.active(now) {
                seq![Deed::Show { surface: self.next, settings: countdown_setting() }]
            } else {
                Seq::empty()
            },
            Some(id) => if self.countdown.active(now) {
                Seq::empty()
            } else {
                seq![Deed::Hide(id)]
            },
        }
    }

    pub open spec fn with_news(self, news: News, now: Instant) -> Service {
        Service { toasts: self.toasts.pushed(news, self.motion, now), ..self }
    }

    pub open spec fn with_countdown(self, seconds: u32, now: Instant) -> Service {
        Service {
            countdown: Countdown {
                running: Some((now, Duration { nanos: (seconds * NANOS_PER_SEC) as u128 })),
            },
            ..self
        }
    }

    pub open spec fn with_overlay(
        self,
        output: OutputInfo,
        focused_window: Option<WindowRef>,
    ) -> Service {
        if self.overlay is Some {
            self
        } else {
            Service {
                overlay: Some(Selecting::fresh(output.logical, output.scale, focused_window)),
                overlay_surface: Some(self.next),
                ..self.mapped(SurfaceRole::Overlay)
            }
        }
    }

    /// How a selection ends by what the overlay asks for, if it does.
    pub open spec fn outcome(action: crate::overlay::Action) -> Option<RegionOutcome> {
        match action {
            crate::overlay::Action::Nothing => None,
            crate::overlay::Action::Cancel => Some(RegionOutcome::Cancelled),
            crate::overlay::Action::Confirm(region) => Some(RegionOutcome::Selected(region)),
            crate::overlay::Action::ConfirmWindow(window) => Some(
                RegionOutcome::SelectedWindow(window),
            ),
        }
    }

    pub open spec fn without_overlay(self) -> Service {
        match self.overlay_surface {
            Some(id) => Service { overlay: None, overlay_surface: None, ..self.unmapped(id) },
            None => Service { overlay: None, ..self },
        }
    }

    pub open spec fn overlay_after(self, message: crate::overlay::Message) -> Service {
        match self.overlay {
            None => self,
            Some(s) => match Service::outcome(s.answer(message)) {
                None => Service { overlay: Some(s.after(message)), ..self },
                Some(_) => self.without_overlay(),
            },
        }
    }

    /// First the reply, then the surface goes.
    pub open spec fn overlay_deeds(self, message: crate::overlay::Message) -> Seq<Deed> {
        match self.overlay {
            None => Seq::empty(),
            Some(s) => match Service::outcome(s.answer(message)) {
                None => Seq::empty(),
                Some(outcome) => match self.overlay_surface {
                    Some(id) => seq![Deed::Reply(outcome), Deed::Hide(id)],
                    None => seq![Deed::Reply(outcome)],
                },
            },
        }
    }

    /// What an input event on a surface means to the overlay: nothing, unless
    /// the surface is its own.
    pub open spec fn overlay_input(self, surface: u64, event: InputEvent, captured: bool) -> Option<
        crate::overlay::Message,
    > {
        if self.overlay_surface == Some(surface) {
            spec_message_from_event(event, captured)
        } else {
            None
        }
    }

    /// The daemon after a message.
    pub open spec fn after(self, message: Message, now: Instant) -> Service {
        match message {
            Message::Shutdown(_) => self,
            Message::CaptureTaken { path, thumbnail } => Service {
                flash: Flash { started: Some(now) },
                ..self.with_news(News::Capture { path: path@, thumbnail: thumbnail@ }, now)
            }.toast_synced(),
            Message::Flash => self,
            Message::Toast(m) => Service {
                toasts: self.toasts.after(m, now, self.motion),
                ..self
            }.toast_synced(),
            Message::BeginRegion { output, focused_window } => self.with_overlay(
                output,
                focused_window,
            ),
            Message::OverlayEvent { surface, event, captured } => match self.overlay_input(
                surface,
                event,
                captured,
            ) {
                Some(m) => self.overlay_after(m),
                None => self,
            },
            Message::Overlay(m) => self.overlay_after(m),
            Message::CountdownStarted(seconds) => self.with_countdown(
                seconds,
                now,
            ).countdown_synced(now),
            Message::Countdown => self.countdown_synced(now),
            Message::RecordingFailed(why) => self.with_news(
                News::Notice { title: "Recording failed"@, body: why@ },
                now,
            ).toast_synced(),
            Message::RecordingFinished(path) => self.with_news(
                News::Recording { path: path@ },
                now,
            ).toast_synced(),
            Message::Warning { title, body } => self.with_news(
                News::Notice { title: title@, body: body@ },
                now,
            ).toast_synced(),
        }
    }

    /// What a message leads to, in order.
    pub open spec fn effects(self, message: Message, now: Instant) -> Seq<Deed> {
        match message {
            Message::Shutdown(reason) => seq![Deed::Exit(reason.spec_log())],
            Message::CaptureTaken { path, thumbnail } => self.with_news(
                News::Capture { path: path@, thumbnail: thumbnail@ },
                now,
            ).toast_deeds(),
            Message::Flash => Seq::empty(),
            Message::Toast(m) => {
                let rest = Service {
                    toasts: self.toasts.after(m, now, self.motion),
                    ..self
                }.toast_deeds();
                match self.toasts.answer(m) {
                    Wanted::Nothing => rest,
                    Wanted::Open(path) => seq![Deed::OpenEditor(path)] + rest,
                    Wanted::OpenDir(path) => seq![Deed::OpenFolder(path)] + rest,
                }
            },
            Message::BeginRegion { output, focused_window } => if self.overlay is Some {
                seq![Deed::Refuse(refusal())]
            } else {
                seq![Deed::Show { surface: self.next, settings: overlay_setting(output.name@) }]
            },
            Message::OverlayEvent { surface, event, captured } => match self.overlay_input(
                surface,
                event,
                captured,
            ) {
                Some(m) => self.overlay_deeds(m),
                None => Seq::empty(),
            },
            Message::Overlay(m) => self.overlay_deeds(m),
            Message::CountdownStarted(seconds) => self.with_countdown(
                seconds,
                now,
            ).countdown_deeds(now),
            Message::Countdown => self.countdown_deeds(now),
            Message::RecordingFailed(why) => self.with_news(
                News::Notice { title: "Recording failed"@, body: why@ },
                now,
            ).toast_deeds(),
            Message::RecordingFinished(path) => self.with_news(
                News::Recording { path: path@ },
                now,
            ).toast_deeds(),
            Message::Warning { title, body } => self.with_news(
                News::Notice { title: title@, body: body@ },
                now,
            ).toast_deeds(),
        }
    }
}

/// The daemon's state.
pub struct Daemon {
    metrics: Metrics,
    motion: Motion,
    windows: HashMap<u64, SurfaceRole>,
    next_surface: u64,
    flash: Flash,
    toasts: ToastStack,
    toast_surface: Option<u64>,
    toast_surface_count: usize,
    overlay: Option<Overlay>,
    overlay_surface: Option<u64>,
    countdown: Countdown,
    countdown_surface: Option<u64>,
}

impl View for Daemon {
    type V = Service;

    closed spec fn view(&self) -> Service {
        Service {
            metrics: self.metrics,
            motion: self.motion,
            windows: self.windows@,
            next: self.next_surface,
            flash: self.flash,
            toasts: self.toasts@,
            toast_surface: self.toast_surface,
            toast_count: self.toast_surface_count as nat,
            overlay: match self.overlay {
                Some(overlay) => Some(overlay@),
                None => None,
            },
            overlay_surface: self.overlay_surface,
            countdown: self.countdown,
            countdown_surface: self.countdown_surface,
        }
    }
}

proof fn lemma_deeds_push(list: Seq<Effect>, e: Effect)
    ensures
        deeds(list.push(e)) == deeds(list).push(e@),
{
    assert(deeds(list.push(e)) =~= deeds(list).push(e@));
}

fn put(out: &mut Vec<Effect>, e: Effect)
    ensures
        deeds(final(out)@) == deeds(old(out)@).push(e@),
{
    proof {
        lemma_deeds_push(out@, e);
    }
    out.push(e);
}

impl Daemon {
    /// The daemon as it starts, and what it does first: the flash goes on the
    /// screen and stays there, unseen until it is set off.
    pub fn boot(metrics: Metrics, motion: Motion) -> (r: (Daemon, Vec<Effect>))
        ensures
            r.0@ == Service::fresh(metrics, motion),
            deeds(r.1@) == seq![Deed::Show { surface: 0, settings: flash_setting() }],
            r.0@.wf(),
    {
        let mut windows: HashMap<u64, SurfaceRole> = HashMap::new();
        windows.insert(0, SurfaceRole::Flash);
        let daemon = Daemon {
            metrics,
            motion,
            windows,
            next_surface: 1,
            flash: Flash::default(),
            toasts: ToastStack::default(),
            toast_surface: None,
            toast_surface_count: 0,
            overlay: None,
            overlay_surface: None,
            countdown: Countdown::default(),
            countdown_surface: None,
        };
        let mut out: Vec<Effect> = Vec::new();
        put(&mut out, Effect::Show { surface: 0, settings: flash_surface_settings() });
        proof {
            assert(deeds(out@) =~= seq![Deed::Show { surface: 0, settings: flash_setting() }]);
            lemma_fresh_is_wf(metrics, motion);
        }
        (daemon, out)
    }

    /// Registers a surface under the next number.
    fn spawn_surface(&mut self, role: SurfaceRole) -> (r: u64)
        requires
            old(self)@.next < u64::MAX,
        ensures
            final(self)@ == old(self)@.mapped(role),
            r == old(self)@.next,
    {
        let id: u64 = self.next_surface;
        self.windows.insert(id, role);
        self.next_surface = id + 1;
        id
    }

    /// Forgets a surface.
    fn remove_surface(&mut self, id: u64)
        ensures
            final(self)@ == old(self)@.unmapped(id),
    {
        self.windows.remove(&id);
    }

    /// Brings the toast surface to the size of its cards.
    fn sync_toast_surface(&mut self, out: &mut Vec<Effect>)
        requires
            old(self)@.next < u64::MAX,
        ensures
            final(self)@ == old(self)@.toast_synced(),
            deeds(final(out)@) == deeds(old(out)@) + old(self)@.toast_deeds(),
    {
        let ghost before = deeds(out@);
        let ghost start = self@;
        let needed: usize = self.toasts.len();
        match self.toast_surface {
            None => {
                if needed != 0 {
                    let id: u64 = self.spawn_surface(SurfaceRole::Toast);
                    self.toast_surface = Some(id);
                    self.toast_surface_count = needed;
                    let settings = toast_surface_settings(&self.metrics, needed);
                    put(out, Effect::Show { surface: id, settings });
                }
            },
            Some(id) => {
                if needed == 0 {
                    self.toast_surface = None;
                    self.toast_surface_count = 0;
                    self.remove_surface(id);
                    put(out, Effect::Hide(id));
                } else if needed != self.toast_surface_count {
                    self.toast_surface_count = needed;
                    self.remove_surface(id);
                    put(out, Effect::Hide(id));
                    let new_id: u64 = self.spawn_surface(SurfaceRole::Toast);
                    self.toast_surface = Some(new_id);
                    let settings = toast_surface_settings(&self.metrics, needed);
                    put(out, Effect::Show { surface: new_id, settings });
                }
            },
        }
        assert(deeds(out@) =~= before + start.toast_deeds());
    }

    /// Puts the countdown surface on the screen, or takes it off.
    fn sync_countdown_surface(&mut self, now: Instant, out: &mut Vec<Effect>)
        requires
            old(self)@.next < u64::MAX,
        ensures
            final(self)@ == old(self)@.countdown_synced(now),
            deeds(final(out)@) == deeds(old(out)@) + old(self)@.countdown_deeds(now),
    {
        let ghost before = deeds(out@);
        let ghost start = self@;
        let active: bool = self.countdown.is_active(now);
        match self.countdown_surface {
            None => {
                if active {
                    let id: u64 = self.spawn_surface(SurfaceRole::Countdown);
                    self.countdown_surface = Some(id);
                    put(out, Effect::Show { surface: id, settings: countdown_surface_settings() });
                }
            },
            Some(id) => {
                if !active {
                    self.countdown_surface = None;
                    self.remove_surface(id);
                    put(out, Effect::Hide(id));
                }
            },
        }
        assert(deeds(out@) =~= before + start.countdown_deeds(now));
    }

    /// Begins the selection of a region, unless one is in progress.
    fn begin_region(
        &mut self,
        output: OutputInfo,
        focused_window: Option<WindowRef>,
        out: &mut Vec<Effect>,
    )
        requires
            old(self)@.next < u64::MAX,
            old(self)@.overlay is None ==> old(self)@.overlay_surface is None,
        ensures
            final(self)@ == old(self)@.with_overlay(output, focused_window),
            old(self)@.overlay is None ==> final(self)@.overlay->0.wf(),
            deeds(final(out)@) == deeds(old(out)@) + old(self)@.effects(
                (Message::BeginRegion { output, focused_window }),
                Instant { nanos: 0 },
            ),
    {
        let ghost before = deeds(out@);
        let ghost start = self@;
        if self.overlay.is_some() {
            put(out, Effect::Refuse("a region selection is already in progress"));
        } else {
            let settings = overlay_surface_settings(output.name.as_str());
            self.overlay = Some(Overlay::new(output, focused_window));
            let id: u64 = self.spawn_surface(SurfaceRole::Overlay);
            self.overlay_surface = Some(id);
            put(out, Effect::Show { surface: id, settings });
        }
        assert(deeds(out@) =~= before + start.effects(
            Message::BeginRegion { output, focused_window },
            Instant { nanos: 0 },
        ));
    }

    /// Takes one message in for the overlay, and ends the selection if it asks
    /// for that.
    #[verifier::rlimit(40)]
    #[verifier::spinoff_prover]
    fn update_overlay(&mut self, message: crate::overlay::Message, out: &mut Vec<Effect>)
        requires
            old(self)@.overlay matches Some(s) ==> s.wf(),
        ensures
            final(self)@ == old(self)@.overlay_after(message),
            final(self)@.overlay matches Some(s) ==> s.wf(),
            deeds(final(out)@) == deeds(old(out)@) + old(self)@.overlay_deeds(message),
    {
        let ghost before = deeds(out@);
        let ghost start = self@;
        let action = match &mut self.overlay {
            None => {
                assert(deeds(out@) =~= before + start.overlay_deeds(message));
                return;
            },
            Some(overlay) => overlay.update(message),
        };
        match action {
            crate::overlay::Action::Nothing => {},
            crate::overlay::Action::Cancel => {
                self.finish_overlay(RegionOutcome::Cancelled, out);
            },
            crate::overlay::Action::Confirm(region) => {
                self.finish_overlay(RegionOutcome::Selected(region), out);
            },
            crate::overlay::Action::ConfirmWindow(window) => {
                self.finish_overlay(RegionOutcome::SelectedWindow(window), out);
            },
        }
        assert(deeds(out@) =~= before + start.overlay_deeds(message));
    }

    /// Replies, then takes the overlay off the screen.
    fn finish_overlay(&mut self, outcome: RegionOutcome, out: &mut Vec<Effect>)
        ensures
            final(self)@ == old(self)@.without_overlay(),
            deeds(final(out)@) == (match old(self)@.overlay_surface {
                Some(id) => deeds(old(out)@).push(Deed::Reply(outcome)).push(Deed::Hide(id)),
                None => deeds(old(out)@).push(Deed::Reply(outcome)),
            }),
    {
        put(out, Effect::Reply(outcome));
        self.overlay = None;
        if let Some(id) = self.overlay_surface.take() {
            self.remove_surface(id);
            put(out, Effect::Hide(id));
        }
    }

    /// Takes one message in, and says what is to be done, in order.
    pub fn update(&mut self, message: Message, now: Instant) -> (r: Vec<Effect>)
        requires
            old(self)@.wf(),
            old(self)@.next < u64::MAX,
        ensures
            final(self)@ == old(self)@.after(message, now),
            deeds(r@) == old(self)@.effects(message, now),
            final(self)@.wf(),
    {
        let mut out: Vec<Effect> = Vec::new();
        let ghost start = self@;
        proof {
            assert(deeds(out@) =~= Seq::<Deed>::empty());
        }
        match message {
            Message::Shutdown(reason) => {
                put(&mut out, Effect::Exit(reason.log()));
            },
            Message::CaptureTaken { path, thumbnail } => {
                self.flash.trigger(now);
                self.toasts.push(path, thumbnail, &self.motion, now);
                self.sync_toast_surface(&mut out);
            },
            Message::Flash => {},
            Message::Toast(m) => {
                match self.toasts.update(m, now, &self.motion) {
                    crate::toast::Action::Open(path) => {
                        put(&mut out, Effect::OpenEditor(path));
                    },
                    crate::toast::Action::OpenDir(path) => {
                        put(&mut out, Effect::OpenFolder(path));
                    },
                    crate::toast::Action::Nothing => {},
                }
                self.sync_toast_surface(&mut out);
            },
            Message::BeginRegion { output, focused_window } => {
                self.begin_region(output, focused_window, &mut out);
            },
            Message::OverlayEvent { surface, event, captured } => {
                let own: bool = match self.overlay_surface {
                    Some(id) => id == surface,
                    None => false,
                };
                if own {
                    if let Some(m) = message_from_event(&event, captured) {
                        self.update_overlay(m, &mut out);
                    }
                }
            },
            Message::Overlay(m) => {
                self.update_overlay(m, &mut out);
            },
            Message::CountdownStarted(seconds) => {
                self.countdown.trigger(Duration::from_secs(seconds as u64), now);
                self.sync_countdown_surface(now, &mut out);
            },
            Message::Countdown => {
                self.sync_countdown_surface(now, &mut out);
            },
            Message::RecordingFailed(why) => {
                self.toasts.push_notice("Recording failed".to_owned(), why, &self.motion, now);
                self.sync_toast_surface(&mut out);
            },
            Message::RecordingFinished(path) => {
                self.toasts.push_recording(path, &self.motion, now);
                self.sync_toast_surface(&mut out);
            },
            Message::Warning { title, body } => {
                self.toasts.push_notice(title, body, &self.motion, now);
                self.sync_toast_surface(&mut out);
            },
        }
        proof {
            assert(deeds(out@) =~= start.effects(message, now));
            lemma_after_is_wf(start, message, now);
        }
        out
    }
}

/// What is drawn on a surface.
#[derive(Debug, Clone, Copy, PartialEq, Eq, Structural)]
pub enum SurfaceContent {
    Blank,
    Flash,
    Toasts,
    Overlay,
    Countdown,
}

/// What has to be drawn again and again, and whether input is listened to.
#[derive(Debug, Clone, Copy, PartialEq, Eq, Structural)]
pub struct Wakeups {
    pub flash: bool,
    pub toasts: bool,
    pub countdown: bool,
    pub input: bool,
}

impl Service {
    /// What the daemon has to be woken for.
    pub open spec fn spec_wakeups(self, now: Instant) -> Wakeups {
        Wakeups {
            flash: self.flash.active(now, fade_of(self.motion)),
            toasts: self.toasts.toasts.len() > 0,
            countdown: self.countdown.active(now),
            input: self.overlay is Some,
        }
    }

    /// What is drawn on a surface: what it is for, or nothing where it is no
    /// longer or not yet known.
    pub open spec fn spec_content(self, surface: u64) -> SurfaceContent {
        if !self.windows.contains_key(surface) {
            SurfaceContent::Blank
        } else {
            match self.windows[surface] {
                SurfaceRole::Flash => SurfaceContent::Flash,
                SurfaceRole::Toast => SurfaceContent::Toasts,
                SurfaceRole::Overlay => if self.overlay is Some {
                    SurfaceContent::Overlay
                } else {
                    SurfaceContent::Blank
                },
                SurfaceRole::Countdown => SurfaceContent::Countdown,
            }
        }
    }
}

impl Daemon {
    /// What is drawn on a surface: what it is for, or nothing where it is no
    /// longer or not yet known.
    pub fn content(&self, surface: u64) -> (r: SurfaceContent)
        ensures
            r == self@.spec_content(surface),
    {
        match self.windows.get(&surface) {
            None => SurfaceContent::Blank,
            Some(SurfaceRole::Flash) => SurfaceContent::Flash,
            Some(SurfaceRole::Toast) => SurfaceContent::Toasts,
            Some(SurfaceRole::Overlay) => if self.overlay.is_some() {
                SurfaceContent::Overlay
            } else {
                SurfaceContent::Blank
            },
            Some(SurfaceRole::Countdown) => SurfaceContent::Countdown,
        }
    }

    /// What the daemon has to be woken for: only what moves, and input only
    /// while a region is selected.
    pub fn wakeups(&self, now: Instant) -> (r: Wakeups)
        ensures
            r == self@.spec_wakeups(now),
    {
        Wakeups {
            flash: self.flash.is_active(now, fade(&self.motion)),
            toasts: !self.toasts.is_empty(),
            countdown: self.countdown.is_active(now),
            input: self.overlay.is_some(),
        }
    }

    /// Whether there is a number left for another surface.
    pub fn has_room(&self) -> (r: bool)
        ensures
            r == (self@.next < u64::MAX),
    {
        self.next_surface < u64::MAX
    }

    pub fn flash(&self) -> (r: &Flash)
        ensures
            *r == self@.flash,
    {
        &self.flash
    }

    pub fn toasts(&self) -> (r: &ToastStack)
        ensures
            r@ == self@.toasts,
    {
        &self.toasts
    }

    pub fn countdown(&self) -> (r: &Countdown)
        ensures
            *r == self@.countdown,
    {
        &self.countdown
    }

    /// The selection in progress.
    pub fn overlay(&self) -> (r: Option<&Overlay>)
        ensures
            match (r, self@.overlay) {
                (Some(a), Some(b)) => a@ == b,
                (None, None) => true,
                _ => false,
            },
    {
        match &self.overlay {
            Some(overlay) => Some(overlay),
            None => None,
        }
    }
}

/// One selection at a time: a second request changes nothing and is refused.
pub proof fn law_one_selection_at_a_time(
    s: Service,
    output: OutputInfo,
    focused_window: Option<WindowRef>,
    now: Instant,
)
    requires
        s.overlay is Some,
    ensures
        s.after(Message::BeginRegion { output, focused_window }, now) == s,
        s.effects(Message::BeginRegion { output, focused_window }, now) == seq![
            Deed::Refuse(refusal()),
        ],
{
}

/// Input on any other surface than the overlay's does nothing.
pub proof fn law_other_surfaces_select_nothing(
    s: Service,
    surface: u64,
    event: InputEvent,
    captured: bool,
    now: Instant,
)
    requires
        s.overlay_surface != Some(surface),
    ensures
        s.after(Message::OverlayEvent { surface, event, captured }, now) == s,
        s.effects(Message::OverlayEvent { surface, event, captured }, now) == Seq::<
            Deed,
        >::empty(),
{
}

/// A selection that ends is answered before its surface goes, and the next one
/// can begin.
pub proof fn law_reply_comes_first(s: Service, message: crate::overlay::Message, now: Instant)
    requires
        s.wf(),
        s.overlay is Some,
        !(s.overlay->0.answer(message) is Nothing),
    ensures
        s.effects(Message::Overlay(message), now).len() == 2,
        s.effects(Message::Overlay(message), now)[0] is Reply,
        s.effects(Message::Overlay(message), now)[1] == Deed::Hide(s.overlay_surface->0),
        s.after(Message::Overlay(message), now).overlay is None,
{
}

/// Escape always ends a selection, and gives the keyboard back.
pub proof fn law_escape_always_ends_a_selection(s: Service, captured: bool, now: Instant)
    requires
        s.wf(),
        s.overlay is Some,
    ensures
        ({
            let escape = Message::OverlayEvent {
                surface: s.overlay_surface->0,
                event: InputEvent::EscapePressed,
                captured,
            };
            &&& s.after(escape, now).overlay is None
            &&& s.effects(escape, now) == seq![
                Deed::Reply(RegionOutcome::Cancelled),
                Deed::Hide(s.overlay_surface->0),
            ]
        }),
{
}

/// Whether what is done to the screen is what is done to the registry: a surface
/// that is shown is new and in it from then on; one that is hidden was in it, is
/// no longer, and is not the flash.
pub open spec fn registry_follows(s: Service, deed: Deed, t: Service) -> bool {
    match deed {
        Deed::Show { surface, settings } => surface == s.next && !s.windows.contains_key(surface)
            && t.windows.contains_key(surface),
        Deed::Hide(surface) => s.windows.contains_key(surface) && !(s.windows[surface] is Flash)
            && !t.windows.contains_key(surface),
        _ => true,
    }
}

/// Whether a surface is shown or hidden by what is done.
pub open spec fn touched(list: Seq<Deed>, id: u64) -> bool {
    exists|i: int| 0 <= i < list.len() && touches(#[trigger] list[i], id)
}

/// Whether one thing that is done shows or hides a surface.
pub open spec fn touches(deed: Deed, id: u64) -> bool {
    match deed {
        Deed::Show { surface, settings } => surface == id,
        Deed::Hide(surface) => surface == id,
        _ => false,
    }
}

/// What is shown comes into the registry, and what is hidden goes from it,
/// whatever happens.
pub proof fn law_screen_and_registry_agree(s: Service, message: Message, now: Instant)
    requires
        s.wf(),
        s.next < u64::MAX,
    ensures
        forall|i: int|
            0 <= i < s.effects(message, now).len() ==> registry_follows(
                s,
                #[trigger] s.effects(message, now)[i],
                s.after(message, now),
            ),
{
    match message {
        Message::CaptureTaken { path, thumbnail } => {
            let news = News::Capture { path: path@, thumbnail: thumbnail@ };
            lemma_toast_deeds(s.with_news(news, now));
        },
        Message::Toast(m) => {
            let t = Service { toasts: s.toasts.after(m, now, s.motion), ..s };
            lemma_toast_deeds(t);
            let rest = t.toast_deeds();
            let all = s.effects(message, now);
            assert forall|i: int| 0 <= i < all.len() implies registry_follows(
                s,
                #[trigger] all[i],
                s.after(message, now),
            ) by {
                if all.len() == rest.len() {
                    assert(all[i] == rest[i]);
                } else if i > 0 {
                    assert(all[i] == rest[i - 1]);
                }
            }
        },
        Message::BeginRegion { output, focused_window } => {},
        Message::OverlayEvent { surface, event, captured } => {
            match s.overlay_input(surface, event, captured) {
                Some(m) => lemma_overlay_deeds(s, m),
                None => {},
            }
        },
        Message::Overlay(m) => lemma_overlay_deeds(s, m),
        Message::CountdownStarted(seconds) => lemma_countdown_deeds(
            s.with_countdown(seconds, now),
            now,
        ),
        Message::Countdown => lemma_countdown_deeds(s, now),
        Message::RecordingFailed(why) => lemma_toast_deeds(
            s.with_news(News::Notice { title: "Recording failed"@, body: why@ }, now),
        ),
        Message::RecordingFinished(path) => lemma_toast_deeds(
            s.with_news(News::Recording { path: path@ }, now),
        ),
        Message::Warning { title, body } => lemma_toast_deeds(
            s.with_news(News::Notice { title: title@, body: body@ }, now),
        ),
        _ => {},
    }
}

/// Nothing comes into the registry or goes from it but what is shown or hidden.
pub proof fn law_registry_keeps_the_rest(s: Service, message: Message, now: Instant, id: u64)
    requires
        s.wf(),
        s.next < u64::MAX,
        !touched(s.effects(message, now), id),
    ensures
        s.after(message, now).windows.contains_key(id) <==> s.windows.contains_key(id),
{
    let all = s.effects(message, now);
    match message {
        Message::CaptureTaken { path, thumbnail } => {
            let news = News::Capture { path: path@, thumbnail: thumbnail@ };
            lemma_toast_rest(s.with_news(news, now), id);
        },
        Message::Toast(m) => {
            let t = Service { toasts: s.toasts.after(m, now, s.motion), ..s };
            let rest = t.toast_deeds();
            if touched(rest, id) {
                let k = choose|k: int| 0 <= k < rest.len() && touches(#[trigger] rest[k], id);
                if all.len() == rest.len() {
                    assert(touches(all[k], id));
                } else {
                    assert(touches(all[k + 1], id));
                }
            }
            lemma_toast_rest(t, id);
        },
        Message::BeginRegion { output, focused_window } => {
            if s.overlay is None {
                assert(!touches(all[0], id));
            }
        },
        Message::OverlayEvent { surface, event, captured } => {
            match s.overlay_input(surface, event, captured) {
                Some(m) => lemma_overlay_rest(s, m, id),
                None => {},
            }
        },
        Message::Overlay(m) => lemma_overlay_rest(s, m, id),
        Message::CountdownStarted(seconds) => lemma_countdown_rest(
            s.with_countdown(seconds, now),
            now,
            id,
        ),
        Message::Countdown => lemma_countdown_rest(s, now, id),
        Message::RecordingFailed(why) => lemma_toast_rest(
            s.with_news(News::Notice { title: "Recording failed"@, body: why@ }, now),
            id,
        ),
        Message::RecordingFinished(path) => lemma_toast_rest(
            s.with_news(News::Recording { path: path@ }, now),
            id,
        ),
        Message::Warning { title, body } => lemma_toast_rest(
            s.with_news(News::Notice { title: title@, body: body@ }, now),
            id,
        ),
        _ => {},
    }
}

proof fn lemma_toast_rest(s: Service, id: u64)
    requires
        !touched(s.toast_deeds(), id),
    ensures
        s.toast_synced().windows.contains_key(id) <==> s.windows.contains_key(id),
{
    let list = s.toast_deeds();
    if list.len() > 0 {
        assert(!touches(list[0], id));
    }
    if list.len() > 1 {
        assert(!touches(list[1], id));
    }
}

proof fn lemma_countdown_rest(s: Service, now: Instant, id: u64)
    requires
        !touched(s.countdown_deeds(now), id),
    ensures
        s.countdown_synced(now).windows.contains_key(id) <==> s.windows.contains_key(id),
{
    let list = s.countdown_deeds(now);
    if list.len() > 0 {
        assert(!touches(list[0], id));
    }
    if list.len() > 1 {
        assert(!touches(list[1], id));
    }
}

proof fn lemma_overlay_rest(s: Service, message: crate::overlay::Message, id: u64)
    requires
        !touched(s.overlay_deeds(message), id),
    ensures
        s.overlay_after(message).windows.contains_key(id) <==> s.windows.contains_key(id),
{
    if let Some(o) = s.overlay {
        let ended = Service::outcome(o.answer(message));
        if ended is None {
            assert(s.overlay_after(message).windows == s.windows);
        } else if let Some(surface) = s.overlay_surface {
            let list = s.overlay_deeds(message);
            assert(list == seq![Deed::Reply(ended->0), Deed::Hide(surface)]);
            assert(!touches(list[1], id));
            assert(s.overlay_after(message).windows == s.windows.remove(surface));
        }
    }
}

proof fn lemma_toast_deeds(s: Service)
    requires
        s.registered(),
        s.next < u64::MAX,
    ensures
        forall|i: int|
            0 <= i < s.toast_deeds().len() ==> registry_follows(
                s,
                #[trigger] s.toast_deeds()[i],
                s.toast_synced(),
            ),
{
}

proof fn lemma_countdown_deeds(s: Service, now: Instant)
    requires
        s.registered(),
        s.next < u64::MAX,
    ensures
        forall|i: int|
            0 <= i < s.countdown_deeds(now).len() ==> registry_follows(
                s,
                #[trigger] s.countdown_deeds(now)[i],
                s.countdown_synced(now),
            ),
{
}

proof fn lemma_overlay_deeds(s: Service, message: crate::overlay::Message)
    requires
        s.registered(),
    ensures
        forall|i: int|
            0 <= i < s.overlay_deeds(message).len() ==> registry_follows(
                s,
                #[trigger] s.overlay_deeds(message)[i],
                s.overlay_after(message),
            ),
{
}

proof fn lemma_fresh_is_wf(metrics: Metrics, motion: Motion)
    ensures
        Service::fresh(metrics, motion).wf(),
{
    let s = Service::fresh(metrics, motion);
    assert(s.windows.contains_key(0) && s.windows[0] is Flash);
}

proof fn lemma_mapped(s: Service, t: Service, role: SurfaceRole)
    requires
        s.registered(),
        s.next < u64::MAX,
        t.windows == s.windows.insert(s.next, role),
    ensures
        forall|id: u64| #[trigger]
            t.windows.contains_key(id) <==> (s.windows.contains_key(id) || id == s.next),
        forall|id: u64|
            s.windows.contains_key(id) ==> #[trigger] t.windows[id] == s.windows[id],
        t.windows[s.next] == role,
        exists|id: u64| #[trigger] t.windows.contains_key(id) && t.windows[id] is Flash,
{
    let f = choose|id: u64| #[trigger] s.windows.contains_key(id) && s.windows[id] is Flash;
    assert(t.windows.contains_key(f) && t.windows[f] is Flash);
}

proof fn lemma_unmapped(s: Service, t: Service, id: u64)
    requires
        s.registered(),
        t.windows == s.windows.remove(id),
        s.windows.contains_key(id),
        !(s.windows[id] is Flash),
    ensures
        exists|k: u64| #[trigger] t.windows.contains_key(k) && t.windows[k] is Flash,
{
    let f = choose|k: u64| #[trigger] s.windows.contains_key(k) && s.windows[k] is Flash;
    assert(t.windows.contains_key(f) && t.windows[f] is Flash);
}

proof fn lemma_toast_synced(s: Service)
    requires
        s.registered(),
        s.next < u64::MAX,
    ensures
        s.toast_synced().wf(),
{
    let t = s.toast_synced();
    match s.toast_surface {
        None => {
            if s.toasts.toasts.len() > 0 {
                lemma_mapped(s, t, SurfaceRole::Toast);
            }
        },
        Some(id) => {
            let u = Service { toast_surface: None, toast_count: 0, ..s.unmapped(id) };
            lemma_unmapped(s, u, id);
            assert(u.registered());
            if s.toasts.toasts.len() > 0 && s.toasts.toasts.len() != s.toast_count {
                lemma_mapped(u, t, SurfaceRole::Toast);
            }
        },
    }
}

proof fn lemma_countdown_synced(s: Service, now: Instant)
    requires
        s.wf(),
        s.next < u64::MAX,
    ensures
        s.countdown_synced(now).wf(),
{
    let t = s.countdown_synced(now);
    match s.countdown_surface {
        None => {
            if s.countdown.active(now) {
                lemma_mapped(s, t, SurfaceRole::Countdown);
            }
        },
        Some(id) => {
            if !s.countdown.active(now) {
                lemma_unmapped(s, t, id);
            }
        },
    }
}

proof fn lemma_with_overlay(s: Service, output: OutputInfo, focused_window: Option<WindowRef>)
    requires
        s.wf(),
        s.next < u64::MAX,
        s.with_overlay(output, focused_window).overlay->0.wf(),
    ensures
        s.with_overlay(output, focused_window).wf(),
{
    if s.overlay is None {
        lemma_mapped(s, s.with_overlay(output, focused_window), SurfaceRole::Overlay);
    }
}

proof fn lemma_overlay_after(s: Service, message: crate::overlay::Message)
    requires
        s.wf(),
        s.overlay_after(message).overlay matches Some(x) ==> x.wf(),
    ensures
        s.overlay_after(message).wf(),
{
    let t = s.overlay_after(message);
    if t.overlay is None && s.overlay is Some {
        lemma_unmapped(s, t, s.overlay_surface->0);
    }
}

proof fn lemma_after_is_wf(s: Service, message: Message, now: Instant)
    requires
        s.wf(),
        s.next < u64::MAX,
        s.after(message, now).overlay matches Some(x) ==> x.wf(),
    ensures
        s.after(message, now).wf(),
{
    match message {
        Message::CaptureTaken { path, thumbnail } => {
            let t = Service {
                flash: Flash { started: Some(now) },
                ..s.with_news(News::Capture { path: path@, thumbnail: thumbnail@ }, now)
            };
            assert(t.registered());
            lemma_toast_synced(t);
        },
        Message::Toast(m) => {
            let t = Service { toasts: s.toasts.after(m, now, s.motion), ..s };
            assert(t.registered());
            lemma_toast_synced(t);
        },
        Message::BeginRegion { output, focused_window } => {
            lemma_with_overlay(s, output, focused_window);
        },
        Message::OverlayEvent { surface, event, captured } => {
            match s.overlay_input(surface, event, captured) {
                Some(m) => lemma_overlay_after(s, m),
                None => {},
            }
        },
        Message::Overlay(m) => {
            lemma_overlay_after(s, m);
        },
        Message::CountdownStarted(seconds) => {
            lemma_countdown_synced(s.with_countdown(seconds, now), now);
        },
        Message::Countdown => {
            lemma_countdown_synced(s, now);
        },
        Message::RecordingFailed(why) => {
            let t = s.with_news(News::Notice { title: "Recording failed"@, body: why@ }, now);
            assert(t.registered());
            lemma_toast_synced(t);
        },
        Message::RecordingFinished(path) => {
            let t = s.with_news(News::Recording { path: path@ }, now);
            assert(t.registered());
            lemma_toast_synced(t);
        },
        Message::Warning { title, body } => {
            let t = s.with_news(News::Notice { title: title@, body: body@ }, now);
            assert(t.registered());
            lemma_toast_synced(t);
        },
        _ => {},
    }
}

} // verus!
