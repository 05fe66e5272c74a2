//! The app window: what is chosen in it, what it asks the daemon for, and what
//! it shows.
use vstd::prelude::*;
use vstd::string::*;

use crate::cli::{
    CaptureOptions, RecordKind, RecordOptions, ShotKind, WindowAction, record_options,
    resolve_capture_options, spec_capture_options, spec_record_options,
};
use crate::config::{AudioSource, CaptureConfig, VideoPreset};
use crate::editor_state::{Desk, EditorAction, EditorState, Wish};
use crate::history::{HistoryItem, label_of_path, name_or_path};
use crate::imaging::{ImageFormat, canvas_of, reading};
use crate::library::{
    Action, AnimatedFormat, HistoryModel, Library, Request, Told, is_path, path_text, told,
};
use crate::paths::{same_path, same_path_as};
use crate::picker::{PickedColor, hex_text, rgb_to_hex};
use crate::shapes::{ColorPalette, TextSizeScale};
use crate::text::joined;

verus! {

/// What a window opens with.
#[derive(Debug, PartialEq, Eq)]
pub enum WindowMode {
    Main,
    Edit(String),
}

/// What a window opens with.
pub fn window_mode_from_action(action: Option<&WindowAction>) -> (r: WindowMode)
    ensures
        r == (match action {
            None => WindowMode::Main,
            Some(WindowAction::Edit { path }) => WindowMode::Edit(*path),
        }),
{
    match action {
        None => WindowMode::Main,
        Some(WindowAction::Edit { path }) => WindowMode::Edit(path.clone()),
    }
}

/// What is captured.
#[derive(Debug, Clone, Copy, PartialEq, Eq, Structural)]
pub enum CaptureMode {
    Screenshot,
    Record,
}

/// The sound of a recording, silence included.
#[derive(Debug, Clone, Copy, PartialEq, Eq, Structural)]
pub enum AudioChoice {
    NoAudio,
    Mic,
    System,
    Both,
}

impl AudioChoice {
    pub open spec fn spec_to_option(self) -> Option<AudioSource> {
        match self {
            AudioChoice::NoAudio => None,
            AudioChoice::Mic => Some(AudioSource::Mic),
            AudioChoice::System => Some(AudioSource::System),
            AudioChoice::Both => Some(AudioSource::Both),
        }
    }

    pub fn to_option(self) -> (r: Option<AudioSource>)
        ensures
            r == self.spec_to_option(),
    {
        match self {
            AudioChoice::NoAudio => None,
            AudioChoice::Mic => Some(AudioSource::Mic),
            AudioChoice::System => Some(AudioSource::System),
            AudioChoice::Both => Some(AudioSource::Both),
        }
    }

    pub open spec fn spec_from_option(source: Option<AudioSource>) -> AudioChoice {
        match source {
            None => AudioChoice::NoAudio,
            Some(AudioSource::Mic) => AudioChoice::Mic,
            Some(AudioSource::System) => AudioChoice::System,
            Some(AudioSource::Both) => AudioChoice::Both,
        }
    }

    pub fn from_option(source: Option<AudioSource>) -> (r: AudioChoice)
        ensures
            r == AudioChoice::spec_from_option(source),
    {
        match source {
            None => AudioChoice::NoAudio,
            Some(AudioSource::Mic) => AudioChoice::Mic,
            Some(AudioSource::System) => AudioChoice::System,
            Some(AudioSource::Both) => AudioChoice::Both,
        }
    }
}

/// Every choice stands for one source or none, and every source has its choice.
pub proof fn law_audio_round_trips(choice: AudioChoice, source: Option<AudioSource>)
    ensures
        AudioChoice::spec_from_option(choice.spec_to_option()) == choice,
        AudioChoice::spec_from_option(source).spec_to_option() == source,
{
}

/// Something chosen in the window.
#[derive(Debug, Clone, Copy, PartialEq, Eq, Structural)]
pub enum Choice {
    Mode(CaptureMode),
    Target(ShotKind),
    RecordTarget(RecordKind),
    Delay(u32),
    Cursor(bool),
    Format(ImageFormat),
    Preset(VideoPreset),
    Audio(AudioChoice),
}

/// All that can be chosen in the window.
#[derive(Debug, Clone, Copy, PartialEq, Eq, Structural)]
pub struct Selections {
    pub mode: CaptureMode,
    pub target: ShotKind,
    pub record_target: RecordKind,
    pub delay: u32,
    pub cursor: bool,
    pub format: ImageFormat,
    pub preset: VideoPreset,
    pub audio: AudioChoice,
}

impl Selections {
    /// What is chosen at first: what the settings say, of the whole screen.
    pub open spec fn spec_initial(config: CaptureConfig) -> Selections {
        Selections {
            mode: CaptureMode::Screenshot,
            target: ShotKind::Fullscreen,
            record_target: RecordKind::Fullscreen,
            delay: config.delay,
            cursor: config.cursor,
            format: config.image_format,
            preset: config.video_preset,
            audio: AudioChoice::spec_from_option(config.audio),
        }
    }

    fn initial(config: &CaptureConfig) -> (r: Selections)
        ensures
            r == Selections::spec_initial(*config),
    {
        Selections {
            mode: CaptureMode::Screenshot,
            target: ShotKind::Fullscreen,
            record_target: RecordKind::Fullscreen,
            delay: config.delay,
            cursor: config.cursor,
            format: config.image_format,
            preset: config.video_preset,
            audio: AudioChoice::from_option(config.audio),
        }
    }

    pub open spec fn spec_with(self, choice: Choice) -> Selections {
        match choice {
            Choice::Mode(mode) => Selections { mode, ..self },
            Choice::Target(target) => Selections { target, ..self },
            Choice::RecordTarget(record_target) => Selections { record_target, ..self },
            Choice::Delay(delay) => Selections { delay, ..self },
            Choice::Cursor(cursor) => Selections { cursor, ..self },
            Choice::Format(format) => Selections { format, ..self },
            Choice::Preset(preset) => Selections { preset, ..self },
            Choice::Audio(audio) => Selections { audio, ..self },
        }
    }

    fn with(self, choice: Choice) -> (r: Selections)
        ensures
            r == self.spec_with(choice),
    {
        match choice {
            Choice::Mode(mode) => Selections { mode, ..self },
            Choice::Target(target) => Selections { target, ..self },
            Choice::RecordTarget(record_target) => Selections { record_target, ..self },
            Choice::Delay(delay) => Selections { delay, ..self },
            Choice::Cursor(cursor) => Selections { cursor, ..self },
            Choice::Format(format) => Selections { format, ..self },
            Choice::Preset(preset) => Selections { preset, ..self },
            Choice::Audio(audio) => Selections { audio, ..self },
        }
    }
}

/// What happens to the window.
#[derive(Debug)]
pub enum Message {
    WindowOpened,
    Connected(Result<(), String>),
    Selected(Choice),
    Capture,
    ScreenshotFinished(Result<String, String>),
    RecordingRequested(Result<(), String>),
    RecordingFinishedSignal(String),
    RecordingErrorSignal(String),
    DragWindow,
    ClosePressed,
    Editor(crate::editor_state::Message),
    /// The library was asked for, and these are its items.
    HistoryRequested(Vec<HistoryItem>),
    /// The library was to be loaded anew, and these are its items.
    HistoryReloaded(Vec<HistoryItem>),
    HistoryClosed,
    History(crate::library::Message),
    PickColorRequested,
    PickColorFinished(Result<PickedColor, String>),
}

/// What the window asks for. Before the daemon is asked, a window that is there
/// is hidden.
#[derive(Debug)]
pub enum AppAction {
    Nothing,
    Screenshot { hide: bool, options: CaptureOptions },
    Record { hide: bool, recording: RecordOptions },
    PickColor { hide: bool },
    /// Show the window again.
    Show,
    Drag,
    Close,
    Exit,
    Editor(EditorAction),
    History(Action),
}

/// What the window asks for, apart from how it is held.
pub enum Errand {
    Nothing,
    Screenshot { hide: bool, options: CaptureOptions },
    Record { hide: bool, recording: RecordOptions },
    PickColor { hide: bool },
    Show,
    Drag,
    Close,
    Exit,
    Editor(Wish),
    History(Request),
}

impl View for AppAction {
    type V = Errand;

    open spec fn view(&self) -> Errand {
        match *self {
            AppAction::Nothing => Errand::Nothing,
            AppAction::Screenshot { hide, options } => Errand::Screenshot { hide, options },
            AppAction::Record { hide, recording } => Errand::Record { hide, recording },
            AppAction::PickColor { hide } => Errand::PickColor { hide },
            AppAction::Show => Errand::Show,
            AppAction::Drag => Errand::Drag,
            AppAction::Close => Errand::Close,
            AppAction::Exit => Errand::Exit,
            AppAction::Editor(action) => Errand::Editor(action@),
            AppAction::History(action) => Errand::History(action@),
        }
    }
}

/// Which screen the window shows.
pub enum ViewState {
    Main,
    Editor { path: String, editor: Result<EditorState, String> },
    History(HistoryModel),
}

/// Which screen the window shows, apart from how it is held.
pub enum Screen {
    Main,
    Editor { path: Seq<char>, editor: Result<Desk, Seq<char>> },
    History(Library),
}

impl View for ViewState {
    type V = Screen;

    open spec fn view(&self) -> Screen {
        match *self {
            ViewState::Main => Screen::Main,
            ViewState::Editor { path, editor } => Screen::Editor {
                path: path@,
                editor: match editor {
                    Ok(state) => Ok(state@),
                    Err(why) => Err(why@),
                },
            },
            ViewState::History(model) => Screen::History(model@),
        }
    }
}

/// Everything about the app window.
pub struct Front {
    pub config: CaptureConfig,
    pub connected: bool,
    pub open: bool,
    pub screen: Screen,
    pub chosen: Selections,
    pub busy: bool,
    pub recording_pending: bool,
    /// What is being exported while the library is not shown.
    pub parked: Option<Seq<char>>,
    pub feedback: Option<Told>,
}

/// What is told where the daemon cannot be asked yet.
pub open spec fn not_connected() -> Seq<char> {
    "not connected to the daemon yet — try again in a moment"@
}

/// What is being exported after a message to the library that came while it was
/// not shown.
pub open spec fn parked_after(
    parked: Option<Seq<char>>,
    message: crate::library::Message,
) -> Option<Seq<char>> {
    match message {
        crate::library::Message::ExportFinished(path, _) => if is_path(parked, path@) {
            None
        } else {
            parked
        },
        _ => parked,
    }
}

impl Front {
    pub open spec fn wf(self) -> bool {
        self.screen matches Screen::Editor { path, editor: Ok(desk) } ==> desk.sheet.wf()
    }

    /// Whether a message can be taken in: one that may add an annotation needs
    /// room for it.
    pub open spec fn has_room(self, message: Message) -> bool {
        match (message, self.screen) {
            (Message::Editor(m), Screen::Editor { path, editor: Ok(desk) }) =>
                desk.has_room_for(m),
            _ => true,
        }
    }

    /// The window as it opens, on a screen.
    pub open spec fn fresh(config: CaptureConfig, screen: Screen) -> Front {
        Front {
            config,
            connected: false,
            open: false,
            screen,
            chosen: Selections::spec_initial(config),
            busy: false,
            recording_pending: false,
            parked: None,
            feedback: None,
        }
    }

    /// What is being exported.
    pub open spec fn in_flight(self) -> Option<Seq<char>> {
        match self.screen {
            Screen::History(library) => library.exporting,
            _ => self.parked,
        }
    }

    /// The window while the daemon is asked, if it can be.
    pub open spec fn asking(self) -> Front {
        if self.busy {
            self
        } else if !self.connected {
            Front { feedback: Some(Err(not_connected())), ..self }
        } else {
            Front { busy: true, feedback: None, ..self }
        }
    }

    /// The window once the daemon has answered.
    pub open spec fn answered(self, result: Told) -> Front {
        Front { busy: false, feedback: Some(result), ..self }
    }

    /// The window once the recording that it waits for has ended.
    pub open spec fn recorded(self, result: Told) -> Front {
        if self.recording_pending {
            Front { recording_pending: false, ..self.answered(result) }
        } else {
            self
        }
    }

    /// The window after a message.
    pub open spec fn after(self, message: Message) -> Front {
        match message {
            Message::WindowOpened => Front { open: true, ..self },
            Message::Connected(result) => match result {
                Ok(_) => Front { connected: true, ..self },
                Err(why) => Front { feedback: Some(Err(why@)), ..self },
            },
            Message::Selected(choice) => Front { chosen: self.chosen.spec_with(choice), ..self },
            Message::Capture => self.asking(),
            Message::ScreenshotFinished(result) => match result {
                Ok(path) => self.answered(Ok("Saved: "@ + path@)),
                Err(why) => self.answered(Err(why@)),
            },
            Message::RecordingRequested(result) => match result {
                Ok(_) => Front {
                    recording_pending: true,
                    feedback: Some(Ok("Recording…"@)),
                    ..self
                },
                Err(why) => self.answered(Err(why@)),
            },
            Message::RecordingFinishedSignal(path) => self.recorded(
                Ok("Recording saved: "@ + path@),
            ),
            Message::RecordingErrorSignal(why) => self.recorded(Err(why@)),
            Message::DragWindow => self,
            Message::ClosePressed => self,
            Message::Editor(m) => match self.screen {
                Screen::Editor { path, editor: Ok(desk) } => Front {
                    screen: Screen::Editor { path, editor: Ok(desk.after(m)) },
                    ..self
                },
                _ => self,
            },
            Message::HistoryRequested(items) => Front {
                screen: Screen::History(
                    Library { exporting: self.in_flight(), ..Library::fresh(items@) },
                ),
                parked: None,
                ..self
            },
            Message::HistoryReloaded(items) => match self.screen {
                Screen::History(library) => Front {
                    screen: Screen::History(library.reloaded(items@)),
                    ..self
                },
                _ => self,
            },
            Message::HistoryClosed => Front {
                screen: Screen::Main,
                parked: self.in_flight(),
                ..self
            },
            Message::History(m) => match self.screen {
                Screen::History(library) => Front {
                    screen: Screen::History(library.after(m)),
                    ..self
                },
                _ => Front { parked: parked_after(self.parked, m), ..self },
            },
            Message::PickColorRequested => self.asking(),
            Message::PickColorFinished(result) => match result {
                Ok(color) => self.answered(Ok("Picked "@ + hex_text(color))),
                Err(why) => self.answered(Err(why@)),
            },
        }
    }

    /// Whether the daemon can be asked for something now.
    pub open spec fn can_ask(self) -> bool {
        !self.busy && self.connected
    }

    /// What a message asks for.
    pub open spec fn answer(self, message: Message) -> Errand {
        match message {
            Message::Capture => if !self.can_ask() {
                Errand::Nothing
            } else {
                match self.chosen.mode {
                    CaptureMode::Screenshot => Errand::Screenshot {
                        hide: self.open,
                        options: spec_capture_options(
                            self.config,
                            self.chosen.target,
                            self.chosen.delay,
                            self.chosen.cursor,
                            self.chosen.format,
                        ),
                    },
                    CaptureMode::Record => Errand::Record {
                        hide: self.open,
                        recording: spec_record_options(
                            self.config,
                            self.chosen.record_target,
                            self.chosen.preset,
                            self.chosen.audio.spec_to_option(),
                        ),
                    },
                }
            },
            Message::PickColorRequested => if self.can_ask() {
                Errand::PickColor { hide: self.open }
            } else {
                Errand::Nothing
            },
            Message::ScreenshotFinished(_) => self.reappearing(),
            Message::PickColorFinished(_) => self.reappearing(),
            Message::RecordingRequested(result) => if result is Err {
                self.reappearing()
            } else {
                Errand::Nothing
            },
            Message::RecordingFinishedSignal(_) => if self.recording_pending {
                self.reappearing()
            } else {
                Errand::Nothing
            },
            Message::RecordingErrorSignal(_) => if self.recording_pending {
                self.reappearing()
            } else {
                Errand::Nothing
            },
            Message::DragWindow => if self.open {
                Errand::Drag
            } else {
                Errand::Nothing
            },
            Message::ClosePressed => if self.open {
                Errand::Close
            } else {
                Errand::Exit
            },
            Message::Editor(m) => match self.screen {
                Screen::Editor { path, editor: Ok(desk) } => Errand::Editor(desk.answer(m)),
                _ => Errand::Nothing,
            },
            Message::History(m) => match self.screen {
                Screen::History(library) => Errand::History(library.answer(m)),
                _ => Errand::Nothing,
            },
            _ => Errand::Nothing,
        }
    }

    /// Showing the window again, if there is one.
    pub open spec fn reappearing(self) -> Errand {
        if self.open {
            Errand::Show
        } else {
            Errand::Nothing
        }
    }

    /// The window's title.
    pub open spec fn spec_title(self) -> Seq<char> {
        match self.screen {
            Screen::Main => "Saola Capture"@,
            Screen::Editor { path, editor: Ok(desk) } => "Saola Capture — "@ + name_or_path(
                desk.path,
            ),
            Screen::Editor { path, editor: Err(_) } => "Saola Capture — "@ + name_or_path(path),
            Screen::History(_) => "Saola Capture — History"@,
        }
    }
}

/// The app window's state.
pub struct App {
    config: CaptureConfig,
    connected: bool,
    open: bool,
    view: ViewState,
    chosen: Selections,
    busy: bool,
    recording_pending: bool,
    parked: Option<String>,
    feedback: Option<Result<String, String>>,
}

impl View for App {
    type V = Front;

    closed spec fn view(&self) -> Front {
        Front {
            config: self.config,
            connected: self.connected,
            open: self.open,
            screen: self.view@,
            chosen: self.chosen,
            busy: self.busy,
            recording_pending: self.recording_pending,
            parked: path_text(self.parked),
            feedback: told(self.feedback),
        }
    }
}

/// The screen that a window opens with. `read` is the file to edit, or why it
/// cannot be read.
pub open spec fn first_screen(
    mode: WindowMode,
    read: Result<Vec<u8>, String>,
    config: CaptureConfig,
    palette: ColorPalette,
    text_sizes: TextSizeScale,
) -> Screen {
    match mode {
        WindowMode::Main => Screen::Main,
        WindowMode::Edit(path) => Screen::Editor {
            path: path@,
            editor: match canvas_of(path@, reading(read)) {
                Ok(canvas) => Ok(
                    Desk::fresh(
                        path@,
                        canvas,
                        palette,
                        text_sizes,
                        config.image_format,
                        config.webp_quality,
                    ),
                ),
                Err(why) => Err(why),
            },
        },
    }
}

impl App {
    /// The window as it opens on a screen.
    pub fn open_on(config: CaptureConfig, view: ViewState) -> (r: App)
        ensures
            r@ == Front::fresh(config, view@),
    {
        App {
            chosen: Selections::initial(&config),
            config,
            connected: false,
            open: false,
            view,
            busy: false,
            recording_pending: false,
            parked: None,
            feedback: None,
        }
    }

    /// The window as it opens. `read` is the file to edit, or why it cannot be
    /// read; it is not looked at for the main screen.
    pub fn boot(
        mode: WindowMode,
        read: Result<Vec<u8>, String>,
        config: CaptureConfig,
        palette: ColorPalette,
        text_sizes: TextSizeScale,
    ) -> (r: App)
        ensures
            r@ == Front::fresh(config, first_screen(mode, read, config, palette, text_sizes)),
            r@.wf(),
    {
        let view = match mode {
            WindowMode::Main => ViewState::Main,
            WindowMode::Edit(path) => {
                let editor = EditorState::load(
                    path.as_str(),
                    read,
                    palette,
                    text_sizes,
                    config.image_format,
                    config.webp_quality,
                );
                ViewState::Editor { path, editor }
            },
        };
        App::open_on(config, view)
    }

    /// Which screen is shown.
    pub fn screen(&self) -> (r: &ViewState)
        ensures
            r@ == self@.screen,
    {
        &self.view
    }

    pub fn chosen(&self) -> (r: Selections)
        ensures
            r == self@.chosen,
    {
        self.chosen
    }

    pub fn is_busy(&self) -> (r: bool)
        ensures
            r == self@.busy,
    {
        self.busy
    }

    pub fn is_recording_pending(&self) -> (r: bool)
        ensures
            r == self@.recording_pending,
    {
        self.recording_pending
    }

    /// Whether the editor, where it is shown, has room for another annotation.
    pub fn has_room(&self) -> (r: bool)
        ensures
            r == (self@.screen matches Screen::Editor { path, editor: Ok(desk) }
                ==> desk.sheet.has_room()),
    {
        match &self.view {
            ViewState::Editor { path, editor: Ok(state) } => state.model().has_room(),
            _ => true,
        }
    }

    /// The window's title. A file that was saved under another name goes by
    /// that one.
    pub fn title(&self) -> (r: String)
        ensures
            r@ == self@.spec_title(),
    {
        match &self.view {
            ViewState::Main => "Saola Capture".to_owned(),
            ViewState::Editor { path, editor: Ok(state) } => {
                let now: String = state.path().to_owned();
                joined("Saola Capture — ", label_of_path(&now).as_str())
            },
            ViewState::Editor { path, editor: Err(_) } => joined(
                "Saola Capture — ",
                label_of_path(path).as_str(),
            ),
            ViewState::History(_) => "Saola Capture — History".to_owned(),
        }
    }

    /// Takes one message in.
    pub fn update(&mut self, message: Message) -> (r: AppAction)
        requires
            old(self)@.wf(),
            old(self)@.has_room(message),
        ensures
            final(self)@ == old(self)@.after(message),
            r@ == old(self)@.answer(message),
            final(self)@.wf(),
    {
        match message {
            Message::WindowOpened => {
                self.open = true;
                AppAction::Nothing
            },
            Message::Connected(result) => {
                match result {
                    Ok(_) => {
                        self.connected = true;
                    },
                    Err(why) => {
                        self.feedback = Some(Err(why));
                    },
                }
                AppAction::Nothing
            },
            Message::Selected(choice) => {
                self.chosen = self.chosen.with(choice);
                AppAction::Nothing
            },
            Message::Capture => self.start_capture(),
            Message::ScreenshotFinished(result) => self.finish(
                match result {
                    Ok(path) => Ok(joined("Saved: ", path.as_str())),
                    Err(why) => Err(why),
                },
            ),
            Message::RecordingRequested(result) => match result {
                Ok(_) => {
                    self.recording_pending = true;
                    self.feedback = Some(Ok("Recording…".to_owned()));
                    AppAction::Nothing
                },
                Err(why) => self.finish(Err(why)),
            },
            Message::RecordingFinishedSignal(path) => self.finish_recording(
                Ok(joined("Recording saved: ", path.as_str())),
            ),
            Message::RecordingErrorSignal(why) => self.finish_recording(Err(why)),
            Message::DragWindow => if self.open {
                AppAction::Drag
            } else {
                AppAction::Nothing
            },
            Message::ClosePressed => if self.open {
                AppAction::Close
            } else {
                AppAction::Exit
            },
            Message::Editor(m) => match &mut self.view {
                ViewState::Editor { path, editor: Ok(state) } => AppAction::Editor(state.update(m)),
                _ => AppAction::Nothing,
            },
            Message::HistoryRequested(items) => {
                let exporting: Option<String> = self.in_flight();
                self.view = ViewState::History(HistoryModel::load_while(items, exporting));
                self.parked = None;
                AppAction::Nothing
            },
            Message::HistoryReloaded(items) => {
                if let ViewState::History(model) = &mut self.view {
                    model.reload(items);
                }
                AppAction::Nothing
            },
            Message::HistoryClosed => {
                self.parked = self.in_flight();
                self.view = ViewState::Main;
                AppAction::Nothing
            },
            Message::History(m) => {
                if let ViewState::History(model) = &mut self.view {
                    return AppAction::History(model.update(m));
                }
                self.end_parked(m);
                AppAction::Nothing
            },
            Message::PickColorRequested => self.start_pick_color(),
            Message::PickColorFinished(result) => self.finish(
                match result {
                    Ok(color) => Ok(joined("Picked ", rgb_to_hex(color).as_str())),
                    Err(why) => Err(why),
                },
            ),
        }
    }

    /// What is being exported.
    fn in_flight(&self) -> (r: Option<String>)
        ensures
            path_text(r) == self@.in_flight(),
    {
        match &self.view {
            ViewState::History(model) => match model.exporting() {
                Some(path) => Some(path.to_owned()),
                None => None,
            },
            _ => self.parked.clone(),
        }
    }

    /// Takes in a message to the library, which is not shown.
    fn end_parked(&mut self, message: crate::library::Message)
        ensures
            final(self)@ == (Front {
                parked: parked_after(old(self)@.parked, message),
                ..old(self)@
            }),
    {
        if let crate::library::Message::ExportFinished(path, _) = message {
            let ended: bool = match &self.parked {
                Some(parked) => same_path(parked.as_str(), path.as_str()),
                None => false,
            };
            if ended {
                self.parked = None;
            }
        }
    }

    /// Whether the daemon can be asked now; the user is told where it is not
    /// there yet.
    fn begin(&mut self) -> (r: bool)
        ensures
            final(self)@ == old(self)@.asking(),
            r == old(self)@.can_ask(),
    {
        if self.busy {
            return false;
        }
        if !self.connected {
            self.feedback =
            Some(Err("not connected to the daemon yet — try again in a moment".to_owned()));
            return false;
        }
        self.busy = true;
        self.feedback = None;
        true
    }

    /// Asks for what is chosen.
    fn start_capture(&mut self) -> (r: AppAction)
        ensures
            final(self)@ == old(self)@.asking(),
            r@ == old(self)@.answer(Message::Capture),
    {
        if !self.begin() {
            return AppAction::Nothing;
        }
        match self.chosen.mode {
            CaptureMode::Screenshot => match resolve_capture_options(
                &self.config,
                self.chosen.target,
                self.chosen.delay,
                self.chosen.cursor,
                self.chosen.format,
            ) {
                Ok(options) => AppAction::Screenshot { hide: self.open, options },
                Err(_) => AppAction::Nothing,
            },
            CaptureMode::Record => AppAction::Record {
                hide: self.open,
                recording: record_options(
                    &self.config,
                    self.chosen.record_target,
                    self.chosen.preset,
                    self.chosen.audio.to_option(),
                ),
            },
        }
    }

    /// Asks for a colour.
    fn start_pick_color(&mut self) -> (r: AppAction)
        ensures
            final(self)@ == old(self)@.asking(),
            r@ == old(self)@.answer(Message::PickColorRequested),
    {
        if self.begin() {
            AppAction::PickColor { hide: self.open }
        } else {
            AppAction::Nothing
        }
    }

    /// Tells the user how it went, and shows the window again.
    fn finish(&mut self, result: Result<String, String>) -> (r: AppAction)
        ensures
            final(self)@ == old(self)@.answered(told(Some(result))->0),
            r@ == old(self)@.reappearing(),
    {
        self.busy = false;
        self.feedback = Some(result);
        if self.open {
            AppAction::Show
        } else {
            AppAction::Nothing
        }
    }

    /// The same for a recording, if it is this window's.
    fn finish_recording(&mut self, result: Result<String, String>) -> (r: AppAction)
        ensures
            final(self)@ == old(self)@.recorded(told(Some(result))->0),
            r@ == (if old(self)@.recording_pending {
                old(self)@.reappearing()
            } else {
                Errand::Nothing
            }),
    {
        if self.recording_pending {
            self.recording_pending = false;
            self.finish(result)
        } else {
            AppAction::Nothing
        }
    }
}

/// One pill of a row: what it is called, what pressing it chooses, and whether
/// that is chosen already.
#[derive(Debug)]
pub struct Segment {
    pub label: &'static str,
    pub choice: Choice,
    pub selected: bool,
}

/// A row of pills under its heading.
#[derive(Debug)]
pub struct SegmentedRow {
    pub label: &'static str,
    pub segments: Vec<Segment>,
}

/// A pill, apart from how it is held.
pub struct Pill {
    pub label: Seq<char>,
    pub choice: Choice,
    pub selected: bool,
}

/// A row, apart from how it is held.
pub struct Row {
    pub label: Seq<char>,
    pub pills: Seq<Pill>,
}

impl View for Segment {
    type V = Pill;

    open spec fn view(&self) -> Pill {
        Pill { label: self.label@, choice: self.choice, selected: self.selected }
    }
}

impl View for SegmentedRow {
    type V = Row;

    open spec fn view(&self) -> Row {
        Row { label: self.label@, pills: self.segments@.map_values(|s: Segment| s@) }
    }
}

/// Rows, apart from how they are held.
pub open spec fn rows_of(list: Seq<SegmentedRow>) -> Seq<Row> {
    list.map_values(|r: SegmentedRow| r@)
}

impl Selections {
    /// Whether a choice is the one made.
    pub open spec fn has(self, choice: Choice) -> bool {
        self.spec_with(choice) == self
    }

    fn pill(self, label: &'static str, choice: Choice) -> (r: Segment)
        ensures
            r@ == (Pill { label: label@, choice, selected: self.has(choice) }),
    {
        Segment { label, choice, selected: self.with(choice) == self }
    }

    pub open spec fn spec_pill(self, label: &str, choice: Choice) -> Pill {
        Pill { label: label@, choice, selected: self.has(choice) }
    }

    pub open spec fn spec_mode_row(self) -> Row {
        Row {
            label: "Mode"@,
            pills: seq![
                self.spec_pill("Screenshot", Choice::Mode(CaptureMode::Screenshot)),
                self.spec_pill("Record", Choice::Mode(CaptureMode::Record)),
            ],
        }
    }

    fn mode_row(self) -> (r: SegmentedRow)
        ensures
            r@ == self.spec_mode_row(),
    {
        let segments: Vec<Segment> = vec![
            self.pill("Screenshot", Choice::Mode(CaptureMode::Screenshot)),
            self.pill("Record", Choice::Mode(CaptureMode::Record)),
        ];
        assert(segments@.map_values(|s: Segment| s@) =~= self.spec_mode_row().pills);
        SegmentedRow { label: "Mode", segments }
    }

    pub open spec fn spec_target_row(self) -> Row {
        Row {
            label: "Target"@,
            pills: seq![
                self.spec_pill("Full screen", Choice::Target(ShotKind::Fullscreen)),
                self.spec_pill("Region", Choice::Target(ShotKind::Region)),
                self.spec_pill("Window", Choice::Target(ShotKind::Window)),
            ],
        }
    }

    fn target_row(self) -> (r: SegmentedRow)
        ensures
            r@ == self.spec_target_row(),
    {
        let segments: Vec<Segment> = vec![
            self.pill("Full screen", Choice::Target(ShotKind::Fullscreen)),
            self.pill("Region", Choice::Target(ShotKind::Region)),
            self.pill("Window", Choice::Target(ShotKind::Window)),
        ];
        assert(segments@.map_values(|s: Segment| s@) =~= self.spec_target_row().pills);
        SegmentedRow { label: "Target", segments }
    }

    pub open spec fn spec_format_row(self) -> Row {
        Row {
            label: "Format"@,
            pills: seq![
                self.spec_pill("WebP", Choice::Format(ImageFormat::Webp)),
                self.spec_pill("PNG", Choice::Format(ImageFormat::Png)),
            ],
        }
    }

    fn format_row(self) -> (r: SegmentedRow)
        ensures
            r@ == self.spec_format_row(),
    {
        let segments: Vec<Segment> = vec![
            self.pill("WebP", Choice::Format(ImageFormat::Webp)),
            self.pill("PNG", Choice::Format(ImageFormat::Png)),
        ];
        assert(segments@.map_values(|s: Segment| s@) =~= self.spec_format_row().pills);
        SegmentedRow { label: "Format", segments }
    }

    pub open spec fn spec_record_target_row(self) -> Row {
        Row {
            label: "Target"@,
            pills: seq![
                self.spec_pill("Full screen", Choice::RecordTarget(RecordKind::Fullscreen)),
                self.spec_pill("Region", Choice::RecordTarget(RecordKind::Region)),
                self.spec_pill("Window", Choice::RecordTarget(RecordKind::Window)),
            ],
        }
    }

    fn record_target_row(self) -> (r: SegmentedRow)
        ensures
            r@ == self.spec_record_target_row(),
    {
        let segments: Vec<Segment> = vec![
            self.pill("Full screen", Choice::RecordTarget(RecordKind::Fullscreen)),
            self.pill("Region", Choice::RecordTarget(RecordKind::Region)),
            self.pill("Window", Choice::RecordTarget(RecordKind::Window)),
        ];
        assert(segments@.map_values(|s: Segment| s@) =~= self.spec_record_target_row().pills);
        SegmentedRow { label: "Target", segments }
    }

    pub open spec fn spec_preset_row(self) -> Row {
        Row {
            label: "Preset"@,
            pills: seq![
                self.spec_pill("HEVC", Choice::Preset(VideoPreset::Hevc)),
                self.spec_pill("AV1", Choice::Preset(VideoPreset::Av1)),
                self.spec_pill("H.264", Choice::Preset(VideoPreset::H264)),
            ],
        }
    }

    fn preset_row(self) -> (r: SegmentedRow)
        ensures
            r@ == self.spec_preset_row(),
    {
        let segments: Vec<Segment> = vec![
            self.pill("HEVC", Choice::Preset(VideoPreset::Hevc)),
            self.pill("AV1", Choice::Preset(VideoPreset::Av1)),
            self.pill("H.264", Choice::Preset(VideoPreset::H264)),
        ];
        assert(segments@.map_values(|s: Segment| s@) =~= self.spec_preset_row().pills);
        SegmentedRow { label: "Preset", segments }
    }

    pub open spec fn spec_audio_row(self) -> Row {
        Row {
            label: "Audio"@,
            pills: seq![
                self.spec_pill("No audio", Choice::Audio(AudioChoice::NoAudio)),
                self.spec_pill("Mic", Choice::Audio(AudioChoice::Mic)),
                self.spec_pill("System", Choice::Audio(AudioChoice::System)),
                self.spec_pill("Both", Choice::Audio(AudioChoice::Both)),
            ],
        }
    }

    fn audio_row(self) -> (r: SegmentedRow)
        ensures
            r@ == self.spec_audio_row(),
    {
        let segments: Vec<Segment> = vec![
            self.pill("No audio", Choice::Audio(AudioChoice::NoAudio)),
            self.pill("Mic", Choice::Audio(AudioChoice::Mic)),
            self.pill("System", Choice::Audio(AudioChoice::System)),
            self.pill("Both", Choice::Audio(AudioChoice::Both)),
        ];
        assert(segments@.map_values(|s: Segment| s@) =~= self.spec_audio_row().pills);
        SegmentedRow { label: "Audio", segments }
    }

    pub open spec fn spec_delay_row(self) -> Row {
        Row {
            label: "Delay"@,
            pills: seq![
                self.spec_pill("No delay", Choice::Delay(0)),
                self.spec_pill("3s", Choice::Delay(3)),
                self.spec_pill("5s", Choice::Delay(5)),
                self.spec_pill("10s", Choice::Delay(10)),
            ],
        }
    }

    fn delay_row(self) -> (r: SegmentedRow)
        ensures
            r@ == self.spec_delay_row(),
    {
        let segments: Vec<Segment> = vec![
            self.pill("No delay", Choice::Delay(0)),
            self.pill("3s", Choice::Delay(3)),
            self.pill("5s", Choice::Delay(5)),
            self.pill("10s", Choice::Delay(10)),
        ];
        assert(segments@.map_values(|s: Segment| s@) =~= self.spec_delay_row().pills);
        SegmentedRow { label: "Delay", segments }
    }

    /// The rows of the main screen: those of the mode that is chosen, between
    /// the choice of mode and that of the delay.
    pub open spec fn spec_rows(self) -> Seq<Row> {
        match self.mode {
            CaptureMode::Screenshot => seq![
                self.spec_mode_row(),
                self.spec_target_row(),
                self.spec_format_row(),
                self.spec_delay_row(),
            ],
            CaptureMode::Record => seq![
                self.spec_mode_row(),
                self.spec_record_target_row(),
                self.spec_preset_row(),
                self.spec_audio_row(),
                self.spec_delay_row(),
            ],
        }
    }

    /// The rows of the main screen.
    pub fn rows(self) -> (r: Vec<SegmentedRow>)
        ensures
            rows_of(r@) == self.spec_rows(),
    {
        let list: Vec<SegmentedRow> = match self.mode {
            CaptureMode::Screenshot => vec![
                self.mode_row(),
                self.target_row(),
                self.format_row(),
                self.delay_row(),
            ],
            CaptureMode::Record => vec![
                self.mode_row(),
                self.record_target_row(),
                self.preset_row(),
                self.audio_row(),
                self.delay_row(),
            ],
        };
        assert(rows_of(list@) =~= self.spec_rows());
        list
    }
}

/// The main screen.
#[derive(Debug)]
pub struct MainView {
    pub rows: Vec<SegmentedRow>,
    /// Whether the pointer is to be shown in captures.
    pub cursor: bool,
    pub capture_label: &'static str,
    pub can_capture: bool,
    pub can_pick_color: bool,
    /// What the user is told, if anything.
    pub note: Option<String>,
}

impl Front {
    /// What the main screen tells: how things last went, or that the daemon is
    /// not there yet.
    pub open spec fn note(self) -> Option<Seq<char>> {
        match self.feedback {
            Some(Ok(text)) => Some(text),
            Some(Err(text)) => Some(text),
            None => if self.connected {
                None
            } else {
                Some("Connecting to the daemon…"@)
            },
        }
    }

    pub open spec fn capture_label(self) -> Seq<char> {
        match self.chosen.mode {
            CaptureMode::Screenshot => "Capture"@,
            CaptureMode::Record => "Start Recording"@,
        }
    }
}

impl App {
    /// The main screen.
    pub fn main_view(&self) -> (r: MainView)
        ensures
            rows_of(r.rows@) == self@.chosen.spec_rows(),
            r.cursor == self@.chosen.cursor,
            r.capture_label@ == self@.capture_label(),
            r.can_capture == self@.can_ask(),
            r.can_pick_color == self@.can_ask(),
            match (r.note, self@.note()) {
                (Some(a), Some(b)) => a@ == b,
                (None, None) => true,
                _ => false,
            },
    {
        MainView {
            rows: self.chosen.rows(),
            cursor: self.chosen.cursor,
            capture_label: match self.chosen.mode {
                CaptureMode::Screenshot => "Capture",
                CaptureMode::Record => "Start Recording",
            },
            can_capture: !self.busy && self.connected,
            can_pick_color: !self.busy && self.connected,
            note: match &self.feedback {
                Some(Ok(text)) => Some(text.clone()),
                Some(Err(text)) => Some(text.clone()),
                None => if self.connected {
                    None
                } else {
                    Some("Connecting to the daemon…".to_owned())
                },
            },
        }
    }
}

/// The theme's measures that windows go by, in subpixels.
#[derive(Debug, Clone, Copy, PartialEq, Eq, Structural)]
pub struct WindowSizes {
    pub header: u32,
    pub list_row: u32,
    pub padding: u32,
    pub popover_width: u32,
}

/// How high the main window is: its header, twelve rows and its padding, so
/// that the taller of the two modes fits.
pub fn window_height(sizes: &WindowSizes) -> (r: u64)
    ensures
        r == sizes.header + 12 * sizes.list_row + 4 * sizes.padding,
        r >= sizes.header,
{
    sizes.header as u64 + 12 * sizes.list_row as u64 + 4 * sizes.padding as u64
}

/// How wide and high the editor's window is at first.
pub fn editor_window_size(sizes: &WindowSizes) -> (r: (u64, u64))
    ensures
        r.0 == 3 * sizes.popover_width,
        r.1 == 2 * sizes.header + 10 * sizes.list_row,
{
    (
        3 * sizes.popover_width as u64,
        2 * sizes.header as u64 + 10 * sizes.list_row as u64,
    )
}

/// What is told of a file that cannot be edited.
pub fn editor_error_text(why: &str) -> (r: String)
    ensures
        r@ == "Could not open this image: "@ + why@,
{
    joined("Could not open this image: ", why)
}

/// One request at a time: while the daemon is asked for one thing, it is not
/// asked for another, and nothing changes.
pub proof fn law_one_request_at_a_time(f: Front)
    requires
        f.busy,
    ensures
        f.after(Message::Capture) == f,
        f.after(Message::PickColorRequested) == f,
        f.answer(Message::Capture) is Nothing,
        f.answer(Message::PickColorRequested) is Nothing,
{
}

/// Whatever becomes of a screenshot or a colour, the window is shown again, can
/// ask anew, and says how it went.
pub proof fn law_window_comes_back(
    f: Front,
    shot: Result<String, String>,
    color: Result<PickedColor, String>,
)
    requires
        f.open,
    ensures
        f.answer(Message::ScreenshotFinished(shot)) is Show,
        f.answer(Message::PickColorFinished(color)) is Show,
        !f.after(Message::ScreenshotFinished(shot)).busy,
        !f.after(Message::PickColorFinished(color)).busy,
        f.after(Message::ScreenshotFinished(shot)).feedback is Some,
        f.after(Message::PickColorFinished(color)).feedback is Some,
{
}

/// A recording that began keeps the window hidden and busy until it ends, well
/// or not; then the window comes back.
pub proof fn law_recording_keeps_the_window_hidden(f: Front, path: String, why: String)
    requires
        f.open,
        f.busy,
    ensures
        ({
            let live = f.after(Message::RecordingRequested(Ok(())));
            &&& f.answer(Message::RecordingRequested(Ok(()))) is Nothing
            &&& live.busy && live.recording_pending
            &&& live.answer(Message::RecordingFinishedSignal(path)) is Show
            &&& live.answer(Message::RecordingErrorSignal(why)) is Show
            &&& !live.after(Message::RecordingFinishedSignal(path)).busy
            &&& !live.after(Message::RecordingErrorSignal(why)).busy
            &&& !live.after(Message::RecordingFinishedSignal(path)).recording_pending
            &&& !live.after(Message::RecordingErrorSignal(why)).recording_pending
        }),
{
    lemma_recording_goes_live(f);
    let live = f.after(Message::RecordingRequested(Ok(())));
    lemma_recording_ends(live, path);
    lemma_recording_fails(live, why);
}

proof fn lemma_recording_goes_live(f: Front)
    ensures
        f.answer(Message::RecordingRequested(Ok(()))) is Nothing,
        f.after(Message::RecordingRequested(Ok(()))).recording_pending,
        f.after(Message::RecordingRequested(Ok(()))).busy == f.busy,
        f.after(Message::RecordingRequested(Ok(()))).open == f.open,
{
    let message = Message::RecordingRequested(Ok(()));
    assert(f.after(message) == (Front {
        recording_pending: true,
        feedback: Some(Ok("Recording…"@)),
        ..f
    }));
}

proof fn lemma_recording_ends(f: Front, path: String)
    requires
        f.open,
        f.recording_pending,
    ensures
        f.answer(Message::RecordingFinishedSignal(path)) is Show,
        !f.after(Message::RecordingFinishedSignal(path)).busy,
        !f.after(Message::RecordingFinishedSignal(path)).recording_pending,
{
    let told = Ok::<Seq<char>, Seq<char>>("Recording saved: "@ + path@);
    assert(f.after(Message::RecordingFinishedSignal(path)) == f.recorded(told));
    assert(f.recorded(told) == (Front { recording_pending: false, ..f.answered(told) }));
}

proof fn lemma_recording_fails(f: Front, why: String)
    requires
        f.open,
        f.recording_pending,
    ensures
        f.answer(Message::RecordingErrorSignal(why)) is Show,
        !f.after(Message::RecordingErrorSignal(why)).busy,
        !f.after(Message::RecordingErrorSignal(why)).recording_pending,
{
    let told = Err::<Seq<char>, Seq<char>>(why@);
    assert(f.after(Message::RecordingErrorSignal(why)) == f.recorded(told));
    assert(f.recorded(told) == (Front { recording_pending: false, ..f.answered(told) }));
}

/// The end of a recording that this window does not wait for changes nothing.
pub proof fn law_other_recordings_are_ignored(f: Front, path: String, why: String)
    requires
        !f.recording_pending,
    ensures
        f.after(Message::RecordingFinishedSignal(path)) == f,
        f.after(Message::RecordingErrorSignal(why)) == f,
        f.answer(Message::RecordingFinishedSignal(path)) is Nothing,
        f.answer(Message::RecordingErrorSignal(why)) is Nothing,
{
}

/// Choosing another mode leaves everything chosen in either mode as it was.
pub proof fn law_modes_are_independent(s: Selections, mode: CaptureMode)
    ensures
        s.spec_with(Choice::Mode(mode)).mode == mode,
        s.spec_with(Choice::Mode(mode)).spec_with(Choice::Mode(s.mode)) == s,
{
}

/// What was chosen is what is asked for, and the window never picks a region or
/// a window by itself.
pub proof fn law_requests_are_what_is_chosen(f: Front)
    requires
        f.can_ask(),
    ensures
        f.answer(Message::Capture) matches Errand::Screenshot { hide, options } ==> options.kind
            == f.chosen.target && options.delay == f.chosen.delay && options.cursor
            == f.chosen.cursor && options.format == f.chosen.format && options.geometry is None
            && options.window_id is None,
        f.answer(Message::Capture) matches Errand::Record { hide, recording } ==> recording.kind
            == f.chosen.record_target && recording.preset == f.chosen.preset && recording.audio
            == f.chosen.audio.spec_to_option() && recording.geometry is None
            && recording.window_id is None,
        f.answer(Message::Capture) is Screenshot || f.answer(Message::Capture) is Record,
{
}

/// A button that cannot be pressed would only have told that the daemon is not
/// there.
pub proof fn law_disabled_capture_asks_nothing(f: Front)
    requires
        !f.can_ask(),
    ensures
        f.answer(Message::Capture) is Nothing,
        f.answer(Message::PickColorRequested) is Nothing,
        f.after(Message::Capture).busy == f.busy,
{
}

impl Front {
    /// The window after messages, one by one.
    pub open spec fn after_all(self, messages: Seq<Message>) -> Front
        decreases messages.len(),
    {
        if messages.len() == 0 {
            self
        } else {
            self.after_all(messages.drop_last()).after(messages.last())
        }
    }
}

/// Whether a message says that the export of `path` has ended, well or not.
pub open spec fn ends_export(message: Message, path: Seq<char>) -> bool {
    message matches Message::History(crate::library::Message::ExportFinished(done, _))
        && same_path_as(path, done@)
}

/// Whether something is to be exported.
pub open spec fn starts_export(errand: Errand) -> bool {
    errand matches Errand::History(Request::Export { source, format })
}

/// An export that was asked for is in flight from then on; none was before.
pub proof fn law_export_takes_off(f: Front, message: Message)
    requires
        starts_export(f.answer(message)),
    ensures
        f.in_flight() is None,
        f.answer(message) matches Errand::History(Request::Export { source, format })
            && f.after(message).in_flight() == Some(source),
{
}

proof fn lemma_flight_goes_on(f: Front, path: Seq<char>, message: Message)
    requires
        f.in_flight() == Some(path),
        !ends_export(message, path),
    ensures
        f.after(message).in_flight() == Some(path),
{
    match message {
        Message::History(m) => {},
        Message::Editor(m) => {},
        Message::HistoryRequested(items) => {},
        Message::HistoryReloaded(items) => {},
        Message::HistoryClosed => {},
        Message::ScreenshotFinished(result) => {},
        Message::RecordingRequested(result) => {},
        Message::PickColorFinished(result) => {},
        _ => {},
    }
}

proof fn lemma_flight_blocks(f: Front, path: Seq<char>, message: Message)
    requires
        f.in_flight() == Some(path),
    ensures
        !starts_export(f.answer(message)),
{
}

/// One export at a time, whatever happens to the window: as long as no message
/// says that it has ended, an export stays in flight and no other is begun,
/// though the library be loaded anew, left and come back to.
pub proof fn law_one_export_in_flight(f: Front, path: Seq<char>, messages: Seq<Message>)
    requires
        f.in_flight() == Some(path),
        forall|i: int| 0 <= i < messages.len() ==> !ends_export(#[trigger] messages[i], path),
    ensures
        f.after_all(messages).in_flight() == Some(path),
        forall|next: Message| !starts_export(#[trigger] f.after_all(messages).answer(next)),
    decreases messages.len(),
{
    if messages.len() > 0 {
        let front = messages.drop_last();
        assert forall|i: int| 0 <= i < front.len() implies !ends_export(
            #[trigger] front[i],
            path,
        ) by {
            assert(front[i] == messages[i]);
        }
        law_one_export_in_flight(f, path, front);
        assert(!ends_export(messages[messages.len() - 1], path));
        lemma_flight_goes_on(f.after_all(front), path, messages.last());
    }
    let now = f.after_all(messages);
    assert forall|next: Message| !starts_export(#[trigger] now.answer(next)) by {
        lemma_flight_blocks(now, path, next);
    }
}

/// Once an export has ended, the next can be asked for: at once where the
/// library is shown, and else when it is come back to.
pub proof fn law_ended_export_makes_room(
    f: Front,
    path: Seq<char>,
    ended: Message,
    items: Vec<HistoryItem>,
    source: String,
    format: AnimatedFormat,
)
    requires
        f.in_flight() == Some(path),
        ends_export(ended, path),
    ensures
        f.after(ended).in_flight() is None,
        ({
            let asked = Message::History(
                crate::library::Message::ExportRequested(source, format),
            );
            let export = Errand::History(Request::Export { source: source@, format });
            &&& f.screen is History ==> f.after(ended).answer(asked) == export
            &&& f.after(ended).after(Message::HistoryRequested(items)).answer(asked) == export
        }),
{
    lemma_export_ends(f, path, ended);
    let after = f.after(ended);
    if f.screen is History {
        lemma_export_begins(after, source, format);
    }
    lemma_library_opens(after, items);
    lemma_export_begins(after.after(Message::HistoryRequested(items)), source, format);
}

proof fn lemma_export_ends(f: Front, path: Seq<char>, ended: Message)
    requires
        f.in_flight() == Some(path),
        ends_export(ended, path),
    ensures
        f.after(ended).in_flight() is None,
        f.screen is History ==> f.after(ended).screen is History,
{
    if let Message::History(m) = ended {
        match f.screen {
            Screen::History(library) => {
                assert(f.after(ended).screen == Screen::History(library.after(m)));
                assert(library.after(m).exporting is None);
            },
            _ => {
                assert(f.after(ended) == (Front { parked: parked_after(f.parked, m), ..f }));
            },
        }
    }
}

proof fn lemma_library_opens(f: Front, items: Vec<HistoryItem>)
    ensures
        f.after(Message::HistoryRequested(items)).screen is History,
        f.after(Message::HistoryRequested(items)).in_flight() == f.in_flight(),
{
}

proof fn lemma_export_begins(f: Front, source: String, format: AnimatedFormat)
    requires
        f.screen is History,
        f.in_flight() is None,
    ensures
        f.answer(Message::History(crate::library::Message::ExportRequested(source, format)))
            == Errand::History(Request::Export { source: source@, format }),
{
    if let Screen::History(library) = f.screen {
        let m = crate::library::Message::ExportRequested(source, format);
        assert(f.answer(Message::History(m)) == Errand::History(library.answer(m)));
    }
}

} // verus!
