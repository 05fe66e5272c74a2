//! The editor window: the session, where it is saved and how, and what the user
//! was last told.
use vstd::prelude::*;
use vstd::string::*;

use crate::editor::{EditorModel, Sheet, selected_caption};
use crate::export::{
    format_for_path, parse_quality, spec_format_for_path, spec_quality,
};
use crate::imaging::{ImageFormat, canvas_of, load_canvas, reading};
use crate::library::{Told, told};
use crate::pixmap::{Frame, Picture};
use crate::shapes::{
    AnnotationColor, ColorPalette, StrokeWidth, TextSizeScale, TextSizeStop, Tool,
};
use crate::text::{decimal, decimal_text, joined, trimmed, trimmed_text};
use crate::units::RawPoint;

verus! {

/// What happens in the editor window.
#[derive(Debug)]
pub enum Message {
    ToolSelected(Tool),
    ColorSelected(AnnotationColor),
    WidthSelected(StrokeWidth),
    Undo,
    Redo,
    DeleteSelected,
    ApplyCrop,
    CancelCrop,
    PointerMoved(RawPoint),
    Pressed(RawPoint),
    Released(RawPoint),
    TextContentChanged(String),
    TextSizeSelected(TextSizeStop),
    ExportFormatSelected(ImageFormat),
    ExportQualityChanged(String),
    SaveAsPathChanged(String),
    SavePressed,
    SaveAsPressed,
    CopyPressed,
    SaveAndCopyPressed,
    SaveFinished(Result<String, String>),
    CopyFinished(Result<(), String>),
    SaveAndCopyFinished(Result<String, String>),
}

/// Where and how to save.
#[derive(Debug)]
pub struct SaveJob {
    pub target: String,
    pub format: ImageFormat,
    pub quality: u8,
}

/// What the editor window asks for.
#[derive(Debug)]
pub enum EditorAction {
    Nothing,
    /// The canvas changed: show it anew.
    RefreshCanvas,
    /// Compose and save.
    Save(SaveJob),
    /// Compose and copy, as PNG.
    Copy,
    /// Compose, save and copy.
    SaveAndCopy(SaveJob),
}

/// What the editor window asks for, apart from how it is held.
pub enum Wish {
    Nothing,
    RefreshCanvas,
    Save { target: Seq<char>, format: ImageFormat, quality: u8 },
    Copy,
    SaveAndCopy { target: Seq<char>, format: ImageFormat, quality: u8 },
}

impl View for EditorAction {
    type V = Wish;

    open spec fn view(&self) -> Wish {
        match *self {
            EditorAction::Nothing => Wish::Nothing,
            EditorAction::RefreshCanvas => Wish::RefreshCanvas,
            EditorAction::Save(job) => Wish::Save {
                target: job.target@,
                format: job.format,
                quality: job.quality,
            },
            EditorAction::Copy => Wish::Copy,
            EditorAction::SaveAndCopy(job) => Wish::SaveAndCopy {
                target: job.target@,
                format: job.format,
                quality: job.quality,
            },
        }
    }
}

/// Everything about the editor window.
pub struct Desk {
    pub sheet: Sheet,
    pub path: Seq<char>,
    pub palette: ColorPalette,
    pub text_sizes: TextSizeScale,
    pub webp_quality: u8,
    pub export_format: ImageFormat,
    pub quality_text: Seq<char>,
    pub save_as: Seq<char>,
    pub busy: bool,
    pub feedback: Option<Told>,
}

impl Desk {
    /// The window on a canvas just loaded.
    pub open spec fn fresh(
        path: Seq<char>,
        canvas: Picture,
        palette: ColorPalette,
        text_sizes: TextSizeScale,
        default_format: ImageFormat,
        webp_quality: u8,
    ) -> Desk {
        Desk {
            sheet: Sheet::fresh(canvas).with_text_size(text_sizes.medium),
            path,
            palette,
            text_sizes,
            webp_quality,
            export_format: default_format,
            quality_text: decimal_text(webp_quality as nat),
            save_as: path,
            busy: false,
            feedback: None,
        }
    }

    /// How a save to `target` is done.
    pub open spec fn job_format(self, target: Seq<char>) -> ImageFormat {
        spec_format_for_path(target, self.export_format)
    }

    pub open spec fn job_quality(self) -> u8 {
        spec_quality(trimmed_text(self.quality_text), self.webp_quality)
    }

    /// Work has begun; what was last told is gone. Nothing begins while other
    /// work is going on.
    pub open spec fn begun(self) -> Desk {
        if self.busy {
            self
        } else {
            Desk { busy: true, feedback: None, ..self }
        }
    }

    /// Work has ended, and the user is told how.
    pub open spec fn ended(self, result: Told) -> Desk {
        Desk { busy: false, feedback: Some(result), ..self }
    }

    /// Work has ended with the file saved at `path`, which is from now on the
    /// one that is edited.
    pub open spec fn saved(self, path: Seq<char>, words: Seq<char>) -> Desk {
        Desk { path, save_as: path, ..self.ended(Ok(words + path)) }
    }

    /// The window after a message.
    pub open spec fn after(self, message: Message) -> Desk {
        match message {
            Message::ToolSelected(tool) => Desk { sheet: self.sheet.with_tool(tool), ..self },
            Message::ColorSelected(color) => Desk { sheet: self.sheet.with_color(color), ..self },
            Message::WidthSelected(width) => Desk { sheet: self.sheet.with_width(width), ..self },
            Message::Undo => Desk { sheet: self.sheet.undone(), ..self },
            Message::Redo => Desk { sheet: self.sheet.redone(), ..self },
            Message::DeleteSelected => Desk { sheet: self.sheet.without_selected(), ..self },
            Message::ApplyCrop => Desk { sheet: self.sheet.with_crop(), ..self },
            Message::CancelCrop => Desk { sheet: self.sheet.without_crop(), ..self },
            Message::PointerMoved(p) => Desk { sheet: self.sheet.pointed(p), ..self },
            Message::Pressed(p) => Desk { sheet: self.sheet.pressed(p), ..self },
            Message::Released(p) => Desk { sheet: self.sheet.released(p), ..self },
            Message::TextContentChanged(text) => Desk {
                sheet: self.sheet.with_text_content(text@),
                ..self
            },
            Message::TextSizeSelected(stop) => Desk {
                sheet: self.sheet.with_text_size(self.text_sizes.spec_resolve(stop)),
                ..self
            },
            Message::ExportFormatSelected(format) => Desk { export_format: format, ..self },
            Message::ExportQualityChanged(text) => Desk { quality_text: text@, ..self },
            Message::SaveAsPathChanged(text) => Desk { save_as: text@, ..self },
            Message::SavePressed => self.begun(),
            Message::SaveAsPressed => if trimmed_text(self.save_as).len() == 0 {
                Desk { feedback: Some(Err("enter a path to save as"@)), ..self }
            } else {
                self.begun()
            },
            Message::CopyPressed => self.begun(),
            Message::SaveAndCopyPressed => self.begun(),
            Message::SaveFinished(result) => match result {
                Ok(path) => self.saved(path@, "Saved: "@),
                Err(why) => self.ended(Err(why@)),
            },
            Message::CopyFinished(result) => match result {
                Ok(_) => self.ended(Ok("Copied to the clipboard"@)),
                Err(why) => self.ended(Err(why@)),
            },
            Message::SaveAndCopyFinished(result) => match result {
                Ok(path) => self.saved(path@, "Saved & copied: "@),
                Err(why) => self.ended(Err(why@)),
            },
        }
    }

    /// Whether there is room for what a message may add.
    pub open spec fn has_room_for(self, message: Message) -> bool {
        match message {
            Message::Pressed(_) => self.sheet.room_to_press(),
            Message::Released(_) => self.sheet.room_to_release(),
            _ => true,
        }
    }

    /// What a message asks for.
    pub open spec fn answer(self, message: Message) -> Wish {
        match message {
            Message::Undo => Wish::RefreshCanvas,
            Message::Redo => Wish::RefreshCanvas,
            Message::ApplyCrop => if self.sheet.crop_applies() {
                Wish::RefreshCanvas
            } else {
                Wish::Nothing
            },
            Message::Released(p) => if self.sheet.release_changes_canvas(p) {
                Wish::RefreshCanvas
            } else {
                Wish::Nothing
            },
            Message::SavePressed => if self.busy {
                Wish::Nothing
            } else {
                Wish::Save {
                    target: self.path,
                    format: self.job_format(self.path),
                    quality: self.job_quality(),
                }
            },
            Message::SaveAsPressed => {
                let target = trimmed_text(self.save_as);
                if target.len() == 0 || self.busy {
                    Wish::Nothing
                } else {
                    Wish::Save {
                        target,
                        format: self.job_format(target),
                        quality: self.job_quality(),
                    }
                }
            },
            Message::CopyPressed => if self.busy {
                Wish::Nothing
            } else {
                Wish::Copy
            },
            Message::SaveAndCopyPressed => if self.busy {
                Wish::Nothing
            } else {
                Wish::SaveAndCopy {
                    target: self.path,
                    format: self.job_format(self.path),
                    quality: self.job_quality(),
                }
            },
            _ => Wish::Nothing,
        }
    }
}

/// The editor window's state.
pub struct EditorState {
    model: EditorModel,
    path: String,
    palette: ColorPalette,
    text_sizes: TextSizeScale,
    webp_quality: u8,
    export_format: ImageFormat,
    export_quality_text: String,
    save_as_path: String,
    busy: bool,
    feedback: Option<Result<String, String>>,
}

impl View for EditorState {
    type V = Desk;

    closed spec fn view(&self) -> Desk {
        Desk {
            sheet: self.model@,
            path: self.path@,
            palette: self.palette,
            text_sizes: self.text_sizes,
            webp_quality: self.webp_quality,
            export_format: self.export_format,
            quality_text: self.export_quality_text@,
            save_as: self.save_as_path@,
            busy: self.busy,
            feedback: told(self.feedback),
        }
    }
}

impl EditorState {
    /// Opens the editor on a canvas.
    pub fn open(
        path: &str,
        canvas: Frame,
        palette: ColorPalette,
        text_sizes: TextSizeScale,
        default_format: ImageFormat,
        webp_quality: u8,
    ) -> (r: EditorState)
        ensures
            r@ == Desk::fresh(
                path@,
                canvas@,
                palette,
                text_sizes,
                default_format,
                webp_quality,
            ),
            r@.sheet.wf(),
    {
        let mut model = EditorModel::new(canvas);
        model.set_text_size(text_sizes.resolve(TextSizeStop::Medium));
        EditorState {
            model,
            path: path.to_owned(),
            palette,
            text_sizes,
            webp_quality,
            export_format: default_format,
            export_quality_text: decimal(webp_quality as u64),
            save_as_path: path.to_owned(),
            busy: false,
            feedback: None,
        }
    }

    /// Opens the editor on a file that was read, or says why it cannot.
    pub fn load(
        path: &str,
        read: Result<Vec<u8>, String>,
        palette: ColorPalette,
        text_sizes: TextSizeScale,
        default_format: ImageFormat,
        webp_quality: u8,
    ) -> (r: Result<EditorState, String>)
        ensures
            match (r, canvas_of(path@, reading(read))) {
                (Ok(state), Ok(canvas)) => state@ == Desk::fresh(
                    path@,
                    canvas,
                    palette,
                    text_sizes,
                    default_format,
                    webp_quality,
                ) && state@.sheet.wf(),
                (Err(a), Err(b)) => a@ == b,
                _ => false,
            },
    {
        match load_canvas(path, read) {
            Ok(canvas) => Ok(
                EditorState::open(path, canvas, palette, text_sizes, default_format, webp_quality),
            ),
            Err(why) => Err(why),
        }
    }

    pub fn path(&self) -> (r: &str)
        ensures
            r@ == self@.path,
    {
        self.path.as_str()
    }

    pub fn model(&self) -> (r: &EditorModel)
        ensures
            r@ == self@.sheet,
    {
        &self.model
    }

    pub fn palette(&self) -> (r: ColorPalette)
        ensures
            r == self@.palette,
    {
        self.palette
    }

    pub fn export_format(&self) -> (r: ImageFormat)
        ensures
            r == self@.export_format,
    {
        self.export_format
    }

    pub fn export_quality_text(&self) -> (r: &str)
        ensures
            r@ == self@.quality_text,
    {
        self.export_quality_text.as_str()
    }

    pub fn save_as_path(&self) -> (r: &str)
        ensures
            r@ == self@.save_as,
    {
        self.save_as_path.as_str()
    }

    pub fn is_busy(&self) -> (r: bool)
        ensures
            r == self@.busy,
    {
        self.busy
    }

    /// What the user was last told, and whether it was a success.
    pub fn feedback(&self) -> (r: Option<(bool, &str)>)
        ensures
            match (r, self@.feedback) {
                (Some((good, text)), Some(Ok(t))) => good && text@ == t,
                (Some((good, text)), Some(Err(t))) => !good && text@ == t,
                (None, None) => true,
                _ => false,
            },
    {
        match &self.feedback {
            Some(Ok(text)) => Some((true, text.as_str())),
            Some(Err(text)) => Some((false, text.as_str())),
            None => None,
        }
    }

    /// Takes one message in.
    pub fn update(&mut self, message: Message) -> (r: EditorAction)
        requires
            old(self)@.sheet.wf(),
            old(self)@.has_room_for(message),
        ensures
            final(self)@ == old(self)@.after(message),
            r@ == old(self)@.answer(message),
            final(self)@.sheet.wf(),
    {
        match message {
            Message::ToolSelected(tool) => {
                self.model.set_tool(tool);
                EditorAction::Nothing
            },
            Message::ColorSelected(color) => {
                self.model.set_color(color);
                EditorAction::Nothing
            },
            Message::WidthSelected(width) => {
                self.model.set_width(width);
                EditorAction::Nothing
            },
            Message::Undo => {
                self.model.undo();
                EditorAction::RefreshCanvas
            },
            Message::Redo => {
                self.model.redo();
                EditorAction::RefreshCanvas
            },
            Message::DeleteSelected => {
                self.model.delete_selected();
                EditorAction::Nothing
            },
            Message::ApplyCrop => if self.model.apply_crop() {
                EditorAction::RefreshCanvas
            } else {
                EditorAction::Nothing
            },
            Message::CancelCrop => {
                self.model.cancel_crop();
                EditorAction::Nothing
            },
            Message::PointerMoved(point) => {
                self.model.pointer_moved(point);
                EditorAction::Nothing
            },
            Message::Pressed(point) => {
                self.model.pressed(point);
                EditorAction::Nothing
            },
            Message::Released(point) => if self.model.released(point) {
                EditorAction::RefreshCanvas
            } else {
                EditorAction::Nothing
            },
            Message::TextContentChanged(content) => {
                self.model.set_selected_text_content(content);
                EditorAction::Nothing
            },
            Message::TextSizeSelected(stop) => {
                let size: u32 = self.text_sizes.resolve(stop);
                self.model.set_text_size(size);
                EditorAction::Nothing
            },
            Message::ExportFormatSelected(format) => {
                self.export_format = format;
                EditorAction::Nothing
            },
            Message::ExportQualityChanged(text) => {
                self.export_quality_text = text;
                EditorAction::Nothing
            },
            Message::SaveAsPathChanged(text) => {
                self.save_as_path = text;
                EditorAction::Nothing
            },
            Message::SavePressed => {
                let target: String = self.path.clone();
                self.start_save(target)
            },
            Message::SaveAsPressed => {
                let target: String = trimmed(self.save_as_path.as_str());
                if target.as_str().unicode_len() == 0 {
                    self.feedback = Some(Err("enter a path to save as".to_owned()));
                    EditorAction::Nothing
                } else {
                    self.start_save(target)
                }
            },
            Message::CopyPressed => self.start_copy(),
            Message::SaveAndCopyPressed => self.start_save_and_copy(),
            Message::SaveFinished(result) => {
                self.busy = false;
                match result {
                    Ok(path) => {
                        self.feedback = Some(Ok(joined("Saved: ", path.as_str())));
                        self.save_as_path = path.clone();
                        self.path = path;
                    },
                    Err(why) => {
                        self.feedback = Some(Err(why));
                    },
                }
                EditorAction::Nothing
            },
            Message::CopyFinished(result) => {
                self.busy = false;
                self.feedback =
                Some(
                    match result {
                        Ok(_) => Ok("Copied to the clipboard".to_owned()),
                        Err(why) => Err(why),
                    },
                );
                EditorAction::Nothing
            },
            Message::SaveAndCopyFinished(result) => {
                self.busy = false;
                match result {
                    Ok(path) => {
                        self.feedback = Some(Ok(joined("Saved & copied: ", path.as_str())));
                        self.save_as_path = path.clone();
                        self.path = path;
                    },
                    Err(why) => {
                        self.feedback = Some(Err(why));
                    },
                }
                EditorAction::Nothing
            },
        }
    }

    fn start_save(&mut self, target: String) -> (r: EditorAction)
        requires
            old(self)@.sheet.wf(),
        ensures
            final(self)@ == old(self)@.begun(),
            r@ == (if old(self)@.busy {
                Wish::Nothing
            } else {
                Wish::Save {
                    target: target@,
                    format: old(self)@.job_format(target@),
                    quality: old(self)@.job_quality(),
                }
            }),
    {
        if self.busy {
            return EditorAction::Nothing;
        }
        self.busy = true;
        self.feedback = None;
        let format = format_for_path(target.as_str(), self.export_format);
        let quality: u8 = parse_quality(self.export_quality_text.as_str(), self.webp_quality);
        EditorAction::Save(SaveJob { target, format, quality })
    }

    fn start_copy(&mut self) -> (r: EditorAction)
        requires
            old(self)@.sheet.wf(),
        ensures
            final(self)@ == old(self)@.begun(),
            r@ == (if old(self)@.busy {
                Wish::Nothing
            } else {
                Wish::Copy
            }),
    {
        if self.busy {
            return EditorAction::Nothing;
        }
        self.busy = true;
        self.feedback = None;
        EditorAction::Copy
    }

    fn start_save_and_copy(&mut self) -> (r: EditorAction)
        requires
            old(self)@.sheet.wf(),
        ensures
            final(self)@ == old(self)@.begun(),
            r@ == (if old(self)@.busy {
                Wish::Nothing
            } else {
                Wish::SaveAndCopy {
                    target: old(self)@.path,
                    format: old(self)@.job_format(old(self)@.path),
                    quality: old(self)@.job_quality(),
                }
            }),
    {
        if self.busy {
            return EditorAction::Nothing;
        }
        self.busy = true;
        self.feedback = None;
        let target: String = self.path.clone();
        let format = format_for_path(target.as_str(), self.export_format);
        let quality: u8 = parse_quality(self.export_quality_text.as_str(), self.webp_quality);
        EditorAction::SaveAndCopy(SaveJob { target, format, quality })
    }

    /// Whether a button is shown.
    pub fn is_shown(&self, button: EditorButton) -> (r: bool)
        ensures
            r == self@.shows(button),
    {
        match button {
            EditorButton::ApplyCrop | EditorButton::CancelCrop => self.model.tool() == Tool::Crop,
            _ => true,
        }
    }

    /// Whether a button can be pressed.
    pub fn can_press(&self, button: EditorButton) -> (r: bool)
        requires
            self@.sheet.wf(),
        ensures
            r == self@.enables(button),
    {
        match button {
            EditorButton::Undo => self.model.can_undo(),
            EditorButton::Redo => self.model.can_redo(),
            EditorButton::Delete => self.model.selected().is_some(),
            EditorButton::ApplyCrop => self.model.pending_crop().is_some(),
            EditorButton::CancelCrop => true,
            EditorButton::Save | EditorButton::SaveAs | EditorButton::Copy
            | EditorButton::SaveAndCopy => !self.busy,
        }
    }

    /// The caption that is selected, and the size nearest to its own, while one
    /// is.
    pub fn caption(&self) -> (r: Option<(&str, TextSizeStop)>)
        requires
            self@.sheet.wf(),
        ensures
            match (r, selected_caption(self@.sheet)) {
                (Some((words, stop)), Some((text, size))) => words@ == text && stop
                    == self@.text_sizes.spec_nearest(size),
                (None, None) => true,
                _ => false,
            },
    {
        match self.model.selected_text() {
            Some((words, size)) => Some((words, self.text_sizes.nearest(size))),
            None => None,
        }
    }
}

/// The editor window's buttons.
#[derive(Debug, Clone, Copy, PartialEq, Eq, Structural)]
pub enum EditorButton {
    Undo,
    Redo,
    Delete,
    ApplyCrop,
    CancelCrop,
    Save,
    SaveAs,
    Copy,
    SaveAndCopy,
}

impl EditorButton {
    pub open spec fn spec_label(self) -> Seq<char> {
        match self {
            EditorButton::Undo => "Undo"@,
            EditorButton::Redo => "Redo"@,
            EditorButton::Delete => "Delete"@,
            EditorButton::ApplyCrop => "Apply Crop"@,
            EditorButton::CancelCrop => "Cancel Crop"@,
            EditorButton::Save => "Save"@,
            EditorButton::SaveAs => "Save As"@,
            EditorButton::Copy => "Copy"@,
            EditorButton::SaveAndCopy => "Save & Copy"@,
        }
    }

    pub fn label(self) -> (r: &'static str)
        ensures
            r@ == self.spec_label(),
    {
        match self {
            EditorButton::Undo => "Undo",
            EditorButton::Redo => "Redo",
            EditorButton::Delete => "Delete",
            EditorButton::ApplyCrop => "Apply Crop",
            EditorButton::CancelCrop => "Cancel Crop",
            EditorButton::Save => "Save",
            EditorButton::SaveAs => "Save As",
            EditorButton::Copy => "Copy",
            EditorButton::SaveAndCopy => "Save & Copy",
        }
    }

    /// Whether the button stands out: the live action of its row.
    pub fn is_primary(self) -> (r: bool)
        ensures
            r == (self is ApplyCrop || self is Save),
    {
        self == EditorButton::ApplyCrop || self == EditorButton::Save
    }

    pub open spec fn spec_message(self) -> Message {
        match self {
            EditorButton::Undo => Message::Undo,
            EditorButton::Redo => Message::Redo,
            EditorButton::Delete => Message::DeleteSelected,
            EditorButton::ApplyCrop => Message::ApplyCrop,
            EditorButton::CancelCrop => Message::CancelCrop,
            EditorButton::Save => Message::SavePressed,
            EditorButton::SaveAs => Message::SaveAsPressed,
            EditorButton::Copy => Message::CopyPressed,
            EditorButton::SaveAndCopy => Message::SaveAndCopyPressed,
        }
    }

    /// What pressing the button means.
    pub fn message(self) -> (r: Message)
        ensures
            r == self.spec_message(),
    {
        match self {
            EditorButton::Undo => Message::Undo,
            EditorButton::Redo => Message::Redo,
            EditorButton::Delete => Message::DeleteSelected,
            EditorButton::ApplyCrop => Message::ApplyCrop,
            EditorButton::CancelCrop => Message::CancelCrop,
            EditorButton::Save => Message::SavePressed,
            EditorButton::SaveAs => Message::SaveAsPressed,
            EditorButton::Copy => Message::CopyPressed,
            EditorButton::SaveAndCopy => Message::SaveAndCopyPressed,
        }
    }
}

impl Desk {
    /// The crop buttons go with the crop tool; the others are always there.
    pub open spec fn shows(self, button: EditorButton) -> bool {
        match button {
            EditorButton::ApplyCrop => self.sheet.tool is Crop,
            EditorButton::CancelCrop => self.sheet.tool is Crop,
            _ => true,
        }
    }

    pub open spec fn enables(self, button: EditorButton) -> bool {
        match button {
            EditorButton::Undo => self.sheet.undo.len() > 0,
            EditorButton::Redo => self.sheet.redo.len() > 0,
            EditorButton::Delete => self.sheet.selected is Some,
            EditorButton::ApplyCrop => self.sheet.pending_crop is Some,
            EditorButton::CancelCrop => true,
            _ => !self.busy,
        }
    }
}

/// A button that cannot be pressed would do nothing: what it stands for leaves
/// the session as it is and asks for no work.
pub proof fn law_disabled_buttons_do_nothing(d: Desk, button: EditorButton)
    requires
        !d.enables(button),
    ensures
        d.after(button.spec_message()).sheet == d.sheet,
        d.answer(button.spec_message()) is Nothing || d.answer(
            button.spec_message(),
        ) is RefreshCanvas,
{
}

/// One piece of work at a time: while one is going on, nothing that is pressed
/// begins another, and nothing changes but what an empty path is answered.
pub proof fn law_one_save_at_a_time(d: Desk)
    requires
        d.busy,
    ensures
        d.answer(Message::SavePressed) is Nothing,
        d.answer(Message::SaveAsPressed) is Nothing,
        d.answer(Message::CopyPressed) is Nothing,
        d.answer(Message::SaveAndCopyPressed) is Nothing,
        d.after(Message::SavePressed) == d,
        d.after(Message::CopyPressed) == d,
        d.after(Message::SaveAndCopyPressed) == d,
{
}

/// However work ends, the next can begin, and the user is told.
pub proof fn law_work_ends(
    d: Desk,
    saved: Result<String, String>,
    copied: Result<(), String>,
)
    ensures
        !d.after(Message::SaveFinished(saved)).busy,
        !d.after(Message::CopyFinished(copied)).busy,
        !d.after(Message::SaveAndCopyFinished(saved)).busy,
        d.after(Message::SaveFinished(saved)).feedback is Some,
        d.after(Message::CopyFinished(copied)).feedback is Some,
        d.after(Message::SaveAndCopyFinished(saved)).feedback is Some,
{
    lemma_save_ends(d, saved);
    lemma_copy_ends(d, copied);
    lemma_save_and_copy_ends(d, saved);
}

proof fn lemma_save_ends(d: Desk, saved: Result<String, String>)
    ensures
        !d.after(Message::SaveFinished(saved)).busy,
        d.after(Message::SaveFinished(saved)).feedback is Some,
{
}

proof fn lemma_copy_ends(d: Desk, copied: Result<(), String>)
    ensures
        !d.after(Message::CopyFinished(copied)).busy,
        d.after(Message::CopyFinished(copied)).feedback is Some,
{
}

proof fn lemma_save_and_copy_ends(d: Desk, saved: Result<String, String>)
    ensures
        !d.after(Message::SaveAndCopyFinished(saved)).busy,
        d.after(Message::SaveAndCopyFinished(saved)).feedback is Some,
{
}

/// Saving and copying leave the session as it is.
pub proof fn law_saving_changes_no_annotation(
    d: Desk,
    saved: Result<String, String>,
    copied: Result<(), String>,
)
    ensures
        d.after(Message::SavePressed).sheet == d.sheet,
        d.after(Message::SaveAsPressed).sheet == d.sheet,
        d.after(Message::CopyPressed).sheet == d.sheet,
        d.after(Message::SaveAndCopyPressed).sheet == d.sheet,
        d.after(Message::SaveFinished(saved)).sheet == d.sheet,
        d.after(Message::CopyFinished(copied)).sheet == d.sheet,
        d.after(Message::SaveAndCopyFinished(saved)).sheet == d.sheet,
{
    lemma_beginnings(d);
    lemma_endings(d, saved, copied);
}

proof fn lemma_beginnings(d: Desk)
    ensures
        d.after(Message::SavePressed).sheet == d.sheet,
        d.after(Message::SaveAsPressed).sheet == d.sheet,
        d.after(Message::CopyPressed).sheet == d.sheet,
        d.after(Message::SaveAndCopyPressed).sheet == d.sheet,
{
    assert(d.begun().sheet == d.sheet);
}

proof fn lemma_endings(d: Desk, saved: Result<String, String>, copied: Result<(), String>)
    ensures
        d.after(Message::SaveFinished(saved)).sheet == d.sheet,
        d.after(Message::CopyFinished(copied)).sheet == d.sheet,
        d.after(Message::SaveAndCopyFinished(saved)).sheet == d.sheet,
{
}

} // verus!
