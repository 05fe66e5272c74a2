//! The library view: its rows, what is being deleted or exported, and what the
//! user was last told.
use vstd::prelude::*;
use vstd::string::*;

use crate::history::{
    HistoryItem, OpenAction, format_bytes, label_of_path, name_or_path, open_action, size_label,
    spec_open_action,
};
use crate::paths::{same_path, same_path_as};

verus! {

/// The formats that a recording can be exported to.
#[derive(Debug, Clone, Copy, PartialEq, Eq, Structural)]
pub enum AnimatedFormat {
    Gif,
    AnimatedWebp,
}

/// What happens to the library.
#[derive(Debug)]
pub enum Message {
    Refresh,
    OpenRequested(String),
    CopyRequested(String),
    /// The copy that was asked for went through, or not.
    CopyFinished(Result<(), String>),
    ShowInFolderRequested(String),
    DeleteRequested(String),
    DeleteConfirmed(String),
    DeleteCancelled,
    /// The deletion that was asked for went through, or not.
    DeleteFinished(String, Result<(), String>),
    ExportRequested(String, AnimatedFormat),
    ExportFinished(String, Result<(String, u64), String>),
}

/// What the library asks for.
#[derive(Debug)]
pub enum Action {
    Nothing,
    /// Load the library anew.
    Reload,
    Edit(String),
    OpenDir(String),
    /// Copy the screenshot at this path.
    Copy(String),
    /// Delete the file, and the one saved beside it.
    Delete { path: String, sidecar: Option<String> },
    Export { source: String, format: AnimatedFormat },
}

/// What the library asks for, apart from how it is held.
pub enum Request {
    Nothing,
    Reload,
    Edit(Seq<char>),
    OpenDir(Seq<char>),
    Copy(Seq<char>),
    Delete { path: Seq<char>, sidecar: Option<Seq<char>> },
    Export { source: Seq<char>, format: AnimatedFormat },
}

/// A path that may be there, apart from how it is held.
pub open spec fn path_text(path: Option<String>) -> Option<Seq<char>> {
    match path {
        Some(p) => Some(p@),
        None => None,
    }
}

impl View for Action {
    type V = Request;

    open spec fn view(&self) -> Request {
        match *self {
            Action::Nothing => Request::Nothing,
            Action::Reload => Request::Reload,
            Action::Edit(path) => Request::Edit(path@),
            Action::OpenDir(path) => Request::OpenDir(path@),
            Action::Copy(path) => Request::Copy(path@),
            Action::Delete { path, sidecar } => Request::Delete {
                path: path@,
                sidecar: path_text(sidecar),
            },
            Action::Export { source, format } => Request::Export { source: source@, format },
        }
    }
}

/// What the user was told: a success or a failure.
pub type Told = Result<Seq<char>, Seq<char>>;

/// A feedback line, apart from how it is held.
pub open spec fn told(feedback: Option<Result<String, String>>) -> Option<Told> {
    match feedback {
        Some(Ok(text)) => Some(Ok(text@)),
        Some(Err(text)) => Some(Err(text@)),
        None => None,
    }
}

/// Everything about the library view.
pub struct Library {
    pub items: Seq<HistoryItem>,
    pub pending_delete: Option<Seq<char>>,
    pub exporting: Option<Seq<char>>,
    pub feedback: Option<Told>,
}

/// The first item at a path, from item `i` on.
pub open spec fn item_at(items: Seq<HistoryItem>, path: Seq<char>, i: int) -> Option<HistoryItem>
    decreases items.len() - i,
{
    if i < 0 || i >= items.len() {
        None
    } else if same_path_as(items[i].spec_path()@, path) {
        Some(items[i])
    } else {
        item_at(items, path, i + 1)
    }
}

/// The items without those at a path.
pub open spec fn without_path(items: Seq<HistoryItem>, path: Seq<char>) -> Seq<HistoryItem>
    decreases items.len(),
{
    if items.len() == 0 {
        Seq::empty()
    } else if same_path_as(items.last().spec_path()@, path) {
        without_path(items.drop_last(), path)
    } else {
        without_path(items.drop_last(), path).push(items.last())
    }
}

/// What is told of a finished export.
pub open spec fn export_told(out: Seq<char>, bytes: u64) -> Seq<char> {
    "Exported "@ + name_or_path(out) + " ("@ + size_label(bytes) + ")"@
}

impl Library {
    pub open spec fn fresh(items: Seq<HistoryItem>) -> Library {
        Library { items, pending_delete: None, exporting: None, feedback: None }
    }

    /// The library loaded anew: an export that runs goes on.
    pub open spec fn reloaded(self, items: Seq<HistoryItem>) -> Library {
        Library { exporting: self.exporting, ..Library::fresh(items) }
    }

    pub open spec fn find(self, path: Seq<char>) -> Option<HistoryItem> {
        item_at(self.items, path, 0)
    }

    /// The library after a message.
    pub open spec fn after(self, message: Message) -> Library {
        match message {
            Message::Refresh => self,
            Message::OpenRequested(_) => self,
            Message::CopyRequested(path) => match self.find(path@) {
                Some(HistoryItem::Recording(_)) => Library {
                    feedback: Some(Err("Recordings can't be copied to the clipboard"@)),
                    ..self
                },
                _ => self,
            },
            Message::CopyFinished(result) => Library {
                feedback: Some(
                    match result {
                        Ok(_) => Ok("Copied to clipboard"@),
                        Err(why) => Err(why@),
                    },
                ),
                ..self
            },
            Message::ShowInFolderRequested(_) => self,
            Message::DeleteRequested(path) => Library { pending_delete: Some(path@), ..self },
            Message::DeleteConfirmed(_) => Library { pending_delete: None, ..self },
            Message::DeleteCancelled => Library { pending_delete: None, ..self },
            Message::DeleteFinished(path, result) => match result {
                Ok(_) => Library {
                    items: without_path(self.items, path@),
                    feedback: Some(Ok("Deleted"@)),
                    ..self
                },
                Err(why) => Library { feedback: Some(Err(why@)), ..self },
            },
            Message::ExportRequested(path, format) => if self.exporting is Some {
                self
            } else {
                Library { exporting: Some(path@), ..self }
            },
            Message::ExportFinished(path, result) => Library {
                exporting: if is_path(self.exporting, path@) {
                    None
                } else {
                    self.exporting
                },
                feedback: Some(
                    match result {
                        Ok((out, bytes)) => Ok(export_told(out@, bytes)),
                        Err(why) => Err(why@),
                    },
                ),
                ..self
            },
        }
    }

    /// What a message asks for.
    pub open spec fn answer(self, message: Message) -> Request {
        match message {
            Message::Refresh => Request::Reload,
            Message::OpenRequested(path) => match self.find(path@) {
                Some(item) => match spec_open_action(item) {
                    OpenAction::Edit(p) => Request::Edit(p@),
                    OpenAction::OpenDir(p) => Request::OpenDir(p@),
                },
                None => Request::Nothing,
            },
            Message::CopyRequested(path) => match self.find(path@) {
                Some(HistoryItem::Screenshot(_)) => Request::Copy(path@),
                _ => Request::Nothing,
            },
            Message::ShowInFolderRequested(path) => Request::OpenDir(path@),
            Message::DeleteConfirmed(path) => match self.find(path@) {
                Some(HistoryItem::Screenshot(entry)) => Request::Delete {
                    path: path@,
                    sidecar: path_text(entry.png_sidecar),
                },
                Some(HistoryItem::Recording(_)) => Request::Delete { path: path@, sidecar: None },
                None => Request::Nothing,
            },
            Message::ExportRequested(path, format) => if self.exporting is Some {
                Request::Nothing
            } else {
                Request::Export { source: path@, format }
            },
            _ => Request::Nothing,
        }
    }
}

/// The library view's state.
#[derive(Debug)]
pub struct HistoryModel {
    items: Vec<HistoryItem>,
    pending_delete: Option<String>,
    exporting: Option<String>,
    feedback: Option<Result<String, String>>,
}

impl View for HistoryModel {
    type V = Library;

    closed spec fn view(&self) -> Library {
        Library {
            items: self.items@,
            pending_delete: path_text(self.pending_delete),
            exporting: path_text(self.exporting),
            feedback: told(self.feedback),
        }
    }
}

impl HistoryModel {
    /// The view on a library just loaded.
    pub fn load(items: Vec<HistoryItem>) -> (r: HistoryModel)
        ensures
            r@ == Library::fresh(items@),
    {
        HistoryModel { items, pending_delete: None, exporting: None, feedback: None }
    }

    /// The view on a library just loaded, while a recording is being exported
    /// or none is.
    pub fn load_while(items: Vec<HistoryItem>, exporting: Option<String>) -> (r: HistoryModel)
        ensures
            r@ == (Library { exporting: path_text(exporting), ..Library::fresh(items@) }),
    {
        HistoryModel { items, pending_delete: None, exporting, feedback: None }
    }

    /// Takes in the library loaded anew. An export that runs goes on, and still
    /// keeps a second one from starting.
    pub fn reload(&mut self, items: Vec<HistoryItem>)
        ensures
            final(self)@ == old(self)@.reloaded(items@),
    {
        self.items = items;
        self.pending_delete = None;
        self.feedback = None;
    }

    pub fn items(&self) -> (r: &Vec<HistoryItem>)
        ensures
            r@ == self@.items,
    {
        &self.items
    }

    pub fn pending_delete(&self) -> (r: Option<&str>)
        ensures
            match (r, self@.pending_delete) {
                (Some(a), Some(b)) => a@ == b,
                (None, None) => true,
                _ => false,
            },
    {
        match &self.pending_delete {
            Some(path) => Some(path.as_str()),
            None => None,
        }
    }

    pub fn exporting(&self) -> (r: Option<&str>)
        ensures
            match (r, self@.exporting) {
                (Some(a), Some(b)) => a@ == b,
                (None, None) => true,
                _ => false,
            },
    {
        match &self.exporting {
            Some(path) => Some(path.as_str()),
            None => None,
        }
    }

    /// What the user was last told, and whether it was a success.
    pub fn feedback(&self) -> (r: Option<(bool, &str)>)
        ensures
            match (r, self@.feedback) {
                (Some((good, text)), Some(Ok(t))) => good && text@ == t,
                (Some((good, text)), Some(Err(t))) => !good && text@ == t,
                (None, None) => true,
                _ => false,
            },
    {
        match &self.feedback {
            Some(Ok(text)) => Some((true, text.as_str())),
            Some(Err(text)) => Some((false, text.as_str())),
            None => None,
        }
    }

    /// The item at a path.
    pub fn find(&self, path: &str) -> (r: Option<&HistoryItem>)
        ensures
            match (r, self@.find(path@)) {
                (Some(a), Some(b)) => *a == b,
                (None, None) => true,
                _ => false,
            },
    {
        let mut i: usize = 0;
        while i < self.items.len()
            invariant
                i <= self.items@.len(),
                item_at(self.items@, path@, 0) == item_at(self.items@, path@, i as int),
            decreases self.items@.len() - i,
        {
            if same_path(self.items[i].path().as_str(), path) {
                return Some(&self.items[i]);
            }
            i = i + 1;
        }
        None
    }

    fn remove_path(&mut self, path: &str)
        ensures
            final(self)@ == (Library {
                items: without_path(old(self)@.items, path@),
                ..old(self)@
            }),
    {
        let ghost all = self.items@;
        let mut kept: Vec<HistoryItem> = Vec::new();
        let n: usize = self.items.len();
        let mut i: usize = 0;
        assert(all.take(0) =~= Seq::<HistoryItem>::empty());
        while i < n
            invariant
                n == all.len(),
                i <= n,
                self.items@ == all.skip(i as int),
                self.pending_delete == old(self).pending_delete,
                self.exporting == old(self).exporting,
                self.feedback == old(self).feedback,
                kept@ == without_path(all.take(i as int), path@),
            decreases n - i,
        {
            let item = self.items.remove(0);
            proof {
                assert(item == all[i as int]);
                assert(all.take(i + 1).drop_last() =~= all.take(i as int));
                assert(all.take(i + 1).last() == item);
                assert(all.skip(i as int).remove(0) =~= all.skip(i + 1));
            }
            if !same_path(item.path().as_str(), path) {
                kept.push(item);
            }
            i = i + 1;
        }
        assert(all.take(n as int) =~= all);
        self.items = kept;
    }

    /// Takes one message in.
    pub fn update(&mut self, message: Message) -> (r: Action)
        ensures
            final(self)@ == old(self)@.after(message),
            r@ == old(self)@.answer(message),
    {
        match message {
            Message::Refresh => Action::Reload,
            Message::OpenRequested(path) => match self.find(path.as_str()) {
                Some(item) => match open_action(item) {
                    OpenAction::Edit(path) => Action::Edit(path),
                    OpenAction::OpenDir(path) => Action::OpenDir(path),
                },
                None => Action::Nothing,
            },
            Message::CopyRequested(path) => {
                let recording: Option<bool> = match self.find(path.as_str()) {
                    Some(item) => Some(item.is_recording()),
                    None => None,
                };
                match recording {
                    Some(true) => {
                        self.feedback =
                        Some(Err("Recordings can't be copied to the clipboard".to_owned()));
                        Action::Nothing
                    },
                    Some(false) => Action::Copy(path),
                    None => Action::Nothing,
                }
            },
            Message::CopyFinished(result) => {
                self.feedback =
                Some(
                    match result {
                        Ok(_) => Ok("Copied to clipboard".to_owned()),
                        Err(why) => Err(why),
                    },
                );
                Action::Nothing
            },
            Message::ShowInFolderRequested(path) => Action::OpenDir(path),
            Message::DeleteRequested(path) => {
                self.pending_delete = Some(path);
                Action::Nothing
            },
            Message::DeleteCancelled => {
                self.pending_delete = None;
                Action::Nothing
            },
            Message::DeleteConfirmed(path) => {
                let found: Option<Option<String>> = match self.find(path.as_str()) {
                    Some(HistoryItem::Screenshot(entry)) => Some(
                        match &entry.png_sidecar {
                            Some(sidecar) => Some(sidecar.clone()),
                            None => None,
                        },
                    ),
                    Some(HistoryItem::Recording(_)) => Some(None),
                    None => None,
                };
                self.pending_delete = None;
                match found {
                    Some(sidecar) => Action::Delete { path, sidecar },
                    None => Action::Nothing,
                }
            },
            Message::DeleteFinished(path, result) => {
                match result {
                    Ok(_) => {
                        self.remove_path(path.as_str());
                        self.feedback = Some(Ok("Deleted".to_owned()));
                    },
                    Err(why) => {
                        self.feedback = Some(Err(why));
                    },
                }
                Action::Nothing
            },
            Message::ExportRequested(path, format) => {
                if self.exporting.is_some() {
                    return Action::Nothing;
                }
                self.exporting = Some(path.clone());
                Action::Export { source: path, format }
            },
            Message::ExportFinished(path, result) => {
                let mine: bool = match &self.exporting {
                    Some(running) => same_path(running.as_str(), path.as_str()),
                    None => false,
                };
                if mine {
                    self.exporting = None;
                }
                self.feedback =
                Some(
                    match result {
                        Ok((out, bytes)) => {
                            let mut text: String = "Exported ".to_owned();
                            text.append(label_of_path(&out).as_str());
                            text.append(" (");
                            text.append(format_bytes(bytes).as_str());
                            text.append(")");
                            Ok(text)
                        },
                        Err(why) => Err(why),
                    },
                );
                Action::Nothing
            },
        }
    }
}

/// Nothing is deleted that was not confirmed: only a confirmation asks for a
/// deletion, and only of an item that is there.
pub proof fn law_deleting_takes_a_confirmation(l: Library, message: Message)
    requires
        l.answer(message) is Delete,
    ensures
        message is DeleteConfirmed,
        l.find((message->DeleteConfirmed_0)@) is Some,
        l.answer(message)->Delete_path == (message->DeleteConfirmed_0)@,
{
}

/// After a deletion nothing is left at the path, and everything else is.
pub proof fn law_deleted_items_are_gone(items: Seq<HistoryItem>, path: Seq<char>)
    ensures
        forall|i: int|
            0 <= i < without_path(items, path).len() ==> !same_path_as(
                (#[trigger] without_path(items, path)[i]).spec_path()@,
                path,
            ),
        forall|item: HistoryItem|
            !same_path_as(item.spec_path()@, path) ==> (items.contains(item)
                <==> #[trigger] without_path(items, path).contains(item)),
    decreases items.len(),
{
    if items.len() > 0 {
        let front = items.drop_last();
        law_deleted_items_are_gone(front, path);
        let kept = without_path(front, path);
        let out = without_path(items, path);
        assert(items =~= front.push(items.last()));
        assert forall|item: HistoryItem| !same_path_as(item.spec_path()@, path) implies (
        items.contains(item) <==> #[trigger] out.contains(item)) by {
            if items.contains(item) {
                let i = choose|i: int| 0 <= i < items.len() && items[i] == item;
                if i < front.len() {
                    assert(front[i] == item);
                    assert(front.contains(item));
                    assert(kept.contains(item));
                    let k = choose|k: int| 0 <= k < kept.len() && kept[k] == item;
                    assert(out[k] == item);
                } else {
                    assert(out[kept.len() as int] == item);
                }
            }
            if out.contains(item) {
                let k = choose|k: int| 0 <= k < out.len() && out[k] == item;
                if k < kept.len() {
                    assert(kept[k] == item);
                    assert(kept.contains(item));
                    assert(front.contains(item));
                    let i = choose|i: int| 0 <= i < front.len() && front[i] == item;
                    assert(items[i] == item);
                } else {
                    assert(items[items.len() - 1] == item);
                }
            }
        }
    }
}

/// One export at a time: while one runs, a second is not begun, and the message
/// that it has ended is the only thing that makes room for the next. Loading
/// the library anew does not.
pub proof fn law_one_export_at_a_time(
    l: Library,
    path: String,
    format: AnimatedFormat,
    message: Message,
    items: Seq<HistoryItem>,
)
    requires
        l.exporting is Some,
    ensures
        l.answer(Message::ExportRequested(path, format)) is Nothing,
        l.after(Message::ExportRequested(path, format)) == l,
        l.reloaded(items).exporting == l.exporting,
        l.after(message).exporting == (match message {
            Message::ExportFinished(done, _) => if is_path(l.exporting, done@) {
                None
            } else {
                l.exporting
            },
            _ => l.exporting,
        }),
{
}

/// What is left to do of a deletion once its file is gone, or is not.
#[derive(Debug)]
pub enum DeletionStep {
    /// Tell how it went.
    Report(Result<(), String>),
    /// Remove the file saved beside it, and tell that the deletion went
    /// through, whatever becomes of that file.
    RemoveSidecar(String),
}

/// What is left to do of a deletion, apart from how it is held.
pub enum DeletionRest {
    Report(Result<(), Seq<char>>),
    RemoveSidecar(Seq<char>),
}

impl View for DeletionStep {
    type V = DeletionRest;

    open spec fn view(&self) -> DeletionRest {
        match *self {
            DeletionStep::Report(Ok(_)) => DeletionRest::Report(Ok(())),
            DeletionStep::Report(Err(why)) => DeletionRest::Report(Err(why@)),
            DeletionStep::RemoveSidecar(path) => DeletionRest::RemoveSidecar(path@),
        }
    }
}

/// What is left to do of a deletion: a file that could not be removed is told
/// and the one beside it stays; after one that was removed, the one beside it
/// goes too, if there is any.
pub open spec fn spec_deletion_step(
    removed: Result<(), String>,
    sidecar: Option<String>,
) -> DeletionRest {
    match (removed, sidecar) {
        (Err(why), _) => DeletionRest::Report(Err(why@)),
        (Ok(_), Some(path)) => DeletionRest::RemoveSidecar(path@),
        (Ok(_), None) => DeletionRest::Report(Ok(())),
    }
}

/// What is left to do of a deletion once its file has been removed, or could
/// not be.
pub fn deletion_step(removed: Result<(), String>, sidecar: Option<String>) -> (r: DeletionStep)
    ensures
        r@ == spec_deletion_step(removed, sidecar),
{
    match removed {
        Err(why) => DeletionStep::Report(Err(why)),
        Ok(_) => match sidecar {
            Some(path) => DeletionStep::RemoveSidecar(path),
            None => DeletionStep::Report(Ok(())),
        },
    }
}

/// Never a file beside one that is still there: the sidecar is removed only
/// after its file, and only a file that stays is told as a failure.
pub proof fn law_sidecar_goes_after_its_file(
    removed: Result<(), String>,
    sidecar: Option<String>,
)
    ensures
        spec_deletion_step(removed, sidecar) is RemoveSidecar ==> removed is Ok && sidecar is Some,
        (spec_deletion_step(removed, sidecar) matches DeletionRest::Report(Err(_))) <==> removed
            is Err,
{
}

/// What a button in a row does.
#[derive(Debug, Clone, Copy, PartialEq, Eq, Structural)]
pub enum RowAction {
    Open,
    Copy,
    ShowInFolder,
    Export(AnimatedFormat),
    Delete,
    ConfirmDelete,
    CancelDelete,
}

/// A button in a row.
#[derive(Debug, Clone, Copy, PartialEq, Eq, Structural)]
pub struct RowButton {
    pub action: RowAction,
    pub enabled: bool,
    /// Whether the row's item is being exported.
    pub exporting: bool,
    /// Whether opening the item shows its folder.
    pub recording: bool,
}

impl RowButton {
    pub open spec fn spec_label(self) -> Seq<char> {
        match self.action {
            RowAction::Open => if self.recording {
                "Show in folder"@
            } else {
                "Open"@
            },
            RowAction::Copy => "Copy"@,
            RowAction::ShowInFolder => "Show in folder"@,
            RowAction::Export(format) => if self.exporting {
                "Exporting…"@
            } else if format is Gif {
                "Export GIF"@
            } else {
                "Export WebP"@
            },
            RowAction::Delete => "Delete"@,
            RowAction::ConfirmDelete => "Delete"@,
            RowAction::CancelDelete => "Cancel"@,
        }
    }

    pub fn label(self) -> (r: &'static str)
        ensures
            r@ == self.spec_label(),
    {
        match self.action {
            RowAction::Open => if self.recording {
                "Show in folder"
            } else {
                "Open"
            },
            RowAction::Copy => "Copy",
            RowAction::ShowInFolder => "Show in folder",
            RowAction::Export(format) => if self.exporting {
                "Exporting…"
            } else if format == AnimatedFormat::Gif {
                "Export GIF"
            } else {
                "Export WebP"
            },
            RowAction::Delete => "Delete",
            RowAction::ConfirmDelete => "Delete",
            RowAction::CancelDelete => "Cancel",
        }
    }
}

/// The buttons of a row: to confirm or cancel while its deletion is pending;
/// else those for its kind of item, the exports disabled while one of it runs.
pub open spec fn row_buttons(recording: bool, deleting: bool, exporting: bool) -> Seq<RowButton> {
    let b = |action: RowAction, enabled: bool|
        RowButton { action, enabled, exporting, recording };
    if deleting {
        seq![b(RowAction::ConfirmDelete, true), b(RowAction::CancelDelete, true)]
    } else if recording {
        seq![
            b(RowAction::Open, true),
            b(RowAction::Export(AnimatedFormat::Gif), !exporting),
            b(RowAction::Export(AnimatedFormat::AnimatedWebp), !exporting),
            b(RowAction::Delete, true),
        ]
    } else {
        seq![
            b(RowAction::Open, true),
            b(RowAction::Copy, true),
            b(RowAction::ShowInFolder, true),
            b(RowAction::Delete, true),
        ]
    }
}

/// Whether a path is the one that is named, if any is.
pub open spec fn is_path(named: Option<Seq<char>>, path: Seq<char>) -> bool {
    match named {
        Some(n) => same_path_as(n, path),
        None => false,
    }
}

impl Library {
    /// The buttons of an item's row.
    pub open spec fn row_of(self, item: HistoryItem) -> Seq<RowButton> {
        row_buttons(
            item is Recording,
            is_path(self.pending_delete, item.spec_path()@),
            is_path(self.exporting, item.spec_path()@),
        )
    }
}

impl HistoryModel {
    /// The buttons of an item's row.
    pub fn action_row(&self, item: &HistoryItem) -> (r: Vec<RowButton>)
        ensures
            r@ == self@.row_of(*item),
    {
        let recording: bool = item.is_recording();
        let deleting: bool = match &self.pending_delete {
            Some(path) => same_path(path.as_str(), item.path().as_str()),
            None => false,
        };
        let exporting: bool = match &self.exporting {
            Some(path) => same_path(path.as_str(), item.path().as_str()),
            None => false,
        };
        let mut out: Vec<RowButton> = Vec::new();
        if deleting {
            out.push(RowButton { action: RowAction::ConfirmDelete, enabled: true, exporting, recording });
            out.push(RowButton { action: RowAction::CancelDelete, enabled: true, exporting, recording });
        } else {
            out.push(RowButton { action: RowAction::Open, enabled: true, exporting, recording });
            if recording {
                out.push(
                    RowButton {
                        action: RowAction::Export(AnimatedFormat::Gif),
                        enabled: !exporting,
                        exporting,
                        recording,
                    },
                );
                out.push(
                    RowButton {
                        action: RowAction::Export(AnimatedFormat::AnimatedWebp),
                        enabled: !exporting,
                        exporting,
                        recording,
                    },
                );
            } else {
                out.push(RowButton { action: RowAction::Copy, enabled: true, exporting, recording });
                out.push(
                    RowButton { action: RowAction::ShowInFolder, enabled: true, exporting, recording },
                );
            }
            out.push(RowButton { action: RowAction::Delete, enabled: true, exporting, recording });
        }
        assert(out@ =~= row_buttons(recording, deleting, exporting));
        out
    }

    /// What stands under an item's name: its kind and its size.
    pub fn row_meta(&self, item: &HistoryItem) -> (r: String)
        ensures
            r@ == meta_of(*item),
    {
        let mut out: String = match item {
            HistoryItem::Screenshot(entry) => entry.kind.clone(),
            HistoryItem::Recording(_) => "recording".to_owned(),
        };
        out.append(" · ");
        out.append(format_bytes(item.bytes()).as_str());
        out
    }

    /// Whether the note on the size of exports is shown: while there is a
    /// recording to export.
    pub fn shows_export_note(&self) -> (r: bool)
        ensures
            r == exists|i: int|
                0 <= i < self@.items.len() && (#[trigger] self@.items[i]) is Recording,
    {
        let mut i: usize = 0;
        while i < self.items.len()
            invariant
                i <= self.items@.len(),
                forall|k: int| 0 <= k < i ==> !((#[trigger] self.items@[k]) is Recording),
            decreases self.items@.len() - i,
        {
            if self.items[i].is_recording() {
                return true;
            }
            i = i + 1;
        }
        false
    }
}

/// What stands under an item's name.
pub open spec fn meta_of(item: HistoryItem) -> Seq<char> {
    item_kind(item) + " · "@ + size_label(item.spec_bytes())
}

/// What kind of capture an item is.
pub open spec fn item_kind(item: HistoryItem) -> Seq<char> {
    match item {
        HistoryItem::Screenshot(entry) => entry.kind@,
        HistoryItem::Recording(_) => "recording"@,
    }
}

} // verus!
