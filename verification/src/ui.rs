//! What the user interface decides: how a message from the user changes
//! what is shown, and what it asks of the backup engine and the daemon.
//!
//! Drawing the pages and carrying out the requests is left to the host.

use crate::decimal::{decimal_digits, decimal_text, parse_minutes, parse_minutes_spec};
use crate::index::{has_path, lookup, place_of, BackupMetadata};
use crate::record::FileInfoView;
use crate::scheduler::BackupSettings;
use crate::text::text_of;
use vstd::prelude::*;

verus! {

/// The page on show.
#[derive(Debug, Clone, Copy, PartialEq, Eq, Structural)]
pub enum Page {
    Menu,
    Edit,
    Upload,
    Settings,
}

/// What the interface remembers between messages: the page on show, the
/// file picked in the list, the settings as edited, and the text in the
/// interval field.
#[derive(Debug, PartialEq, Eq)]
pub struct UiState {
    pub current_page: Page,
    pub selected_file: Option<String>,
    pub settings: BackupSettings,
    pub interval_input: String,
}

pub struct UiStateView {
    pub current_page: Page,
    pub selected_file: Option<Seq<char>>,
    pub settings: BackupSettings,
    pub interval_input: Seq<char>,
}

impl View for UiState {
    type V = UiStateView;

    open spec fn view(&self) -> UiStateView {
        UiStateView {
            current_page: self.current_page,
            selected_file: text_of(self.selected_file),
            settings: self.settings,
            interval_input: self.interval_input@,
        }
    }
}

/// A message from the user.
#[derive(Debug, PartialEq, Eq)]
pub enum Message {
    ToUpload,
    ToEdit,
    ToMenu,
    ToSettings,
    Exit,
    UpdateNow,
    SelectFile(String),
    DeleteFile,
    OpenFolder,
    Restore,
    RefreshFiles,
    ToggleAutoBackup(bool),
    IntervalInputChanged(String),
    SaveSettings,
    StartDaemon,
    StopDaemon,
    RestartDaemon,
    RefreshDaemonStatus,
}

pub enum MessageView {
    ToUpload,
    ToEdit,
    ToMenu,
    ToSettings,
    Exit,
    UpdateNow,
    SelectFile(Seq<char>),
    DeleteFile,
    OpenFolder,
    Restore,
    RefreshFiles,
    ToggleAutoBackup(bool),
    IntervalInputChanged(Seq<char>),
    SaveSettings,
    StartDaemon,
    StopDaemon,
    RestartDaemon,
    RefreshDaemonStatus,
}

impl View for Message {
    type V = MessageView;

    open spec fn view(&self) -> MessageView {
        match self {
            Message::ToUpload => MessageView::ToUpload,
            Message::ToEdit => MessageView::ToEdit,
            Message::ToMenu => MessageView::ToMenu,
            Message::ToSettings => MessageView::ToSettings,
            Message::Exit => MessageView::Exit,
            Message::UpdateNow => MessageView::UpdateNow,
            Message::SelectFile(path) => MessageView::SelectFile(path@),
            Message::DeleteFile => MessageView::DeleteFile,
            Message::OpenFolder => MessageView::OpenFolder,
            Message::Restore => MessageView::Restore,
            Message::RefreshFiles => MessageView::RefreshFiles,
            Message::ToggleAutoBackup(on) => MessageView::ToggleAutoBackup(*on),
            Message::IntervalInputChanged(text) => MessageView::IntervalInputChanged(text@),
            Message::SaveSettings => MessageView::SaveSettings,
            Message::StartDaemon => MessageView::StartDaemon,
            Message::StopDaemon => MessageView::StopDaemon,
            Message::RestartDaemon => MessageView::RestartDaemon,
            Message::RefreshDaemonStatus => MessageView::RefreshDaemonStatus,
        }
    }
}

/// What the host is asked to do after a message.
///
/// `PickFolderAndBackup`: let the user pick a folder, sync it, and load the
/// index again. `DeleteBackup`: remove the backup copy at this path, then
/// save the index. `Restore`: copy the backup back to where the original
/// was, unless something is there. `SaveSettings`: save these settings, and
/// restart the daemon if it runs. `StartDaemonAndClose`: start the daemon and
/// close the window.
#[derive(Debug, PartialEq, Eq)]
pub enum Request {
    Nothing,
    PickFolderAndBackup,
    BackupNow,
    StartDaemonAndClose,
    DeleteBackup { backup_path: String },
    OpenBackupFolder,
    Restore { from: String, to: String },
    ReloadFiles,
    SaveSettings { settings: BackupSettings },
    StartDaemon,
    StopDaemon,
    RestartDaemon,
    RefreshDaemonStatus,
}

pub enum RequestView {
    Nothing,
    PickFolderAndBackup,
    BackupNow,
    StartDaemonAndClose,
    DeleteBackup { backup_path: Seq<char> },
    OpenBackupFolder,
    Restore { from: Seq<char>, to: Seq<char> },
    ReloadFiles,
    SaveSettings { settings: BackupSettings },
    StartDaemon,
    StopDaemon,
    RestartDaemon,
    RefreshDaemonStatus,
}

impl View for Request {
    type V = RequestView;

    open spec fn view(&self) -> RequestView {
        match self {
            Request::Nothing => RequestView::Nothing,
            Request::PickFolderAndBackup => RequestView::PickFolderAndBackup,
            Request::BackupNow => RequestView::BackupNow,
            Request::StartDaemonAndClose => RequestView::StartDaemonAndClose,
            Request::DeleteBackup { backup_path } => RequestView::DeleteBackup {
                backup_path: backup_path@,
            },
            Request::OpenBackupFolder => RequestView::OpenBackupFolder,
            Request::Restore { from, to } => RequestView::Restore { from: from@, to: to@ },
            Request::ReloadFiles => RequestView::ReloadFiles,
            Request::SaveSettings { settings } => RequestView::SaveSettings { settings: *settings },
            Request::StartDaemon => RequestView::StartDaemon,
            Request::StopDaemon => RequestView::StopDaemon,
            Request::RestartDaemon => RequestView::RestartDaemon,
            Request::RefreshDaemonStatus => RequestView::RefreshDaemonStatus,
        }
    }
}

/// The interval that the text in the interval field stands for: a number
/// of minutes above zero.
pub open spec fn entered_interval(text: Seq<char>) -> Option<nat> {
    match parse_minutes_spec(text) {
        Some(m) => if m > 0 {
            Some(m)
        } else {
            None
        },
        None => None,
    }
}

/// What the interface remembers after a message.
///
/// The page follows the navigation messages, and going back to the menu
/// drops the selection. Picking the selected file again drops the
/// selection; picking another selects it. Deleting drops the selection.
/// The switch and the interval field are taken as entered; saving takes the
/// interval from the field if it stands for a number of minutes above zero.
pub open spec fn state_after(state: UiStateView, message: MessageView) -> UiStateView {
    match message {
        MessageView::ToUpload => UiStateView { current_page: Page::Upload, ..state },
        MessageView::ToEdit => UiStateView { current_page: Page::Edit, ..state },
        MessageView::ToSettings => UiStateView { current_page: Page::Settings, ..state },
        MessageView::ToMenu => UiStateView {
            current_page: Page::Menu,
            selected_file: None,
            ..state
        },
        MessageView::SelectFile(path) => UiStateView {
            selected_file: if state.selected_file == Some(path) {
                None
            } else {
                Some(path)
            },
            ..state
        },
        MessageView::DeleteFile => UiStateView { selected_file: None, ..state },
        MessageView::ToggleAutoBackup(on) => UiStateView {
            settings: BackupSettings { auto_backup_enabled: on, ..state.settings },
            ..state
        },
        MessageView::IntervalInputChanged(text) => UiStateView { interval_input: text, ..state },
        MessageView::SaveSettings => match entered_interval(state.interval_input) {
            Some(m) => UiStateView {
                settings: BackupSettings { interval_minutes: m as u32, ..state.settings },
                ..state
            },
            None => state,
        },
        _ => state,
    }
}

/// The records after a message: deleting takes the record of the selected
/// file out, if there is one; no other message touches the records.
pub open spec fn entries_after(
    state: UiStateView,
    entries: Seq<FileInfoView>,
    message: MessageView,
) -> Seq<FileInfoView> {
    match message {
        MessageView::DeleteFile => match state.selected_file {
            Some(path) => if has_path(entries, path) {
                entries.remove(place_of(entries, path))
            } else {
                entries
            },
            None => entries,
        },
        _ => entries,
    }
}

/// What the host is asked to do after a message.
pub open spec fn request_after(
    state: UiStateView,
    entries: Seq<FileInfoView>,
    message: MessageView,
) -> RequestView {
    match message {
        MessageView::ToUpload => RequestView::PickFolderAndBackup,
        MessageView::UpdateNow => RequestView::BackupNow,
        MessageView::Exit => RequestView::StartDaemonAndClose,
        MessageView::DeleteFile => match state.selected_file {
            Some(path) => match lookup(entries, path) {
                Some(record) => RequestView::DeleteBackup { backup_path: record.backup_path },
                None => RequestView::Nothing,
            },
            None => RequestView::Nothing,
        },
        MessageView::OpenFolder => RequestView::OpenBackupFolder,
        MessageView::Restore => match state.selected_file {
            Some(path) => match lookup(entries, path) {
                Some(record) => RequestView::Restore {
                    from: record.backup_path,
                    to: record.original_path,
                },
                None => RequestView::Nothing,
            },
            None => RequestView::Nothing,
        },
        MessageView::RefreshFiles => RequestView::ReloadFiles,
        MessageView::SaveSettings => match entered_interval(state.interval_input) {
            Some(m) => RequestView::SaveSettings {
                settings: BackupSettings { interval_minutes: m as u32, ..state.settings },
            },
            None => RequestView::Nothing,
        },
        MessageView::StartDaemon => RequestView::StartDaemon,
        MessageView::StopDaemon => RequestView::StopDaemon,
        MessageView::RestartDaemon => RequestView::RestartDaemon,
        MessageView::RefreshDaemonStatus => RequestView::RefreshDaemonStatus,
        _ => RequestView::Nothing,
    }
}

impl UiState {
    /// The interface as it opens: the menu, nothing selected, the interval
    /// field showing the interval of the settings.
    pub fn new(settings: BackupSettings) -> (state: UiState)
        ensures
            state@ == (UiStateView {
                current_page: Page::Menu,
                selected_file: None,
                settings: settings,
                interval_input: decimal_digits(settings.interval_minutes as nat),
            }),
    {
        UiState {
            current_page: Page::Menu,
            selected_file: None,
            settings,
            interval_input: decimal_text(settings.interval_minutes as u64),
        }
    }
}

/// Handles one message from the user: updates what the interface
/// remembers and, for a deletion, the index, and says what the host is to
/// do.
pub fn ui(state: &mut UiState, index: &mut BackupMetadata, message: Message) -> (request: Request)
    requires
        old(index).wf(),
    ensures
        final(index).wf(),
        final(state)@ == state_after(old(state)@, message@),
        final(index).entries() == entries_after(old(state)@, old(index).entries(), message@),
        request@ == request_after(old(state)@, old(index).entries(), message@),
{
    match message {
        Message::ToUpload => {
            state.current_page = Page::Upload;
            Request::PickFolderAndBackup
        },
        Message::UpdateNow => Request::BackupNow,
        Message::ToEdit => {
            state.current_page = Page::Edit;
            Request::Nothing
        },
        Message::ToSettings => {
            state.current_page = Page::Settings;
            Request::Nothing
        },
        Message::ToMenu => {
            state.current_page = Page::Menu;
            state.selected_file = None;
            Request::Nothing
        },
        Message::Exit => Request::StartDaemonAndClose,
        Message::SelectFile(path) => {
            let same = match &state.selected_file {
                Some(current) => *current == path,
                None => false,
            };
            if same {
                state.selected_file = None;
            } else {
                state.selected_file = Some(path);
            }
            Request::Nothing
        },
        Message::DeleteFile => {
            let request = match &state.selected_file {
                Some(path) => match index.remove(path.as_str()) {
                    Some(record) => Request::DeleteBackup { backup_path: record.backup_path },
                    None => Request::Nothing,
                },
                None => Request::Nothing,
            };
            state.selected_file = None;
            request
        },
        Message::OpenFolder => Request::OpenBackupFolder,
        Message::Restore => match &state.selected_file {
            Some(path) => match index.get(path.as_str()) {
                Some(record) => Request::Restore {
                    from: record.backup_path.clone(),
                    to: record.original_path.clone(),
                },
                None => Request::Nothing,
            },
            None => Request::Nothing,
        },
        Message::RefreshFiles => Request::ReloadFiles,
        Message::ToggleAutoBackup(on) => {
            state.settings.auto_backup_enabled = on;
            Request::Nothing
        },
        Message::IntervalInputChanged(text) => {
            state.interval_input = text;
            Request::Nothing
        },
        Message::SaveSettings => match parse_minutes(state.interval_input.as_str()) {
            Some(minutes) => if minutes > 0 {
                state.settings.interval_minutes = minutes;
                Request::SaveSettings { settings: state.settings }
            } else {
                Request::Nothing
            },
            None => Request::Nothing,
        },
        Message::StartDaemon => Request::StartDaemon,
        Message::StopDaemon => Request::StopDaemon,
        Message::RestartDaemon => Request::RestartDaemon,
        Message::RefreshDaemonStatus => Request::RefreshDaemonStatus,
    }
}

} // verus!
