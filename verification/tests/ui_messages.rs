use fass_backup::index::{update_file_info, BackupMetadata};
use fass_backup::record::FileInfo;
use fass_backup::scheduler::BackupSettings;
use fass_backup::ui::{ui, Message, Page, Request, UiState};

fn record(path: &str) -> FileInfo {
    FileInfo {
        original_path: path.to_string(),
        backup_path: format!("/bk{}", path),
        file_type: "txt".to_string(),
        hash: "h".to_string(),
        auto_backup: false,
        backup_interval: 0,
        backup_frequency: String::new(),
    }
}

fn fresh() -> (UiState, BackupMetadata) {
    (
        UiState::new(BackupSettings::default()),
        update_file_info(vec![record("/a.txt"), record("/b.txt")]),
    )
}

#[test]
fn interface_opens_on_the_menu() {
    let state = UiState::new(BackupSettings { auto_backup_enabled: true, interval_minutes: 15 });
    assert_eq!(state.current_page, Page::Menu);
    assert_eq!(state.selected_file, None);
    assert_eq!(state.interval_input, "15");
    assert!(state.settings.auto_backup_enabled);
}

#[test]
fn navigation_changes_the_page() {
    let (mut state, mut index) = fresh();
    assert_eq!(ui(&mut state, &mut index, Message::ToEdit), Request::Nothing);
    assert_eq!(state.current_page, Page::Edit);
    assert_eq!(ui(&mut state, &mut index, Message::ToSettings), Request::Nothing);
    assert_eq!(state.current_page, Page::Settings);
    assert_eq!(ui(&mut state, &mut index, Message::ToUpload), Request::PickFolderAndBackup);
    assert_eq!(state.current_page, Page::Upload);
    state.selected_file = Some("/a.txt".to_string());
    assert_eq!(ui(&mut state, &mut index, Message::ToMenu), Request::Nothing);
    assert_eq!(state.current_page, Page::Menu);
    assert_eq!(state.selected_file, None);
}

#[test]
fn selecting_twice_drops_the_selection() {
    let (mut state, mut index) = fresh();
    ui(&mut state, &mut index, Message::SelectFile("/a.txt".to_string()));
    assert_eq!(state.selected_file, Some("/a.txt".to_string()));
    ui(&mut state, &mut index, Message::SelectFile("/b.txt".to_string()));
    assert_eq!(state.selected_file, Some("/b.txt".to_string()));
    ui(&mut state, &mut index, Message::SelectFile("/b.txt".to_string()));
    assert_eq!(state.selected_file, None);
}

#[test]
fn delete_removes_the_record_and_asks_for_the_copy_to_go() {
    let (mut state, mut index) = fresh();
    ui(&mut state, &mut index, Message::SelectFile("/a.txt".to_string()));
    assert_eq!(
        ui(&mut state, &mut index, Message::DeleteFile),
        Request::DeleteBackup { backup_path: "/bk/a.txt".to_string() }
    );
    assert_eq!(state.selected_file, None);
    assert_eq!(index.records(), vec![record("/b.txt")]);
}

#[test]
fn delete_without_a_known_selection_does_nothing() {
    let (mut state, mut index) = fresh();
    assert_eq!(ui(&mut state, &mut index, Message::DeleteFile), Request::Nothing);
    ui(&mut state, &mut index, Message::SelectFile("/gone.txt".to_string()));
    assert_eq!(ui(&mut state, &mut index, Message::DeleteFile), Request::Nothing);
    assert_eq!(state.selected_file, None);
    assert_eq!(index.len(), 2);
}

#[test]
fn restore_copies_the_backup_back() {
    let (mut state, mut index) = fresh();
    assert_eq!(ui(&mut state, &mut index, Message::Restore), Request::Nothing);
    ui(&mut state, &mut index, Message::SelectFile("/b.txt".to_string()));
    assert_eq!(
        ui(&mut state, &mut index, Message::Restore),
        Request::Restore { from: "/bk/b.txt".to_string(), to: "/b.txt".to_string() }
    );
    assert_eq!(state.selected_file, Some("/b.txt".to_string()));
    assert_eq!(index.len(), 2);
}

#[test]
fn settings_are_saved_only_with_a_valid_interval() {
    let (mut state, mut index) = fresh();
    ui(&mut state, &mut index, Message::ToggleAutoBackup(true));
    assert!(state.settings.auto_backup_enabled);
    ui(&mut state, &mut index, Message::IntervalInputChanged("15".to_string()));
    assert_eq!(state.interval_input, "15");
    assert_eq!(state.settings.interval_minutes, 60);
    assert_eq!(
        ui(&mut state, &mut index, Message::SaveSettings),
        Request::SaveSettings {
            settings: BackupSettings { auto_backup_enabled: true, interval_minutes: 15 }
        }
    );
    assert_eq!(state.settings.interval_minutes, 15);
    for bad in ["0", "", "abc", "-3", " 7", "99999999999"] {
        ui(&mut state, &mut index, Message::IntervalInputChanged(bad.to_string()));
        assert_eq!(ui(&mut state, &mut index, Message::SaveSettings), Request::Nothing);
        assert_eq!(state.settings.interval_minutes, 15);
    }
}

#[test]
fn other_messages_are_handed_to_the_host() {
    let (mut state, mut index) = fresh();
    let before = UiState::new(BackupSettings::default());
    for (message, request) in [
        (Message::UpdateNow, Request::BackupNow),
        (Message::Exit, Request::StartDaemonAndClose),
        (Message::OpenFolder, Request::OpenBackupFolder),
        (Message::RefreshFiles, Request::ReloadFiles),
        (Message::StartDaemon, Request::StartDaemon),
        (Message::StopDaemon, Request::StopDaemon),
        (Message::RestartDaemon, Request::RestartDaemon),
        (Message::RefreshDaemonStatus, Request::RefreshDaemonStatus),
    ] {
        assert_eq!(ui(&mut state, &mut index, message), request);
        assert_eq!(state, before);
        assert_eq!(index.len(), 2);
    }
}
