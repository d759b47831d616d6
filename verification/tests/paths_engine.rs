use fass_backup::engine::{
    backup, plan_entry, should_copy, sync_entry, EntryKind, PlannedEntry, SourceEntry, SyncAction,
};
use fass_backup::hasher::calculate_hash;
use fass_backup::index::BackupMetadata;
use fass_backup::paths::{destination, file_type_of, get_metadata_path, to_lowercase};
use fass_backup::record::FileInfo;
use fass_backup::resync::{backup_now, Observation};

fn file(path: &str, content: &[u8]) -> SourceEntry {
    SourceEntry { path: path.to_string(), kind: EntryKind::File, hash: Some(calculate_hash(content)) }
}

fn dir(path: &str) -> SourceEntry {
    SourceEntry { path: path.to_string(), kind: EntryKind::Directory, hash: None }
}

fn record(path: &str, dest: &str, hash: &str) -> FileInfo {
    FileInfo {
        original_path: path.to_string(),
        backup_path: dest.to_string(),
        file_type: "txt".to_string(),
        hash: hash.to_string(),
        auto_backup: false,
        backup_interval: 0,
        backup_frequency: String::new(),
    }
}

#[test]
fn file_type_is_the_lowercase_extension() {
    assert_eq!(file_type_of("/src/a.txt"), "txt");
    assert_eq!(file_type_of("/src/Photo.JPG"), "jpg");
    assert_eq!(file_type_of("/src/archive.tar.GZ"), "gz");
}

#[test]
fn file_type_without_extension_is_unknown() {
    assert_eq!(file_type_of("/src/Makefile"), "unknown");
    assert_eq!(file_type_of("/src/.hidden"), "unknown");
    assert_eq!(file_type_of(""), "unknown");
}

#[test]
fn lowercase_touches_ascii_letters_only() {
    assert_eq!(to_lowercase("AbC-09_Z"), "abc-09_z");
    assert_eq!(to_lowercase("\u{c4}B"), "\u{c4}b");
    assert_eq!(to_lowercase(""), "");
}

#[test]
fn destination_is_backup_root_plus_relative_path() {
    assert_eq!(
        destination("/home/u/Backup", "/src", "/src/notes/b.txt"),
        Some("/home/u/Backup/notes/b.txt".to_string())
    );
    assert_eq!(destination("/home/u/Backup", "/src", "/src"), Some("/home/u/Backup/".to_string()));
    assert_eq!(destination("/home/u/Backup", "/src", "/other/a.txt"), None);
    assert_eq!(destination("/home/u/Backup", "/src", "/srcfile"), None);
}

#[test]
fn metadata_path_follows_the_saved_directory() {
    assert_eq!(get_metadata_path(None), "backup_metadata.json");
    assert_eq!(get_metadata_path(Some(" /work/dir\n")), "/work/dir/backup_metadata.json");
}

#[test]
fn should_copy_without_record_or_hash() {
    let fresh = Some("h".to_string());
    assert!(should_copy(None, &fresh));
    assert!(should_copy(None, &None));
    assert!(should_copy(Some(&record("/a", "/b/a", "")), &fresh));
    assert!(should_copy(Some(&record("/a", "/b/a", "")), &None));
}

#[test]
fn should_copy_compares_hashes() {
    let old = record("/a", "/b/a", "h");
    assert!(!should_copy(Some(&old), &Some("h".to_string())));
    assert!(should_copy(Some(&old), &Some("other".to_string())));
    assert!(should_copy(Some(&old), &None));
}

#[test]
fn plan_entry_gives_destination_and_type() {
    let planned = plan_entry("/bk", "/src", &file("/src/notes/B.TXT", b"x"));
    assert_eq!(
        planned,
        Some(PlannedEntry {
            path: "/src/notes/B.TXT".to_string(),
            kind: EntryKind::File,
            hash: Some(calculate_hash(b"x")),
            dest: "/bk/notes/B.TXT".to_string(),
            file_type: "txt".to_string(),
        })
    );
    assert_eq!(plan_entry("/bk", "/src", &file("/elsewhere/a.txt", b"x")), None);
}

#[test]
fn sync_entry_keeps_the_schedule_of_a_known_file() {
    let mut index = BackupMetadata::new();
    let mut known = record("/src/a.txt", "/old/a.txt", "old");
    known.auto_backup = true;
    known.backup_interval = 5;
    known.backup_frequency = "Hour(s)".to_string();
    index.upsert(known);
    let entry = plan_entry("/bk", "/src", &file("/src/a.txt", b"hello")).unwrap();
    let action = sync_entry(&mut index, &entry);
    assert_eq!(
        action,
        Some(SyncAction::CopyFile { from: "/src/a.txt".to_string(), to: "/bk/a.txt".to_string() })
    );
    let after = index.get("/src/a.txt").unwrap();
    assert_eq!(after.backup_path, "/bk/a.txt");
    assert_eq!(after.hash, calculate_hash(b"hello"));
    assert!(after.auto_backup);
    assert_eq!(after.backup_interval, 5);
    assert_eq!(after.backup_frequency, "Hour(s)");
}

#[test]
fn sync_entry_passes_over_what_is_neither_file_nor_directory() {
    let mut index = BackupMetadata::new();
    let entry = PlannedEntry {
        path: "/src/socket".to_string(),
        kind: EntryKind::Other,
        hash: None,
        dest: "/bk/socket".to_string(),
        file_type: "unknown".to_string(),
    };
    assert_eq!(sync_entry(&mut index, &entry), None);
    assert!(index.is_empty());
}

#[test]
fn unreadable_file_is_copied_but_not_recorded() {
    let mut index = BackupMetadata::new();
    let found = vec![SourceEntry {
        path: "/src/locked.bin".to_string(),
        kind: EntryKind::File,
        hash: None,
    }];
    let actions = backup(&mut index, "/bk", "/src", &found);
    assert_eq!(
        actions,
        vec![SyncAction::CopyFile {
            from: "/src/locked.bin".to_string(),
            to: "/bk/locked.bin".to_string()
        }]
    );
    assert!(index.is_empty());
}

#[test]
fn first_sync_copies_everything_and_records_hashes() {
    let mut index = BackupMetadata::new();
    let found = vec![
        dir("/src"),
        file("/src/a.txt", b"hello"),
        dir("/src/notes"),
        file("/src/notes/b.txt", b"world"),
    ];
    let actions = backup(&mut index, "/bk", "/src", &found);
    assert_eq!(
        actions,
        vec![
            SyncAction::CreateDir { path: "/bk/".to_string() },
            SyncAction::CopyFile { from: "/src/a.txt".to_string(), to: "/bk/a.txt".to_string() },
            SyncAction::CreateDir { path: "/bk/notes".to_string() },
            SyncAction::CopyFile {
                from: "/src/notes/b.txt".to_string(),
                to: "/bk/notes/b.txt".to_string()
            },
        ]
    );
    assert_eq!(
        index.records(),
        vec![
            record(
                "/src/a.txt",
                "/bk/a.txt",
                "2cf24dba5fb0a30e26e83b2ac5b9e29e1b161e5c1fa7425e73043362938b9824"
            ),
            record("/src/notes/b.txt", "/bk/notes/b.txt", &calculate_hash(b"world")),
        ]
    );
}

#[test]
fn second_sync_without_changes_copies_nothing() {
    let mut index = BackupMetadata::new();
    let found = vec![dir("/src"), file("/src/a.txt", b"hello"), file("/src/notes/b.txt", b"world")];
    backup(&mut index, "/bk", "/src", &found);
    let first = index.records();
    let actions = backup(&mut index, "/bk", "/src", &found);
    assert_eq!(
        actions,
        vec![
            SyncAction::CreateDir { path: "/bk/".to_string() },
            SyncAction::Skip { path: "/src/a.txt".to_string() },
            SyncAction::Skip { path: "/src/notes/b.txt".to_string() },
        ]
    );
    assert_eq!(index.records(), first);
}

#[test]
fn sync_after_one_edit_copies_only_that_file() {
    let mut index = BackupMetadata::new();
    backup(
        &mut index,
        "/bk",
        "/src",
        &vec![file("/src/a.txt", b"hello"), file("/src/notes/b.txt", b"world")],
    );
    let before = index.records();
    let actions = backup(
        &mut index,
        "/bk",
        "/src",
        &vec![file("/src/a.txt", b"hello!"), file("/src/notes/b.txt", b"world")],
    );
    assert_eq!(
        actions,
        vec![
            SyncAction::CopyFile { from: "/src/a.txt".to_string(), to: "/bk/a.txt".to_string() },
            SyncAction::Skip { path: "/src/notes/b.txt".to_string() },
        ]
    );
    let after = index.records();
    assert_eq!(after[0].hash, calculate_hash(b"hello!"));
    assert_eq!(after[1], before[1]);
}

#[test]
fn sync_never_drops_records_of_files_that_are_gone() {
    let mut index = BackupMetadata::new();
    backup(&mut index, "/bk", "/src", &vec![file("/src/a.txt", b"1"), file("/src/b.txt", b"2")]);
    backup(&mut index, "/bk", "/src", &vec![file("/src/a.txt", b"1")]);
    assert_eq!(index.len(), 2);
    assert!(index.contains("/src/b.txt"));
}

#[test]
fn edit_after_first_sync_is_picked_up_by_backup_now() {
    let mut index = BackupMetadata::new();
    let actions = backup(
        &mut index,
        "/bk",
        "/src",
        &vec![file("/src/a.txt", b"hello"), file("/src/notes/b.txt", b"x")],
    );
    assert_eq!(actions.len(), 2);
    assert_eq!(index.len(), 2);
    assert_eq!(index.get("/src/a.txt").unwrap().hash, calculate_hash(b"hello"));
    assert_eq!(index.get("/src/notes/b.txt").unwrap().hash, calculate_hash(b"x"));
    let b_before = index.get("/src/notes/b.txt").unwrap().clone();
    let seen = vec![
        Observation::Read { hash: calculate_hash(b"hello!"), copied: true },
        Observation::Read { hash: calculate_hash(b"x"), copied: false },
    ];
    let outcome = backup_now(&mut index, &seen);
    assert_eq!(outcome.copied, 1);
    assert!(outcome.persist);
    assert_eq!(index.get("/src/a.txt").unwrap().hash, calculate_hash(b"hello!"));
    assert_eq!(index.get("/src/notes/b.txt"), Some(&b_before));
}
