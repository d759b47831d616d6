use fass_backup::index::{update_file_info, BackupMetadata};
use fass_backup::record::FileInfo;
use fass_backup::resync::{
    backup_now, conclude, needs_backup, resync_record, BackupError, Observation, ResyncOutcome,
};
use fass_backup::scheduler::{
    auto_backup, convert_time, global_loop_step, recheck_period, BackupSettings, LoopAction,
    LoopState, RunningBackups, ScheduledJob, DEFAULT_PERIOD_SECS,
};

fn record(path: &str, hash: &str) -> FileInfo {
    FileInfo {
        original_path: path.to_string(),
        backup_path: format!("/bk{}", path),
        file_type: "txt".to_string(),
        hash: hash.to_string(),
        auto_backup: false,
        backup_interval: 0,
        backup_frequency: String::new(),
    }
}

fn scheduled(path: &str, interval: u32, unit: &str) -> FileInfo {
    let mut r = record(path, "h");
    r.auto_backup = true;
    r.backup_interval = interval;
    r.backup_frequency = unit.to_string();
    r
}

fn read(hash: &str, copied: bool) -> Observation {
    Observation::Read { hash: hash.to_string(), copied }
}

#[test]
fn needs_backup_when_hash_is_empty_or_differs() {
    assert!(needs_backup(&record("/a", ""), "x"));
    assert!(needs_backup(&record("/a", ""), ""));
    assert!(needs_backup(&record("/a", "old"), "new"));
    assert!(!needs_backup(&record("/a", "same"), "same"));
}

#[test]
fn resync_record_takes_the_fresh_hash_after_a_copy() {
    let mut r = record("/a", "old");
    assert!(resync_record(&mut r, &read("new", true)));
    assert_eq!(r, record("/a", "new"));
}

#[test]
fn resync_record_stays_when_nothing_was_copied() {
    for seen in [
        Observation::Missing,
        Observation::NoParent,
        Observation::Unreadable,
        read("new", false),
        read("old", true),
    ] {
        let mut r = record("/a", "old");
        assert!(!resync_record(&mut r, &seen));
        assert_eq!(r, record("/a", "old"));
    }
}

#[test]
fn backup_now_counts_only_files_copied() {
    let mut index = update_file_info(vec![
        record("/a", "1"),
        record("/b", "2"),
        record("/c", ""),
        record("/d", "4"),
        record("/e", "5"),
    ]);
    let seen = vec![
        read("1", true),
        read("changed", true),
        read("first", true),
        Observation::Missing,
        read("changed", false),
    ];
    let outcome = backup_now(&mut index, &seen);
    assert_eq!(outcome, ResyncOutcome { copied: 2, persist: true });
    assert_eq!(
        index.records(),
        vec![
            record("/a", "1"),
            record("/b", "changed"),
            record("/c", "first"),
            record("/d", "4"),
            record("/e", "5"),
        ]
    );
}

#[test]
fn backup_now_without_changes_asks_for_no_save() {
    let mut index = update_file_info(vec![record("/a", "1"), record("/b", "2")]);
    let outcome =
        backup_now(&mut index, &vec![read("1", true), Observation::Unreadable]);
    assert_eq!(outcome, ResyncOutcome { copied: 0, persist: false });
    assert_eq!(index.records(), vec![record("/a", "1"), record("/b", "2")]);
}

#[test]
fn backup_now_keeps_records_of_missing_files() {
    let mut index = update_file_info(vec![record("/a", "1")]);
    let outcome = backup_now(&mut index, &vec![Observation::Missing]);
    assert_eq!(outcome.copied, 0);
    assert_eq!(index.len(), 1);
}

#[test]
fn backup_now_treats_unreported_records_as_missing() {
    let mut index = update_file_info(vec![record("/a", "1"), record("/b", "2")]);
    let outcome = backup_now(&mut index, &vec![read("new", true)]);
    assert_eq!(outcome.copied, 1);
    assert_eq!(index.records(), vec![record("/a", "new"), record("/b", "2")]);
    let mut empty = BackupMetadata::new();
    assert_eq!(backup_now(&mut empty, &vec![read("x", true)]).copied, 0);
}

#[test]
fn convert_time_multiplies_by_the_unit() {
    let info = scheduled("/a", 5, "Minute(s)");
    assert_eq!(convert_time(&info, "Minute(s)"), Some(300));
    assert_eq!(convert_time(&info, "Hour(s)"), Some(18000));
    assert_eq!(convert_time(&info, "Day(s)"), Some(432000));
    assert_eq!(convert_time(&info, "weeks"), None);
    assert_eq!(convert_time(&info, ""), None);
}

#[test]
fn convert_time_of_the_largest_interval_fits() {
    let info = scheduled("/a", u32::MAX, "Day(s)");
    assert_eq!(convert_time(&info, "Day(s)"), Some(4294967295u64 * 86400));
}

#[test]
fn recheck_period_falls_back_to_an_hour() {
    assert_eq!(DEFAULT_PERIOD_SECS, 3600);
    assert_eq!(recheck_period(&scheduled("/a", 2, "Hour(s)")), 7200);
    assert_eq!(recheck_period(&scheduled("/a", 2, "fortnights")), 3600);
    assert_eq!(recheck_period(&scheduled("/a", 0, "Minute(s)")), 0);
}

#[test]
fn default_settings_have_auto_backup_off() {
    let settings = BackupSettings::default();
    assert!(!settings.auto_backup_enabled);
    assert_eq!(settings.interval_minutes, 60);
}

#[test]
fn running_set_marks_each_path_once() {
    let mut running = RunningBackups::new();
    assert!(!running.contains("/a"));
    assert!(running.insert("/a".to_string()));
    assert!(!running.insert("/a".to_string()));
    assert!(running.contains("/a"));
    assert!(!running.contains("/b"));
}

#[test]
fn sweep_starts_one_job_per_enabled_file() {
    let index = update_file_info(vec![
        scheduled("/a", 5, "Minute(s)"),
        record("/b", "h"),
        scheduled("/c", 1, "Day(s)"),
        scheduled("/d", 3, "bogus"),
    ]);
    let mut running = RunningBackups::new();
    running.insert("/c".to_string());
    let jobs = auto_backup(&index, &mut running);
    assert_eq!(
        jobs,
        vec![
            ScheduledJob { record: scheduled("/a", 5, "Minute(s)"), period_secs: 300 },
            ScheduledJob { record: scheduled("/d", 3, "bogus"), period_secs: 3600 },
        ]
    );
    assert!(running.contains("/a"));
    assert!(running.contains("/c"));
    assert!(running.contains("/d"));
    assert!(!running.contains("/b"));
}

#[test]
fn second_sweep_starts_nothing() {
    let index =
        update_file_info(vec![scheduled("/a", 5, "Minute(s)"), scheduled("/b", 1, "Hour(s)")]);
    let mut running = RunningBackups::new();
    assert_eq!(auto_backup(&index, &mut running).len(), 2);
    assert!(auto_backup(&index, &mut running).is_empty());
    assert!(auto_backup(&index, &mut running).is_empty());
}

#[test]
fn global_loop_sweeps_then_sleeps_the_interval() {
    let settings = BackupSettings { auto_backup_enabled: true, interval_minutes: 2 };
    let (mut state, action) = global_loop_step(LoopState::Waking, &settings, true);
    assert_eq!(action, LoopAction::Sweep);
    assert_eq!(state, LoopState::Sleeping { remaining: 120 });
    let mut sleeps = 0;
    while !state.wants_settings() {
        let (next, action) = global_loop_step(state, &settings, true);
        assert_eq!(action, LoopAction::Sleep);
        state = next;
        sleeps += 1;
    }
    assert_eq!(sleeps, 120);
    let (_, action) = global_loop_step(state, &settings, true);
    assert_eq!(action, LoopAction::Sweep);
}

#[test]
fn global_loop_idles_when_auto_backup_is_off() {
    let settings = BackupSettings { auto_backup_enabled: false, interval_minutes: 1 };
    assert_eq!(
        global_loop_step(LoopState::Waking, &settings, true),
        (LoopState::Sleeping { remaining: 60 }, LoopAction::Idle)
    );
}

#[test]
fn global_loop_stops_at_the_next_step_after_a_signal() {
    let settings = BackupSettings { auto_backup_enabled: true, interval_minutes: 60 };
    for state in [
        LoopState::Waking,
        LoopState::Sleeping { remaining: 3599 },
        LoopState::Sleeping { remaining: 0 },
        LoopState::Stopped,
    ] {
        assert_eq!(
            global_loop_step(state, &settings, false),
            (LoopState::Stopped, LoopAction::Shutdown)
        );
    }
    assert_eq!(
        global_loop_step(LoopState::Stopped, &settings, true),
        (LoopState::Stopped, LoopAction::Shutdown)
    );
    assert!(LoopState::Waking.wants_settings());
    assert!(!LoopState::Stopped.wants_settings());
    assert!(!LoopState::Sleeping { remaining: 1 }.wants_settings());
}

#[test]
fn resync_errors_have_exact_messages() {
    assert_eq!(BackupError::Lock.message("poisoned"), "Lock error: poisoned");
    assert_eq!(BackupError::Save.message("disk full"), "Failed to save metadata: disk full");
    let changed = ResyncOutcome { copied: 3, persist: true };
    let quiet = ResyncOutcome { copied: 0, persist: false };
    assert_eq!(conclude(changed, false), Ok(3));
    assert_eq!(conclude(changed, true), Err(BackupError::Save));
    assert_eq!(conclude(quiet, true), Ok(0));
}
