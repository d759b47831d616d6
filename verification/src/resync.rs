//! The re-sync of the files that the index already tracks.
//!
//! The caller looks at each tracked file on disk and reports what it saw;
//! the functions here decide which files are copied and what the index says
//! afterwards.

use crate::index::{distinct_paths, BackupMetadata};
use crate::record::{FileInfo, FileInfoView};
use vstd::prelude::*;
use vstd::string::*;

verus! {

/// What was seen of one tracked file.
///
/// `Missing`: the original is not there. `NoParent`: the directory for the
/// backup copy could not be made. `Unreadable`: the content could not be
/// fingerprinted. `Read`: the content has this fingerprint; `copied` says
/// whether the copy succeeded, where one was called for.
#[derive(Debug, PartialEq, Eq)]
pub enum Observation {
    Missing,
    NoParent,
    Unreadable,
    Read { hash: String, copied: bool },
}

pub enum ObservationView {
    Missing,
    NoParent,
    Unreadable,
    Read { hash: Seq<char>, copied: bool },
}

impl View for Observation {
    type V = ObservationView;

    open spec fn view(&self) -> ObservationView {
        match self {
            Observation::Missing => ObservationView::Missing,
            Observation::NoParent => ObservationView::NoParent,
            Observation::Unreadable => ObservationView::Unreadable,
            Observation::Read { hash, copied } => ObservationView::Read {
                hash: hash@,
                copied: *copied,
            },
        }
    }
}

/// A tracked file is copied again when it was never fingerprinted or its
/// content has another fingerprint than the recorded one.
pub open spec fn needs_backup_spec(record: FileInfoView, current: Seq<char>) -> bool {
    record.hash.len() == 0 || current != record.hash
}

/// The file was backed up in this pass: it was read, it called for a copy,
/// and the copy succeeded.
pub open spec fn is_backed_up(record: FileInfoView, seen: ObservationView) -> bool {
    match seen {
        ObservationView::Read { hash, copied } => needs_backup_spec(record, hash) && copied,
        _ => false,
    }
}

/// The record after the pass: with the fresh fingerprint if the file was
/// backed up, unchanged otherwise.
pub open spec fn resynced(record: FileInfoView, seen: ObservationView) -> FileInfoView {
    match seen {
        ObservationView::Read { hash, copied } => if needs_backup_spec(record, hash) && copied {
            FileInfoView { hash: hash, ..record }
        } else {
            record
        },
        _ => record,
    }
}

/// What was seen of the record at a place of the index. A record for which
/// nothing is reported counts as missing.
pub open spec fn seen_at(seen: Seq<ObservationView>, i: int) -> ObservationView {
    if 0 <= i < seen.len() {
        seen[i]
    } else {
        ObservationView::Missing
    }
}

/// The records after a pass over all of them.
pub open spec fn resync_all(entries: Seq<FileInfoView>, seen: Seq<ObservationView>) -> Seq<
    FileInfoView,
> {
    Seq::new(entries.len(), |i: int| resynced(entries[i], seen_at(seen, i)))
}

/// How many of the first `n` records were backed up in a pass.
pub open spec fn backed_up_count(
    entries: Seq<FileInfoView>,
    seen: Seq<ObservationView>,
    n: int,
) -> nat
    decreases n,
{
    if n <= 0 {
        0
    } else {
        backed_up_count(entries, seen, n - 1) + if is_backed_up(
            entries[n - 1],
            seen_at(seen, n - 1),
        ) {
            1nat
        } else {
            0nat
        }
    }
}

/// The views of a list of observations.
pub open spec fn seen_views(seen: Seq<Observation>) -> Seq<ObservationView> {
    seen.map_values(|o: Observation| o@)
}

/// Decides whether a tracked file is copied again, given the fingerprint of
/// its present content.
pub fn needs_backup(record: &FileInfo, current_hash: &str) -> (needed: bool)
    ensures
        needed == needs_backup_spec(record@, current_hash@),
{
    !record.has_hash() || !record.hash.as_str().eq(current_hash)
}

/// Brings one record up to date with what was seen of its file. Returns
/// whether the file was backed up.
pub fn resync_record(record: &mut FileInfo, seen: &Observation) -> (backed_up: bool)
    ensures
        final(record)@ == resynced(old(record)@, seen@),
        backed_up == is_backed_up(old(record)@, seen@),
{
    match seen {
        Observation::Read { hash, copied } => {
            if needs_backup(record, hash.as_str()) && *copied {
                record.hash = hash.clone();
                true
            } else {
                false
            }
        },
        _ => false,
    }
}

/// What a pass over the tracked files came to: the number of files backed
/// up, and whether the index has to be saved, which is so exactly when at
/// least one file was backed up.
#[derive(Debug, Clone, Copy, PartialEq, Eq, Structural)]
pub struct ResyncOutcome {
    pub copied: usize,
    pub persist: bool,
}

/// The immediate re-sync of the tracked files, given what was seen of each,
/// in the order of the index. No new file is taken in and no record is
/// dropped: a record whose file is missing or could not be handled stays as
/// it is; a record whose file was backed up takes the fresh fingerprint.
pub fn backup_now(index: &mut BackupMetadata, seen: &Vec<Observation>) -> (outcome: ResyncOutcome)
    requires
        old(index).wf(),
    ensures
        final(index).wf(),
        final(index).entries() == resync_all(old(index).entries(), seen_views(seen@)),
        outcome.copied == backed_up_count(
            old(index).entries(),
            seen_views(seen@),
            old(index).entries().len() as int,
        ),
        outcome.persist == (outcome.copied > 0),
{
    let ghost start = index.entries();
    let ghost views = seen_views(seen@);
    let n = index.len();
    let mut copied: usize = 0;
    let mut i: usize = 0;
    while i < n
        invariant
            i <= n,
            n == start.len(),
            views == seen_views(seen@),
            index.wf(),
            index.entries().len() == n,
            copied == backed_up_count(start, views, i as int),
            copied <= i,
            forall|k: int| 0 <= k < i ==> #[trigger] index.entries()[k] == resynced(
                start[k],
                seen_at(views, k),
            ),
            forall|k: int| i <= k < n ==> #[trigger] index.entries()[k] == start[k],
        decreases n - i,
    {
        if i < seen.len() {
            match &seen[i] {
                Observation::Read { hash, copied: done } => {
                    if needs_backup(index.record_at(i), hash.as_str()) && *done {
                        index.set_hash_at(i, hash.clone());
                        copied = copied + 1;
                    }
                },
                _ => {},
            }
        }
        i = i + 1;
    }
    assert(index.entries() =~= resync_all(start, views));
    ResyncOutcome { copied, persist: copied > 0 }
}

/// If the content of exactly one tracked file has changed and its copy
/// succeeds, the pass rewrites the fingerprint of that file's record and of
/// no other, and counts one file.
pub proof fn lemma_change_detected(
    entries: Seq<FileInfoView>,
    seen: Seq<ObservationView>,
    changed: int,
    fresh: Seq<char>,
)
    requires
        0 <= changed < entries.len(),
        seen_at(seen, changed) == (ObservationView::Read { hash: fresh, copied: true }),
        fresh != entries[changed].hash,
        forall|k: int|
            0 <= k < entries.len() && k != changed ==> !is_backed_up(
                #[trigger] entries[k],
                seen_at(seen, k),
            ),
    ensures
        resync_all(entries, seen) == entries.update(
            changed,
            FileInfoView { hash: fresh, ..entries[changed] },
        ),
        backed_up_count(entries, seen, entries.len() as int) == 1,
{
    assert(resync_all(entries, seen) =~= entries.update(
        changed,
        FileInfoView { hash: fresh, ..entries[changed] },
    ));
    lemma_count_one(entries, seen, changed, entries.len() as int);
}

proof fn lemma_count_one(
    entries: Seq<FileInfoView>,
    seen: Seq<ObservationView>,
    changed: int,
    n: int,
)
    requires
        0 <= changed < entries.len(),
        0 <= n <= entries.len(),
        is_backed_up(entries[changed], seen_at(seen, changed)),
        forall|k: int|
            0 <= k < entries.len() && k != changed ==> !is_backed_up(
                #[trigger] entries[k],
                seen_at(seen, k),
            ),
    ensures
        backed_up_count(entries, seen, n) == if changed < n {
            1nat
        } else {
            0nat
        },
    decreases n,
{
    if n > 0 {
        lemma_count_one(entries, seen, changed, n - 1);
    }
}

/// A pass in which no file calls for a copy, or no copy succeeds, leaves the
/// records as they are and counts nothing.
pub proof fn lemma_nothing_changed(entries: Seq<FileInfoView>, seen: Seq<ObservationView>, n: int)
    requires
        0 <= n <= entries.len(),
        forall|k: int|
            0 <= k < entries.len() ==> !is_backed_up(#[trigger] entries[k], seen_at(seen, k)),
    ensures
        resync_all(entries, seen) == entries,
        backed_up_count(entries, seen, n) == 0,
    decreases n,
{
    assert(resync_all(entries, seen) =~= entries);
    if n > 0 {
        lemma_nothing_changed(entries, seen, n - 1);
    }
}

/// A pass drops no record, adds none, and changes nothing of a record but
/// its fingerprint; so the records still have distinct paths.
pub proof fn lemma_resync_keeps_records(entries: Seq<FileInfoView>, seen: Seq<ObservationView>)
    ensures
        resync_all(entries, seen).len() == entries.len(),
        forall|i: int|
            0 <= i < entries.len() ==> #[trigger] resync_all(entries, seen)[i] == (FileInfoView {
                hash: resync_all(entries, seen)[i].hash,
                ..entries[i]
            }),
        distinct_paths(entries) ==> distinct_paths(resync_all(entries, seen)),
{
}

/// Why a re-sync failed as a whole: the index could not be locked, or it
/// could not be saved.
#[derive(Debug, Clone, Copy, PartialEq, Eq, Structural)]
pub enum BackupError {
    Lock,
    Save,
}

/// The message of an error: what failed, then what the system said.
pub open spec fn error_message_spec(error: BackupError, detail: Seq<char>) -> Seq<char> {
    match error {
        BackupError::Lock => "Lock error: "@ + detail,
        BackupError::Save => "Failed to save metadata: "@ + detail,
    }
}

impl BackupError {
    /// The message for the user. `detail` is what the system said.
    pub fn message(&self, detail: &str) -> (text: String)
        ensures
            text@ == error_message_spec(*self, detail@),
    {
        let mut text = match self {
            BackupError::Lock => String::from_str("Lock error: "),
            BackupError::Save => String::from_str("Failed to save metadata: "),
        };
        text.append(detail);
        text
    }
}

/// What a re-sync returns to its caller, given the outcome of the pass and
/// the error of the save, if the save was called for and failed: the number
/// of files backed up, or the error.
pub fn conclude(outcome: ResyncOutcome, save_failed: bool) -> (result: Result<usize, BackupError>)
    ensures
        result == if outcome.persist && save_failed {
            Err::<usize, BackupError>(BackupError::Save)
        } else {
            Ok::<usize, BackupError>(outcome.copied)
        },
{
    if outcome.persist && save_failed {
        Err(BackupError::Save)
    } else {
        Ok(outcome.copied)
    }
}

} // verus!
