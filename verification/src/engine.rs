//! The backup engine: which files of a source tree are copied, and what the
//! index says afterwards.
//!
//! The engine does not touch the disk. It is told what was found there and
//! answers with the steps to carry out, in order.

use crate::index::{
    distinct_paths, has_path, keyed, lemma_put, lookup, place_of, put, BackupMetadata,
};
use crate::paths::{
    destination, destination_from, file_type_from, file_type_of, path_extension,
    path_strip_prefix,
};
use crate::record::{empty_record, FileInfo, FileInfoView};
use crate::text::text_of;
use vstd::prelude::*;

verus! {

/// What an entry of the source tree is.
#[derive(Debug, Clone, Copy, PartialEq, Eq, Structural)]
pub enum EntryKind {
    Directory,
    File,
    Other,
}

/// An entry found while walking the source tree. For a file, `hash` is the
/// fingerprint of its content, or nothing where the file could not be read.
#[derive(Debug, PartialEq, Eq)]
pub struct SourceEntry {
    pub path: String,
    pub kind: EntryKind,
    pub hash: Option<String>,
}

pub struct SourceEntryView {
    pub path: Seq<char>,
    pub kind: EntryKind,
    pub hash: Option<Seq<char>>,
}

impl View for SourceEntry {
    type V = SourceEntryView;

    open spec fn view(&self) -> SourceEntryView {
        SourceEntryView { path: self.path@, kind: self.kind, hash: text_of(self.hash) }
    }
}

/// An entry of the source tree together with its place in the backup and its
/// file type.
#[derive(Debug, PartialEq, Eq)]
pub struct PlannedEntry {
    pub path: String,
    pub kind: EntryKind,
    pub hash: Option<String>,
    pub dest: String,
    pub file_type: String,
}

pub struct PlannedView {
    pub path: Seq<char>,
    pub kind: EntryKind,
    pub hash: Option<Seq<char>>,
    pub dest: Seq<char>,
    pub file_type: Seq<char>,
}

impl View for PlannedEntry {
    type V = PlannedView;

    open spec fn view(&self) -> PlannedView {
        PlannedView {
            path: self.path@,
            kind: self.kind,
            hash: text_of(self.hash),
            dest: self.dest@,
            file_type: self.file_type@,
        }
    }
}

/// A step for the caller to carry out on disk. `CopyFile` overwrites the
/// destination and creates the directories above it as needed.
#[derive(Debug, PartialEq, Eq)]
pub enum SyncAction {
    CreateDir { path: String },
    CopyFile { from: String, to: String },
    Skip { path: String },
}

pub enum SyncActionView {
    CreateDir { path: Seq<char> },
    CopyFile { from: Seq<char>, to: Seq<char> },
    Skip { path: Seq<char> },
}

impl View for SyncAction {
    type V = SyncActionView;

    open spec fn view(&self) -> SyncActionView {
        match self {
            SyncAction::CreateDir { path } => SyncActionView::CreateDir { path: path@ },
            SyncAction::CopyFile { from, to } => SyncActionView::CopyFile { from: from@, to: to@ },
            SyncAction::Skip { path } => SyncActionView::Skip { path: path@ },
        }
    }
}

/// Whether a file is copied: always, unless a record with a fingerprint is
/// held and the fresh fingerprint equals it. A file whose fingerprint could
/// not be taken is copied.
pub open spec fn should_copy_spec(existing: Option<FileInfoView>, new_hash: Option<Seq<char>>) -> bool {
    match existing {
        Some(old) => old.hash.len() == 0 || new_hash != Some(old.hash),
        None => true,
    }
}

/// The record written for a file that was fingerprinted: path, place in the
/// backup, file type and fingerprint are set anew; the schedule of the record
/// held before stays, and a new record has none.
pub open spec fn synced_record(
    existing: Option<FileInfoView>,
    entry: PlannedView,
    hash: Seq<char>,
) -> FileInfoView {
    let base = match existing {
        Some(old) => old,
        None => empty_record(),
    };
    FileInfoView {
        original_path: entry.path,
        backup_path: entry.dest,
        file_type: entry.file_type,
        hash: hash,
        ..base
    }
}

/// What one entry does to the records, and the step it asks for.
pub open spec fn sync_one(entries: Seq<FileInfoView>, entry: PlannedView) -> (
    Seq<FileInfoView>,
    Option<SyncActionView>,
) {
    match entry.kind {
        EntryKind::Directory => (entries, Some(SyncActionView::CreateDir { path: entry.dest })),
        EntryKind::Other => (entries, None),
        EntryKind::File => {
            let existing = lookup(entries, entry.path);
            let action = if should_copy_spec(existing, entry.hash) {
                SyncActionView::CopyFile { from: entry.path, to: entry.dest }
            } else {
                SyncActionView::Skip { path: entry.path }
            };
            let next = match entry.hash {
                Some(h) => put(entries, synced_record(existing, entry, h)),
                None => entries,
            };
            (next, Some(action))
        },
    }
}

/// What a walk does to the records, entry after entry, and the steps it
/// asks for, in order.
pub open spec fn sync_all(entries: Seq<FileInfoView>, plan: Seq<PlannedView>) -> (
    Seq<FileInfoView>,
    Seq<SyncActionView>,
)
    decreases plan.len(),
{
    if plan.len() == 0 {
        (entries, Seq::empty())
    } else {
        let before = sync_all(entries, plan.drop_last());
        let step = sync_one(before.0, plan.last());
        (
            step.0,
            match step.1 {
                Some(action) => before.1.push(action),
                None => before.1,
            },
        )
    }
}

/// An entry with its place in the backup and its file type, given the
/// entry's path below the source root and its extension. Nothing for an
/// entry that does not lie below the source root.
pub open spec fn planned_from(
    backup_root: Seq<char>,
    entry: SourceEntryView,
    rest: Option<Seq<char>>,
    ext: Option<Seq<char>>,
) -> Option<PlannedView> {
    match destination_from(backup_root, rest) {
        Some(dest) => Some(
            PlannedView {
                path: entry.path,
                kind: entry.kind,
                hash: entry.hash,
                dest: dest,
                file_type: file_type_from(ext),
            },
        ),
        None => None,
    }
}

/// An entry with its place in the backup and its file type.
pub open spec fn planned(
    backup_root: Seq<char>,
    source_root: Seq<char>,
    entry: SourceEntryView,
) -> Option<PlannedView> {
    planned_from(
        backup_root,
        entry,
        path_strip_prefix(entry.path, source_root),
        path_extension(entry.path),
    )
}

/// The entries of a walk that lie below the source root, each with its place
/// in the backup and its file type, in the order of the walk.
pub open spec fn plan_of(
    backup_root: Seq<char>,
    source_root: Seq<char>,
    found: Seq<SourceEntryView>,
) -> Seq<PlannedView>
    decreases found.len(),
{
    if found.len() == 0 {
        Seq::empty()
    } else {
        let before = plan_of(backup_root, source_root, found.drop_last());
        match planned(backup_root, source_root, found.last()) {
            Some(entry) => before.push(entry),
            None => before,
        }
    }
}

/// Decides whether a file is copied.
pub fn should_copy(existing: Option<&FileInfo>, new_hash: &Option<String>) -> (copy: bool)
    ensures
        copy == should_copy_spec(
            match existing {
                Some(old) => Some(old@),
                None => None,
            },
            text_of(*new_hash),
        ),
{
    match existing {
        Some(old) => {
            if !old.has_hash() {
                true
            } else {
                match new_hash {
                    Some(fresh) => !(*fresh == old.hash),
                    None => true,
                }
            }
        },
        None => true,
    }
}

fn copy_text(text: &Option<String>) -> (copy: Option<String>)
    ensures
        text_of(copy) == text_of(*text),
{
    match text {
        Some(t) => Some(t.clone()),
        None => None,
    }
}

/// Gives an entry of the source tree its place in the backup and its file
/// type. `None` for an entry that does not lie below the source root.
pub fn plan_entry(backup_root: &str, source_root: &str, entry: &SourceEntry) -> (planned_entry:
    Option<PlannedEntry>)
    ensures
        match planned_entry {
            Some(p) => planned(backup_root@, source_root@, entry@) == Some(p@),
            None => planned(backup_root@, source_root@, entry@) is None,
        },
{
    match destination(backup_root, source_root, entry.path.as_str()) {
        Some(dest) => Some(
            PlannedEntry {
                path: entry.path.clone(),
                kind: entry.kind,
                hash: copy_text(&entry.hash),
                dest,
                file_type: file_type_of(entry.path.as_str()),
            },
        ),
        None => None,
    }
}

/// Handles one entry of the walk: a directory is to be created in the
/// backup; a file is to be copied or skipped, and its record is written if
/// its fingerprint is at hand; anything else is passed over.
pub fn sync_entry(index: &mut BackupMetadata, entry: &PlannedEntry) -> (action: Option<SyncAction>)
    requires
        old(index).wf(),
    ensures
        final(index).wf(),
        final(index).entries() == sync_one(old(index).entries(), entry@).0,
        match action {
            Some(a) => sync_one(old(index).entries(), entry@).1 == Some(a@),
            None => sync_one(old(index).entries(), entry@).1 is None,
        },
{
    match entry.kind {
        EntryKind::Directory => Some(SyncAction::CreateDir { path: entry.dest.clone() }),
        EntryKind::Other => None,
        EntryKind::File => {
            let existing = index.get(entry.path.as_str());
            let copy = should_copy(existing, &entry.hash);
            let action = if copy {
                SyncAction::CopyFile { from: entry.path.clone(), to: entry.dest.clone() }
            } else {
                SyncAction::Skip { path: entry.path.clone() }
            };
            match &entry.hash {
                Some(hash) => {
                    let record = match existing {
                        Some(old_record) => FileInfo {
                            original_path: entry.path.clone(),
                            backup_path: entry.dest.clone(),
                            file_type: entry.file_type.clone(),
                            hash: hash.clone(),
                            auto_backup: old_record.auto_backup,
                            backup_interval: old_record.backup_interval,
                            backup_frequency: old_record.backup_frequency.clone(),
                        },
                        None => FileInfo {
                            original_path: entry.path.clone(),
                            backup_path: entry.dest.clone(),
                            file_type: entry.file_type.clone(),
                            hash: hash.clone(),
                            auto_backup: false,
                            backup_interval: 0,
                            backup_frequency: String::new(),
                        },
                    };
                    index.upsert(record);
                },
                None => {},
            }
            Some(action)
        },
    }
}

/// The views of a list of steps.
pub open spec fn action_views(actions: Seq<SyncAction>) -> Seq<SyncActionView> {
    actions.map_values(|a: SyncAction| a@)
}

/// The views of the entries of a walk.
pub open spec fn entry_views(found: Seq<SourceEntry>) -> Seq<SourceEntryView> {
    found.map_values(|e: SourceEntry| e@)
}

/// The initial or manual sync of a source tree, given what a walk of the
/// tree found. Entry after entry, in the order of the walk: a directory is
/// mirrored below the backup root; a file is copied there unless its
/// fingerprint equals the recorded one, and its record is written if the
/// fingerprint could be taken. Records of files that the walk did not find
/// stay as they are. Returns the steps to carry out on disk, in order; the
/// index is to be saved once they are done.
pub fn backup(
    index: &mut BackupMetadata,
    backup_root: &str,
    source_root: &str,
    found: &Vec<SourceEntry>,
) -> (actions: Vec<SyncAction>)
    requires
        old(index).wf(),
    ensures
        final(index).wf(),
        final(index).entries() == sync_all(
            old(index).entries(),
            plan_of(backup_root@, source_root@, entry_views(found@)),
        ).0,
        action_views(actions@) == sync_all(
            old(index).entries(),
            plan_of(backup_root@, source_root@, entry_views(found@)),
        ).1,
{
    let ghost start = index.entries();
    let ghost views = entry_views(found@);
    let mut actions: Vec<SyncAction> = Vec::new();
    let mut i: usize = 0;
    assert(views.take(0) =~= Seq::<SourceEntryView>::empty());
    assert(action_views(actions@) =~= Seq::<SyncActionView>::empty());
    while i < found.len()
        invariant
            i <= found@.len(),
            views == entry_views(found@),
            index.wf(),
            index.entries() == sync_all(
                start,
                plan_of(backup_root@, source_root@, views.take(i as int)),
            ).0,
            action_views(actions@) == sync_all(
                start,
                plan_of(backup_root@, source_root@, views.take(i as int)),
            ).1,
        decreases found@.len() - i,
    {
        let ghost done = plan_of(backup_root@, source_root@, views.take(i as int));
        let ghost before_actions = action_views(actions@);
        proof {
            assert(views.take(i as int + 1).drop_last() =~= views.take(i as int));
            assert(views.take(i as int + 1).last() == found@[i as int]@);
        }
        match plan_entry(backup_root, source_root, &found[i]) {
            Some(entry) => {
                proof {
                    assert(done.push(entry@).drop_last() =~= done);
                    assert(done.push(entry@).last() == entry@);
                }
                match sync_entry(index, &entry) {
                    Some(action) => {
                        actions.push(action);
                        assert(action_views(actions@) =~= before_actions.push(action@));
                    },
                    None => {},
                }
            },
            None => {},
        }
        i = i + 1;
    }
    assert(views.take(i as int) =~= views);
    actions
}

/// Every file of the walk was fingerprinted, with a fingerprint that is not
/// empty, and no file occurs twice.
pub open spec fn settled(plan: Seq<PlannedView>) -> bool {
    &&& forall|i: int|
        0 <= i < plan.len() && (#[trigger] plan[i]).kind == EntryKind::File ==> plan[i].hash
            is Some && plan[i].hash->Some_0.len() > 0
    &&& forall|i: int, j: int|
        0 <= i < j < plan.len() && (#[trigger] plan[i]).kind == EntryKind::File && (
        #[trigger] plan[j]).kind == EntryKind::File ==> plan[i].path != plan[j].path
}

/// No step of the list copies a file.
pub open spec fn no_copy(actions: Seq<SyncActionView>) -> bool {
    forall|k: int| 0 <= k < actions.len() ==> !(#[trigger] actions[k] is CopyFile)
}

/// The records hold the file under its path, with the fingerprint, the place
/// in the backup and the file type that the walk gives it.
pub open spec fn recorded(entries: Seq<FileInfoView>, file: PlannedView) -> bool {
    match lookup(entries, file.path) {
        Some(r) => file.hash == Some(r.hash) && r.backup_path == file.dest && r.file_type
            == file.file_type && r.original_path == file.path,
        None => false,
    }
}

/// A file that is recorded as the walk finds it is skipped, and the records
/// stay as they are.
pub proof fn lemma_recorded_file_is_skipped(entries: Seq<FileInfoView>, file: PlannedView)
    requires
        distinct_paths(entries),
        file.kind == EntryKind::File,
        file.hash is Some,
        file.hash->Some_0.len() > 0,
        recorded(entries, file),
    ensures
        sync_one(entries, file) == (entries, Some(SyncActionView::Skip { path: file.path })),
{
    let existing = lookup(entries, file.path);
    let r = existing->Some_0;
    let h = file.hash->Some_0;
    assert(!should_copy_spec(existing, file.hash));
    assert(synced_record(existing, file, h) == r);
    assert(put(entries, r) =~= entries);
}

/// After a walk, every file of the walk is recorded as the walk found it.
pub proof fn lemma_sync_records_files(entries: Seq<FileInfoView>, plan: Seq<PlannedView>)
    requires
        distinct_paths(entries),
        settled(plan),
    ensures
        distinct_paths(sync_all(entries, plan).0),
        forall|k: int|
            0 <= k < plan.len() && (#[trigger] plan[k]).kind == EntryKind::File ==> recorded(
                sync_all(entries, plan).0,
                plan[k],
            ),
    decreases plan.len(),
{
    if plan.len() > 0 {
        let front = plan.drop_last();
        let last = plan.last();
        assert forall|i: int| 0 <= i < front.len() implies #[trigger] front[i] == plan[i] by {}
        assert(settled(front));
        lemma_sync_records_files(entries, front);
        let before = sync_all(entries, front).0;
        let after = sync_all(entries, plan).0;
        assert(after == sync_one(before, last).0);
        if last.kind == EntryKind::File {
            assert(plan[plan.len() - 1] == last);
            let h = last.hash->Some_0;
            let record = synced_record(lookup(before, last.path), last, h);
            lemma_put(before, record);
            assert(after == put(before, record));
            assert(recorded(after, last));
            assert forall|k: int|
                0 <= k < plan.len() && (#[trigger] plan[k]).kind == EntryKind::File implies recorded(
                after,
                plan[k],
            ) by {
                if k < plan.len() - 1 {
                    assert(front[k] == plan[k]);
                    assert(plan[k].path != last.path);
                    assert(lookup(after, plan[k].path) == lookup(before, plan[k].path));
                }
            }
        } else {
            assert(after == before);
            assert forall|k: int|
                0 <= k < plan.len() && (#[trigger] plan[k]).kind == EntryKind::File implies recorded(
                after,
                plan[k],
            ) by {
                assert(front[k] == plan[k]);
            }
        }
    }
}

/// A walk whose files are all recorded as found copies nothing and leaves
/// the records as they are.
pub proof fn lemma_sync_of_recorded_is_quiet(entries: Seq<FileInfoView>, plan: Seq<PlannedView>)
    requires
        distinct_paths(entries),
        settled(plan),
        forall|k: int|
            0 <= k < plan.len() && (#[trigger] plan[k]).kind == EntryKind::File ==> recorded(
                entries,
                plan[k],
            ),
    ensures
        sync_all(entries, plan).0 == entries,
        no_copy(sync_all(entries, plan).1),
    decreases plan.len(),
{
    if plan.len() > 0 {
        let front = plan.drop_last();
        let last = plan.last();
        assert forall|i: int| 0 <= i < front.len() implies #[trigger] front[i] == plan[i] by {}
        assert(settled(front));
        lemma_sync_of_recorded_is_quiet(entries, front);
        assert(plan[plan.len() - 1] == last);
        if last.kind == EntryKind::File {
            lemma_recorded_file_is_skipped(entries, last);
        }
    }
}

/// Running the sync twice in a row over the same walk copies nothing the
/// second time and leaves the index as the first run left it, provided that
/// every file of the walk could be fingerprinted and no file occurs twice in
/// the walk.
pub proof fn lemma_sync_twice(entries: Seq<FileInfoView>, plan: Seq<PlannedView>)
    requires
        distinct_paths(entries),
        settled(plan),
    ensures
        sync_all(sync_all(entries, plan).0, plan).0 == sync_all(entries, plan).0,
        no_copy(sync_all(sync_all(entries, plan).0, plan).1),
{
    lemma_sync_records_files(entries, plan);
    lemma_sync_of_recorded_is_quiet(sync_all(entries, plan).0, plan);
}

/// How many steps of the list copy a file.
pub open spec fn copy_count(actions: Seq<SyncActionView>) -> nat
    decreases actions.len(),
{
    if actions.len() == 0 {
        0
    } else {
        copy_count(actions.drop_last()) + if actions.last() is CopyFile {
            1nat
        } else {
            0nat
        }
    }
}

/// A list in which no step copies has a copy count of zero.
pub proof fn lemma_no_copy_counts_zero(actions: Seq<SyncActionView>)
    requires
        no_copy(actions),
    ensures
        copy_count(actions) == 0,
    decreases actions.len(),
{
    if actions.len() > 0 {
        let front = actions.drop_last();
        assert forall|k: int| 0 <= k < front.len() implies !(#[trigger] front[k] is CopyFile) by {
            assert(front[k] == actions[k]);
        }
        lemma_no_copy_counts_zero(front);
        assert(actions[actions.len() - 1] == actions.last());
    }
}

/// If the content of exactly one file of the walk differs from what is
/// recorded, and every other file of the walk is recorded as found, the sync
/// copies that file and no other, and rewrites the fingerprint of its record
/// and of no other.
pub proof fn lemma_sync_detects_change(
    entries: Seq<FileInfoView>,
    plan: Seq<PlannedView>,
    changed: int,
)
    requires
        distinct_paths(entries),
        settled(plan),
        0 <= changed < plan.len(),
        plan[changed].kind == EntryKind::File,
        forall|j: int|
            0 <= j < plan.len() && j != changed && (#[trigger] plan[j]).kind == EntryKind::File
                ==> recorded(entries, plan[j]),
        lookup(entries, plan[changed].path) is Some,
        lookup(entries, plan[changed].path)->Some_0.backup_path == plan[changed].dest,
        lookup(entries, plan[changed].path)->Some_0.file_type == plan[changed].file_type,
        lookup(entries, plan[changed].path)->Some_0.hash != plan[changed].hash->Some_0,
    ensures
        sync_all(entries, plan).0 == entries.update(
            place_of(entries, plan[changed].path),
            FileInfoView {
                hash: plan[changed].hash->Some_0,
                ..lookup(entries, plan[changed].path)->Some_0
            },
        ),
        copy_count(sync_all(entries, plan).1) == 1,
    decreases plan.len(),
{
    let front = plan.drop_last();
    let last = plan.last();
    let file = plan[changed];
    let fresh = file.hash->Some_0;
    let held = lookup(entries, file.path)->Some_0;
    let place = place_of(entries, file.path);
    let rewritten = FileInfoView { hash: fresh, ..held };
    assert forall|i: int| 0 <= i < front.len() implies #[trigger] front[i] == plan[i] by {}
    assert(settled(front));
    assert(plan[plan.len() - 1] == last);
    assert(has_path(entries, file.path));
    assert(held.original_path == file.path);
    if changed == plan.len() - 1 {
        assert forall|j: int|
            0 <= j < front.len() && (#[trigger] front[j]).kind == EntryKind::File implies recorded(
            entries,
            front[j],
        ) by {
            assert(front[j] == plan[j]);
        }
        lemma_sync_of_recorded_is_quiet(entries, front);
        lemma_no_copy_counts_zero(sync_all(entries, front).1);
        let before = sync_all(entries, front);
        assert(should_copy_spec(Some(held), file.hash));
        assert(synced_record(Some(held), file, fresh) == rewritten);
        assert(put(entries, rewritten) == entries.update(place, rewritten));
        let copy = SyncActionView::CopyFile { from: file.path, to: file.dest };
        assert(sync_one(entries, file) == (entries.update(place, rewritten), Some(copy)));
        assert(before.1.push(copy).drop_last() =~= before.1);
    } else {
        assert(front[changed] == plan[changed]);
        assert forall|j: int|
            0 <= j < front.len() && j != changed && (#[trigger] front[j]).kind
                == EntryKind::File implies recorded(entries, front[j]) by {
            assert(front[j] == plan[j]);
        }
        lemma_sync_detects_change(entries, front, changed);
        let before = sync_all(entries, front);
        assert(before.0 == put(entries, rewritten));
        lemma_put(entries, rewritten);
        if last.kind == EntryKind::File {
            assert(last.path != file.path);
            assert(lookup(before.0, last.path) == lookup(entries, last.path));
            assert(recorded(before.0, last));
            lemma_recorded_file_is_skipped(before.0, last);
            let skip = SyncActionView::Skip { path: last.path };
            assert(before.1.push(skip).drop_last() =~= before.1);
        } else if last.kind == EntryKind::Directory {
            let make = SyncActionView::CreateDir { path: last.dest };
            assert(before.1.push(make).drop_last() =~= before.1);
        }
    }
}

/// A sync drops no record: a path that the index held before the walk is
/// held after it, whatever the walk found.
pub proof fn lemma_sync_never_drops(
    entries: Seq<FileInfoView>,
    plan: Seq<PlannedView>,
    path: Seq<char>,
)
    requires
        distinct_paths(entries),
    ensures
        distinct_paths(sync_all(entries, plan).0),
        has_path(entries, path) ==> has_path(sync_all(entries, plan).0, path),
        sync_all(entries, plan).0.len() >= entries.len(),
    decreases plan.len(),
{
    if plan.len() > 0 {
        let front = plan.drop_last();
        let last = plan.last();
        lemma_sync_never_drops(entries, front, path);
        let before = sync_all(entries, front).0;
        if last.kind == EntryKind::File && last.hash is Some {
            let record = synced_record(lookup(before, last.path), last, last.hash->Some_0);
            lemma_put(before, record);
            assert(keyed(put(before, record)).contains_key(path) == has_path(
                put(before, record),
                path,
            ));
            assert(keyed(before).contains_key(path) == has_path(before, path));
        }
    }
}

} // verus!
