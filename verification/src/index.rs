//! The index of tracked files: at most one record for each original path.

use crate::record::{FileInfo, FileInfoView};
use vstd::prelude::*;

verus! {

/// No two records of the list share an original path.
pub open spec fn distinct_paths(entries: Seq<FileInfoView>) -> bool {
    forall|i: int, j: int|
        0 <= i < j < entries.len() ==> entries[i].original_path != entries[j].original_path
}

/// Some record of the list has this original path.
pub open spec fn has_path(entries: Seq<FileInfoView>, path: Seq<char>) -> bool {
    exists|i: int| 0 <= i < entries.len() && #[trigger] entries[i].original_path == path
}

/// The place of a record with this original path, where there is one.
pub open spec fn place_of(entries: Seq<FileInfoView>, path: Seq<char>) -> int {
    choose|i: int| 0 <= i < entries.len() && #[trigger] entries[i].original_path == path
}

/// The mapping from original path to record that a list of records stands for.
pub open spec fn keyed(entries: Seq<FileInfoView>) -> Map<Seq<char>, FileInfoView> {
    Map::new(
        |path: Seq<char>| has_path(entries, path),
        |path: Seq<char>| entries[place_of(entries, path)],
    )
}

/// The record with this original path, if the list has one.
pub open spec fn lookup(entries: Seq<FileInfoView>, path: Seq<char>) -> Option<FileInfoView> {
    if has_path(entries, path) {
        Some(entries[place_of(entries, path)])
    } else {
        None
    }
}

/// The list after a record is put in: it takes the place of the record with
/// the same original path, or comes last where there is none.
pub open spec fn put(entries: Seq<FileInfoView>, record: FileInfoView) -> Seq<FileInfoView> {
    if has_path(entries, record.original_path) {
        entries.update(place_of(entries, record.original_path), record)
    } else {
        entries.push(record)
    }
}

/// The mapping built by putting the records of a list in one after the
/// other, a later record replacing an earlier one with the same path.
pub open spec fn collect(records: Seq<FileInfoView>) -> Map<Seq<char>, FileInfoView>
    decreases records.len(),
{
    if records.len() == 0 {
        Map::empty()
    } else {
        collect(records.drop_last()).insert(records.last().original_path, records.last())
    }
}

/// In a list without repeated paths, each record is the one found under its
/// own path.
pub proof fn lemma_keyed_at(entries: Seq<FileInfoView>, i: int)
    requires
        distinct_paths(entries),
        0 <= i < entries.len(),
    ensures
        keyed(entries).contains_key(entries[i].original_path),
        keyed(entries)[entries[i].original_path] == entries[i],
{
    let path = entries[i].original_path;
    assert(has_path(entries, path));
    let k = place_of(entries, path);
    assert(0 <= k < entries.len() && entries[k].original_path == path);
    assert(k == i);
}

/// Every record of the mapping is stored under its own original path.
pub proof fn lemma_keyed_by_own_path(entries: Seq<FileInfoView>, path: Seq<char>)
    requires
        keyed(entries).contains_key(path),
    ensures
        keyed(entries)[path].original_path == path,
        0 <= place_of(entries, path) < entries.len(),
{
    assert(has_path(entries, path));
}

/// Adding a record with a new path at the end puts it into the mapping.
pub proof fn lemma_keyed_push(entries: Seq<FileInfoView>, record: FileInfoView)
    requires
        distinct_paths(entries),
        !has_path(entries, record.original_path),
    ensures
        distinct_paths(entries.push(record)),
        keyed(entries.push(record)) == keyed(entries).insert(record.original_path, record),
{
    let after = entries.push(record);
    assert forall|i: int, j: int| 0 <= i < j < after.len() implies after[i].original_path
        != after[j].original_path by {
        if j == entries.len() {
            if entries[i].original_path == record.original_path {
                assert(has_path(entries, record.original_path));
            }
        }
    }
    let want = keyed(entries).insert(record.original_path, record);
    assert forall|path: Seq<char>| keyed(after).contains_key(path) == want.contains_key(
        path,
    ) by {
        if has_path(after, path) {
            let k = place_of(after, path);
            if k < entries.len() {
                assert(entries[k].original_path == path);
            }
        }
        if has_path(entries, path) {
            let k = place_of(entries, path);
            assert(after[k].original_path == path);
        }
        if path == record.original_path {
            assert(after[entries.len() as int].original_path == path);
        }
    }
    assert forall|path: Seq<char>| keyed(after).contains_key(path) implies keyed(after)[path]
        == want[path] by {
        let k = place_of(after, path);
        lemma_keyed_at(after, k);
        if k < entries.len() {
            lemma_keyed_at(entries, k);
        }
    }
    assert(keyed(after) =~= want);
}

/// Replacing a record by another with the same path replaces it in the
/// mapping.
pub proof fn lemma_keyed_update(entries: Seq<FileInfoView>, i: int, record: FileInfoView)
    requires
        distinct_paths(entries),
        0 <= i < entries.len(),
        entries[i].original_path == record.original_path,
    ensures
        distinct_paths(entries.update(i, record)),
        keyed(entries.update(i, record)) == keyed(entries).insert(record.original_path, record),
{
    let after = entries.update(i, record);
    assert forall|a: int, b: int| 0 <= a < b < after.len() implies after[a].original_path
        != after[b].original_path by {
        assert(after[a].original_path == entries[a].original_path);
        assert(after[b].original_path == entries[b].original_path);
    }
    let want = keyed(entries).insert(record.original_path, record);
    assert forall|path: Seq<char>| keyed(after).contains_key(path) == want.contains_key(
        path,
    ) by {
        if has_path(after, path) {
            let k = place_of(after, path);
            assert(entries[k].original_path == path);
        }
        if has_path(entries, path) {
            let k = place_of(entries, path);
            assert(after[k].original_path == path);
        }
        if path == record.original_path {
            assert(after[i].original_path == path);
        }
    }
    assert forall|path: Seq<char>| keyed(after).contains_key(path) implies keyed(after)[path]
        == want[path] by {
        let k = place_of(after, path);
        lemma_keyed_at(after, k);
        lemma_keyed_at(entries, k);
    }
    assert(keyed(after) =~= want);
}

/// Taking a record out of the list takes its path out of the mapping.
pub proof fn lemma_keyed_remove(entries: Seq<FileInfoView>, i: int)
    requires
        distinct_paths(entries),
        0 <= i < entries.len(),
    ensures
        distinct_paths(entries.remove(i)),
        keyed(entries.remove(i)) == keyed(entries).remove(entries[i].original_path),
{
    let after = entries.remove(i);
    let gone = entries[i].original_path;
    assert forall|a: int| 0 <= a < after.len() implies #[trigger] after[a] == entries[if a < i {
        a
    } else {
        a + 1
    }] by {}
    assert forall|a: int, b: int| 0 <= a < b < after.len() implies after[a].original_path
        != after[b].original_path by {
        let a0 = if a < i {
            a
        } else {
            a + 1
        };
        let b0 = if b < i {
            b
        } else {
            b + 1
        };
        assert(after[a] == entries[a0]);
        assert(after[b] == entries[b0]);
    }
    let want = keyed(entries).remove(gone);
    assert forall|path: Seq<char>| keyed(after).contains_key(path) == want.contains_key(
        path,
    ) by {
        if has_path(after, path) {
            let k = place_of(after, path);
            let k0 = if k < i {
                k
            } else {
                k + 1
            };
            assert(after[k] == entries[k0]);
            assert(entries[k0].original_path == path);
        }
        if has_path(entries, path) && path != gone {
            let k = place_of(entries, path);
            let k1 = if k < i {
                k
            } else {
                k - 1
            };
            assert(after[k1] == entries[k]);
            assert(after[k1].original_path == path);
        }
    }
    assert forall|path: Seq<char>| keyed(after).contains_key(path) implies keyed(after)[path]
        == want[path] by {
        let k = place_of(after, path);
        let k0 = if k < i {
            k
        } else {
            k + 1
        };
        assert(after[k] == entries[k0]);
        lemma_keyed_at(after, k);
        lemma_keyed_at(entries, k0);
    }
    assert(keyed(after) =~= want);
}

/// Putting a record in keeps paths distinct and sets the record under its
/// path in the mapping.
pub proof fn lemma_put(entries: Seq<FileInfoView>, record: FileInfoView)
    requires
        distinct_paths(entries),
    ensures
        distinct_paths(put(entries, record)),
        keyed(put(entries, record)) == keyed(entries).insert(record.original_path, record),
        lookup(put(entries, record), record.original_path) == Some(record),
        forall|path: Seq<char>|
            path != record.original_path ==> lookup(put(entries, record), path) == lookup(
                entries,
                path,
            ),
{
    if has_path(entries, record.original_path) {
        lemma_keyed_update(entries, place_of(entries, record.original_path), record);
    } else {
        lemma_keyed_push(entries, record);
    }
    let after = put(entries, record);
    assert(keyed(after).contains_key(record.original_path));
    assert(keyed(after)[record.original_path] == record);
    assert forall|path: Seq<char>| path != record.original_path implies lookup(after, path)
        == lookup(entries, path) by {
        assert(keyed(after).contains_key(path) == keyed(entries).contains_key(path));
        if has_path(entries, path) {
            assert(keyed(after)[path] == keyed(entries)[path]);
        }
    }
}

/// For a list without repeated paths, putting its records in one after the
/// other gives the mapping that the list stands for.
pub proof fn lemma_collect_keyed(entries: Seq<FileInfoView>)
    requires
        distinct_paths(entries),
    ensures
        collect(entries) == keyed(entries),
    decreases entries.len(),
{
    if entries.len() == 0 {
        assert(keyed(entries) =~= Map::<Seq<char>, FileInfoView>::empty());
    } else {
        let front = entries.drop_last();
        let last = entries.last();
        assert forall|i: int, j: int| 0 <= i < j < front.len() implies front[i].original_path
            != front[j].original_path by {
            assert(front[i] == entries[i]);
            assert(front[j] == entries[j]);
        }
        if has_path(front, last.original_path) {
            let k = place_of(front, last.original_path);
            assert(entries[k] == front[k]);
            assert(false);
        }
        lemma_collect_keyed(front);
        lemma_keyed_push(front, last);
        assert(front.push(last) =~= entries);
    }
}

/// The mapping of a list without repeated paths has as many paths as the
/// list has records.
pub proof fn lemma_keyed_size(entries: Seq<FileInfoView>)
    requires
        distinct_paths(entries),
    ensures
        keyed(entries).dom().finite(),
        keyed(entries).dom().len() == entries.len(),
    decreases entries.len(),
{
    if entries.len() == 0 {
        assert(keyed(entries).dom() =~= Set::<Seq<char>>::empty());
    } else {
        let front = entries.drop_last();
        let last = entries.last();
        assert forall|i: int, j: int| 0 <= i < j < front.len() implies front[i].original_path
            != front[j].original_path by {
            assert(front[i] == entries[i]);
            assert(front[j] == entries[j]);
        }
        if has_path(front, last.original_path) {
            let k = place_of(front, last.original_path);
            assert(entries[k] == front[k]);
            assert(false);
        }
        lemma_keyed_size(front);
        lemma_keyed_push(front, last);
        assert(front.push(last) =~= entries);
        assert(keyed(entries).dom() =~= keyed(front).dom().insert(last.original_path));
    }
}

/// The index of tracked files.
///
/// Records are kept in the order in which their paths first came in. No two
/// of them share an original path, so the index stands for a mapping from
/// original path to record.
#[derive(Debug)]
pub struct BackupMetadata {
    files: Vec<FileInfo>,
}

impl View for BackupMetadata {
    type V = Map<Seq<char>, FileInfoView>;

    /// The mapping from original path to record.
    open spec fn view(&self) -> Map<Seq<char>, FileInfoView> {
        keyed(self.entries())
    }
}

impl BackupMetadata {
    /// The records in the order in which they are kept.
    pub closed spec fn entries(&self) -> Seq<FileInfoView> {
        self.files@.map_values(|r: FileInfo| r@)
    }

    /// The invariant of the index: no original path occurs twice.
    pub open spec fn wf(&self) -> bool {
        distinct_paths(self.entries())
    }

    /// An index without records.
    pub fn new() -> (index: BackupMetadata)
        ensures
            index.wf(),
            index.entries() == Seq::<FileInfoView>::empty(),
            index@ == Map::<Seq<char>, FileInfoView>::empty(),
    {
        let index = BackupMetadata { files: Vec::new() };
        assert(index.entries() =~= Seq::<FileInfoView>::empty());
        assert(index@ =~= Map::<Seq<char>, FileInfoView>::empty());
        index
    }

    /// The number of records, which is the number of paths in the mapping.
    pub fn len(&self) -> (n: usize)
        ensures
            n == self.entries().len(),
            self.wf() ==> self@.dom().finite() && n == self@.dom().len(),
    {
        proof {
            if self.wf() {
                lemma_keyed_size(self.entries());
            }
        }
        self.files.len()
    }

    /// Whether the index holds no record.
    pub fn is_empty(&self) -> (empty: bool)
        ensures
            empty == (self.entries().len() == 0),
            self.wf() ==> empty == (self@ == Map::<Seq<char>, FileInfoView>::empty()),
    {
        proof {
            if self.wf() {
                if self.entries().len() == 0 {
                    assert(self@ =~= Map::<Seq<char>, FileInfoView>::empty());
                } else {
                    lemma_keyed_at(self.entries(), 0);
                }
            }
        }
        self.files.len() == 0
    }

    /// The place of the record with this original path, if there is one.
    pub fn position(&self, path: &str) -> (place: Option<usize>)
        ensures
            match place {
                Some(i) => i < self.entries().len() && self.entries()[i as int].original_path
                    == path@,
                None => !has_path(self.entries(), path@),
            },
    {
        let mut i: usize = 0;
        while i < self.files.len()
            invariant
                i <= self.files@.len(),
                forall|k: int| 0 <= k < i ==> (#[trigger] self.entries()[k]).original_path != path@,
            decreases self.files@.len() - i,
        {
            if self.files[i].original_path.as_str().eq(path) {
                return Some(i);
            }
            i = i + 1;
        }
        None
    }

    /// Whether a record with this original path is held.
    pub fn contains(&self, path: &str) -> (found: bool)
        ensures
            found == self@.contains_key(path@),
    {
        self.position(path).is_some()
    }

    /// The record at a place of the list.
    pub fn record_at(&self, i: usize) -> (record: &FileInfo)
        requires
            i < self.entries().len(),
        ensures
            record@ == self.entries()[i as int],
    {
        &self.files[i]
    }

    /// The record with this original path, if there is one.
    pub fn get(&self, path: &str) -> (found: Option<&FileInfo>)
        requires
            self.wf(),
        ensures
            match found {
                Some(record) => self@.contains_key(path@) && record@ == self@[path@],
                None => !self@.contains_key(path@),
            },
            match found {
                Some(record) => lookup(self.entries(), path@) == Some(record@),
                None => lookup(self.entries(), path@) is None,
            },
    {
        match self.position(path) {
            Some(i) => {
                proof {
                    lemma_keyed_at(self.entries(), i as int);
                }
                Some(&self.files[i])
            },
            None => None,
        }
    }

    /// Puts a record in: it replaces the record with the same original path,
    /// in its place, or comes last where there was none.
    pub fn upsert(&mut self, record: FileInfo)
        requires
            old(self).wf(),
        ensures
            final(self).wf(),
            final(self)@ == old(self)@.insert(record@.original_path, record@),
            final(self).entries() == put(old(self).entries(), record@),
    {
        let ghost before = self.entries();
        let ghost added = record@;
        match self.position(record.original_path.as_str()) {
            Some(i) => {
                proof {
                    lemma_keyed_at(before, i as int);
                    lemma_keyed_by_own_path(before, added.original_path);
                    lemma_keyed_update(before, i as int, added);
                    assert(place_of(before, added.original_path) == i as int);
                }
                self.files.set(i, record);
                assert(self.entries() =~= before.update(i as int, added));
            },
            None => {
                proof {
                    lemma_keyed_push(before, added);
                }
                self.files.push(record);
                assert(self.entries() =~= before.push(added));
            },
        }
    }

    /// Writes a new fingerprint into the record at a place of the list.
    pub fn set_hash_at(&mut self, i: usize, hash: String)
        requires
            old(self).wf(),
            i < old(self).entries().len(),
        ensures
            final(self).wf(),
            final(self).entries() == old(self).entries().update(
                i as int,
                FileInfoView { hash: hash@, ..old(self).entries()[i as int] },
            ),
    {
        let ghost before = self.entries();
        let current = &self.files[i];
        let record = FileInfo {
            original_path: current.original_path.clone(),
            backup_path: current.backup_path.clone(),
            file_type: current.file_type.clone(),
            hash,
            auto_backup: current.auto_backup,
            backup_interval: current.backup_interval,
            backup_frequency: current.backup_frequency.clone(),
        };
        proof {
            lemma_keyed_update(before, i as int, record@);
        }
        self.files.set(i, record);
        assert(self.entries() =~= before.update(i as int, record@));
    }

    /// Takes the record with this original path out and returns it; the
    /// other records keep their order.
    pub fn remove(&mut self, path: &str) -> (taken: Option<FileInfo>)
        requires
            old(self).wf(),
        ensures
            final(self).wf(),
            final(self)@ == old(self)@.remove(path@),
            match taken {
                Some(record) => old(self)@.contains_key(path@) && record@ == old(self)@[path@]
                    && final(self).entries() == old(self).entries().remove(
                    place_of(old(self).entries(), path@),
                ),
                None => !old(self)@.contains_key(path@) && final(self).entries() == old(
                    self,
                ).entries(),
            },
    {
        let ghost before = self.entries();
        match self.position(path) {
            Some(i) => {
                proof {
                    lemma_keyed_at(before, i as int);
                    lemma_keyed_by_own_path(before, path@);
                    lemma_keyed_remove(before, i as int);
                    assert(place_of(before, path@) == i as int);
                }
                let record = self.files.remove(i);
                assert(self.entries() =~= before.remove(i as int));
                Some(record)
            },
            None => {
                assert(self@ =~= old(self)@.remove(path@));
                None
            },
        }
    }

    /// Copies of all records, in the order in which they are kept.
    pub fn records(&self) -> (list: Vec<FileInfo>)
        ensures
            list@.map_values(|r: FileInfo| r@) == self.entries(),
    {
        let mut list: Vec<FileInfo> = Vec::new();
        let mut i: usize = 0;
        while i < self.files.len()
            invariant
                i <= self.files@.len(),
                list@.len() == i,
                forall|k: int| 0 <= k < i ==> (#[trigger] list@[k])@ == self.files@[k]@,
            decreases self.files@.len() - i,
        {
            list.push(self.files[i].clone());
            i = i + 1;
        }
        assert(list@.map_values(|r: FileInfo| r@) =~= self.entries());
        list
    }
}

impl Default for BackupMetadata {
    fn default() -> (index: BackupMetadata)
        ensures
            index.wf(),
            index.entries() == Seq::<FileInfoView>::empty(),
            index@ == Map::<Seq<char>, FileInfoView>::empty(),
    {
        BackupMetadata::new()
    }
}

impl Clone for BackupMetadata {
    fn clone(&self) -> (copy: BackupMetadata)
        ensures
            copy.entries() == self.entries(),
            copy@ == self@,
    {
        let files = self.records();
        BackupMetadata { files }
    }
}

/// A record with its fingerprint filled in where it had none and a fresh one
/// is at hand; any other record as it is.
pub open spec fn backfilled(record: FileInfoView, fresh: Option<Seq<char>>) -> FileInfoView {
    if record.hash.len() == 0 && fresh is Some {
        FileInfoView { hash: fresh->Some_0, ..record }
    } else {
        record
    }
}

/// The fresh fingerprint at hand for the record at a place of a list: none
/// where the list of fingerprints is too short.
pub open spec fn fresh_at(fresh: Seq<Option<String>>, i: int) -> Option<Seq<char>> {
    if 0 <= i < fresh.len() && fresh[i] is Some {
        Some(fresh[i]->Some_0@)
    } else {
        None
    }
}

/// The records of a flat list, each with its fingerprint filled in where it
/// had none and a fresh one is at hand.
pub open spec fn backfilled_list(list: Seq<FileInfo>, fresh: Seq<Option<String>>) -> Seq<
    FileInfoView,
> {
    Seq::new(list.len(), |i: int| backfilled(list[i]@, fresh_at(fresh, i)))
}

/// Fills in a record's fingerprint where it has none and a fresh one is at
/// hand.
pub fn backfill(record: FileInfo, fresh: Option<String>) -> (filled: FileInfo)
    ensures
        filled@ == backfilled(
            record@,
            match fresh {
                Some(h) => Some(h@),
                None => None,
            },
        ),
{
    if record.has_hash() {
        record
    } else {
        match fresh {
            Some(hash) => FileInfo {
                original_path: record.original_path,
                backup_path: record.backup_path,
                file_type: record.file_type,
                hash,
                auto_backup: record.auto_backup,
                backup_interval: record.backup_interval,
                backup_frequency: record.backup_frequency,
            },
            None => record,
        }
    }
}

/// Builds the index that a flat list of records stands for: the records are
/// put in one after the other, a later one replacing an earlier one with the
/// same original path. A list without repeated paths is kept as it is.
pub fn update_file_info(files: Vec<FileInfo>) -> (index: BackupMetadata)
    ensures
        index.wf(),
        index@ == collect(files@.map_values(|r: FileInfo| r@)),
        distinct_paths(files@.map_values(|r: FileInfo| r@)) ==> index.entries()
            == files@.map_values(|r: FileInfo| r@),
{
    let ghost views = files@.map_values(|r: FileInfo| r@);
    let mut index = BackupMetadata::new();
    let mut i: usize = 0;
    assert(views.take(0) =~= Seq::<FileInfoView>::empty());
    while i < files.len()
        invariant
            i <= files@.len(),
            views == files@.map_values(|r: FileInfo| r@),
            index.wf(),
            index@ == collect(views.take(i as int)),
            distinct_paths(views) ==> index.entries() == views.take(i as int),
        decreases files@.len() - i,
    {
        let record = files[i].clone();
        proof {
            assert(views.take(i as int + 1).drop_last() =~= views.take(i as int));
            assert(views.take(i as int + 1).last() == views[i as int]);
            if distinct_paths(views) {
                if has_path(index.entries(), record@.original_path) {
                    let k = place_of(index.entries(), record@.original_path);
                    assert(views.take(i as int)[k] == views[k]);
                    assert(false);
                }
                assert(views.take(i as int).push(views[i as int]) =~= views.take(i as int + 1));
            }
        }
        index.upsert(record);
        i = i + 1;
    }
    assert(views.take(i as int) =~= views);
    index
}

/// Builds the index from a flat list of records whose fingerprints may be
/// missing: each record without one takes the fresh fingerprint at its place
/// in `fresh`, where there is one, and the records are then put in one after
/// the other.
pub fn from_legacy(list: Vec<FileInfo>, fresh: Vec<Option<String>>) -> (index: BackupMetadata)
    ensures
        index.wf(),
        index@ == collect(backfilled_list(list@, fresh@)),
        distinct_paths(backfilled_list(list@, fresh@)) ==> index.entries() == backfilled_list(
            list@,
            fresh@,
        ),
{
    let ghost want = backfilled_list(list@, fresh@);
    let mut filled: Vec<FileInfo> = Vec::new();
    let mut i: usize = 0;
    while i < list.len()
        invariant
            i <= list@.len(),
            filled@.len() == i,
            want == backfilled_list(list@, fresh@),
            forall|k: int| 0 <= k < i ==> (#[trigger] filled@[k])@ == want[k],
        decreases list@.len() - i,
    {
        let hash: Option<String> = if i < fresh.len() {
            fresh[i].clone()
        } else {
            None
        };
        filled.push(backfill(list[i].clone(), hash));
        i = i + 1;
    }
    assert(filled@.map_values(|r: FileInfo| r@) =~= want);
    update_file_info(filled)
}

/// The list after a record is added unless its path is already there.
pub open spec fn add_new(entries: Seq<FileInfoView>, record: FileInfoView) -> Seq<FileInfoView> {
    if has_path(entries, record.original_path) {
        entries
    } else {
        entries.push(record)
    }
}

/// The list after the records of another list are added, one after the
/// other, each unless its path is already there.
pub open spec fn merge_new(entries: Seq<FileInfoView>, added: Seq<FileInfoView>) -> Seq<
    FileInfoView,
>
    decreases added.len(),
{
    if added.len() == 0 {
        entries
    } else {
        add_new(merge_new(entries, added.drop_last()), added.last())
    }
}

/// Takes new records into the index: each record whose original path the
/// index does not hold yet comes last; a record whose path is held already
/// is passed over, and the record held stays as it is.
pub fn save_info(index: &mut BackupMetadata, info: Vec<FileInfo>)
    requires
        old(index).wf(),
    ensures
        final(index).wf(),
        final(index).entries() == merge_new(
            old(index).entries(),
            info@.map_values(|r: FileInfo| r@),
        ),
{
    let ghost start = index.entries();
    let ghost views = info@.map_values(|r: FileInfo| r@);
    let mut i: usize = 0;
    assert(views.take(0) =~= Seq::<FileInfoView>::empty());
    while i < info.len()
        invariant
            i <= info@.len(),
            views == info@.map_values(|r: FileInfo| r@),
            index.wf(),
            index.entries() == merge_new(start, views.take(i as int)),
        decreases info@.len() - i,
    {
        proof {
            assert(views.take(i as int + 1).drop_last() =~= views.take(i as int));
            assert(views.take(i as int + 1).last() == views[i as int]);
        }
        if !index.contains(info[i].original_path.as_str()) {
            index.upsert(info[i].clone());
        }
        i = i + 1;
    }
    assert(views.take(i as int) =~= views);
}

/// A flat list in which every record has its fingerprint comes through the
/// migration as it is, whatever fresh fingerprints are at hand.
pub proof fn lemma_legacy_with_hashes(list: Seq<FileInfo>, fresh: Seq<Option<String>>)
    requires
        forall|i: int| 0 <= i < list.len() ==> (#[trigger] list[i])@.hash.len() > 0,
    ensures
        backfilled_list(list, fresh) == list.map_values(|r: FileInfo| r@),
{
    assert(backfilled_list(list, fresh) =~= list.map_values(|r: FileInfo| r@));
}

/// Writing an index out as a flat list and building an index from that list
/// gives the same mapping, and the same order of records.
pub proof fn lemma_list_round_trip(entries: Seq<FileInfoView>)
    requires
        distinct_paths(entries),
    ensures
        collect(entries) == keyed(entries),
        merge_new(Seq::<FileInfoView>::empty(), entries) == entries,
    decreases entries.len(),
{
    lemma_collect_keyed(entries);
    if entries.len() > 0 {
        let front = entries.drop_last();
        let last = entries.last();
        assert forall|i: int, j: int| 0 <= i < j < front.len() implies front[i].original_path
            != front[j].original_path by {
            assert(front[i] == entries[i]);
            assert(front[j] == entries[j]);
        }
        lemma_list_round_trip(front);
        if has_path(front, last.original_path) {
            let k = place_of(front, last.original_path);
            assert(entries[k] == front[k]);
            assert(false);
        }
        assert(front.push(last) =~= entries);
    }
}

} // verus!
