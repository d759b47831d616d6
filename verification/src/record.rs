//! One tracked file and how often it is to be looked at again.

use vstd::prelude::*;
use vstd::string::*;

verus! {

/// What a record holds, as plain mathematical values.
pub struct FileInfoView {
    pub original_path: Seq<char>,
    pub backup_path: Seq<char>,
    pub file_type: Seq<char>,
    pub hash: Seq<char>,
    pub auto_backup: bool,
    pub backup_interval: nat,
    pub backup_frequency: Seq<char>,
}

/// The record of one tracked file.
///
/// `original_path` identifies the record. An empty `hash` means that the
/// content was never fingerprinted. `backup_interval` counts units of
/// `backup_frequency`.
#[derive(Debug, PartialEq, Eq)]
pub struct FileInfo {
    pub original_path: String,
    pub backup_path: String,
    pub file_type: String,
    pub hash: String,
    pub auto_backup: bool,
    pub backup_interval: u32,
    pub backup_frequency: String,
}

impl View for FileInfo {
    type V = FileInfoView;

    open spec fn view(&self) -> FileInfoView {
        FileInfoView {
            original_path: self.original_path@,
            backup_path: self.backup_path@,
            file_type: self.file_type@,
            hash: self.hash@,
            auto_backup: self.auto_backup,
            backup_interval: self.backup_interval as nat,
            backup_frequency: self.backup_frequency@,
        }
    }
}

/// The record that `FileInfo::default` gives: empty texts, no schedule.
pub open spec fn empty_record() -> FileInfoView {
    FileInfoView {
        original_path: Seq::empty(),
        backup_path: Seq::empty(),
        file_type: Seq::empty(),
        hash: Seq::empty(),
        auto_backup: false,
        backup_interval: 0,
        backup_frequency: Seq::empty(),
    }
}

impl Default for FileInfo {
    fn default() -> (record: FileInfo)
        ensures
            record@ == empty_record(),
    {
        FileInfo {
            original_path: String::new(),
            backup_path: String::new(),
            file_type: String::new(),
            hash: String::new(),
            auto_backup: false,
            backup_interval: 0,
            backup_frequency: String::new(),
        }
    }
}

impl Clone for FileInfo {
    fn clone(&self) -> (copy: FileInfo)
        ensures
            copy@ == self@,
    {
        FileInfo {
            original_path: self.original_path.clone(),
            backup_path: self.backup_path.clone(),
            file_type: self.file_type.clone(),
            hash: self.hash.clone(),
            auto_backup: self.auto_backup,
            backup_interval: self.backup_interval,
            backup_frequency: self.backup_frequency.clone(),
        }
    }
}

impl FileInfo {
    /// Whether a fingerprint of the content has been recorded.
    pub fn has_hash(&self) -> (known: bool)
        ensures
            known == (self@.hash.len() > 0),
    {
        self.hash.as_str().unicode_len() > 0
    }
}

/// The unit in which a record's interval is counted.
#[derive(Debug, Clone, Copy, PartialEq, Eq, Structural)]
pub enum FrequencyUnit {
    Minutes,
    Hours,
    Days,
}

/// The text under which a unit is stored in a record.
pub open spec fn unit_name(unit: FrequencyUnit) -> Seq<char> {
    match unit {
        FrequencyUnit::Minutes => "Minute(s)"@,
        FrequencyUnit::Hours => "Hour(s)"@,
        FrequencyUnit::Days => "Day(s)"@,
    }
}

/// The number of seconds in one unit.
pub open spec fn unit_seconds(unit: FrequencyUnit) -> nat {
    match unit {
        FrequencyUnit::Minutes => 60,
        FrequencyUnit::Hours => 3600,
        FrequencyUnit::Days => 86400,
    }
}

/// The unit that a stored text names, if it names one.
pub open spec fn unit_of_name(name: Seq<char>) -> Option<FrequencyUnit> {
    if name == unit_name(FrequencyUnit::Days) {
        Some(FrequencyUnit::Days)
    } else if name == unit_name(FrequencyUnit::Hours) {
        Some(FrequencyUnit::Hours)
    } else if name == unit_name(FrequencyUnit::Minutes) {
        Some(FrequencyUnit::Minutes)
    } else {
        None
    }
}

/// The three unit names differ, so a name stands for one unit only.
pub proof fn lemma_unit_names_distinct()
    ensures
        forall|u: FrequencyUnit| #[trigger] unit_of_name(unit_name(u)) == Some(u),
{
    reveal_strlit("Minute(s)");
    reveal_strlit("Hour(s)");
    reveal_strlit("Day(s)");
    assert forall|u: FrequencyUnit| #[trigger] unit_of_name(unit_name(u)) == Some(u) by {
        assert("Minute(s)"@.len() == 9);
        assert("Hour(s)"@.len() == 7);
        assert("Day(s)"@.len() == 6);
    }
}

impl FrequencyUnit {
    /// The text under which the unit is stored.
    pub fn as_str(&self) -> (name: &'static str)
        ensures
            name@ == unit_name(*self),
    {
        match self {
            FrequencyUnit::Minutes => "Minute(s)",
            FrequencyUnit::Hours => "Hour(s)",
            FrequencyUnit::Days => "Day(s)",
        }
    }

    /// Reads a stored unit name; `None` for any other text.
    pub fn parse(name: &str) -> (unit: Option<FrequencyUnit>)
        ensures
            unit == unit_of_name(name@),
    {
        if name.eq("Day(s)") {
            Some(FrequencyUnit::Days)
        } else if name.eq("Hour(s)") {
            Some(FrequencyUnit::Hours)
        } else if name.eq("Minute(s)") {
            Some(FrequencyUnit::Minutes)
        } else {
            None
        }
    }

    /// The number of seconds in one unit.
    pub fn seconds(&self) -> (secs: u64)
        ensures
            secs == unit_seconds(*self),
    {
        match self {
            FrequencyUnit::Minutes => 60,
            FrequencyUnit::Hours => 3600,
            FrequencyUnit::Days => 86400,
        }
    }
}

} // verus!
