//! The schedulers: the sweep that starts one re-check loop for each file
//! with auto-backup switched on, and the global loop that a daemon runs.

use crate::index::BackupMetadata;
use crate::record::{unit_of_name, unit_seconds, FileInfo, FileInfoView, FrequencyUnit};
use vstd::prelude::*;

verus! {

/// The period of a file whose unit is not one of the three known ones, in
/// seconds.
pub const DEFAULT_PERIOD_SECS: u64 = 3600;

/// The global schedule: whether the daemon's loop backs up at all, and how
/// many minutes lie between two sweeps.
#[derive(Debug, Clone, Copy, PartialEq, Eq, Structural)]
pub struct BackupSettings {
    pub auto_backup_enabled: bool,
    pub interval_minutes: u32,
}

impl Default for BackupSettings {
    /// Auto-backup is off until the user switches it on.
    fn default() -> (settings: BackupSettings)
        ensures
            settings == (BackupSettings { auto_backup_enabled: false, interval_minutes: 60 }),
    {
        BackupSettings { auto_backup_enabled: false, interval_minutes: 60 }
    }
}

/// An interval counted in a named unit, in seconds; nothing for a name that
/// is not a unit.
pub open spec fn convert_time_spec(interval: nat, frequency: Seq<char>) -> Option<nat> {
    match unit_of_name(frequency) {
        Some(unit) => Some(interval * unit_seconds(unit)),
        None => None,
    }
}

/// The time between two re-checks of a file, in seconds: its interval in its
/// own unit, or the default period where the unit is not known.
pub open spec fn period_spec(record: FileInfoView) -> nat {
    match convert_time_spec(record.backup_interval, record.backup_frequency) {
        Some(secs) => secs,
        None => DEFAULT_PERIOD_SECS as nat,
    }
}

/// A record's interval, counted in the unit that `frequency` names, in
/// seconds. `None` for a name that is not a unit.
pub fn convert_time(info: &FileInfo, frequency: &str) -> (secs: Option<u64>)
    ensures
        match secs {
            Some(s) => convert_time_spec(info@.backup_interval, frequency@) == Some(s as nat),
            None => convert_time_spec(info@.backup_interval, frequency@) is None,
        },
{
    match FrequencyUnit::parse(frequency) {
        Some(unit) => {
            let factor: u64 = unit.seconds();
            let interval: u64 = info.backup_interval as u64;
            assert(interval * factor <= 0xffff_ffff * 86400) by (nonlinear_arith)
                requires
                    interval <= 0xffff_ffff,
                    factor <= 86400,
            ;
            Some(interval * factor)
        },
        None => None,
    }
}

/// The time between two re-checks of a file, in seconds.
pub fn recheck_period(info: &FileInfo) -> (secs: u64)
    ensures
        secs == period_spec(info@),
{
    match convert_time(info, info.backup_frequency.as_str()) {
        Some(secs) => secs,
        None => DEFAULT_PERIOD_SECS,
    }
}

/// The original paths of the files that have a re-check loop running.
#[derive(Debug)]
pub struct RunningBackups {
    paths: Vec<String>,
}

impl View for RunningBackups {
    type V = Set<Seq<char>>;

    closed spec fn view(&self) -> Set<Seq<char>> {
        Set::new(|p: Seq<char>| exists|i: int| 0 <= i < self.paths@.len() && self.paths@[i]@ == p)
    }
}

impl RunningBackups {
    /// No loop is running.
    pub fn new() -> (running: RunningBackups)
        ensures
            running@ == Set::<Seq<char>>::empty(),
    {
        let running = RunningBackups { paths: Vec::new() };
        assert(running@ =~= Set::<Seq<char>>::empty());
        running
    }

    /// Whether a loop is running for this path.
    pub fn contains(&self, path: &str) -> (found: bool)
        ensures
            found == self@.contains(path@),
    {
        let mut i: usize = 0;
        while i < self.paths.len()
            invariant
                i <= self.paths@.len(),
                forall|k: int| 0 <= k < i ==> self.paths@[k]@ != path@,
            decreases self.paths@.len() - i,
        {
            if self.paths[i].as_str().eq(path) {
                return true;
            }
            i = i + 1;
        }
        false
    }

    /// Marks a path as having a loop. Returns whether it was unmarked
    /// before.
    pub fn insert(&mut self, path: String) -> (added: bool)
        ensures
            final(self)@ == old(self)@.insert(path@),
            added == !old(self)@.contains(path@),
    {
        if self.contains(path.as_str()) {
            assert(self@ =~= old(self)@.insert(path@));
            false
        } else {
            let ghost before = self.paths@;
            let ghost added_path = path@;
            self.paths.push(path);
            assert forall|p: Seq<char>| self@.contains(p) == old(self)@.insert(
                added_path,
            ).contains(p) by {
                if old(self)@.contains(p) {
                    let i = choose|i: int| 0 <= i < before.len() && before[i]@ == p;
                    assert(self.paths@[i]@ == p);
                }
                if p == added_path {
                    assert(self.paths@[before.len() as int]@ == p);
                }
            }
            assert(self@ =~= old(self)@.insert(added_path));
            true
        }
    }
}

/// A re-check loop to start: the record of the file, and the seconds to
/// wait before each re-check.
#[derive(Debug, PartialEq, Eq)]
pub struct ScheduledJob {
    pub record: FileInfo,
    pub period_secs: u64,
}

pub struct ScheduledJobView {
    pub record: FileInfoView,
    pub period_secs: nat,
}

impl View for ScheduledJob {
    type V = ScheduledJobView;

    open spec fn view(&self) -> ScheduledJobView {
        ScheduledJobView { record: self.record@, period_secs: self.period_secs as nat }
    }
}

/// The job for a record.
pub open spec fn job_for(record: FileInfoView) -> ScheduledJobView {
    ScheduledJobView { record: record, period_secs: period_spec(record) }
}

/// What a sweep over the records does: each record with auto-backup on
/// whose path has no loop yet is marked and gets a job; any other record is
/// passed over. Gives the marked paths after the sweep and the jobs, in the
/// order of the records.
pub open spec fn sweep(entries: Seq<FileInfoView>, running: Set<Seq<char>>) -> (
    Set<Seq<char>>,
    Seq<ScheduledJobView>,
)
    decreases entries.len(),
{
    if entries.len() == 0 {
        (running, Seq::empty())
    } else {
        let before = sweep(entries.drop_last(), running);
        let record = entries.last();
        if record.auto_backup && !before.0.contains(record.original_path) {
            (before.0.insert(record.original_path), before.1.push(job_for(record)))
        } else {
            before
        }
    }
}

/// The views of a list of jobs.
pub open spec fn job_views(jobs: Seq<ScheduledJob>) -> Seq<ScheduledJobView> {
    jobs.map_values(|j: ScheduledJob| j@)
}

/// One sweep of the per-file scheduler. Every record with auto-backup on
/// whose path is not yet marked as running is marked, and a job is returned
/// for it; the caller starts one re-check loop for each job.
pub fn auto_backup(index: &BackupMetadata, running: &mut RunningBackups) -> (jobs: Vec<
    ScheduledJob,
>)
    ensures
        final(running)@ == sweep(index.entries(), old(running)@).0,
        job_views(jobs@) == sweep(index.entries(), old(running)@).1,
{
    let ghost entries = index.entries();
    let ghost start = running@;
    let n = index.len();
    let mut jobs: Vec<ScheduledJob> = Vec::new();
    let mut i: usize = 0;
    assert(entries.take(0) =~= Seq::<FileInfoView>::empty());
    assert(job_views(jobs@) =~= Seq::<ScheduledJobView>::empty());
    while i < n
        invariant
            i <= n,
            n == entries.len(),
            entries == index.entries(),
            running@ == sweep(entries.take(i as int), start).0,
            job_views(jobs@) == sweep(entries.take(i as int), start).1,
        decreases n - i,
    {
        let record = index.record_at(i);
        let ghost before_jobs = job_views(jobs@);
        proof {
            assert(entries.take(i as int + 1).drop_last() =~= entries.take(i as int));
            assert(entries.take(i as int + 1).last() == entries[i as int]);
        }
        if record.auto_backup && !running.contains(record.original_path.as_str()) {
            running.insert(record.original_path.clone());
            let job = ScheduledJob { record: record.clone(), period_secs: recheck_period(record) };
            jobs.push(job);
            assert(job_views(jobs@) =~= before_jobs.push(job_for(entries[i as int])));
        }
        i = i + 1;
    }
    assert(entries.take(i as int) =~= entries);
    jobs
}

/// Some record with auto-backup on has this path.
pub open spec fn enabled_path(entries: Seq<FileInfoView>, path: Seq<char>) -> bool {
    exists|i: int|
        0 <= i < entries.len() && (#[trigger] entries[i]).auto_backup && entries[i].original_path
            == path
}

/// After a sweep, the marked paths are those marked before together with
/// the paths of all records with auto-backup on.
pub proof fn lemma_sweep_marks(entries: Seq<FileInfoView>, running: Set<Seq<char>>)
    ensures
        forall|p: Seq<char>|
            sweep(entries, running).0.contains(p) == (running.contains(p) || enabled_path(
                entries,
                p,
            )),
    decreases entries.len(),
{
    if entries.len() > 0 {
        let front = entries.drop_last();
        let last = entries.last();
        lemma_sweep_marks(front, running);
        assert forall|p: Seq<char>|
            sweep(entries, running).0.contains(p) == (running.contains(p) || enabled_path(
                entries,
                p,
            )) by {
            if enabled_path(front, p) {
                let i = choose|i: int|
                    0 <= i < front.len() && (#[trigger] front[i]).auto_backup
                        && front[i].original_path == p;
                assert(entries[i] == front[i]);
            }
            if enabled_path(entries, p) {
                let i = choose|i: int|
                    0 <= i < entries.len() && (#[trigger] entries[i]).auto_backup
                        && entries[i].original_path == p;
                if i < front.len() {
                    assert(front[i] == entries[i]);
                } else {
                    assert(entries[i] == last);
                }
            }
            if last.auto_backup && p == last.original_path {
                assert(entries[entries.len() - 1] == last);
            }
        }
    }
}

/// Every job of a sweep is for a record with auto-backup on whose path was
/// not marked before, and no two jobs of a sweep are for the same path: a
/// file never gets a second loop.
pub proof fn lemma_sweep_jobs_are_new(entries: Seq<FileInfoView>, running: Set<Seq<char>>)
    ensures
        forall|k: int|
            0 <= k < sweep(entries, running).1.len() ==> {
                let job = #[trigger] sweep(entries, running).1[k];
                &&& job.record.auto_backup
                &&& !running.contains(job.record.original_path)
                &&& sweep(entries, running).0.contains(job.record.original_path)
                &&& job.period_secs == period_spec(job.record)
            },
        forall|k: int, l: int|
            0 <= k < l < sweep(entries, running).1.len() ==> sweep(
                entries,
                running,
            ).1[k].record.original_path != sweep(entries, running).1[l].record.original_path,
    decreases entries.len(),
{
    if entries.len() > 0 {
        let front = entries.drop_last();
        let last = entries.last();
        lemma_sweep_jobs_are_new(front, running);
        lemma_sweep_marks(front, running);
        let before = sweep(front, running);
        let after = sweep(entries, running);
        if last.auto_backup && !before.0.contains(last.original_path) {
            assert forall|k: int| 0 <= k < after.1.len() implies {
                let job = #[trigger] after.1[k];
                &&& job.record.auto_backup
                &&& !running.contains(job.record.original_path)
                &&& after.0.contains(job.record.original_path)
                &&& job.period_secs == period_spec(job.record)
            } by {
                if k < before.1.len() {
                    assert(after.1[k] == before.1[k]);
                }
            }
            assert forall|k: int, l: int| 0 <= k < l < after.1.len() implies after.1[k].record.original_path
                != after.1[l].record.original_path by {
                assert(after.1[k] == before.1[k]);
                if l < before.1.len() {
                    assert(after.1[l] == before.1[l]);
                } else {
                    assert(before.0.contains(before.1[k].record.original_path));
                }
            }
        }
    }
}

/// A sweep over records whose enabled paths are all marked starts nothing.
pub proof fn lemma_sweep_of_marked(entries: Seq<FileInfoView>, running: Set<Seq<char>>)
    requires
        forall|p: Seq<char>| enabled_path(entries, p) ==> running.contains(p),
    ensures
        sweep(entries, running) == (running, Seq::<ScheduledJobView>::empty()),
    decreases entries.len(),
{
    if entries.len() > 0 {
        let front = entries.drop_last();
        let last = entries.last();
        assert forall|p: Seq<char>| enabled_path(front, p) implies running.contains(p) by {
            let i = choose|i: int|
                0 <= i < front.len() && (#[trigger] front[i]).auto_backup && front[i].original_path
                    == p;
            assert(entries[i] == front[i]);
            assert(enabled_path(entries, p));
        }
        lemma_sweep_of_marked(front, running);
        if last.auto_backup {
            assert(entries[entries.len() - 1] == last);
            assert(enabled_path(entries, last.original_path));
        }
    }
}

/// Sweeping again over the same records starts no further loop and marks no
/// further path: each file has at most one loop, however often the sweep
/// runs.
pub proof fn lemma_sweep_again(entries: Seq<FileInfoView>, running: Set<Seq<char>>)
    ensures
        sweep(entries, sweep(entries, running).0) == (
            sweep(entries, running).0,
            Seq::<ScheduledJobView>::empty(),
        ),
{
    lemma_sweep_marks(entries, running);
    lemma_sweep_of_marked(entries, sweep(entries, running).0);
}

/// Where the global loop stands: about to look at the settings, waiting
/// with so many seconds to go, or stopped.
#[derive(Debug, Clone, Copy, PartialEq, Eq, Structural)]
pub enum LoopState {
    Waking,
    Sleeping { remaining: u64 },
    Stopped,
}

/// What the host of the global loop does next: run a sweep, note that
/// auto-backup is off, sleep one second, or shut down.
#[derive(Debug, Clone, Copy, PartialEq, Eq, Structural)]
pub enum LoopAction {
    Sweep,
    Idle,
    Sleep,
    Shutdown,
}

/// Whether the loop looks at the settings in its next step.
pub open spec fn wants_settings_spec(state: LoopState) -> bool {
    state == LoopState::Waking || state == (LoopState::Sleeping { remaining: 0 })
}

/// One step of the global loop. Once shutdown is requested the loop stops at
/// its next step. Otherwise, on waking it sweeps if auto-backup is on and
/// then waits `interval_minutes * 60` seconds, one second per step.
pub open spec fn loop_step_spec(state: LoopState, settings: BackupSettings, alive: bool) -> (
    LoopState,
    LoopAction,
) {
    if state == LoopState::Stopped || !alive {
        (LoopState::Stopped, LoopAction::Shutdown)
    } else if wants_settings_spec(state) {
        (
            LoopState::Sleeping { remaining: (settings.interval_minutes * 60) as u64 },
            if settings.auto_backup_enabled {
                LoopAction::Sweep
            } else {
                LoopAction::Idle
            },
        )
    } else {
        (
            LoopState::Sleeping { remaining: (state->remaining - 1) as u64 },
            LoopAction::Sleep,
        )
    }
}

impl LoopState {
    /// Whether the next step looks at the settings, so that the host has to
    /// load them afresh before it.
    pub fn wants_settings(&self) -> (wanted: bool)
        ensures
            wanted == wants_settings_spec(*self),
    {
        match self {
            LoopState::Waking => true,
            LoopState::Sleeping { remaining } => *remaining == 0,
            LoopState::Stopped => false,
        }
    }
}

/// One step of the global loop: given where the loop stands, the settings
/// and whether the daemon is still to run, says where the loop stands next
/// and what the host does now.
pub fn global_loop_step(state: LoopState, settings: &BackupSettings, alive: bool) -> (next: (
    LoopState,
    LoopAction,
))
    ensures
        next == loop_step_spec(state, *settings, alive),
{
    if !alive {
        return (LoopState::Stopped, LoopAction::Shutdown);
    }
    match state {
        LoopState::Stopped => (LoopState::Stopped, LoopAction::Shutdown),
        LoopState::Sleeping { remaining } if remaining > 0 => (
            LoopState::Sleeping { remaining: remaining - 1 },
            LoopAction::Sleep,
        ),
        _ => {
            let minutes: u64 = settings.interval_minutes as u64;
            let action = if settings.auto_backup_enabled {
                LoopAction::Sweep
            } else {
                LoopAction::Idle
            };
            (LoopState::Sleeping { remaining: minutes * 60 }, action)
        },
    }
}

/// Where the loop stands after so many steps during which the daemon is to
/// keep running and the settings stay the same.
pub open spec fn after_steps(state: LoopState, settings: BackupSettings, steps: nat) -> LoopState
    decreases steps,
{
    if steps == 0 {
        state
    } else {
        loop_step_spec(after_steps(state, settings, (steps - 1) as nat), settings, true).0
    }
}

/// A shutdown request is answered at the very next step, wherever the loop
/// stands. As a step waits one second at most, the daemon stops within about
/// a second of the request, not after the full interval.
pub proof fn lemma_shutdown_is_prompt(state: LoopState, settings: BackupSettings)
    ensures
        loop_step_spec(state, settings, false) == (LoopState::Stopped, LoopAction::Shutdown),
{
}

/// After waking, the loop sleeps one second per step for exactly
/// `interval_minutes * 60` steps and is then ready to wake again.
pub proof fn lemma_sleeps_whole_interval(settings: BackupSettings, passed: nat)
    requires
        passed <= settings.interval_minutes * 60,
    ensures
        after_steps(LoopState::Waking, settings, passed + 1) == (LoopState::Sleeping {
            remaining: (settings.interval_minutes * 60 - passed) as u64,
        }),
        passed < settings.interval_minutes * 60 ==> loop_step_spec(
            after_steps(LoopState::Waking, settings, passed + 1),
            settings,
            true,
        ).1 == LoopAction::Sleep,
        passed == settings.interval_minutes * 60 ==> wants_settings_spec(
            after_steps(LoopState::Waking, settings, passed + 1),
        ),
    decreases passed,
{
    assert(settings.interval_minutes * 60 <= 0xffff_ffff * 60);
    if passed == 0 {
        assert(after_steps(LoopState::Waking, settings, 1) == loop_step_spec(
            after_steps(LoopState::Waking, settings, 0),
            settings,
            true,
        ).0);
    } else {
        lemma_sleeps_whole_interval(settings, (passed - 1) as nat);
        assert(after_steps(LoopState::Waking, settings, passed + 1) == loop_step_spec(
            after_steps(LoopState::Waking, settings, passed),
            settings,
            true,
        ).0);
    }
}

} // verus!
