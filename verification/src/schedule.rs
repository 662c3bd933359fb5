//! The download phase as a state machine: every discovered file is
//! downloaded once, at most a fixed number of downloads run at a time,
//! and the outcomes are counted.
//!
//! Running a download is the caller's part: it starts the next task
//! whenever the scheduler grants one, and records each outcome.

use vstd::prelude::*;
use crate::fetch::Outcome;
use crate::listing::{task_views, FileTask, TaskView};

verus! {

/// How many downloads ended in each way.
#[derive(Clone, Copy, Debug, PartialEq, Eq, Structural)]
pub struct Summary {
    pub downloaded: usize,
    pub skipped: usize,
    pub failed: usize,
}

impl Summary {
    /// Whether the mirror is to be reported as incomplete: some download
    /// failed.
    pub fn is_abnormal(&self) -> (abnormal: bool)
        ensures
            abnormal == (self.failed > 0),
    {
        self.failed > 0
    }
}

/// Why an outcome was refused.
#[derive(Clone, Copy, Debug, PartialEq, Eq, Structural)]
pub enum ScheduleError {
    /// No download is running.
    NothingActive,
}

/// The download phase at one moment.
#[verifier::ext_equal]
pub struct ScheduleState {
    /// The files to download, in the order in which they are started.
    pub tasks: Seq<TaskView>,
    /// How many downloads may run at a time.
    pub limit: nat,
    /// How many tasks have been started.
    pub started: nat,
    /// How many downloads are running.
    pub active: nat,
    pub downloaded: nat,
    pub skipped: nat,
    pub failed: nat,
}

impl ScheduleState {
    /// The phase before any download.
    pub open spec fn start(tasks: Seq<TaskView>, limit: nat) -> ScheduleState {
        ScheduleState { tasks, limit, started: 0, active: 0, downloaded: 0, skipped: 0, failed: 0 }
    }

    /// How many downloads have ended.
    pub open spec fn completed(self) -> nat {
        self.downloaded + self.skipped + self.failed
    }

    /// Every started task is running or has ended, no more run than the
    /// limit allows, and no more were started than there are.
    pub open spec fn inv(self) -> bool {
        &&& self.started <= self.tasks.len()
        &&& self.active <= self.limit
        &&& self.completed() + self.active == self.started
    }

    /// Whether another download may begin: a task is left and the limit
    /// is not reached.
    pub open spec fn can_begin(self) -> bool {
        self.started < self.tasks.len() && self.active < self.limit
    }

    /// The phase after the next task has begun.
    pub open spec fn begin(self) -> ScheduleState {
        ScheduleState { started: self.started + 1, active: self.active + 1, ..self }
    }

    /// The phase after a running download has ended with `outcome`.
    pub open spec fn record(self, outcome: Outcome) -> ScheduleState {
        let rest = ScheduleState { active: (self.active - 1) as nat, ..self };
        match outcome {
            Outcome::Downloaded => ScheduleState { downloaded: self.downloaded + 1, ..rest },
            Outcome::Skipped => ScheduleState { skipped: self.skipped + 1, ..rest },
            Outcome::Failed => ScheduleState { failed: self.failed + 1, ..rest },
        }
    }

    /// Whether every task has been started and has ended.
    pub open spec fn finished(self) -> bool {
        self.started == self.tasks.len() && self.active == 0
    }
}

/// The download phase over a list of files.
pub struct Scheduler {
    tasks: Vec<FileTask>,
    limit: usize,
    started: usize,
    active: usize,
    tally: Summary,
}

impl View for Scheduler {
    type V = ScheduleState;

    closed spec fn view(&self) -> ScheduleState {
        ScheduleState {
            tasks: task_views(self.tasks@),
            limit: self.limit as nat,
            started: self.started as nat,
            active: self.active as nat,
            downloaded: self.tally.downloaded as nat,
            skipped: self.tally.skipped as nat,
            failed: self.tally.failed as nat,
        }
    }
}

impl Scheduler {
    pub closed spec fn wf(&self) -> bool {
        self@.inv()
    }

    /// What `wf` says of the phase.
    pub proof fn lemma_wf(&self)
        requires
            self.wf(),
        ensures
            self@.inv(),
    {
    }

    /// The phase over `tasks`, with at most `limit` downloads at a time.
    pub fn new(tasks: Vec<FileTask>, limit: usize) -> (scheduler: Scheduler)
        ensures
            scheduler.wf(),
            scheduler@ == ScheduleState::start(task_views(tasks@), limit as nat),
    {
        Scheduler {
            tasks,
            limit,
            started: 0,
            active: 0,
            tally: Summary { downloaded: 0, skipped: 0, failed: 0 },
        }
    }

    /// The number of files to download.
    pub fn total(&self) -> (n: usize)
        ensures
            n == self@.tasks.len(),
    {
        self.tasks.len()
    }

    /// The number of downloads that are running.
    pub fn active(&self) -> (n: usize)
        ensures
            n == self@.active,
    {
        self.active
    }

    /// The number of downloads that have ended.
    pub fn completed(&self) -> (n: usize)
        requires
            self.wf(),
        ensures
            n == self@.completed(),
    {
        self.started - self.active
    }

    /// Whether every task has been started and has ended.
    pub fn is_finished(&self) -> (done: bool)
        ensures
            done == self@.finished(),
    {
        self.started == self.tasks.len() && self.active == 0
    }

    /// The counts of the outcomes so far.
    pub fn summary(&self) -> (summary: Summary)
        ensures
            summary.downloaded == self@.downloaded,
            summary.skipped == self@.skipped,
            summary.failed == self@.failed,
    {
        self.tally
    }

    /// Begins the next download if a task is left and the limit allows
    /// it, and hands out its task; otherwise nothing changes.
    pub fn start_next(&mut self) -> (task: Option<FileTask>)
        requires
            old(self).wf(),
        ensures
            final(self).wf(),
            match task {
                Some(t) => {
                    &&& old(self)@.can_begin()
                    &&& t@ == old(self)@.tasks[old(self)@.started as int]
                    &&& final(self)@ == old(self)@.begin()
                },
                None => !old(self)@.can_begin() && final(self)@ == old(self)@,
            },
    {
        if self.started < self.tasks.len() && self.active < self.limit {
            let task = self.tasks[self.started].duplicate();
            self.started = self.started + 1;
            self.active = self.active + 1;
            Some(task)
        } else {
            None
        }
    }

    /// Records that a running download has ended with `outcome`, and
    /// returns how many downloads have ended by now. Refused, with
    /// nothing changed, if no download is running.
    pub fn record(&mut self, outcome: Outcome) -> (result: Result<usize, ScheduleError>)
        requires
            old(self).wf(),
        ensures
            final(self).wf(),
            match result {
                Ok(completed) => {
                    &&& old(self)@.active > 0
                    &&& final(self)@ == old(self)@.record(outcome)
                    &&& completed == old(self)@.completed() + 1
                },
                Err(ScheduleError::NothingActive) => {
                    &&& old(self)@.active == 0
                    &&& final(self)@ == old(self)@
                },
            },
    {
        if self.active == 0 {
            return Err(ScheduleError::NothingActive);
        }
        self.active = self.active - 1;
        match outcome {
            Outcome::Downloaded => {
                self.tally.downloaded = self.tally.downloaded + 1;
            },
            Outcome::Skipped => {
                self.tally.skipped = self.tally.skipped + 1;
            },
            Outcome::Failed => {
                self.tally.failed = self.tally.failed + 1;
            },
        }
        Ok(self.started - self.active)
    }
}

/// The invariant holds before any download.
pub proof fn law_schedule_start_inv(tasks: Seq<TaskView>, limit: nat)
    ensures
        ScheduleState::start(tasks, limit).inv(),
{
}

/// Beginning a download keeps the invariant: in particular no more
/// downloads run than the limit allows.
pub proof fn law_begin_inv(s: ScheduleState)
    requires
        s.inv(),
        s.can_begin(),
    ensures
        s.begin().inv(),
        s.begin().active <= s.limit,
{
}

/// Recording an outcome keeps the invariant and raises the count of
/// ended downloads by exactly one.
pub proof fn law_record_inv(s: ScheduleState, outcome: Outcome)
    requires
        s.inv(),
        s.active > 0,
    ensures
        s.record(outcome).inv(),
        s.record(outcome).completed() == s.completed() + 1,
{
}

/// When the phase has finished, every file has been counted exactly
/// once: the three counts add up to the number of files.
pub proof fn law_finished_counts_all(s: ScheduleState)
    requires
        s.inv(),
        s.finished(),
    ensures
        s.downloaded + s.skipped + s.failed == s.tasks.len(),
{
}

/// While the phase has not finished and the limit is positive, there is
/// something to do: a download can begin or one is running, so the phase
/// cannot get stuck.
pub proof fn law_schedule_progress(s: ScheduleState)
    requires
        s.inv(),
        !s.finished(),
        s.limit > 0,
    ensures
        s.can_begin() || s.active > 0,
{
}

} // verus!
