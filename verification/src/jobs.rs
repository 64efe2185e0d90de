//! The table of running jobs, through which they are cancelled and paused.
//!
//! A job is entered under the number that the user interface gave it. Each
//! start of a job is a run of its own, with flags of its own: a run learns from
//! them, when its process has ended, what was asked of it.

use std::collections::HashMap;

use vstd::prelude::*;

use crate::pluck::{PluckAction, PluckEvent, PluckOutcome, PluckRun};

verus! {

broadcast use vstd::std_specs::hash::group_hash_axioms;

/// What is known of a running job.
#[derive(Debug, Clone, Copy, PartialEq, Eq, Structural)]
pub struct PluckJob {
    /// The process to kill.
    pub pid: u32,
    /// The run that the job was entered for.
    pub run: u64,
}

/// What was asked of a run.
#[derive(Debug, Clone, Copy, PartialEq, Eq, Structural)]
pub struct RunFlags {
    pub job_id: u64,
    pub cancelled: bool,
    pub paused: bool,
}

/// The table of running jobs.
pub struct PluckState {
    jobs: HashMap<u64, PluckJob>,
    runs: HashMap<u64, RunFlags>,
    next_run: u64,
}

/// What the table holds.
pub struct PluckTable {
    pub jobs: Map<u64, PluckJob>,
    pub runs: Map<u64, RunFlags>,
    pub next_run: u64,
}

impl View for PluckState {
    type V = PluckTable;

    closed spec fn view(&self) -> PluckTable {
        PluckTable { jobs: self.jobs@, runs: self.runs@, next_run: self.next_run }
    }
}

impl PluckTable {
    /// A job belongs to a run that is still going on and that was entered for
    /// it, and run numbers are given out in ascending order.
    pub open spec fn well_formed(self) -> bool {
        &&& forall|id: u64| #[trigger]
            self.jobs.contains_key(id) ==> self.runs.contains_key(self.jobs[id].run)
                && self.runs[self.jobs[id].run].job_id == id
        &&& forall|run: u64| #[trigger] self.runs.contains_key(run) ==> run < self.next_run
    }

    /// There is a number left for another run.
    pub open spec fn has_number_left(self) -> bool {
        self.next_run < u64::MAX
    }

    /// The entry of a job, if there is one.
    pub open spec fn entry(self, job_id: u64) -> Option<PluckJob> {
        if self.jobs.contains_key(job_id) {
            Some(self.jobs[job_id])
        } else {
            None
        }
    }

    /// What was asked of a run, if it is still going on.
    pub open spec fn asked(self, run: u64) -> Option<RunFlags> {
        if self.runs.contains_key(run) {
            Some(self.runs[run])
        } else {
            None
        }
    }

    /// The table after a job is started.
    pub open spec fn started(self, job_id: u64, pid: u32) -> PluckTable {
        PluckTable {
            jobs: self.jobs.insert(job_id, PluckJob { pid, run: self.next_run }),
            runs: self.runs.insert(
                self.next_run,
                RunFlags { job_id, cancelled: false, paused: false },
            ),
            next_run: (self.next_run + 1) as u64,
        }
    }

    /// The table after the process of a job is replaced.
    pub open spec fn restarted(self, job_id: u64, pid: u32) -> PluckTable {
        if self.jobs.contains_key(job_id) {
            PluckTable {
                jobs: self.jobs.insert(job_id, PluckJob { pid, ..self.jobs[job_id] }),
                ..self
            }
        } else {
            self
        }
    }

    /// The table after the flags of a job's run are changed.
    pub open spec fn flagged(self, job_id: u64, flags: RunFlags) -> PluckTable {
        PluckTable { runs: self.runs.insert(self.jobs[job_id].run, flags), ..self }
    }

    /// The flags of a job's run.
    pub open spec fn flags_of(self, job_id: u64) -> RunFlags {
        self.runs[self.jobs[job_id].run]
    }

    /// The table after a run is over.
    pub open spec fn finished(self, run: u64) -> PluckTable {
        if self.runs.contains_key(run) {
            PluckTable {
                jobs: self.jobs.remove(self.runs[run].job_id),
                runs: self.runs.remove(run),
                ..self
            }
        } else {
            self
        }
    }
}

/// A request to cancel a job takes the table from `before` to `after` and is
/// answered by the process to kill, or by a complaint.
pub open spec fn is_cancellation(
    before: PluckTable,
    job_id: u64,
    after: PluckTable,
    pid: Result<u32, String>,
) -> bool {
    &&& before.jobs.contains_key(job_id) ==> pid == Ok::<u32, String>(before.jobs[job_id].pid)
        && after == before.flagged(
        job_id,
        RunFlags { cancelled: true, ..before.flags_of(job_id) },
    )
    &&& !before.jobs.contains_key(job_id) ==> (pid matches Err(e) && e@ == "pluck not found"@)
        && after == before
}

/// A request to pause a job takes the table from `before` to `after` and is
/// answered by the process to kill, or by a complaint.
pub open spec fn is_pause(
    before: PluckTable,
    job_id: u64,
    after: PluckTable,
    pid: Result<u32, String>,
) -> bool {
    &&& before.jobs.contains_key(job_id) ==> pid == Ok::<u32, String>(before.jobs[job_id].pid)
        && after == before.flagged(job_id, RunFlags { paused: true, ..before.flags_of(job_id) })
    &&& !before.jobs.contains_key(job_id) ==> (pid matches Err(e) && e@ == "pluck not found"@)
        && after == before
}

impl PluckState {
    /// A table without jobs.
    pub fn new() -> (state: PluckState)
        ensures
            state@ == (PluckTable { jobs: Map::empty(), runs: Map::empty(), next_run: 0 }),
            state@.well_formed(),
    {
        PluckState { jobs: HashMap::new(), runs: HashMap::new(), next_run: 0 }
    }

    /// Whether there is a number left for another run.
    pub fn can_start(&self) -> (can: bool)
        ensures
            can == self@.has_number_left(),
    {
        self.next_run < u64::MAX
    }

    /// Enters a job that was just started and gives the number of its run. A
    /// job that was entered under the same number loses its entry.
    pub fn start(&mut self, job_id: u64, pid: u32) -> (run: u64)
        requires
            old(self)@.well_formed(),
            old(self)@.next_run < u64::MAX,
        ensures
            run == old(self)@.next_run,
            final(self)@ == old(self)@.started(job_id, pid),
            final(self)@.well_formed(),
    {
        let run: u64 = self.next_run;
        self.next_run = run + 1;
        self.runs.insert(run, RunFlags { job_id, cancelled: false, paused: false });
        self.jobs.insert(job_id, PluckJob { pid, run });
        assert(self@ == old(self)@.started(job_id, pid));
        run
    }

    /// Enters the process that replaces the one of a job.
    pub fn restart(&mut self, job_id: u64, pid: u32)
        requires
            old(self)@.well_formed(),
        ensures
            final(self)@ == old(self)@.restarted(job_id, pid),
            final(self)@.well_formed(),
    {
        let entry: Option<PluckJob> = self.job(job_id);
        if let Some(job) = entry {
            self.jobs.insert(job_id, PluckJob { pid, run: job.run });
        }
        assert(self@ == old(self)@.restarted(job_id, pid));
    }

    /// Notes that a job is to be cancelled and gives the process to kill.
    pub fn cancel_pluck(&mut self, job_id: u64) -> (pid: Result<u32, String>)
        requires
            old(self)@.well_formed(),
        ensures
            is_cancellation(old(self)@, job_id, final(self)@, pid),
            final(self)@.well_formed(),
    {
        match self.job(job_id) {
            None => Err("pluck not found".to_owned()),
            Some(job) => {
                let flags: RunFlags = *self.runs.get(&job.run).unwrap();
                self.runs.insert(
                    job.run,
                    RunFlags { job_id: flags.job_id, cancelled: true, paused: flags.paused },
                );
                Ok(job.pid)
            },
        }
    }

    /// Notes that a job is to be paused and gives the process to kill.
    pub fn pause_pluck(&mut self, job_id: u64) -> (pid: Result<u32, String>)
        requires
            old(self)@.well_formed(),
        ensures
            is_pause(old(self)@, job_id, final(self)@, pid),
            final(self)@.well_formed(),
    {
        match self.job(job_id) {
            None => Err("pluck not found".to_owned()),
            Some(job) => {
                let flags: RunFlags = *self.runs.get(&job.run).unwrap();
                self.runs.insert(
                    job.run,
                    RunFlags { job_id: flags.job_id, cancelled: flags.cancelled, paused: true },
                );
                Ok(job.pid)
            },
        }
    }

    /// The entry of a job, if there is one.
    pub fn job(&self, job_id: u64) -> (job: Option<PluckJob>)
        ensures
            job == self@.entry(job_id),
    {
        match self.jobs.get(&job_id) {
            Some(job) => Some(*job),
            None => None,
        }
    }

    /// What was asked of a run, if it is still going on.
    pub fn flags(&self, run: u64) -> (flags: Option<RunFlags>)
        ensures
            flags == self@.asked(run),
    {
        match self.runs.get(&run) {
            Some(flags) => Some(*flags),
            None => None,
        }
    }

    /// Forgets a run that is over, and the job entered under its number.
    pub fn finish(&mut self, run: u64)
        requires
            old(self)@.well_formed(),
        ensures
            final(self)@ == old(self)@.finished(run),
            final(self)@.well_formed(),
    {
        let entry: Option<RunFlags> = self.flags(run);
        if let Some(flags) = entry {
            self.jobs.remove(&flags.job_id);
            self.runs.remove(&run);
        }
        assert(self@ == old(self)@.finished(run));
    }
}

/// The table tells of a job and of a run exactly what is entered for them, and
/// runs out of numbers only at the largest one.
pub proof fn law_table_tells_what_is_entered(
    table: PluckTable,
    job_id: u64,
    job: PluckJob,
    run: u64,
    flags: RunFlags,
)
    ensures
        table.entry(job_id) == Some(job) <==> table.jobs.contains_pair(job_id, job),
        table.asked(run) == Some(flags) <==> table.runs.contains_pair(run, flags),
        table.has_number_left() <==> table.next_run != u64::MAX,
{
}

/// A job that is started is found with its process and with nothing asked of it,
/// what is asked of it is found for its run, and once the run is over neither is
/// found.
pub proof fn law_job_is_found_while_it_runs(
    table: PluckTable,
    job_id: u64,
    pid: u32,
    asked: PluckTable,
    killed: Result<u32, String>,
)
    requires
        table.well_formed(),
        table.has_number_left(),
        is_cancellation(table.started(job_id, pid), job_id, asked, killed),
    ensures
        ({
            let run = table.next_run;
            let started = table.started(job_id, pid);
            &&& started.entry(job_id) == Some(PluckJob { pid, run })
            &&& started.asked(run) == Some(RunFlags { job_id, cancelled: false, paused: false })
            &&& killed == Ok::<u32, String>(pid)
            &&& asked.entry(job_id) == Some(PluckJob { pid, run })
            &&& asked.asked(run) == Some(RunFlags { job_id, cancelled: true, paused: false })
            &&& asked.finished(run).entry(job_id) is None
            &&& asked.finished(run).asked(run) is None
        }),
{
}

/// A started job is entered with its process under a run of its own, of which
/// nothing was asked yet; all other jobs and all other runs stay as they were.
pub proof fn law_started_job_is_entered(
    table: PluckTable,
    job_id: u64,
    pid: u32,
    other: u64,
    run: u64,
)
    requires
        table.well_formed(),
        table.next_run < u64::MAX,
    ensures
        ({
            let after = table.started(job_id, pid);
            let fresh = after.jobs[job_id].run;
            &&& after.jobs.contains_key(job_id)
            &&& after.jobs[job_id].pid == pid
            &&& fresh == table.next_run
            &&& !table.runs.contains_key(fresh)
            &&& after.runs.contains_key(fresh)
            &&& after.runs[fresh].job_id == job_id
            &&& !after.runs[fresh].cancelled
            &&& !after.runs[fresh].paused
            &&& after.next_run == table.next_run + 1
            &&& other != job_id ==> (after.jobs.contains_key(other) <==> table.jobs.contains_key(
                other,
            )) && after.jobs[other] == table.jobs[other]
            &&& run != fresh ==> (after.runs.contains_key(run) <==> table.runs.contains_key(run))
                && after.runs[run] == table.runs[run]
        }),
{
}

/// A restarted job has its new process and is otherwise as it was, what was asked
/// of it included; a job that is gone is not entered again.
pub proof fn law_restart_replaces_process(table: PluckTable, job_id: u64, pid: u32, other: u64)
    ensures
        ({
            let after = table.restarted(job_id, pid);
            &&& after.runs == table.runs
            &&& after.next_run == table.next_run
            &&& after.jobs.contains_key(other) <==> table.jobs.contains_key(other)
            &&& other != job_id ==> after.jobs[other] == table.jobs[other]
            &&& table.jobs.contains_key(job_id) ==> after.jobs[job_id].pid == pid
                && after.jobs[job_id].run == table.jobs[job_id].run
        }),
{
}

/// A request to cancel a job is answered by the process of the job. It is noted
/// for the run of the job, together with what was asked before, and nothing else
/// changes. Without such a job the request is refused and nothing changes.
pub proof fn law_cancellation_is_noted(
    before: PluckTable,
    job_id: u64,
    after: PluckTable,
    pid: Result<u32, String>,
    run: u64,
)
    requires
        before.well_formed(),
        is_cancellation(before, job_id, after, pid),
    ensures
        after.jobs == before.jobs,
        after.next_run == before.next_run,
        after.runs.contains_key(run) <==> before.runs.contains_key(run),
        pid is Ok <==> before.jobs.contains_key(job_id),
        pid matches Ok(p) ==> {
            let mine = before.jobs[job_id].run;
            &&& p == before.jobs[job_id].pid
            &&& after.runs[mine].cancelled
            &&& after.runs[mine].paused == before.runs[mine].paused
            &&& after.runs[mine].job_id == job_id
            &&& run != mine ==> after.runs[run] == before.runs[run]
        },
        pid matches Err(e) ==> e@ == "pluck not found"@ && after == before,
{
}

/// A request to pause a job is answered by the process of the job. It is noted
/// for the run of the job, together with what was asked before, and nothing else
/// changes. Without such a job the request is refused and nothing changes.
pub proof fn law_pause_is_noted(
    before: PluckTable,
    job_id: u64,
    after: PluckTable,
    pid: Result<u32, String>,
    run: u64,
)
    requires
        before.well_formed(),
        is_pause(before, job_id, after, pid),
    ensures
        after.jobs == before.jobs,
        after.next_run == before.next_run,
        after.runs.contains_key(run) <==> before.runs.contains_key(run),
        pid is Ok <==> before.jobs.contains_key(job_id),
        pid matches Ok(p) ==> {
            let mine = before.jobs[job_id].run;
            &&& p == before.jobs[job_id].pid
            &&& after.runs[mine].paused
            &&& after.runs[mine].cancelled == before.runs[mine].cancelled
            &&& after.runs[mine].job_id == job_id
            &&& run != mine ==> after.runs[run] == before.runs[run]
        },
        pid matches Err(e) ==> e@ == "pluck not found"@ && after == before,
{
}

/// A run that is over is forgotten together with the entry of its job; all other
/// jobs and runs stay as they were, and run numbers are not given out again.
pub proof fn law_finished_run_is_forgotten(table: PluckTable, run: u64, other: u64, job: u64)
    ensures
        ({
            let after = table.finished(run);
            &&& !after.runs.contains_key(run)
            &&& after.next_run == table.next_run
            &&& other != run ==> (after.runs.contains_key(other) <==> table.runs.contains_key(
                other,
            )) && after.runs[other] == table.runs[other]
            &&& table.runs.contains_key(run) ==> !after.jobs.contains_key(
                table.runs[run].job_id,
            )
            &&& !(table.runs.contains_key(run) && table.runs[run].job_id == job) ==> (
            after.jobs.contains_key(job) <==> table.jobs.contains_key(job)) && after.jobs[job]
                == table.jobs[job]
        }),
{
}

/// Asking something of one job changes nothing for any other job.
pub proof fn law_request_touches_one_job(
    table: PluckTable,
    job_id: u64,
    other: u64,
    flags: RunFlags,
)
    requires
        table.well_formed(),
        table.jobs.contains_key(job_id),
        table.jobs.contains_key(other),
        job_id != other,
    ensures
        table.flagged(job_id, flags).jobs == table.jobs,
        table.flagged(job_id, flags).flags_of(other) == table.flags_of(other),
{
}

/// A job that was cancelled while its process ran is reported cancelled when
/// the process ends, or paused if that was asked of it too; its engine is not
/// updated.
pub proof fn law_cancelled_job_is_reported_cancelled(
    table: PluckTable,
    job_id: u64,
    run: PluckRun,
    code: Option<i32>,
)
    requires
        table.well_formed(),
        table.jobs.contains_key(job_id),
    ensures
        ({
            let after = table.flagged(
                job_id,
                RunFlags { cancelled: true, ..table.flags_of(job_id) },
            );
            let flags = after.runs[table.jobs[job_id].run];
            let event = PluckEvent::Terminated {
                code,
                cancelled: flags.cancelled,
                paused: flags.paused,
            };
            run.answer(event) == if table.flags_of(job_id).paused {
                PluckAction::ReportPaused
            } else {
                PluckAction::ReportDone {
                    outcome: PluckOutcome::Cancelled,
                    remove_archive: false,
                }
            }
        }),
{
}

/// A job that was paused while its process ran is reported paused when the
/// process ends.
pub proof fn law_paused_job_is_reported_paused(
    table: PluckTable,
    job_id: u64,
    run: PluckRun,
    code: Option<i32>,
)
    requires
        table.well_formed(),
        table.jobs.contains_key(job_id),
    ensures
        ({
            let after = table.flagged(job_id, RunFlags { paused: true, ..table.flags_of(job_id) });
            let flags = after.runs[table.jobs[job_id].run];
            run.answer(
                PluckEvent::Terminated { code, cancelled: flags.cancelled, paused: flags.paused },
            ) == PluckAction::ReportPaused
        }),
{
}

} // verus!
