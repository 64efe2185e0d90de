//! One download job: what to do when its yt-dlp process speaks or ends.
//!
//! A run reads the output of its process and keeps the best explanation of a
//! failure. When the process ends, the run reports a pause or the outcome, or,
//! once per job, has the engine updated and the process started again.

use vstd::prelude::*;
use vstd::utf8::*;

use crate::errors;
use crate::errors::{Failure, FailureKind};
use crate::text;

verus! {

broadcast use vstd::string::group_string_axioms;

/// Shown while the engine of a failed job is being updated.
pub const UPDATING_MSG: &'static str = "Updating downloader…";

/// What a run is waiting for.
#[derive(Debug, Clone, Copy, PartialEq, Eq, Structural)]
pub enum RunPhase {
    /// Output of the process, or its end.
    Reading,
    /// The engine update.
    Updating,
    /// The second start of the process.
    Restarting,
    /// Nothing: the job is over.
    Ended,
}

/// The state of one job while it runs.
#[derive(Debug)]
pub struct PluckRun {
    pub phase: RunPhase,
    /// Whether this job has had its one engine update.
    pub healed: bool,
    /// The best explanation so far of why the process fails.
    pub worst: Option<Failure>,
}

/// What a run is told.
#[derive(Debug)]
pub enum PluckEvent {
    /// A line of output, with the failure that it reports, if any.
    Line(Option<Failure>),
    /// Something about the process that needs no reaction.
    Ignored,
    /// The process ended; `cancelled` and `paused` are what was asked of the
    /// job by then.
    Terminated { code: Option<i32>, cancelled: bool, paused: bool },
    /// There will be no more events, though no end was reported.
    Closed,
    /// Whether the engine was updated.
    EngineUpdated(bool),
    /// Whether the process was started again.
    Restarted(bool),
}

/// How a job ended.
#[derive(Debug)]
pub enum PluckOutcome {
    Succeeded,
    Cancelled,
    Failed(Option<Failure>),
}

/// What is to be done next.
#[derive(Debug)]
pub enum PluckAction {
    /// Wait for the next event of the process.
    Read,
    /// Show `UPDATING_MSG` and update the engine.
    UpdateEngine,
    /// Start the process again with the same arguments.
    Restart,
    /// Report the pause and forget the job. The archive stays, so that a
    /// resume goes on where the job left off.
    ReportPaused,
    /// Remove the archive if told so, report the outcome and forget the job.
    ReportDone { outcome: PluckOutcome, remove_archive: bool },
    /// Forget the job.
    Forget,
}

impl PluckAction {
    /// Nothing follows this action.
    pub open spec fn is_last(self) -> bool {
        self is ReportPaused || self is ReportDone || self is Forget
    }
}

impl PluckRun {
    /// A job that has just been started.
    pub open spec fn fresh() -> PluckRun {
        PluckRun { phase: RunPhase::Reading, healed: false, worst: None }
    }

    /// The events that can come in the phase in which the run is.
    pub open spec fn expects(self, event: PluckEvent) -> bool {
        match self.phase {
            RunPhase::Reading => event is Line || event is Ignored || event is Terminated
                || event is Closed,
            RunPhase::Updating => event is EngineUpdated,
            RunPhase::Restarting => event is Restarted,
            RunPhase::Ended => false,
        }
    }

    /// The run is to have its engine updated when the process ends as given.
    pub open spec fn heals(self, code: Option<i32>, cancelled: bool, paused: bool) -> bool {
        &&& !paused
        &&& !cancelled
        &&& code != Some(0i32)
        &&& !self.healed
        &&& errors::kind_in(self.worst) == Some(FailureKind::StaleEngine)
    }

    /// The run once it is over.
    pub open spec fn over(self) -> PluckRun {
        PluckRun { phase: RunPhase::Ended, healed: self.healed, worst: None }
    }

    /// How the job ends when its process ended as given.
    pub open spec fn outcome(self, code: Option<i32>, cancelled: bool) -> PluckOutcome {
        if cancelled {
            PluckOutcome::Cancelled
        } else if code == Some(0i32) {
            PluckOutcome::Succeeded
        } else {
            PluckOutcome::Failed(self.worst)
        }
    }

    /// The run after an event.
    pub open spec fn after(self, event: PluckEvent) -> PluckRun {
        match event {
            PluckEvent::Line(failure) => PluckRun {
                worst: errors::worse_of(self.worst, failure),
                ..self
            },
            PluckEvent::Ignored => self,
            PluckEvent::Terminated { code, cancelled, paused } => if self.heals(
                code,
                cancelled,
                paused,
            ) {
                PluckRun { phase: RunPhase::Updating, healed: true, ..self }
            } else {
                self.over()
            },
            PluckEvent::Closed => self.over(),
            PluckEvent::EngineUpdated(updated) => if updated {
                PluckRun { phase: RunPhase::Restarting, ..self }
            } else {
                self.over()
            },
            PluckEvent::Restarted(started) => if started {
                PluckRun { phase: RunPhase::Reading, healed: self.healed, worst: None }
            } else {
                self.over()
            },
        }
    }

    /// What is to be done about an event.
    pub open spec fn answer(self, event: PluckEvent) -> PluckAction {
        let gave_up = PluckAction::ReportDone {
            outcome: PluckOutcome::Failed(self.worst),
            remove_archive: false,
        };
        match event {
            PluckEvent::Line(_) => PluckAction::Read,
            PluckEvent::Ignored => PluckAction::Read,
            PluckEvent::Terminated { code, cancelled, paused } => if paused {
                PluckAction::ReportPaused
            } else if self.heals(code, cancelled, paused) {
                PluckAction::UpdateEngine
            } else {
                let outcome = self.outcome(code, cancelled);
                PluckAction::ReportDone { outcome, remove_archive: outcome is Succeeded }
            },
            PluckEvent::Closed => PluckAction::Forget,
            PluckEvent::EngineUpdated(updated) => if updated {
                PluckAction::Restart
            } else {
                gave_up
            },
            PluckEvent::Restarted(started) => if started {
                PluckAction::Read
            } else {
                gave_up
            },
        }
    }

    /// A job that has just been started.
    pub fn new() -> (run: PluckRun)
        ensures
            run == PluckRun::fresh(),
    {
        PluckRun { phase: RunPhase::Reading, healed: false, worst: None }
    }

    /// Takes an event in and says what is to be done about it.
    pub fn step(&mut self, event: PluckEvent) -> (action: PluckAction)
        requires
            old(self).expects(event),
        ensures
            *final(self) == old(self).after(event),
            action == old(self).answer(event),
    {
        match event {
            PluckEvent::Line(failure) => {
                let before: Option<Failure> = self.worst.take();
                self.worst = errors::worse(before, failure);
                PluckAction::Read
            },
            PluckEvent::Ignored => PluckAction::Read,
            PluckEvent::Terminated { code, cancelled, paused } => {
                if paused {
                    self.phase = RunPhase::Ended;
                    self.worst = None;
                    return PluckAction::ReportPaused;
                }
                let ok: bool = is_zero(code) && !cancelled;
                if !ok && !cancelled && !self.healed && self.is_stale() {
                    self.healed = true;
                    self.phase = RunPhase::Updating;
                    return PluckAction::UpdateEngine;
                }
                let worst: Option<Failure> = self.worst.take();
                self.phase = RunPhase::Ended;
                let outcome: PluckOutcome = if ok {
                    PluckOutcome::Succeeded
                } else if cancelled {
                    PluckOutcome::Cancelled
                } else {
                    PluckOutcome::Failed(worst)
                };
                PluckAction::ReportDone { outcome, remove_archive: ok }
            },
            PluckEvent::Closed => {
                self.phase = RunPhase::Ended;
                self.worst = None;
                PluckAction::Forget
            },
            PluckEvent::EngineUpdated(updated) => {
                if updated {
                    self.phase = RunPhase::Restarting;
                    PluckAction::Restart
                } else {
                    self.give_up()
                }
            },
            PluckEvent::Restarted(started) => {
                if started {
                    self.phase = RunPhase::Reading;
                    self.worst = None;
                    PluckAction::Read
                } else {
                    self.give_up()
                }
            },
        }
    }

    fn is_stale(&self) -> (stale: bool)
        ensures
            stale == (errors::kind_in(self.worst) == Some(FailureKind::StaleEngine)),
    {
        match &self.worst {
            Some(failure) => failure.0 == FailureKind::StaleEngine,
            None => false,
        }
    }

    fn give_up(&mut self) -> (action: PluckAction)
        ensures
            *final(self) == old(self).over(),
            action == (PluckAction::ReportDone {
                outcome: PluckOutcome::Failed(old(self).worst),
                remove_archive: false,
            }),
    {
        let worst: Option<Failure> = self.worst.take();
        self.phase = RunPhase::Ended;
        PluckAction::ReportDone { outcome: PluckOutcome::Failed(worst), remove_archive: false }
    }
}

fn is_zero(code: Option<i32>) -> (zero: bool)
    ensures
        zero == (code == Some(0i32)),
{
    match code {
        Some(c) => c == 0,
        None => false,
    }
}

/// The lines of a piece of process output.
pub fn output_lines(bytes: &[u8]) -> (lines: Vec<String>)
    ensures
        text::texts(lines@) == text::lines_of(text::lossy_text(bytes@)),
        valid_utf8(bytes@) ==> text::lossy_text(bytes@) == decode_utf8(bytes@),
{
    let output: String = text::decode_lossy(bytes);
    text::text_lines(output.as_str())
}

/// The state of a run after a series of events.
pub open spec fn run_after(run: PluckRun, events: Seq<PluckEvent>) -> PluckRun
    decreases events.len(),
{
    if events.len() == 0 {
        run
    } else {
        run_after(run, events.drop_last()).after(events.last())
    }
}

/// Each event of the series comes where the run expects it.
pub open spec fn is_history(run: PluckRun, events: Seq<PluckEvent>) -> bool {
    forall|k: int|
        0 <= k < events.len() ==> run_after(run, events.take(k)).expects(#[trigger] events[k])
}

/// What is done about the event at `k` of a series.
pub open spec fn action_at(run: PluckRun, events: Seq<PluckEvent>, k: int) -> PluckAction {
    run_after(run, events.take(k)).answer(events[k])
}

/// What is done about the events of a series, one action for each.
pub open spec fn actions(run: PluckRun, events: Seq<PluckEvent>) -> Seq<PluckAction> {
    Seq::new(events.len(), |k: int| action_at(run, events, k))
}

/// How many engine updates a series of actions holds.
pub open spec fn updates(actions: Seq<PluckAction>) -> nat
    decreases actions.len(),
{
    if actions.len() == 0 {
        0
    } else {
        updates(actions.drop_last()) + if actions.last() is UpdateEngine {
            1nat
        } else {
            0nat
        }
    }
}

/// How many restarts a series of actions holds.
pub open spec fn restarts(actions: Seq<PluckAction>) -> nat
    decreases actions.len(),
{
    if actions.len() == 0 {
        0
    } else {
        restarts(actions.drop_last()) + if actions.last() is Restart {
            1nat
        } else {
            0nat
        }
    }
}

/// A job has its engine updated and its process started again at most once,
/// whatever happens to it.
pub proof fn law_job_heals_at_most_once(events: Seq<PluckEvent>)
    requires
        is_history(PluckRun::fresh(), events),
    ensures
        updates(actions(PluckRun::fresh(), events)) <= 1,
        restarts(actions(PluckRun::fresh(), events)) <= 1,
{
    lemma_updates_follow_healed(events);
}

proof fn lemma_updates_follow_healed(events: Seq<PluckEvent>)
    requires
        is_history(PluckRun::fresh(), events),
    ensures
        updates(actions(PluckRun::fresh(), events)) == (if run_after(
            PluckRun::fresh(),
            events,
        ).healed {
            1nat
        } else {
            0nat
        }),
        restarts(actions(PluckRun::fresh(), events)) <= updates(
            actions(PluckRun::fresh(), events),
        ),
        run_after(PluckRun::fresh(), events).phase is Updating ==> run_after(
            PluckRun::fresh(),
            events,
        ).healed && restarts(actions(PluckRun::fresh(), events)) == 0,
    decreases events.len(),
{
    let run = PluckRun::fresh();
    if events.len() > 0 {
        let rest = events.drop_last();
        let n = events.len() - 1;
        lemma_history_prefix(run, events);
        lemma_updates_follow_healed(rest);
        assert(events.take(n) =~= rest);
        assert(actions(run, events).drop_last() =~= actions(run, rest)) by {
            assert forall|k: int| 0 <= k < n implies action_at(run, events, k) == action_at(
                run,
                rest,
                k,
            ) by {
                assert(events.take(k) =~= rest.take(k));
            }
        }
        assert(run_after(run, rest).expects(events[n]));
    }
}

proof fn lemma_history_prefix(run: PluckRun, events: Seq<PluckEvent>)
    requires
        is_history(run, events),
        events.len() > 0,
    ensures
        is_history(run, events.drop_last()),
{
    let rest = events.drop_last();
    assert forall|k: int| 0 <= k < rest.len() implies run_after(run, rest.take(k)).expects(
        #[trigger] rest[k],
    ) by {
        assert(rest[k] == events[k]);
        assert(rest.take(k) =~= events.take(k));
    }
}

/// A job that is reported paused or done, or forgotten, is over: only the last
/// action of its history is of that sort, and a job is reported at most once.
pub proof fn law_job_is_reported_at_most_once(events: Seq<PluckEvent>, k: int)
    requires
        is_history(PluckRun::fresh(), events),
        0 <= k < events.len(),
        action_at(PluckRun::fresh(), events, k).is_last(),
    ensures
        k == events.len() - 1,
        run_after(PluckRun::fresh(), events).phase is Ended,
{
    let run = PluckRun::fresh();
    assert(run_after(run, events.take(k)).expects(events[k]));
    assert(events.take(k + 1).drop_last() =~= events.take(k));
    assert(run_after(run, events.take(k + 1)).phase is Ended);
    if k + 1 < events.len() {
        assert(run_after(run, events.take(k + 1)).expects(events[k + 1]));
    }
    assert(events.take(k + 1) =~= events);
}

/// A job that was paused or cancelled never has its engine updated, and a pause
/// outweighs everything else.
pub proof fn law_pause_and_cancel_never_heal(
    run: PluckRun,
    code: Option<i32>,
    cancelled: bool,
    paused: bool,
)
    ensures
        ({
            let event = PluckEvent::Terminated { code, cancelled, paused };
            &&& paused || cancelled ==> !(run.answer(event) is UpdateEngine)
            &&& paused ==> run.answer(event) is ReportPaused
            &&& cancelled && !paused ==> run.answer(event) == (PluckAction::ReportDone {
                outcome: PluckOutcome::Cancelled,
                remove_archive: false,
            })
        }),
{
}

/// The engine is updated only for a job whose process failed, and whose best
/// explanation is that the engine is stale.
pub proof fn law_only_stale_engines_are_updated(run: PluckRun, event: PluckEvent)
    requires
        run.expects(event),
        run.answer(event) is UpdateEngine,
    ensures
        event matches PluckEvent::Terminated { code, cancelled, paused } && code != Some(0i32)
            && !cancelled && !paused,
        errors::kind_in(run.worst) == Some(FailureKind::StaleEngine),
        !run.healed,
{
}

/// The archive goes only when a process ended well in a job that was neither
/// cancelled nor paused.
pub proof fn law_archive_goes_only_on_success(run: PluckRun, event: PluckEvent)
    requires
        run.expects(event),
    ensures
        run.answer(event) matches PluckAction::ReportDone { outcome, remove_archive } ==> (
        remove_archive <==> outcome is Succeeded),
        (run.answer(event) matches PluckAction::ReportDone { outcome, remove_archive }
            && remove_archive) <==> event == (PluckEvent::Terminated {
            code: Some(0i32),
            cancelled: false,
            paused: false,
        }),
{
}

/// A new job reads, has not had its update and has no failure.
pub proof fn law_job_starts_fresh()
    ensures
        PluckRun::fresh().phase is Reading,
        !PluckRun::fresh().healed,
        PluckRun::fresh().worst is None,
        UPDATING_MSG@ == "Updating downloader…"@,
{
}

/// While its process runs, a job takes every event of the process; while it
/// waits for the update or the restart, it takes the end of that; and once it is
/// over, nothing.
pub proof fn law_job_takes_events_of_its_phase(run: PluckRun, event: PluckEvent)
    ensures
        run.expects(event) <==> match event {
            PluckEvent::EngineUpdated(_) => run.phase is Updating,
            PluckEvent::Restarted(_) => run.phase is Restarting,
            _ => run.phase is Reading,
        },
{
}

/// Output and other events of a running process leave a job reading: a line adds
/// the failure that it reports, if any, and another event changes nothing.
pub proof fn law_output_keeps_job_reading(run: PluckRun, failure: Failure)
    ensures
        run.answer(PluckEvent::Line(None)) is Read,
        run.after(PluckEvent::Line(None)) == run,
        run.answer(PluckEvent::Line(Some(failure))) is Read,
        run.after(PluckEvent::Line(Some(failure))).phase == run.phase,
        run.after(PluckEvent::Line(Some(failure))).healed == run.healed,
        run.worst is None ==> run.after(PluckEvent::Line(Some(failure))).worst == Some(failure),
        run.worst matches Some(known) ==> run.after(PluckEvent::Line(Some(failure))).worst == Some(
            if known.0 == failure.0 || failure.0 is LoginRequired || known.0 is Other || (
            known.0 is StaleEngine && failure.0 is UnsupportedContent) {
                failure
            } else {
                known
            },
        ),
        run.answer(PluckEvent::Ignored) is Read,
        run.after(PluckEvent::Ignored) == run,
{
}

/// How the end of a process is answered: a pause is reported as such, a
/// cancellation as such, an end with code zero as a success that needs its
/// archive no more, and any other end as a failure with its best explanation,
/// unless the job still has its update and the engine is stale.
pub proof fn law_end_is_reported_as_it_was(
    run: PluckRun,
    code: Option<i32>,
    cancelled: bool,
    paused: bool,
)
    ensures
        ({
            let event = PluckEvent::Terminated { code, cancelled, paused };
            let stale = run.worst matches Some(failure) && failure.0 is StaleEngine;
            let heals = !paused && !cancelled && code != Some(0i32) && !run.healed && stale;
            &&& run.answer(event) is ReportPaused <==> paused
            &&& run.answer(event) is UpdateEngine <==> heals
            &&& run.answer(event) == (PluckAction::ReportDone {
                outcome: PluckOutcome::Cancelled,
                remove_archive: false,
            }) <==> cancelled && !paused
            &&& run.answer(event) == (PluckAction::ReportDone {
                outcome: PluckOutcome::Succeeded,
                remove_archive: true,
            }) <==> code == Some(0i32) && !cancelled && !paused
            &&& run.answer(event) == (PluckAction::ReportDone {
                outcome: PluckOutcome::Failed(run.worst),
                remove_archive: false,
            }) <==> code != Some(0i32) && !cancelled && !paused && !heals
            &&& run.after(event).phase is Updating <==> heals
            &&& run.after(event).phase is Ended <==> !heals
            &&& run.after(event).healed == (run.healed || heals)
            &&& heals ==> run.after(event).worst == run.worst
        }),
{
}

/// An update leads to a second attempt, which starts without the failures of the
/// first but cannot be updated again. If the update or the restart fails, the job
/// fails with the explanation of its first attempt.
pub proof fn law_update_leads_to_second_attempt(run: PluckRun)
    ensures
        run.answer(PluckEvent::EngineUpdated(true)) is Restart,
        run.after(PluckEvent::EngineUpdated(true)).phase is Restarting,
        run.after(PluckEvent::EngineUpdated(true)).healed == run.healed,
        run.after(PluckEvent::EngineUpdated(true)).worst == run.worst,
        run.answer(PluckEvent::Restarted(true)) is Read,
        run.after(PluckEvent::Restarted(true)).phase is Reading,
        run.after(PluckEvent::Restarted(true)).healed == run.healed,
        run.after(PluckEvent::Restarted(true)).worst is None,
        run.answer(PluckEvent::EngineUpdated(false)) == (PluckAction::ReportDone {
            outcome: PluckOutcome::Failed(run.worst),
            remove_archive: false,
        }),
        run.answer(PluckEvent::Restarted(false)) == (PluckAction::ReportDone {
            outcome: PluckOutcome::Failed(run.worst),
            remove_archive: false,
        }),
        run.after(PluckEvent::EngineUpdated(false)).phase is Ended,
        run.after(PluckEvent::Restarted(false)).phase is Ended,
        run.answer(PluckEvent::Closed) is Forget,
        run.after(PluckEvent::Closed).phase is Ended,
{
}

/// The lines of an attempt, each with the failure that it reports, if any.
pub open spec fn line_events(lines: Seq<Option<Failure>>) -> Seq<PluckEvent> {
    Seq::new(lines.len(), |i: int| PluckEvent::Line(lines[i]))
}

/// The failures that lines report, in order.
pub open spec fn reported(lines: Seq<Option<Failure>>) -> Seq<Failure>
    decreases lines.len(),
{
    if lines.len() == 0 {
        Seq::empty()
    } else {
        match lines.last() {
            Some(failure) => reported(lines.drop_last()).push(failure),
            None => reported(lines.drop_last()),
        }
    }
}

/// A run keeps the best explanation of the failures that its lines reported.
pub proof fn law_run_keeps_worst_failure(run: PluckRun, lines: Seq<Option<Failure>>)
    requires
        run.worst is None,
    ensures
        run_after(run, line_events(lines)) == (PluckRun {
            worst: errors::worst_of(reported(lines)),
            ..run
        }),
    decreases lines.len(),
{
    if lines.len() > 0 {
        let rest = lines.drop_last();
        law_run_keeps_worst_failure(run, rest);
        assert(line_events(lines).drop_last() =~= line_events(rest));
        if let Some(failure) = lines.last() {
            assert(reported(lines).drop_last() =~= reported(rest));
        }
    }
}

/// What a failed job reports is the best explanation of the failures of its
/// last attempt, unless that attempt is the one that gets the engine updated.
pub proof fn law_failed_job_reports_worst_failure(
    healed: bool,
    lines: Seq<Option<Failure>>,
    code: Option<i32>,
)
    requires
        code != Some(0i32),
        healed || errors::kind_in(errors::worst_of(reported(lines))) != Some(
            FailureKind::StaleEngine,
        ),
    ensures
        run_after(
            PluckRun { healed, ..PluckRun::fresh() },
            line_events(lines),
        ).answer(PluckEvent::Terminated { code, cancelled: false, paused: false }) == (
        PluckAction::ReportDone {
            outcome: PluckOutcome::Failed(errors::worst_of(reported(lines))),
            remove_archive: false,
        }),
{
    law_run_keeps_worst_failure(PluckRun { healed, ..PluckRun::fresh() }, lines);
}

/// The first attempt of a job whose failures point to a stale engine gets the
/// engine updated.
pub proof fn law_stale_engine_is_healed(lines: Seq<Option<Failure>>, code: Option<i32>)
    requires
        code != Some(0i32),
        errors::kind_in(errors::worst_of(reported(lines))) == Some(FailureKind::StaleEngine),
    ensures
        run_after(PluckRun::fresh(), line_events(lines)).answer(
            PluckEvent::Terminated { code, cancelled: false, paused: false },
        ) is UpdateEngine,
{
    law_run_keeps_worst_failure(PluckRun::fresh(), lines);
}

} // verus!
