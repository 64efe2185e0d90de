use video_plucker::errors::{Failure, FailureKind};
use video_plucker::jobs::{PluckJob, PluckState, RunFlags};
use video_plucker::pluck::{
    output_lines, PluckAction, PluckEvent, PluckOutcome, PluckRun, UPDATING_MSG,
};
use video_plucker::text::{contains, text_lines};

fn failure(kind: FailureKind, message: &str) -> Option<Failure> {
    Some((kind, message.to_string()))
}

fn ended(code: i32) -> PluckEvent {
    PluckEvent::Terminated { code: Some(code), cancelled: false, paused: false }
}

#[test]
fn successful_job_loses_its_archive() {
    let mut run = PluckRun::new();
    assert!(matches!(run.step(PluckEvent::Line(None)), PluckAction::Read));
    assert!(matches!(run.step(PluckEvent::Ignored), PluckAction::Read));
    assert!(matches!(
        run.step(ended(0)),
        PluckAction::ReportDone { outcome: PluckOutcome::Succeeded, remove_archive: true }
    ));
}

#[test]
fn success_outweighs_reported_failures() {
    let mut run = PluckRun::new();
    run.step(PluckEvent::Line(failure(FailureKind::StaleEngine, "s")));
    assert!(matches!(
        run.step(ended(0)),
        PluckAction::ReportDone { outcome: PluckOutcome::Succeeded, remove_archive: true }
    ));
}

#[test]
fn stale_engine_heals_once() {
    let mut run = PluckRun::new();
    run.step(PluckEvent::Line(failure(FailureKind::StaleEngine, "first")));
    assert!(matches!(run.step(ended(1)), PluckAction::UpdateEngine));
    assert!(matches!(run.step(PluckEvent::EngineUpdated(true)), PluckAction::Restart));
    assert!(matches!(run.step(PluckEvent::Restarted(true)), PluckAction::Read));
    run.step(PluckEvent::Line(failure(FailureKind::StaleEngine, "second")));
    match run.step(ended(1)) {
        PluckAction::ReportDone { outcome: PluckOutcome::Failed(worst), remove_archive } => {
            assert_eq!(worst, failure(FailureKind::StaleEngine, "second"));
            assert!(!remove_archive);
        }
        other => panic!("{other:?}"),
    }
    assert_eq!(UPDATING_MSG, "Updating downloader…");
}

#[test]
fn failed_healing_reports_the_first_failure() {
    for restart in [false, true] {
        let mut run = PluckRun::new();
        run.step(PluckEvent::Line(failure(FailureKind::StaleEngine, "first")));
        assert!(matches!(run.step(ended(1)), PluckAction::UpdateEngine));
        let last = if restart {
            run.step(PluckEvent::EngineUpdated(true));
            run.step(PluckEvent::Restarted(false))
        } else {
            run.step(PluckEvent::EngineUpdated(false))
        };
        match last {
            PluckAction::ReportDone { outcome: PluckOutcome::Failed(worst), remove_archive } => {
                assert_eq!(worst, failure(FailureKind::StaleEngine, "first"));
                assert!(!remove_archive);
            }
            other => panic!("{other:?}"),
        }
    }
}

#[test]
fn attempts_do_not_share_failures() {
    let mut run = PluckRun::new();
    run.step(PluckEvent::Line(failure(FailureKind::StaleEngine, "first")));
    run.step(ended(1));
    run.step(PluckEvent::EngineUpdated(true));
    run.step(PluckEvent::Restarted(true));
    assert!(matches!(
        run.step(ended(1)),
        PluckAction::ReportDone { outcome: PluckOutcome::Failed(None), remove_archive: false }
    ));
}

#[test]
fn more_specific_failures_do_not_heal() {
    let mut run = PluckRun::new();
    run.step(PluckEvent::Line(failure(FailureKind::StaleEngine, "s")));
    run.step(PluckEvent::Line(failure(FailureKind::LoginRequired, "l")));
    run.step(PluckEvent::Line(failure(FailureKind::Other, "o")));
    match run.step(PluckEvent::Terminated { code: None, cancelled: false, paused: false }) {
        PluckAction::ReportDone { outcome: PluckOutcome::Failed(worst), .. } => {
            assert_eq!(worst, failure(FailureKind::LoginRequired, "l"));
        }
        other => panic!("{other:?}"),
    }
}

#[test]
fn pause_and_cancel_do_not_heal() {
    for (cancelled, paused) in [(true, false), (false, true), (true, true)] {
        let mut run = PluckRun::new();
        run.step(PluckEvent::Line(failure(FailureKind::StaleEngine, "s")));
        let action = run.step(PluckEvent::Terminated { code: Some(0), cancelled, paused });
        if paused {
            assert!(matches!(action, PluckAction::ReportPaused));
        } else {
            assert!(matches!(
                action,
                PluckAction::ReportDone { outcome: PluckOutcome::Cancelled, remove_archive: false }
            ));
        }
    }
}

#[test]
fn closed_channel_forgets_the_job() {
    let mut run = PluckRun::new();
    assert!(matches!(run.step(PluckEvent::Closed), PluckAction::Forget));
}

#[test]
fn output_is_split_into_lines() {
    assert_eq!(output_lines(b"a\r\nb\n\nc"), ["a", "b", "", "c"]);
    assert_eq!(output_lines(b"a\n"), ["a"]);
    assert_eq!(output_lines(b"\n"), [""]);
    assert!(output_lines(b"").is_empty());
    assert_eq!(output_lines(b"a\rb\xff\r"), ["a\rb\u{FFFD}\r"]);
}

#[test]
fn lines_and_searches_agree_with_the_standard_library() {
    for text in ["", "\n", "\r\n", "\r", "a\r\r\nb", "x\n\ny\n", "é\n漢", "a\n\r", "\n\n"] {
        let expected: Vec<&str> = text.lines().collect();
        assert_eq!(text_lines(text), expected);
        for pattern in ["", "a", "\n", "é", "漢", "ab", "x\n\ny\n"] {
            assert_eq!(contains(text, pattern), text.contains(pattern));
        }
    }
}

#[test]
fn jobs_are_cancelled_and_paused_by_number() {
    let mut state = PluckState::new();
    assert!(state.can_start());
    let first = state.start(7, 100);
    let second = state.start(8, 200);
    assert_eq!(state.cancel_pluck(7), Ok(100));
    assert_eq!(state.pause_pluck(8), Ok(200));
    assert_eq!(
        state.flags(first),
        Some(RunFlags { job_id: 7, cancelled: true, paused: false })
    );
    assert_eq!(
        state.flags(second),
        Some(RunFlags { job_id: 8, cancelled: false, paused: true })
    );
    assert_eq!(state.cancel_pluck(9), Err("pluck not found".to_string()));
    assert_eq!(state.pause_pluck(9), Err("pluck not found".to_string()));
    state.finish(first);
    assert_eq!(state.job(7), None);
    assert_eq!(state.flags(first), None);
    assert_eq!(state.cancel_pluck(7), Err("pluck not found".to_string()));
    assert_eq!(state.job(8), Some(PluckJob { pid: 200, run: second }));
}

#[test]
fn restarted_jobs_have_a_new_process() {
    let mut state = PluckState::new();
    let run = state.start(1, 10);
    state.restart(1, 11);
    assert_eq!(state.job(1), Some(PluckJob { pid: 11, run }));
    state.restart(2, 12);
    assert_eq!(state.job(2), None);
    assert_eq!(state.cancel_pluck(1), Ok(11));
}

#[test]
fn each_start_has_flags_of_its_own() {
    let mut state = PluckState::new();
    let old = state.start(1, 10);
    state.cancel_pluck(1).unwrap();
    let new = state.start(1, 20);
    assert_eq!(state.flags(old).unwrap().cancelled, true);
    assert_eq!(state.flags(new).unwrap().cancelled, false);
    assert_eq!(state.pause_pluck(1), Ok(20));
    assert_eq!(state.flags(old).unwrap().paused, false);
    // the entry goes with the first run that ends
    state.finish(old);
    assert_eq!(state.job(1), None);
    assert_eq!(state.flags(new).unwrap().paused, true);
}

#[test]
fn cancelled_job_is_reported_cancelled() {
    let mut state = PluckState::new();
    let mut run = PluckRun::new();
    let number = state.start(5, 50);
    run.step(PluckEvent::Line(failure(FailureKind::StaleEngine, "s")));
    state.cancel_pluck(5).unwrap();
    let flags = state.flags(number).unwrap();
    assert!(matches!(
        run.step(PluckEvent::Terminated {
            code: None,
            cancelled: flags.cancelled,
            paused: flags.paused
        }),
        PluckAction::ReportDone { outcome: PluckOutcome::Cancelled, remove_archive: false }
    ));
}

#[test]
fn paused_job_is_reported_paused() {
    let mut state = PluckState::new();
    let mut run = PluckRun::new();
    let number = state.start(5, 50);
    let other = state.start(6, 60);
    state.pause_pluck(5).unwrap();
    assert_eq!(state.flags(other).unwrap().paused, false);
    let flags = state.flags(number).unwrap();
    assert!(matches!(
        run.step(PluckEvent::Terminated {
            code: Some(0),
            cancelled: flags.cancelled,
            paused: flags.paused
        }),
        PluckAction::ReportPaused
    ));
}
