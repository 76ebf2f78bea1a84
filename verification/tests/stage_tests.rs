use scan2bim_converter::poll::{ChildPoll, PollAction, PollEvent};
use scan2bim_converter::potree::{
    log_line, potree_arguments, potree_result, report_line, LineReport, PotreeAction, PotreeEvent,
    PotreeJob, PotreeRun,
};
use scan2bim_converter::report::{ProgressNote, ShownStage};
use scan2bim_converter::stage::{
    note_before_reading, pdal_arguments, pdal_result, reading_step, spawn_failure, tool_name,
    Argument, ExitInfo, ReadingAction, StageError, StagePlan, Tool, WaitOutcome,
};

fn failed(code: &str, message: &str) -> StageError {
    StageError::Failed(code.to_string(), message.to_string())
}

const GOOD: ExitInfo = ExitInfo { success: true, code: Some(0) };
const BAD: ExitInfo = ExitInfo { success: false, code: Some(3) };
const KILLED: ExitInfo = ExitInfo { success: false, code: None };

#[test]
fn the_way_pdal_ends_decides_the_translation() {
    assert_eq!(pdal_result(WaitOutcome::Cancelled, 9999), Err(StageError::Cancelled));
    assert_eq!(pdal_result(WaitOutcome::Exited(GOOD), 1024), Ok(()));
    assert_eq!(
        pdal_result(WaitOutcome::Exited(GOOD), 1023),
        Err(failed(
            "pdal_empty_output",
            "PDAL produced only 1023 bytes \u{2014} E57 read likely failed"
        ))
    );
    assert_eq!(
        pdal_result(WaitOutcome::Exited(BAD), 5000),
        Err(failed(
            "pdal_exit_3",
            "PDAL translate exited with non-zero status (see terminal logs)"
        ))
    );
    assert_eq!(
        pdal_result(WaitOutcome::Exited(KILLED), 0),
        Err(failed(
            "pdal_exit_-1",
            "PDAL translate exited with non-zero status (see terminal logs)"
        ))
    );
    assert_eq!(
        pdal_result(WaitOutcome::WaitFailed("no child".to_string()), 0),
        Err(failed("pdal_wait_failed", "no child"))
    );
}

#[test]
fn command_lines() {
    let text = |t: &str| Argument::Text(t.to_string());
    assert_eq!(
        pdal_arguments(),
        vec![text("translate"), Argument::Input, Argument::Output]
    );
    assert_eq!(
        potree_arguments(),
        vec![
            text("-i"),
            Argument::Input,
            text("-o"),
            Argument::Output,
            text("--encoding"),
            text("BROTLI"),
        ]
    );
}

#[test]
fn tools_have_names() {
    assert_eq!(tool_name(Tool::PotreeConverter), "PotreeConverter");
    assert_eq!(tool_name(Tool::Pdal), "pdal");
}

#[test]
fn tools_that_do_not_start() {
    assert_eq!(
        spawn_failure(Tool::Pdal, "denied".to_string()),
        failed("pdal_spawn_failed", "denied")
    );
    assert_eq!(
        spawn_failure(Tool::PotreeConverter, "denied".to_string()),
        failed("potree_spawn_failed", "denied")
    );
}

fn note(index: u32, total: u32, label: &str) -> ProgressNote {
    ProgressNote {
        job_id: "job".to_string(),
        stage: ShownStage { index, total, label: label.to_string() },
    }
}

#[test]
fn the_translation_is_shown_as_the_first_of_two_stages() {
    assert_eq!(note_before_reading("job"), note(0, 2, "Reading E57"));
    assert_eq!(
        reading_step("job", false),
        ReadingAction::ReportAndRest { note: note(0, 2, "Reading E57 (PDAL)"), rest_ms: 600 }
    );
    assert_eq!(reading_step("job", true), ReadingAction::Stop);
}

#[test]
fn a_child_that_ends_by_itself() {
    let mut poll = ChildPoll::new();
    assert!(poll.accepts(&PollEvent::FlagRead(false)));
    assert!(!poll.accepts(&PollEvent::TimedOut));
    assert_eq!(poll.step(PollEvent::FlagRead(false)), PollAction::AwaitChild { timeout_ms: 300 });
    assert!(!poll.accepts(&PollEvent::FlagRead(false)));
    assert_eq!(poll.step(PollEvent::TimedOut), PollAction::ReadFlag);
    assert_eq!(poll.step(PollEvent::FlagRead(false)), PollAction::AwaitChild { timeout_ms: 300 });
    assert_eq!(
        poll.step(PollEvent::Exited(BAD)),
        PollAction::End { kill: false, outcome: WaitOutcome::Exited(BAD) }
    );
    assert!(!poll.accepts(&PollEvent::TimedOut));
    assert!(!poll.accepts(&PollEvent::FlagRead(true)));
}

#[test]
fn a_child_that_is_cancelled_or_lost() {
    let mut poll = ChildPoll::new();
    assert_eq!(
        poll.step(PollEvent::FlagRead(true)),
        PollAction::End { kill: true, outcome: WaitOutcome::Cancelled }
    );
    let mut poll = ChildPoll::new();
    poll.step(PollEvent::FlagRead(false));
    assert_eq!(
        poll.step(PollEvent::WaitFailed("gone".to_string())),
        PollAction::End { kill: false, outcome: WaitOutcome::WaitFailed("gone".to_string()) }
    );
}

#[test]
fn lines_are_logged_behind_a_tag() {
    assert_eq!(log_line("pdal stderr", "oops"), "[pdal stderr] oops");
    assert_eq!(log_line("potree stdout", ""), "[potree stdout] ");
}

const PLAN: StagePlan = StagePlan { index: 1, total: 2, progress_base: 50, progress_span: 50 };

#[test]
fn lines_are_reported() {
    let job = PotreeJob { id: "job".to_string(), plan: PLAN };
    assert_eq!(
        report_line(&job, None, "[12%] counting"),
        LineReport {
            log: "[potree stdout] [12%] counting".to_string(),
            percent: Some("12".to_string()),
            note: note(1, 2, "Counting"),
        }
    );
    assert_eq!(
        report_line(&job, Some("12".to_string()), "hello"),
        LineReport {
            log: "[potree stdout] hello".to_string(),
            percent: Some("12".to_string()),
            note: note(1, 2, "Building octree"),
        }
    );
}

fn potree() -> PotreeRun {
    PotreeRun::new("job".to_string(), PLAN)
}

fn percent_of(action: PotreeAction) -> Option<String> {
    match action {
        PotreeAction::Report(report) => report.percent,
        other => panic!("not a report: {:?}", other),
    }
}

#[test]
fn a_run_that_succeeds() {
    let mut run = potree();
    assert!(!run.accepts(&PotreeEvent::OutputEnded));
    assert_eq!(run.step(PotreeEvent::FlagRead(false)), PotreeAction::AwaitOutput);
    assert_eq!(percent_of(run.step(PotreeEvent::Line("start".to_string()))), None);
    assert!(!run.accepts(&PotreeEvent::Line("too early".to_string())));
    run.step(PotreeEvent::FlagRead(false));
    assert_eq!(
        percent_of(run.step(PotreeEvent::Line("40%".to_string()))),
        Some("40".to_string())
    );
    run.step(PotreeEvent::FlagRead(false));
    assert_eq!(
        percent_of(run.step(PotreeEvent::Line("400%".to_string()))),
        Some("40".to_string())
    );
    run.step(PotreeEvent::FlagRead(false));
    assert_eq!(run.step(PotreeEvent::OutputEnded), PotreeAction::AwaitExit);
    assert!(!run.accepts(&PotreeEvent::FlagRead(true)));
    assert_eq!(
        run.step(PotreeEvent::Exited(GOOD)),
        PotreeAction::End { kill: false, result: Ok(()) }
    );
    assert!(!run.accepts(&PotreeEvent::Exited(GOOD)));
}

#[test]
fn runs_that_fail() {
    let with_logs = "PotreeConverter exited with non-zero status (see terminal logs)";
    let without = "PotreeConverter exited with non-zero status";
    assert_eq!(potree_result(true, BAD), Err(failed("potree_exit_3", with_logs)));
    assert_eq!(potree_result(false, KILLED), Err(failed("potree_exit_-1", without)));

    let mut run = potree();
    run.step(PotreeEvent::FlagRead(false));
    assert_eq!(
        run.step(PotreeEvent::Exited(BAD)),
        PotreeAction::End { kill: false, result: Err(failed("potree_exit_3", with_logs)) }
    );
    let mut run = potree();
    run.step(PotreeEvent::FlagRead(false));
    run.step(PotreeEvent::OutputEnded);
    assert_eq!(
        run.step(PotreeEvent::Exited(BAD)),
        PotreeAction::End { kill: false, result: Err(failed("potree_exit_3", without)) }
    );
    let mut run = potree();
    run.step(PotreeEvent::FlagRead(false));
    assert_eq!(
        run.step(PotreeEvent::WaitFailed("gone".to_string())),
        PotreeAction::End { kill: false, result: Err(failed("potree_wait_failed", "gone")) }
    );
}

#[test]
fn a_run_that_is_cancelled() {
    let mut run = potree();
    run.step(PotreeEvent::FlagRead(false));
    run.step(PotreeEvent::Line("40%".to_string()));
    assert_eq!(
        run.step(PotreeEvent::FlagRead(true)),
        PotreeAction::End { kill: true, result: Err(StageError::Cancelled) }
    );
}

#[test]
fn a_run_tells_of_its_job() {
    let plan = StagePlan { index: 0, total: 1, progress_base: 0, progress_span: 100 };
    let mut run = PotreeRun::new("job".to_string(), plan);
    run.step(PotreeEvent::FlagRead(false));
    match run.step(PotreeEvent::Line("indexing".to_string())) {
        PotreeAction::Report(report) => assert_eq!(report.note, note(0, 1, "Indexing")),
        other => panic!("not a report: {:?}", other),
    }
}

#[test]
fn a_flag_that_is_raised_at_the_start_cancels() {
    let mut poll = ChildPoll::new();
    match poll.step(PollEvent::FlagRead(true)) {
        PollAction::End { kill, outcome } => {
            assert!(kill);
            assert_eq!(pdal_result(outcome, 5000), Err(StageError::Cancelled));
        }
        other => panic!("not the end: {:?}", other),
    }
    assert_eq!(
        potree().step(PotreeEvent::FlagRead(true)),
        PotreeAction::End { kill: true, result: Err(StageError::Cancelled) }
    );
}
