use scan2bim_converter::pipeline::{
    output_name, output_name_for, output_path_for, Pipeline, PipelineAction, PipelineEvent,
    PDAL_MISSING,
};
use scan2bim_converter::report::{
    report_event, CancelledPayload, DonePayload, ErrorPayload, ProgressNote, Report, ShownStage,
};
use scan2bim_converter::stage::{StageError, StagePlan, Tool};
use scan2bim_converter::stub::{jitter_thousandths, stub_stage, StubAction, StubEvent, StubRun};

fn error(code: &str, message: &str) -> Report {
    Report::Error(ErrorPayload {
        job_id: "job".to_string(),
        code: code.to_string(),
        message: message.to_string(),
    })
}

fn cancelled() -> Report {
    Report::Cancelled(CancelledPayload { job_id: "job".to_string() })
}

fn note(stage: ShownStage) -> ProgressNote {
    ProgressNote { job_id: "job".to_string(), stage }
}

fn measured(bytes: u64) -> PipelineEvent {
    PipelineEvent::OutputMeasured { bytes, duration_ms: 1234 }
}

fn pipeline(input: &str) -> Pipeline {
    Pipeline::new("job".to_string(), input, "/out/")
}

fn make(path: &str) -> PipelineAction {
    PipelineAction::MakeDirectory { path: path.to_string() }
}

fn made() -> PipelineEvent {
    PipelineEvent::DirectoryMade(Ok(Some(1089)))
}

fn failed() -> Result<(), StageError> {
    Err(StageError::Failed("code".to_string(), "message".to_string()))
}

#[test]
fn a_las_input_is_converted() {
    let mut p = pipeline("/data/scan.las");
    assert!(!p.accepts(&PipelineEvent::ToolLocated(true)));
    assert_eq!(p.step(PipelineEvent::Started), PipelineAction::Locate(Tool::PotreeConverter));
    assert_eq!(p.step(PipelineEvent::ToolLocated(true)), make("/out/scan"));
    assert!(p.accepts(&made()));
    assert!(!p.accepts(&measured(1)));
    assert_eq!(
        p.step(made()),
        PipelineAction::Convert {
            from_temp: false,
            plan: StagePlan { index: 0, total: 1, progress_base: 0, progress_span: 100 },
            points_total: 99,
        }
    );
    assert_eq!(
        p.step(PipelineEvent::ConversionEnded(Ok(()))),
        PipelineAction::Measure { remove_temp: false }
    );
    assert_eq!(
        p.step(measured(8192)),
        PipelineAction::End {
            remove_temp: false,
            report: Report::Done(DonePayload {
                job_id: "job".to_string(),
                output_path: "/out/scan".to_string(),
                duration_ms: 1234,
                output_bytes: 8192,
                points_total: 99,
            }),
        }
    );
    assert!(!p.accepts(&PipelineEvent::Started));
}

fn translated() -> Pipeline {
    let mut p = pipeline("/data/Scan.E57");
    assert_eq!(p.step(PipelineEvent::Started), PipelineAction::Locate(Tool::PotreeConverter));
    assert_eq!(p.step(PipelineEvent::ToolLocated(true)), PipelineAction::Locate(Tool::Pdal));
    assert_eq!(
        p.step(PipelineEvent::ToolLocated(true)),
        PipelineAction::Translate {
            temp_name: "scan2bim-job.las".to_string(),
            plan: StagePlan { index: 0, total: 2, progress_base: 0, progress_span: 48 },
            note: note(ShownStage { index: 0, total: 2, label: "Reading E57".to_string() }),
        }
    );
    p
}

#[test]
fn an_e57_input_is_translated_first() {
    let mut p = translated();
    assert_eq!(p.step(PipelineEvent::TranslationEnded(Ok(()))), make("/out/Scan"));
    assert_eq!(
        p.step(made()),
        PipelineAction::Convert {
            from_temp: true,
            plan: StagePlan { index: 1, total: 2, progress_base: 50, progress_span: 50 },
            points_total: 99,
        }
    );
    assert_eq!(
        p.step(PipelineEvent::ConversionEnded(Ok(()))),
        PipelineAction::Measure { remove_temp: true }
    );
    assert_eq!(
        p.step(measured(8191)),
        PipelineAction::End {
            remove_temp: false,
            report: error(
                "empty_output",
                "PotreeConverter exited 0 but produced only 8191 bytes \u{2014} likely failed to \
                 parse the LAS (see terminal logs)"
            ),
        }
    );
}

#[test]
fn a_translation_that_does_not_succeed() {
    let mut p = translated();
    assert_eq!(
        p.step(PipelineEvent::TranslationEnded(Err(StageError::Cancelled))),
        PipelineAction::End { remove_temp: false, report: cancelled() }
    );
    let mut p = translated();
    assert_eq!(
        p.step(PipelineEvent::TranslationEnded(failed())),
        PipelineAction::End { remove_temp: false, report: error("code", "message") }
    );
}

#[test]
fn a_directory_that_cannot_be_made() {
    let mut p = translated();
    p.step(PipelineEvent::TranslationEnded(Ok(())));
    assert_eq!(
        p.step(PipelineEvent::DirectoryMade(Err("read-only".to_string()))),
        PipelineAction::End { remove_temp: true, report: error("mkdir_failed", "read-only") }
    );
    let mut p = pipeline("a.las");
    p.step(PipelineEvent::Started);
    p.step(PipelineEvent::ToolLocated(true));
    assert_eq!(
        p.step(PipelineEvent::DirectoryMade(Err("read-only".to_string()))),
        PipelineAction::End { remove_temp: false, report: error("mkdir_failed", "read-only") }
    );
}

#[test]
fn a_conversion_that_does_not_succeed() {
    let mut p = translated();
    p.step(PipelineEvent::TranslationEnded(Ok(())));
    p.step(made());
    assert_eq!(
        p.step(PipelineEvent::ConversionEnded(Err(StageError::Cancelled))),
        PipelineAction::End { remove_temp: true, report: cancelled() }
    );
    let mut p = translated();
    p.step(PipelineEvent::TranslationEnded(Ok(())));
    p.step(made());
    assert_eq!(
        p.step(PipelineEvent::ConversionEnded(failed())),
        PipelineAction::End { remove_temp: true, report: error("code", "message") }
    );
}

fn hand_over() -> PipelineAction {
    PipelineAction::RunStub { output_path: "/out/scan".to_string() }
}

#[test]
fn tools_that_are_missing() {
    let mut p = pipeline("scan.e57");
    p.step(PipelineEvent::Started);
    assert_eq!(p.step(PipelineEvent::ToolLocated(false)), hand_over());
    assert!(!p.accepts(&PipelineEvent::ToolLocated(true)));
    let mut p = pipeline("scan.e57");
    p.step(PipelineEvent::Started);
    p.step(PipelineEvent::ToolLocated(true));
    assert_eq!(
        p.step(PipelineEvent::ToolLocated(false)),
        PipelineAction::End { remove_temp: false, report: error("pdal_missing", PDAL_MISSING) }
    );
    assert_eq!(
        PDAL_MISSING,
        "PDAL binary not found. E57 input requires bundled PDAL. Found PotreeConverter only."
    );
}

#[test]
fn outputs_are_named_after_their_inputs() {
    for path in [
        "/data/scan.e57", "scan.e57", "scan", "/data/.hidden", "a/b.c/d.tar.gz", "..", "", "/",
        "dir/", "x/..", ".", "dir/.", "a.", "/\u{e4}.las",
    ] {
        let expected = std::path::Path::new(path)
            .file_stem()
            .map(|s| s.to_string_lossy().into_owned())
            .unwrap_or_else(|| "output".to_string());
        assert_eq!(output_name_for(path), expected, "{:?}", path);
    }
    assert_eq!(output_name_for("/data/scan.e57"), "scan");
    assert_eq!(output_name_for("/"), "output");
    assert_eq!(output_name(None), "output");
    assert_eq!(output_name(Some("d.tar.gz".to_string())), "d.tar");
    assert_eq!(output_name(Some(".hidden".to_string())), ".hidden");
    assert_eq!(output_name(Some("a.".to_string())), "a");
    assert_eq!(output_name(Some("plain".to_string())), "plain");
}

#[test]
fn outputs_lie_in_the_chosen_directory() {
    for dir in ["/out", "/out/", "out", "", "/", "C:\\out", "out\\", "//host/share", "a b"] {
        for input in ["/data/scan.e57", "scan", "/", "x/c:d.las", "a\\b.las", "//h/s/f.las"] {
            let expected = std::path::PathBuf::from(dir).join(output_name_for(input));
            assert_eq!(output_path_for(dir, input), expected.to_string_lossy(), "{:?}", (dir, input));
        }
    }
    if std::path::MAIN_SEPARATOR == '/' {
        assert_eq!(output_path_for("/out", "/data/scan.e57"), "/out/scan");
        assert_eq!(output_path_for("/out/", "/data/scan.e57"), "/out/scan");
        assert_eq!(output_path_for("", "/data/scan.e57"), "scan");
        assert_eq!(output_path_for("/out", "//h/s/f.las"), "/out/f");
        assert_eq!(output_path_for("/out", "/"), "/out/output");
    }
}

#[test]
fn a_plan_takes_the_path_that_it_is_given() {
    let mut p = Pipeline::plan("job".to_string(), "scan.las", "here/or there".to_string());
    p.step(PipelineEvent::Started);
    assert_eq!(p.step(PipelineEvent::ToolLocated(true)), make("here/or there"));
    p.step(PipelineEvent::DirectoryMade(Ok(None)));
    p.step(PipelineEvent::ConversionEnded(Ok(())));
    match p.step(measured(9000)) {
        PipelineAction::End { report: Report::Done(done), .. } => {
            assert_eq!(done.output_path, "here/or there");
            assert_eq!(done.points_total, 0);
        }
        other => panic!("not done: {:?}", other),
    }
}

#[test]
fn reports_go_under_their_events() {
    assert_eq!(report_event(&cancelled()), "convert:cancelled");
    assert_eq!(report_event(&error("a", "b")), "convert:error");
    let done = Report::Done(DonePayload {
        job_id: "job".to_string(),
        output_path: String::new(),
        duration_ms: 0,
        output_bytes: 0,
        points_total: 0,
    });
    assert_eq!(report_event(&done), "convert:done");
}

#[test]
fn the_stand_in_shows_four_stages() {
    let labels = ["Reading file", "Loading points", "Building octree", "Writing", "Writing"];
    for quarter in 0..5usize {
        let stage = stub_stage(quarter);
        assert_eq!(stage.label, labels[quarter]);
        assert_eq!(stage.index, quarter.min(3) as u32);
        assert_eq!(stage.total, 4);
    }
    assert_eq!(stub_stage(usize::MAX).label, "Writing");
}

fn stand_in() -> StubRun {
    StubRun::new("job".to_string(), "/out/scan".to_string(), Some(1000))
}

fn stub_output(made: bool) -> StubEvent {
    StubEvent::OutputMeasured { made, bytes: 450, duration_ms: 12 }
}

fn stub_done() -> StubAction {
    StubAction::End {
        report: Report::Done(DonePayload {
            job_id: "job".to_string(),
            output_path: "/out/scan".to_string(),
            duration_ms: 12,
            output_bytes: 450,
            points_total: 90,
        }),
    }
}

#[test]
fn the_stand_in_goes_on_until_it_is_complete() {
    let mut run = stand_in();
    assert!(!run.accepts(&StubEvent::Advanced { quarter: 0, complete: false }));
    assert!(!run.accepts(&stub_output(true)));
    assert!(run.accepts(&StubEvent::FlagRead(false)));
    assert_eq!(run.step(StubEvent::FlagRead(false)), StubAction::Advance);
    assert!(!run.accepts(&StubEvent::FlagRead(false)));
    assert_eq!(
        run.step(StubEvent::Advanced { quarter: 1, complete: false }),
        StubAction::ReportAndRest { note: note(stub_stage(1)), rest_ms: 150 }
    );
    assert_eq!(run.step(StubEvent::FlagRead(false)), StubAction::Advance);
    assert_eq!(
        run.step(StubEvent::Advanced { quarter: 4, complete: true }),
        StubAction::ReportAndMeasure {
            note: note(stub_stage(3)),
            output_path: "/out/scan".to_string(),
        }
    );
    assert!(!run.accepts(&StubEvent::FlagRead(true)));
    assert_eq!(run.step(stub_output(true)), stub_done());
    assert!(!run.accepts(&StubEvent::FlagRead(false)));
    assert!(!run.accepts(&stub_output(true)));
}

#[test]
fn the_stand_in_is_done_without_its_directory() {
    let mut run = stand_in();
    run.step(StubEvent::FlagRead(false));
    assert_eq!(
        run.step(StubEvent::Advanced { quarter: 3, complete: true }),
        StubAction::ReportAndMeasure {
            note: note(stub_stage(3)),
            output_path: "/out/scan".to_string(),
        }
    );
    assert_eq!(run.step(stub_output(false)), stub_done());
}

#[test]
fn an_input_of_unknown_length_has_no_points() {
    let mut run = StubRun::new("job".to_string(), "o".to_string(), None);
    run.step(StubEvent::FlagRead(false));
    run.step(StubEvent::Advanced { quarter: 3, complete: true });
    match run.step(stub_output(true)) {
        StubAction::End { report: Report::Done(done) } => assert_eq!(done.points_total, 0),
        other => panic!("not done: {:?}", other),
    }
}

#[test]
fn the_stand_in_is_cancelled() {
    let mut run = stand_in();
    assert_eq!(run.step(StubEvent::FlagRead(true)), StubAction::End { report: cancelled() });
    assert!(!run.accepts(&StubEvent::FlagRead(false)));
    assert!(!run.accepts(&StubEvent::Advanced { quarter: 0, complete: false }));
    assert!(!run.accepts(&stub_output(true)));

    let mut run = stand_in();
    run.step(StubEvent::FlagRead(false));
    run.step(StubEvent::Advanced { quarter: 0, complete: false });
    assert_eq!(run.step(StubEvent::FlagRead(true)), StubAction::End { report: cancelled() });
}

#[test]
fn a_conversion_with_a_raised_flag_is_not_done() {
    let mut p = pipeline("scan.las");
    p.step(PipelineEvent::Started);
    p.step(PipelineEvent::ToolLocated(true));
    p.step(made());
    assert_eq!(
        p.step(PipelineEvent::ConversionEnded(Err(StageError::Cancelled))),
        PipelineAction::End { remove_temp: false, report: cancelled() }
    );
    let mut p = pipeline("scan.las");
    p.step(PipelineEvent::Started);
    assert_eq!(p.step(PipelineEvent::ToolLocated(false)), hand_over());
    assert_eq!(stand_in().step(StubEvent::FlagRead(true)), StubAction::End { report: cancelled() });
}

#[test]
fn jitter_is_below_one() {
    assert_eq!(jitter_thousandths(0), 0);
    assert_eq!(jitter_thousandths(999_999_999), 999);
    assert_eq!(jitter_thousandths(123_456_789), 789);
}
