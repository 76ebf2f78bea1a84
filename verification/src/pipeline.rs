//! The course of a conversion: locate the tools, translate an E57 input to a
//! temporary LAS file, make the output directory, convert, and judge the
//! result by its size.
//!
//! [`Pipeline`] takes what happened and says what to do next; it ends with one
//! report, or hands over to the stand-in where no converter is installed.

use vstd::prelude::*;

use crate::files::{estimate_points, estimated_points};
use crate::paths::{
    a_name_stands_behind_its_directory, a_name_without_an_extension_is_its_stem,
    a_path_ends_with_the_name_behind_its_slash, file_name, has_drive, has_share, join, joined,
    last_component, marked, separator, stem, stem_of, the_share_stays,
    the_stem_is_before_the_extension, two_separators, what_stands_between,
};
use crate::report::{
    report_job, CancelledPayload, DonePayload, ErrorPayload, ProgressNote, Report,
};
use crate::stage::{
    note_before_reading, reading_stage, stage_view, translation_plan, StageError, StagePlan, Tool,
};
use crate::text::{
    cases_by_number, chars_of, join3, decimal, ends_with, lower, number, owned, text_view, to_lower,
};

verus! {

// ---------------------------------------------------------------------------
// What is known of a job from the start
// ---------------------------------------------------------------------------

/// An input that has to be translated first: its name ends with `.e57`,
/// whatever the case.
pub open spec fn is_e57(input_path: Seq<char>) -> bool {
    ".e57"@.is_suffix_of(lower(input_path))
}

/// Tells whether an input has to be translated first.
pub fn needs_translation(input_path: &str) -> (r: bool)
    ensures
        r == is_e57(input_path@),
{
    ends_with(&to_lower(&chars_of(input_path)), &chars_of(".e57"))
}

/// The name of the output directory: the stem of the input's file name, or
/// `output` where it has none.
pub open spec fn output_stem(name: Option<Seq<char>>) -> Seq<char> {
    match name {
        Some(n) => stem(n),
        None => "output"@,
    }
}

/// The name of the output directory for an input whose file name is given.
pub fn output_name(name: Option<String>) -> (r: String)
    ensures
        r@ == output_stem(text_view(name)),
{
    match name {
        Some(n) => stem_of(n.as_str()),
        None => owned("output"),
    }
}

/// The name of the output directory for an input.
pub fn output_name_for(input_path: &str) -> (r: String)
    ensures
        exists|name: Option<Seq<char>>| #[trigger]
            last_component(input_path@, name) && r@ == output_stem(name),
{
    output_name(file_name(input_path))
}

/// The path is that of the output directory for an input, in the directory that
/// was chosen for outputs.
pub open spec fn is_output_path(
    output_dir: Seq<char>,
    input_path: Seq<char>,
    path: Seq<char>,
) -> bool {
    exists|name: Option<Seq<char>>| #[trigger]
        last_component(input_path, name) && joined(output_dir, output_stem(name), path)
}

/// The path of the output directory for an input, in the directory that was
/// chosen for outputs.
pub fn output_path_for(output_dir: &str, input_path: &str) -> (r: String)
    ensures
        is_output_path(output_dir@, input_path@, r@),
{
    let name = output_name_for(input_path);
    join(output_dir, name.as_str())
}

/// A job, as contracts speak of it: its id, whether its input has to be
/// translated, and the path of its output directory.
pub struct PlannedJob {
    pub id: Seq<char>,
    pub translate: bool,
    pub output_path: Seq<char>,
}

// ---------------------------------------------------------------------------
// Events and actions
// ---------------------------------------------------------------------------

/// An output directory smaller than this holds no point cloud.
pub const MIN_OUTPUT_BYTES: u64 = 8192;

/// What happened.
#[derive(Debug, PartialEq, Eq)]
pub enum PipelineEvent<S = String> {
    /// The conversion was started.
    Started,
    /// The tool was looked for, and found or not.
    ToolLocated(bool),
    /// The translation to LAS ended.
    TranslationEnded(Result<(), StageError<S>>),
    /// The output directory was made, when the input had this length where that
    /// is known, or it could not be made.
    DirectoryMade(Result<Option<u64>, S>),
    /// The conversion to an octree ended.
    ConversionEnded(Result<(), StageError<S>>),
    /// The output was measured.
    OutputMeasured { bytes: u64, duration_ms: u64 },
}

impl View for PipelineEvent<String> {
    type V = PipelineEvent<Seq<char>>;

    open spec fn view(&self) -> PipelineEvent<Seq<char>> {
        match self {
            PipelineEvent::Started => PipelineEvent::Started,
            PipelineEvent::ToolLocated(found) => PipelineEvent::ToolLocated(*found),
            PipelineEvent::TranslationEnded(r) => PipelineEvent::TranslationEnded(stage_view(*r)),
            PipelineEvent::DirectoryMade(r) => PipelineEvent::DirectoryMade(
                match r {
                    Ok(len) => Ok(*len),
                    Err(e) => Err(e@),
                },
            ),
            PipelineEvent::ConversionEnded(r) => PipelineEvent::ConversionEnded(stage_view(*r)),
            PipelineEvent::OutputMeasured { bytes, duration_ms } => PipelineEvent::OutputMeasured {
                bytes: *bytes,
                duration_ms: *duration_ms,
            },
        }
    }
}

/// The plan of the conversion stage: the second half of the whole where the
/// input was translated first, else the whole.
pub open spec fn conversion_plan(translate: bool) -> StagePlan {
    if translate {
        StagePlan { index: 1, total: 2, progress_base: 50, progress_span: 50 }
    } else {
        StagePlan { index: 0, total: 1, progress_base: 0, progress_span: 100 }
    }
}

/// What to do next.
#[derive(Debug, PartialEq, Eq)]
pub enum PipelineAction<S = String> {
    /// Look for a tool.
    Locate(Tool),
    /// Hand over to the stand-in, with this output directory.
    RunStub { output_path: S },
    /// Tell that reading starts, and translate the input into a temporary file
    /// of this name.
    Translate { temp_name: S, plan: StagePlan, note: ProgressNote<S> },
    /// Make the output directory.
    MakeDirectory { path: S },
    /// Convert the temporary file or the input itself, which is estimated to
    /// have this many points.
    Convert { from_temp: bool, plan: StagePlan, points_total: u64 },
    /// Remove the temporary file if there is one, and measure the output.
    Measure { remove_temp: bool },
    /// Remove the temporary file if there is one, and tell the report.
    End { remove_temp: bool, report: Report<S> },
}

impl View for PipelineAction<String> {
    type V = PipelineAction<Seq<char>>;

    open spec fn view(&self) -> PipelineAction<Seq<char>> {
        match self {
            PipelineAction::Locate(tool) => PipelineAction::Locate(*tool),
            PipelineAction::RunStub { output_path } => PipelineAction::RunStub {
                output_path: output_path@,
            },
            PipelineAction::Translate { temp_name, plan, note } => PipelineAction::Translate {
                temp_name: temp_name@,
                plan: *plan,
                note: note@,
            },
            PipelineAction::MakeDirectory { path } => PipelineAction::MakeDirectory { path: path@ },
            PipelineAction::Convert { from_temp, plan, points_total } => PipelineAction::Convert {
                from_temp: *from_temp,
                plan: *plan,
                points_total: *points_total,
            },
            PipelineAction::Measure { remove_temp } => PipelineAction::Measure {
                remove_temp: *remove_temp,
            },
            PipelineAction::End { remove_temp, report } => PipelineAction::End {
                remove_temp: *remove_temp,
                report: report@,
            },
        }
    }
}

// ---------------------------------------------------------------------------
// Reports
// ---------------------------------------------------------------------------

/// The report of a failure.
pub open spec fn failure(id: Seq<char>, code: Seq<char>, message: Seq<char>) -> Report<Seq<char>> {
    Report::Error(ErrorPayload { job_id: id, code, message })
}

/// The report of a stage that did not succeed.
pub open spec fn stage_report(id: Seq<char>, e: StageError<Seq<char>>) -> Report<Seq<char>> {
    match e {
        StageError::Cancelled => Report::Cancelled(CancelledPayload { job_id: id }),
        StageError::Failed(code, message) => failure(id, code, message),
    }
}

/// The report of a measured output: a failure where it is too small.
pub open spec fn output_report(
    id: Seq<char>,
    bytes: u64,
    output_path: Seq<char>,
    duration_ms: u64,
    points_total: u64,
) -> Report<Seq<char>> {
    if bytes < MIN_OUTPUT_BYTES {
        failure(
            id,
            "empty_output"@,
            "PotreeConverter exited 0 but produced only "@ + decimal(bytes as nat)
                + " bytes \u{2014} likely failed to parse the LAS (see terminal logs)"@,
        )
    } else {
        Report::Done(
            DonePayload { job_id: id, output_path, duration_ms, output_bytes: bytes, points_total },
        )
    }
}

fn error_report(job_id: &String, code: &str, message: String) -> (r: Report)
    ensures
        r@ == failure(job_id@, code@, message@),
{
    Report::Error(ErrorPayload { job_id: job_id.clone(), code: owned(code), message })
}

fn report_stage(job_id: &String, e: StageError) -> (r: Report)
    ensures
        r@ == stage_report(job_id@, e@),
{
    match e {
        StageError::Cancelled => Report::Cancelled(CancelledPayload { job_id: job_id.clone() }),
        StageError::Failed(code, message) => error_report(job_id, code.as_str(), message),
    }
}

fn report_output(
    job_id: &String,
    bytes: u64,
    output_path: String,
    duration_ms: u64,
    points_total: u64,
) -> (r: Report)
    ensures
        r@ == output_report(job_id@, bytes, output_path@, duration_ms, points_total),
{
    if bytes < MIN_OUTPUT_BYTES {
        error_report(
            job_id,
            "empty_output",
            join3(
                "PotreeConverter exited 0 but produced only ",
                number(bytes).as_str(),
                " bytes \u{2014} likely failed to parse the LAS (see terminal logs)",
            ),
        )
    } else {
        Report::Done(
            DonePayload {
                job_id: job_id.clone(),
                output_path,
                duration_ms,
                output_bytes: bytes,
                points_total,
            },
        )
    }
}

// ---------------------------------------------------------------------------
// The course
// ---------------------------------------------------------------------------

/// Where a conversion stands. From the conversion to an octree on, it is known
/// how many points the input is estimated to have.
#[derive(Clone, Copy, Debug, PartialEq, Eq)]
pub enum Phase {
    New,
    LocatingConverter,
    LocatingTranslator,
    Translating,
    MakingDirectory,
    Converting { points_total: u64 },
    Measuring { points_total: u64 },
    Ended,
}

/// The event that each phase waits for.
pub open spec fn pipeline_accepts(phase: Phase, event: PipelineEvent<Seq<char>>) -> bool {
    match phase {
        Phase::New => event is Started,
        Phase::LocatingConverter => event is ToolLocated,
        Phase::LocatingTranslator => event is ToolLocated,
        Phase::Translating => event is TranslationEnded,
        Phase::MakingDirectory => event is DirectoryMade,
        Phase::Converting { .. } => event is ConversionEnded,
        Phase::Measuring { .. } => event is OutputMeasured,
        Phase::Ended => false,
    }
}

/// The message of a conversion that lacks its translator.
pub const PDAL_MISSING: &'static str =
    "PDAL binary not found. E57 input requires bundled PDAL. Found PotreeConverter only.";

/// The points that the input is estimated to have, as far as that is known.
pub open spec fn known_points(phase: Phase) -> u64 {
    match phase {
        Phase::Converting { points_total } => points_total,
        Phase::Measuring { points_total } => points_total,
        _ => 0,
    }
}

/// The next phase and the next action.
pub open spec fn pipeline_next(
    job: PlannedJob,
    phase: Phase,
    event: PipelineEvent<Seq<char>>,
) -> (Phase, PipelineAction<Seq<char>>) {
    let make_directory = (
        Phase::MakingDirectory,
        PipelineAction::MakeDirectory { path: job.output_path },
    );
    match event {
        PipelineEvent::Started => (
            Phase::LocatingConverter,
            PipelineAction::Locate(Tool::PotreeConverter),
        ),
        PipelineEvent::ToolLocated(found) => if phase is LocatingConverter {
            if !found {
                (Phase::Ended, PipelineAction::RunStub { output_path: job.output_path })
            } else if job.translate {
                (Phase::LocatingTranslator, PipelineAction::Locate(Tool::Pdal))
            } else {
                make_directory
            }
        } else if found {
            (
                Phase::Translating,
                PipelineAction::Translate {
                    temp_name: "scan2bim-"@ + job.id + ".las"@,
                    plan: translation_plan(),
                    note: ProgressNote {
                        job_id: job.id,
                        stage: reading_stage("Reading E57"@),
                    },
                },
            )
        } else {
            (
                Phase::Ended,
                PipelineAction::End {
                    remove_temp: false,
                    report: failure(job.id, "pdal_missing"@, PDAL_MISSING@),
                },
            )
        },
        PipelineEvent::TranslationEnded(r) => match r {
            Ok(()) => make_directory,
            Err(e) => (
                Phase::Ended,
                PipelineAction::End { remove_temp: false, report: stage_report(job.id, e) },
            ),
        },
        PipelineEvent::DirectoryMade(r) => match r {
            Ok(len) => (
                Phase::Converting { points_total: estimated_points(len) },
                PipelineAction::Convert {
                    from_temp: job.translate,
                    plan: conversion_plan(job.translate),
                    points_total: estimated_points(len),
                },
            ),
            Err(e) => (
                Phase::Ended,
                PipelineAction::End {
                    remove_temp: job.translate,
                    report: failure(job.id, "mkdir_failed"@, e),
                },
            ),
        },
        PipelineEvent::ConversionEnded(r) => match r {
            Ok(()) => (
                Phase::Measuring { points_total: known_points(phase) },
                PipelineAction::Measure { remove_temp: job.translate },
            ),
            Err(e) => (
                Phase::Ended,
                PipelineAction::End { remove_temp: job.translate, report: stage_report(job.id, e) },
            ),
        },
        PipelineEvent::OutputMeasured { bytes, duration_ms } => (
            Phase::Ended,
            PipelineAction::End {
                remove_temp: false,
                report: output_report(
                    job.id,
                    bytes,
                    job.output_path,
                    duration_ms,
                    known_points(phase),
                ),
            },
        ),
    }
}

/// One conversion.
pub struct Pipeline {
    job_id: String,
    translate: bool,
    output_path: String,
    phase: Phase,
}

impl Pipeline {
    /// The job that is converted.
    pub closed spec fn job(self) -> PlannedJob {
        PlannedJob {
            id: self.job_id@,
            translate: self.translate,
            output_path: self.output_path@,
        }
    }

    /// Where the conversion stands.
    pub closed spec fn phase(self) -> Phase {
        self.phase
    }

    /// A conversion of an input into this output directory.
    pub fn plan(job_id: String, input_path: &str, output_path: String) -> (r: Pipeline)
        ensures
            r.phase() is New,
            r.job() == (PlannedJob {
                id: job_id@,
                translate: is_e57(input_path@),
                output_path: output_path@,
            }),
    {
        Pipeline {
            job_id,
            translate: needs_translation(input_path),
            output_path,
            phase: Phase::New,
        }
    }

    /// A conversion of an input, in the directory that was chosen for outputs.
    pub fn new(job_id: String, input_path: &str, output_dir: &str) -> (r: Pipeline)
        ensures
            r.phase() is New,
            r.job().id == job_id@,
            r.job().translate == is_e57(input_path@),
            is_output_path(output_dir@, input_path@, r.job().output_path),
    {
        Pipeline::plan(job_id, input_path, output_path_for(output_dir, input_path))
    }

    /// Tells whether an event is the one that is waited for.
    pub fn accepts(&self, event: &PipelineEvent) -> (r: bool)
        ensures
            r == pipeline_accepts(self.phase(), event@),
    {
        match (self.phase, event) {
            (Phase::New, PipelineEvent::Started) => true,
            (Phase::LocatingConverter, PipelineEvent::ToolLocated(_)) => true,
            (Phase::LocatingTranslator, PipelineEvent::ToolLocated(_)) => true,
            (Phase::Translating, PipelineEvent::TranslationEnded(_)) => true,
            (Phase::MakingDirectory, PipelineEvent::DirectoryMade(_)) => true,
            (Phase::Converting { .. }, PipelineEvent::ConversionEnded(_)) => true,
            (Phase::Measuring { .. }, PipelineEvent::OutputMeasured { .. }) => true,
            _ => false,
        }
    }

    fn end(&mut self, remove_temp: bool, report: Report) -> (action: PipelineAction)
        ensures
            final(self).job() == old(self).job(),
            final(self).phase() is Ended,
            action@ == (PipelineAction::End { remove_temp, report: report@ }),
    {
        self.phase = Phase::Ended;
        PipelineAction::End { remove_temp, report }
    }

    fn make_directory(&mut self) -> (action: PipelineAction)
        ensures
            final(self).job() == old(self).job(),
            final(self).phase() is MakingDirectory,
            action@ == (PipelineAction::MakeDirectory { path: old(self).job().output_path }),
    {
        self.phase = Phase::MakingDirectory;
        PipelineAction::MakeDirectory { path: self.output_path.clone() }
    }

    fn known_points(&self) -> (points: u64)
        ensures
            points == known_points(self.phase()),
    {
        match self.phase {
            Phase::Converting { points_total } => points_total,
            Phase::Measuring { points_total } => points_total,
            _ => 0,
        }
    }

    /// Takes what happened and says what to do next.
    pub fn step(&mut self, event: PipelineEvent) -> (action: PipelineAction)
        requires
            pipeline_accepts(old(self).phase(), event@),
        ensures
            final(self).job() == old(self).job(),
            final(self).phase() == pipeline_next(old(self).job(), old(self).phase(), event@).0,
            action@ == pipeline_next(old(self).job(), old(self).phase(), event@).1,
    {
        match event {
            PipelineEvent::Started => {
                self.phase = Phase::LocatingConverter;
                PipelineAction::Locate(Tool::PotreeConverter)
            },
            PipelineEvent::ToolLocated(found) => match self.phase {
                Phase::LocatingConverter => {
                    if !found {
                        self.phase = Phase::Ended;
                        PipelineAction::RunStub { output_path: self.output_path.clone() }
                    } else if self.translate {
                        self.phase = Phase::LocatingTranslator;
                        PipelineAction::Locate(Tool::Pdal)
                    } else {
                        self.make_directory()
                    }
                },
                _ => {
                    if found {
                        self.phase = Phase::Translating;
                        PipelineAction::Translate {
                            temp_name: join3("scan2bim-", self.job_id.as_str(), ".las"),
                            plan: StagePlan {
                                index: 0,
                                total: 2,
                                progress_base: 0,
                                progress_span: 48,
                            },
                            note: note_before_reading(self.job_id.as_str()),
                        }
                    } else {
                        let report = error_report(
                            &self.job_id,
                            "pdal_missing",
                            owned(PDAL_MISSING),
                        );
                        self.end(false, report)
                    }
                },
            },
            PipelineEvent::TranslationEnded(r) => match r {
                Ok(()) => self.make_directory(),
                Err(e) => {
                    let report = report_stage(&self.job_id, e);
                    self.end(false, report)
                },
            },
            PipelineEvent::DirectoryMade(r) => match r {
                Ok(len) => {
                    let points_total = estimate_points(len);
                    self.phase = Phase::Converting { points_total };
                    PipelineAction::Convert {
                        from_temp: self.translate,
                        plan: if self.translate {
                            StagePlan { index: 1, total: 2, progress_base: 50, progress_span: 50 }
                        } else {
                            StagePlan { index: 0, total: 1, progress_base: 0, progress_span: 100 }
                        },
                        points_total,
                    }
                },
                Err(e) => {
                    let report = error_report(&self.job_id, "mkdir_failed", e);
                    self.end(self.translate, report)
                },
            },
            PipelineEvent::ConversionEnded(r) => match r {
                Ok(()) => {
                    self.phase = Phase::Measuring { points_total: self.known_points() };
                    PipelineAction::Measure { remove_temp: self.translate }
                },
                Err(e) => {
                    let report = report_stage(&self.job_id, e);
                    self.end(self.translate, report)
                },
            },
            PipelineEvent::OutputMeasured { bytes, duration_ms } => {
                let report = report_output(
                    &self.job_id,
                    bytes,
                    self.output_path.clone(),
                    duration_ms,
                    self.known_points(),
                );
                self.end(false, report)
            },
        }
    }
}

// ---------------------------------------------------------------------------
// Laws
// ---------------------------------------------------------------------------

/// The events of a conversion, from a phase on: each is waited for when it
/// comes.
pub open spec fn pipeline_run(
    job: PlannedJob,
    phase: Phase,
    events: Seq<PipelineEvent<Seq<char>>>,
) -> bool
    decreases events.len(),
{
    events.len() == 0 || (pipeline_accepts(phase, events[0]) && pipeline_run(
        job,
        pipeline_next(job, phase, events[0]).0,
        events.drop_first(),
    ))
}

/// The phase after the events.
pub open spec fn pipeline_after(
    job: PlannedJob,
    phase: Phase,
    events: Seq<PipelineEvent<Seq<char>>>,
) -> Phase
    decreases events.len(),
{
    if events.len() == 0 {
        phase
    } else {
        pipeline_after(job, pipeline_next(job, phase, events[0]).0, events.drop_first())
    }
}

/// The actions that the events lead to, one for each.
pub open spec fn pipeline_actions(
    job: PlannedJob,
    phase: Phase,
    events: Seq<PipelineEvent<Seq<char>>>,
) -> Seq<PipelineAction<Seq<char>>>
    decreases events.len(),
{
    if events.len() == 0 {
        Seq::empty()
    } else {
        seq![pipeline_next(job, phase, events[0]).1] + pipeline_actions(
            job,
            pipeline_next(job, phase, events[0]).0,
            events.drop_first(),
        )
    }
}

/// The events that a phase is at most away from the end.
pub open spec fn steps_left(phase: Phase) -> nat {
    match phase {
        Phase::New => 7,
        Phase::LocatingConverter => 6,
        Phase::LocatingTranslator => 5,
        Phase::Translating => 4,
        Phase::MakingDirectory => 3,
        Phase::Converting { .. } => 2,
        Phase::Measuring { .. } => 1,
        Phase::Ended => 0,
    }
}

/// The action after which nothing is left to do: the report, or the hand-over
/// to the stand-in.
pub open spec fn closes(action: PipelineAction<Seq<char>>) -> bool {
    action is End || action is RunStub
}

/// The action removes the temporary file.
pub open spec fn removes_temp(action: PipelineAction<Seq<char>>) -> bool {
    match action {
        PipelineAction::Measure { remove_temp } => remove_temp,
        PipelineAction::End { remove_temp, .. } => remove_temp,
        _ => false,
    }
}

/// How often the temporary file is removed.
pub open spec fn removals(actions: Seq<PipelineAction<Seq<char>>>) -> nat
    decreases actions.len(),
{
    if actions.len() == 0 {
        0
    } else {
        removals(actions.drop_first()) + if removes_temp(actions[0]) {
            1nat
        } else {
            0
        }
    }
}

/// The translator is at work only where the input needs it.
pub open spec fn reachable(job: PlannedJob, phase: Phase) -> bool {
    phase is LocatingTranslator || phase is Translating ==> job.translate
}

/// The event says that the translation succeeded.
pub open spec fn translation_ok(event: PipelineEvent<Seq<char>>) -> bool {
    event matches PipelineEvent::TranslationEnded(r) && r is Ok
}

/// The event says that the conversion to an octree succeeded.
pub open spec fn conversion_ok(event: PipelineEvent<Seq<char>>) -> bool {
    event matches PipelineEvent::ConversionEnded(r) && r is Ok
}

/// The translation succeeded.
pub open spec fn translated(events: Seq<PipelineEvent<Seq<char>>>) -> bool {
    exists|i: int| 0 <= i < events.len() && translation_ok(#[trigger] events[i])
}

/// The conversion to an octree succeeded.
pub open spec fn converted(events: Seq<PipelineEvent<Seq<char>>>) -> bool {
    exists|i: int| 0 <= i < events.len() && conversion_ok(#[trigger] events[i])
}

proof fn first_or_rest(events: Seq<PipelineEvent<Seq<char>>>)
    requires
        events.len() > 0,
    ensures
        translated(events) <==> translation_ok(events[0]) || translated(events.drop_first()),
        converted(events) <==> conversion_ok(events[0]) || converted(events.drop_first()),
{
    let rest = events.drop_first();
    assert forall|i: int| 0 < i < events.len() implies rest[i - 1] == #[trigger] events[i] by {}
    if translated(rest) {
        let i = choose|i: int| 0 <= i < rest.len() && translation_ok(#[trigger] rest[i]);
        assert(translation_ok(events[i + 1]));
    }
    if translated(events) {
        let i = choose|i: int| 0 <= i < events.len() && translation_ok(#[trigger] events[i]);
        if i > 0 {
            assert(translation_ok(rest[i - 1]));
        }
    }
    if converted(rest) {
        let i = choose|i: int| 0 <= i < rest.len() && conversion_ok(#[trigger] rest[i]);
        assert(conversion_ok(events[i + 1]));
    }
    if converted(events) {
        let i = choose|i: int| 0 <= i < events.len() && conversion_ok(#[trigger] events[i]);
        if i > 0 {
            assert(conversion_ok(rest[i - 1]));
        }
    }
}

/// A conversion cannot go on for ever: from each phase on, no more events come
/// than it is away from the end, so seven in all.
pub proof fn a_conversion_comes_to_an_end(
    job: PlannedJob,
    phase: Phase,
    events: Seq<PipelineEvent<Seq<char>>>,
)
    requires
        pipeline_run(job, phase, events),
    ensures
        events.len() <= steps_left(phase),
        steps_left(pipeline_after(job, phase, events)) + events.len() <= steps_left(phase),
    decreases events.len(),
{
    if events.len() > 0 {
        a_conversion_comes_to_an_end(
            job,
            pipeline_next(job, phase, events[0]).0,
            events.drop_first(),
        );
    }
}

/// A conversion is told of once: it has ended exactly when its last action is
/// the report or the hand-over to the stand-in, and no action before is.
pub proof fn a_conversion_closes_once(
    job: PlannedJob,
    phase: Phase,
    events: Seq<PipelineEvent<Seq<char>>>,
)
    requires
        pipeline_run(job, phase, events),
        events.len() > 0,
    ensures
        pipeline_actions(job, phase, events).len() == events.len(),
        closes(pipeline_actions(job, phase, events).last()) <==> pipeline_after(job, phase, events)
            is Ended,
        forall|i: int|
            0 <= i < events.len() - 1 ==> !closes(#[trigger] pipeline_actions(job, phase, events)[i]),
    decreases events.len(),
{
    let next = pipeline_next(job, phase, events[0]).0;
    let rest = events.drop_first();
    let all = pipeline_actions(job, phase, events);
    let later = pipeline_actions(job, next, rest);
    assert(all =~= seq![pipeline_next(job, phase, events[0]).1] + later);
    if rest.len() > 0 {
        a_conversion_closes_once(job, next, rest);
        assert(all.last() == later.last());
        assert forall|i: int| 0 <= i < events.len() - 1 implies !closes(#[trigger] all[i]) by {
            if i > 0 {
                assert(all[i] == later[i - 1]);
            } else {
                reveal_with_fuel(pipeline_run, 2);
            }
        }
    } else {
        assert(later.len() == 0);
        assert(pipeline_after(job, next, rest) == next);
    }
}

/// The temporary file does not stay behind: once a conversion ended, it was
/// removed exactly once where the translation had succeeded, and never
/// otherwise.
pub proof fn the_temporary_file_is_removed_once(
    job: PlannedJob,
    events: Seq<PipelineEvent<Seq<char>>>,
)
    requires
        pipeline_run(job, Phase::New, events),
        pipeline_after(job, Phase::New, events) is Ended,
    ensures
        removals(pipeline_actions(job, Phase::New, events)) == if translated(events) {
            1nat
        } else {
            0
        },
{
    removals_from(job, Phase::New, events);
}

proof fn removals_from(job: PlannedJob, phase: Phase, events: Seq<PipelineEvent<Seq<char>>>)
    requires
        reachable(job, phase),
        pipeline_run(job, phase, events),
        pipeline_after(job, phase, events) is Ended,
    ensures
        removals(pipeline_actions(job, phase, events)) == match phase {
            Phase::MakingDirectory | Phase::Converting { .. } => if job.translate {
                1nat
            } else {
                0
            },
            Phase::Measuring { .. } | Phase::Ended => 0,
            _ => if translated(events) {
                1nat
            } else {
                0
            },
        },
    decreases events.len(),
{
    if events.len() > 0 {
        let next = pipeline_next(job, phase, events[0]).0;
        let rest = events.drop_first();
        let all = pipeline_actions(job, phase, events);
        removals_from(job, next, rest);
        first_or_rest(events);
        assert(all.drop_first() =~= pipeline_actions(job, next, rest));
        if steps_left(next) < 4 {
            no_second_translation(job, next, rest);
        }
    }
}

/// Behind the translation no event speaks of it any more.
proof fn no_second_translation(job: PlannedJob, phase: Phase, events: Seq<PipelineEvent<Seq<char>>>)
    requires
        pipeline_run(job, phase, events),
        steps_left(phase) < 4,
    ensures
        !translated(events),
    decreases events.len(),
{
    if events.len() > 0 {
        no_second_translation(
            job,
            pipeline_next(job, phase, events[0]).0,
            events.drop_first(),
        );
        first_or_rest(events);
    }
}

/// An input that is no E57 is converted as it is: the translator is not looked
/// for, nothing is translated, and no temporary file is used or removed.
pub proof fn only_e57_inputs_are_translated(
    job: PlannedJob,
    events: Seq<PipelineEvent<Seq<char>>>,
    i: int,
)
    requires
        !job.translate,
        pipeline_run(job, Phase::New, events),
        0 <= i < events.len(),
    ensures
        ({
            let action = pipeline_actions(job, Phase::New, events)[i];
            &&& action !is Translate
            &&& action != PipelineAction::<Seq<char>>::Locate(Tool::Pdal)
            &&& action matches PipelineAction::Convert { from_temp, .. } ==> !from_temp
            &&& !removes_temp(action)
        }),
{
    untranslated_from(job, Phase::New, events, i);
}

proof fn untranslated_from(
    job: PlannedJob,
    phase: Phase,
    events: Seq<PipelineEvent<Seq<char>>>,
    i: int,
)
    requires
        !job.translate,
        reachable(job, phase),
        pipeline_run(job, phase, events),
        0 <= i < events.len(),
    ensures
        ({
            let action = pipeline_actions(job, phase, events)[i];
            &&& action !is Translate
            &&& action != PipelineAction::<Seq<char>>::Locate(Tool::Pdal)
            &&& action matches PipelineAction::Convert { from_temp, .. } ==> !from_temp
            &&& !removes_temp(action)
        }),
    decreases events.len(),
{
    if i > 0 {
        let next = pipeline_next(job, phase, events[0]).0;
        let rest = events.drop_first();
        untranslated_from(job, next, rest, i - 1);
        a_conversion_closes_once(job, next, rest);
        assert(pipeline_actions(job, phase, events)[i] == pipeline_actions(job, next, rest)[i - 1]);
    }
}

/// A job is reported done only when its input was translated where it needed
/// to be, the conversion succeeded, and the output is large enough.
pub proof fn done_means_converted(job: PlannedJob, events: Seq<PipelineEvent<Seq<char>>>)
    requires
        pipeline_run(job, Phase::New, events),
        events.len() > 0,
        pipeline_actions(job, Phase::New, events).last() matches PipelineAction::End {
            report,
            ..
        } && report is Done,
    ensures
        job.translate ==> translated(events),
        converted(events),
        events.last() matches PipelineEvent::OutputMeasured { bytes, .. } && bytes
            >= MIN_OUTPUT_BYTES,
{
    done_from(job, Phase::New, events);
}

proof fn done_from(job: PlannedJob, phase: Phase, events: Seq<PipelineEvent<Seq<char>>>)
    requires
        pipeline_run(job, phase, events),
        events.len() > 0,
        pipeline_actions(job, phase, events).last() matches PipelineAction::End { report, .. }
            && report is Done,
    ensures
        job.translate && steps_left(phase) >= 4 ==> translated(events),
        steps_left(phase) >= 2 ==> converted(events),
        events.last() matches PipelineEvent::OutputMeasured { bytes, .. } && bytes
            >= MIN_OUTPUT_BYTES,
    decreases events.len(),
{
    let next = pipeline_next(job, phase, events[0]).0;
    let rest = events.drop_first();
    let all = pipeline_actions(job, phase, events);
    let later = pipeline_actions(job, next, rest);
    assert(all =~= seq![pipeline_next(job, phase, events[0]).1] + later);
    first_or_rest(events);
    if rest.len() > 0 {
        a_conversion_closes_once(job, next, rest);
        assert(all.last() == later.last());
        assert(events.last() == rest.last());
        reveal_with_fuel(pipeline_run, 2);
        done_from(job, next, rest);
    } else {
        assert(later.len() == 0);
        assert(events.last() == events[0]);
    }
}

/// A job is reported cancelled exactly when one of its stages was, and every
/// report is about the job itself.
pub proof fn reports_are_true_to_the_job(
    job: PlannedJob,
    phase: Phase,
    event: PipelineEvent<Seq<char>>,
)
    requires
        pipeline_accepts(phase, event),
    ensures
        pipeline_next(job, phase, event).1 matches PipelineAction::End { report, .. } ==> {
            &&& report_job(report) == job.id
            &&& report is Cancelled <==> (event == PipelineEvent::<Seq<char>>::TranslationEnded(
                Err(StageError::Cancelled),
            ) || event == PipelineEvent::<Seq<char>>::ConversionEnded(
                Err(StageError::Cancelled),
            ))
        },
{
}

/// A report that a job is done is about the output directory that was made for
/// it, and gives the points that the input was estimated to have right then.
pub proof fn done_names_the_directory_that_was_made(
    job: PlannedJob,
    events: Seq<PipelineEvent<Seq<char>>>,
)
    requires
        pipeline_run(job, Phase::New, events),
        events.len() > 0,
        pipeline_actions(job, Phase::New, events).last() matches PipelineAction::End {
            report,
            ..
        } && report is Done,
    ensures
        pipeline_actions(job, Phase::New, events).last() matches PipelineAction::End {
            report,
            ..
        } && report matches Report::Done(p) && p.output_path == job.output_path && exists|i: int|
            0 < i < events.len() && made_with(#[trigger] events[i], p.points_total)
                && pipeline_actions(job, Phase::New, events)[i - 1]
                == (PipelineAction::<Seq<char>>::MakeDirectory { path: job.output_path }),
{
    made_from(job, Phase::New, events);
}

/// The event says that the output directory was made, when the input was
/// estimated to have this many points.
pub open spec fn made_with(event: PipelineEvent<Seq<char>>, points_total: u64) -> bool {
    event matches PipelineEvent::DirectoryMade(r) && r matches Ok(len) && points_total
        == estimated_points(len)
}

proof fn made_from(job: PlannedJob, phase: Phase, events: Seq<PipelineEvent<Seq<char>>>) -> (i: int)
    requires
        pipeline_run(job, phase, events),
        events.len() > 0,
        pipeline_actions(job, phase, events).last() matches PipelineAction::End { report, .. }
            && report is Done,
    ensures
        pipeline_actions(job, phase, events).last() matches PipelineAction::End { report, .. }
            && report matches Report::Done(p) && p.output_path == job.output_path && if steps_left(
            phase,
        ) >= 4 {
            &&& 0 < i < events.len()
            &&& made_with(events[i], p.points_total)
            &&& pipeline_actions(job, phase, events)[i - 1]
                == (PipelineAction::<Seq<char>>::MakeDirectory { path: job.output_path })
        } else if phase is MakingDirectory {
            made_with(events[0], p.points_total)
        } else {
            p.points_total == known_points(phase)
        },
    decreases events.len(),
{
    let next = pipeline_next(job, phase, events[0]).0;
    let rest = events.drop_first();
    let all = pipeline_actions(job, phase, events);
    let later = pipeline_actions(job, next, rest);
    assert(all =~= seq![pipeline_next(job, phase, events[0]).1] + later);
    if rest.len() > 0 {
        a_conversion_closes_once(job, next, rest);
        assert(all.last() == later.last());
        reveal_with_fuel(pipeline_run, 2);
        let i = made_from(job, next, rest);
        if next is MakingDirectory {
            assert(events[1] == rest[0]);
            1
        } else {
            if steps_left(next) >= 4 {
                assert(events[i + 1] == rest[i]);
                assert(all[i] == later[i - 1]);
            }
            i + 1
        }
    } else {
        assert(later.len() == 0);
        0
    }
}

/// The event says that a stage was cancelled.
pub open spec fn stage_cancelled(event: PipelineEvent<Seq<char>>) -> bool {
    event == PipelineEvent::<Seq<char>>::TranslationEnded(Err(StageError::Cancelled)) || event
        == PipelineEvent::<Seq<char>>::ConversionEnded(Err(StageError::Cancelled))
}

/// A whole conversion is reported cancelled exactly when one of its stages was,
/// and not where it was handed over to the stand-in.
pub proof fn cancelled_means_a_stage_was(
    job: PlannedJob,
    phase: Phase,
    events: Seq<PipelineEvent<Seq<char>>>,
)
    requires
        pipeline_run(job, phase, events),
        events.len() > 0,
        pipeline_after(job, phase, events) is Ended,
    ensures
        (pipeline_actions(job, phase, events).last() matches PipelineAction::End { report, .. }
            && report is Cancelled) <==> exists|i: int|
            0 <= i < events.len() && stage_cancelled(#[trigger] events[i]),
    decreases events.len(),
{
    let next = pipeline_next(job, phase, events[0]).0;
    let rest = events.drop_first();
    let all = pipeline_actions(job, phase, events);
    let later = pipeline_actions(job, next, rest);
    assert(all =~= seq![pipeline_next(job, phase, events[0]).1] + later);
    reports_are_true_to_the_job(job, phase, events[0]);
    if rest.len() > 0 {
        reveal_with_fuel(pipeline_run, 2);
        cancelled_means_a_stage_was(job, next, rest);
        a_conversion_closes_once(job, next, rest);
        assert(all.last() == later.last());
        assert(!stage_cancelled(events[0]));
        if exists|i: int| 0 <= i < rest.len() && stage_cancelled(#[trigger] rest[i]) {
            let i = choose|i: int| 0 <= i < rest.len() && stage_cancelled(#[trigger] rest[i]);
            assert(stage_cancelled(events[i + 1]));
        }
        if exists|i: int| 0 <= i < events.len() && stage_cancelled(#[trigger] events[i]) {
            let i = choose|i: int| 0 <= i < events.len() && stage_cancelled(#[trigger] events[i]);
            assert(rest[i - 1] == events[i]);
        }
    } else {
        assert(later.len() == 0);
        assert(all.last() == pipeline_next(job, phase, events[0]).1);
        assert(pipeline_after(job, next, rest) == next);
    }
}

/// The conversion is the last stage, and its progress ends with that of the
/// whole; it starts later exactly where the input was translated first.
pub proof fn the_plan_covers_the_whole(translate: bool)
    ensures
        conversion_plan(translate).index + 1 == conversion_plan(translate).total,
        conversion_plan(translate).progress_base + conversion_plan(translate).progress_span == 100,
        translate <==> conversion_plan(translate).progress_base > 0,
{
}

/// The translation is the stage before the conversion, and its progress ends
/// clearly before that of the conversion starts.
pub proof fn the_translation_ends_before_the_conversion_starts()
    ensures
        translation_plan().total == conversion_plan(true).total,
        translation_plan().index + 1 == conversion_plan(true).index,
        translation_plan().progress_base == 0,
        translation_plan().progress_base + translation_plan().progress_span < conversion_plan(
            true,
        ).progress_base,
{
}

/// The case of an input's name does not matter for whether it is translated.
pub proof fn the_case_of_an_input_does_not_matter(input_path: Seq<char>)
    ensures
        is_e57(lower(input_path)) == is_e57(input_path),
{
    assert(lower(lower(input_path)) =~= lower(input_path));
}

/// The output directory is named after the input: for `dir/base.ext`, with an
/// extension without dots, it is `base`.
pub proof fn the_output_is_named_after_the_input(
    path: Seq<char>,
    name: Option<Seq<char>>,
    dir: Seq<char>,
    base: Seq<char>,
    ext: Seq<char>,
)
    requires
        last_component(path, name),
        path == dir + seq!['/'] + (base + seq!['.'] + ext),
        !two_separators(path) || has_share(dir),
        forall|i: int| 0 <= i < base.len() ==> !separator(#[trigger] base[i], true),
        forall|i: int| 0 <= i < ext.len() ==> !separator(#[trigger] ext[i], true),
        base.len() > 0,
        base + seq!['.'] + ext != seq!['.', '.'],
        !ext.contains('.'),
    ensures
        output_stem(name) == base,
{
    let file = base + seq!['.'] + ext;
    let dot = base.len() as int;
    assert forall|i: int| 0 <= i < file.len() implies !separator(#[trigger] file[i], true) by {
        if i < dot {
            assert(file[i] == base[i]);
        } else if i > dot {
            assert(file[i] == ext[i - dot - 1]);
        }
    }
    if has_share(dir) {
        the_share_stays(dir, file);
    }
    a_path_ends_with_the_name_behind_its_slash(dir, file, false);
    a_path_ends_with_the_name_behind_its_slash(dir, file, true);
    assert(name == Some(file));
    the_stem_is_before_the_extension(base, ext);
}

/// An input is translated exactly when its path ends with `.e57`, the letter in
/// either case, whatever is before.
pub proof fn every_e57_input_is_translated(path: Seq<char>)
    ensures
        is_e57(path + ".e57"@),
        is_e57(path) <==> ({
            let n = path.len() as int;
            &&& n >= 4
            &&& path[n - 4] == '.'
            &&& path[n - 3] == 'e' || path[n - 3] == 'E'
            &&& path[n - 2] == '5'
            &&& path[n - 1] == '7'
        }),
{
    reveal_strlit(".e57");
    let ext = ".e57"@;
    let low = lower(path);
    let n = path.len() as int;
    if n >= 4 {
        let end = low.subrange(n - 4, n);
        assert(end[0] == low[n - 4] && end[1] == low[n - 3] && end[2] == low[n - 2] && end[3]
            == low[n - 1]);
        cases_by_number(path[n - 4]);
        cases_by_number(path[n - 3]);
        cases_by_number(path[n - 2]);
        cases_by_number(path[n - 1]);
        if end[0] == ext[0] && end[1] == ext[1] && end[2] == ext[2] && end[3] == ext[3] {
            assert(end =~= ext);
        }
    }
    let longer = lower(path + ext);
    assert(longer.subrange(longer.len() - 4, longer.len() as int) =~= ext);
}

/// What an output directory is called: the file name up to its last dot, the
/// whole name where no dot stands behind its first character, and `output`
/// where there is no name.
pub proof fn what_an_output_is_called(base: Seq<char>, ext: Seq<char>, plain: Seq<char>)
    requires
        base.len() > 0,
        !ext.contains('.'),
        forall|i: int| 1 <= i < plain.len() ==> #[trigger] plain[i] != '.',
    ensures
        output_stem(Some(base + seq!['.'] + ext)) == base,
        output_stem(Some(plain)) == plain,
        output_stem(None) == "output"@,
{
    the_stem_is_before_the_extension(base, ext);
    a_name_without_an_extension_is_its_stem(plain);
}

/// The phases of a conversion wait for one kind of event each, and the last for
/// none.
pub proof fn what_is_waited_for(phase: Phase, event: PipelineEvent<Seq<char>>)
    ensures
        pipeline_accepts(phase, event) <==> ({
            ||| phase is New && event is Started
            ||| phase is LocatingConverter && event is ToolLocated
            ||| phase is LocatingTranslator && event is ToolLocated
            ||| phase is Translating && event is TranslationEnded
            ||| phase is MakingDirectory && event is DirectoryMade
            ||| phase is Converting && event is ConversionEnded
            ||| phase is Measuring && event is OutputMeasured
        }),
{
}

/// An output of 8192 bytes or more is reported done with all its figures, and a
/// smaller one as a failure that tells how small it is.
pub proof fn a_large_enough_output_is_done(
    job: PlannedJob,
    points_total: u64,
    bytes: u64,
    duration_ms: u64,
)
    ensures
        ({
            let event = PipelineEvent::OutputMeasured { bytes, duration_ms };
            let (next, action) = pipeline_next(job, Phase::Measuring { points_total }, event);
            &&& next is Ended
            &&& action matches PipelineAction::End { remove_temp, report } && !remove_temp
                && if bytes >= 8192 {
                report matches Report::Done(p) && p.job_id == job.id && p.output_path
                    == job.output_path && p.duration_ms == duration_ms && p.output_bytes == bytes
                    && p.points_total == points_total
            } else {
                report matches Report::Error(p) && p.job_id == job.id && p.code == "empty_output"@
                    && p.message == "PotreeConverter exited 0 but produced only "@ + decimal(
                    bytes as nat,
                ) + " bytes \u{2014} likely failed to parse the LAS (see terminal logs)"@
            }
        }),
{
}

/// A conversion in which everything succeeds is reported done, with its
/// directory, its figures and the estimate of its points.
pub proof fn what_succeeds_is_done(
    job: PlannedJob,
    len: Option<u64>,
    bytes: u64,
    duration_ms: u64,
)
    requires
        bytes >= 8192,
    ensures
        ({
            let last = seq![
                PipelineEvent::DirectoryMade(Ok(len)),
                PipelineEvent::ConversionEnded(Ok(())),
                PipelineEvent::OutputMeasured { bytes, duration_ms },
            ];
            let events = if job.translate {
                seq![
                    PipelineEvent::Started,
                    PipelineEvent::ToolLocated(true),
                    PipelineEvent::ToolLocated(true),
                    PipelineEvent::TranslationEnded(Ok(())),
                ] + last
            } else {
                seq![PipelineEvent::Started, PipelineEvent::ToolLocated(true)] + last
            };
            &&& pipeline_run(job, Phase::New, events)
            &&& pipeline_after(job, Phase::New, events) is Ended
            &&& pipeline_actions(job, Phase::New, events).last() matches PipelineAction::End {
                report,
                ..
            } && report matches Report::Done(p) && p.job_id == job.id && p.output_path
                == job.output_path && p.duration_ms == duration_ms && p.output_bytes == bytes
                && p.points_total == estimated_points(len)
        }),
{
    let made = PipelineEvent::<Seq<char>>::DirectoryMade(Ok(len));
    let ended = PipelineEvent::<Seq<char>>::ConversionEnded(Ok(()));
    let measured = PipelineEvent::<Seq<char>>::OutputMeasured { bytes, duration_ms };
    let points_total = estimated_points(len);
    let last = seq![made, ended, measured];
    let started = PipelineEvent::<Seq<char>>::Started;
    let found = PipelineEvent::<Seq<char>>::ToolLocated(true);
    last_steps_succeed(job, len, bytes, duration_ms);
    if job.translate {
        let translated = PipelineEvent::<Seq<char>>::TranslationEnded(Ok(()));
        let all = seq![started, found, found, translated] + last;
        assert(all.drop_first() =~= seq![found, found, translated] + last);
        assert(all.drop_first().drop_first() =~= seq![found, translated] + last);
        assert(all.drop_first().drop_first().drop_first() =~= seq![translated] + last);
        one_step_more(job, Phase::Translating, translated, last);
        one_step_more(job, Phase::LocatingTranslator, found, seq![translated] + last);
        assert(seq![found] + (seq![translated] + last) =~= seq![found, translated] + last);
        one_step_more(job, Phase::LocatingConverter, found, seq![found, translated] + last);
        assert(seq![found] + (seq![found, translated] + last) =~= seq![found, found, translated]
            + last);
        one_step_more(job, Phase::New, started, seq![found, found, translated] + last);
        assert(seq![started] + (seq![found, found, translated] + last) =~= all);
    } else {
        let all = seq![started, found] + last;
        one_step_more(job, Phase::LocatingConverter, found, last);
        one_step_more(job, Phase::New, started, seq![found] + last);
        assert(seq![started] + (seq![found] + last) =~= all);
    }
}

proof fn one_step_more(
    job: PlannedJob,
    phase: Phase,
    event: PipelineEvent<Seq<char>>,
    rest: Seq<PipelineEvent<Seq<char>>>,
)
    requires
        pipeline_accepts(phase, event),
        pipeline_run(job, pipeline_next(job, phase, event).0, rest),
        rest.len() > 0,
    ensures
        ({
            let events = seq![event] + rest;
            let next = pipeline_next(job, phase, event).0;
            &&& pipeline_run(job, phase, events)
            &&& pipeline_after(job, phase, events) == pipeline_after(job, next, rest)
            &&& pipeline_actions(job, phase, events).last() == pipeline_actions(
                job,
                next,
                rest,
            ).last()
        }),
{
    let events = seq![event] + rest;
    let next = pipeline_next(job, phase, event).0;
    assert(events[0] == event);
    assert(events.drop_first() =~= rest);
    a_conversion_closes_once(job, next, rest);
}

proof fn last_steps_succeed(job: PlannedJob, len: Option<u64>, bytes: u64, duration_ms: u64)
    requires
        bytes >= 8192,
    ensures
        ({
            let events = seq![
                PipelineEvent::DirectoryMade(Ok(len)),
                PipelineEvent::ConversionEnded(Ok(())),
                PipelineEvent::OutputMeasured { bytes, duration_ms },
            ];
            &&& pipeline_run(job, Phase::MakingDirectory, events)
            &&& pipeline_after(job, Phase::MakingDirectory, events) is Ended
            &&& pipeline_actions(job, Phase::MakingDirectory, events).last()
                matches PipelineAction::End { report, .. } && report matches Report::Done(p)
                && p.job_id == job.id && p.output_path == job.output_path && p.duration_ms
                == duration_ms && p.output_bytes == bytes && p.points_total == estimated_points(len)
        }),
{
    let made = PipelineEvent::<Seq<char>>::DirectoryMade(Ok(len));
    let ended = PipelineEvent::<Seq<char>>::ConversionEnded(Ok(()));
    let measured = PipelineEvent::<Seq<char>>::OutputMeasured { bytes, duration_ms };
    let points_total = estimated_points(len);
    let one = seq![measured];
    let phase = Phase::Measuring { points_total };
    assert(one.drop_first() =~= Seq::empty());
    reveal_with_fuel(pipeline_run, 2);
    reveal_with_fuel(pipeline_after, 2);
    reveal_with_fuel(pipeline_actions, 2);
    assert(pipeline_actions(job, phase, one) =~= seq![pipeline_next(job, phase, measured).1]);
    one_step_more(job, Phase::Converting { points_total }, ended, one);
    one_step_more(job, Phase::MakingDirectory, made, seq![ended] + one);
    assert(seq![made] + (seq![ended] + one) =~= seq![made, ended, measured]);
}

/// What follows the search for the tools: without PotreeConverter the stand-in,
/// and without PDAL, where it is needed, a failure; with them, the work.
pub proof fn what_follows_the_search(job: PlannedJob, found: bool)
    ensures
        ({
            let event = PipelineEvent::<Seq<char>>::ToolLocated(found);
            let (next, action) = pipeline_next(job, Phase::LocatingConverter, event);
            if !found {
                next is Ended && action == (PipelineAction::<Seq<char>>::RunStub {
                    output_path: job.output_path,
                })
            } else if job.translate {
                next is LocatingTranslator && action == PipelineAction::<Seq<char>>::Locate(
                    Tool::Pdal,
                )
            } else {
                next is MakingDirectory && action == (PipelineAction::<Seq<char>>::MakeDirectory {
                    path: job.output_path,
                })
            }
        }),
        ({
            let event = PipelineEvent::<Seq<char>>::ToolLocated(found);
            let (next, action) = pipeline_next(job, Phase::LocatingTranslator, event);
            if found {
                &&& next is Translating
                &&& action matches PipelineAction::Translate { temp_name, plan, note }
                &&& temp_name == "scan2bim-"@ + job.id + ".las"@
                &&& plan == StagePlan { index: 0, total: 2, progress_base: 0, progress_span: 48 }
                &&& note.job_id == job.id
                &&& note.stage.index == 0 && note.stage.total == 2
                &&& note.stage.label == "Reading E57"@
            } else {
                &&& next is Ended
                &&& action matches PipelineAction::End { remove_temp, report }
                &&& !remove_temp
                &&& report matches Report::Error(p)
                &&& p.job_id == job.id
                &&& p.code == "pdal_missing"@
                &&& p.message
                    == "PDAL binary not found. E57 input requires bundled PDAL. Found PotreeConverter only."@
            }
        }),
        pipeline_next(job, Phase::New, PipelineEvent::Started).0 is LocatingConverter,
        pipeline_next(job, Phase::New, PipelineEvent::Started).1 == PipelineAction::<
            Seq<char>,
        >::Locate(Tool::PotreeConverter),
{
}

/// What follows the work of a tool or of the file system: where it succeeded,
/// the next step, and where not, a report that passes on what went wrong. The
/// temporary file of a translation that succeeded is removed then.
pub proof fn what_follows_the_work(
    job: PlannedJob,
    points_total: u64,
    len: Option<u64>,
    code: Seq<char>,
    message: Seq<char>,
)
    ensures
        ({
            let (next, action) = pipeline_next(
                job,
                Phase::Translating,
                PipelineEvent::TranslationEnded(Ok(())),
            );
            next is MakingDirectory && action == (PipelineAction::<Seq<char>>::MakeDirectory {
                path: job.output_path,
            })
        }),
        ends_with_report(
            pipeline_next(
                job,
                Phase::Translating,
                PipelineEvent::TranslationEnded(Err(StageError::Cancelled)),
            ),
            false,
            Report::Cancelled(CancelledPayload { job_id: job.id }),
        ),
        ends_with_report(
            pipeline_next(
                job,
                Phase::Translating,
                PipelineEvent::TranslationEnded(Err(StageError::Failed(code, message))),
            ),
            false,
            Report::Error(ErrorPayload { job_id: job.id, code, message }),
        ),
        ({
            let (next, action) = pipeline_next(
                job,
                Phase::MakingDirectory,
                PipelineEvent::DirectoryMade(Ok(len)),
            );
            &&& next == Phase::Converting { points_total: estimated_points(len) }
            &&& action matches PipelineAction::Convert { from_temp, plan, points_total }
            &&& from_temp == job.translate
            &&& points_total == estimated_points(len)
            &&& job.translate ==> plan == StagePlan {
                index: 1,
                total: 2,
                progress_base: 50,
                progress_span: 50,
            }
            &&& !job.translate ==> plan == StagePlan {
                index: 0,
                total: 1,
                progress_base: 0,
                progress_span: 100,
            }
        }),
        ends_with_report(
            pipeline_next(
                job,
                Phase::MakingDirectory,
                PipelineEvent::DirectoryMade(Err(message)),
            ),
            job.translate,
            Report::Error(ErrorPayload { job_id: job.id, code: "mkdir_failed"@, message }),
        ),
        ({
            let (next, action) = pipeline_next(
                job,
                Phase::Converting { points_total },
                PipelineEvent::ConversionEnded(Ok(())),
            );
            next == Phase::Measuring { points_total } && action == (PipelineAction::<
                Seq<char>,
            >::Measure { remove_temp: job.translate })
        }),
        ends_with_report(
            pipeline_next(
                job,
                Phase::Converting { points_total },
                PipelineEvent::ConversionEnded(Err(StageError::Cancelled)),
            ),
            job.translate,
            Report::Cancelled(CancelledPayload { job_id: job.id }),
        ),
        ends_with_report(
            pipeline_next(
                job,
                Phase::Converting { points_total },
                PipelineEvent::ConversionEnded(Err(StageError::Failed(code, message))),
            ),
            job.translate,
            Report::Error(ErrorPayload { job_id: job.id, code, message }),
        ),
{
}

/// The step ends the conversion with this report.
pub open spec fn ends_with_report(
    step: (Phase, PipelineAction<Seq<char>>),
    removes: bool,
    closing: Report<Seq<char>>,
) -> bool {
    &&& step.0 is Ended
    &&& step.1 matches PipelineAction::End { remove_temp, report }
    &&& remove_temp == removes
    &&& report == closing
}

/// An event and an action show all that they hold.
pub proof fn events_and_actions_are_shown_whole(event: PipelineEvent, action: PipelineAction)
    ensures
        match event {
            PipelineEvent::Started => event@ is Started,
            PipelineEvent::ToolLocated(found) => event@ == PipelineEvent::<Seq<char>>::ToolLocated(
                found,
            ),
            PipelineEvent::TranslationEnded(r) => event@ matches PipelineEvent::TranslationEnded(v)
                && v == stage_view(r),
            PipelineEvent::DirectoryMade(r) => event@ matches PipelineEvent::DirectoryMade(v)
                && match r {
                Ok(len) => v == Ok::<Option<u64>, Seq<char>>(len),
                Err(e) => v == Err::<Option<u64>, Seq<char>>(e@),
            },
            PipelineEvent::ConversionEnded(r) => event@ matches PipelineEvent::ConversionEnded(v)
                && v == stage_view(r),
            PipelineEvent::OutputMeasured { bytes, duration_ms } => event@ == (PipelineEvent::<
                Seq<char>,
            >::OutputMeasured { bytes, duration_ms }),
        },
        match action {
            PipelineAction::Locate(tool) => action@ == PipelineAction::<Seq<char>>::Locate(tool),
            PipelineAction::RunStub { output_path } => action@
                matches PipelineAction::RunStub { output_path: p } && p == output_path@,
            PipelineAction::Translate { temp_name, plan, note } => action@
                matches PipelineAction::Translate { temp_name: t, plan: p, note: n } && t
                == temp_name@ && p == plan && n == note@,
            PipelineAction::MakeDirectory { path } => action@
                matches PipelineAction::MakeDirectory { path: p } && p == path@,
            PipelineAction::Convert { from_temp, plan, points_total } => action@
                == (PipelineAction::<Seq<char>>::Convert { from_temp, plan, points_total }),
            PipelineAction::Measure { remove_temp } => action@ == (PipelineAction::<
                Seq<char>,
            >::Measure { remove_temp }),
            PipelineAction::End { remove_temp, report } => action@
                matches PipelineAction::End { remove_temp: t, report: r } && t == remove_temp && r
                == report@,
        },
{
}

/// Where an output lies: in the directory that was chosen, under the name of
/// the input without its extension.
pub proof fn where_an_output_lies(
    chosen: Seq<char>,
    dir: Seq<char>,
    base: Seq<char>,
    ext: Seq<char>,
    path: Seq<char>,
)
    requires
        is_output_path(chosen, dir + seq!['/'] + (base + seq!['.'] + ext), path),
        !two_separators(dir + seq!['/'] + (base + seq!['.'] + ext)) || has_share(dir),
        forall|i: int| 0 <= i < base.len() ==> !separator(#[trigger] base[i], true),
        forall|i: int| 0 <= i < ext.len() ==> !separator(#[trigger] ext[i], true),
        base.len() > 0,
        base + seq!['.'] + ext != seq!['.', '.'],
        !ext.contains('.'),
        !has_drive(base),
        !marked(chosen),
        !(has_drive(chosen) && chosen.len() == 2),
    ensures
        chosen.len() == 0 || chosen.last() == '/' ==> path == chosen + base,
        chosen.len() > 0 && chosen.last() != '/' && chosen.last() != '\\' ==> path == chosen
            + seq!['/'] + base || path == chosen + seq!['\\'] + base,
        chosen.is_prefix_of(path),
        base.is_suffix_of(path),
{
    let input = dir + seq!['/'] + (base + seq!['.'] + ext);
    let name = choose|name: Option<Seq<char>>| #[trigger]
        last_component(input, name) && joined(chosen, output_stem(name), path);
    the_output_is_named_after_the_input(input, name, dir, base, ext);
    assert(!separator(base[0], true));
    what_stands_between(chosen, base, path);
    a_name_stands_behind_its_directory(chosen, base, path);
}

} // verus!
