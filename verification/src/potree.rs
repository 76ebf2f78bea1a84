//! The conversion stage: PotreeConverter is run, its output is read line by
//! line, and the cancel flag is looked at before each line.
//!
//! [`PotreeRun`] takes what was observed and says what to do next.

use vstd::prelude::*;

use crate::label::{label_of, stage_label, told_label, DEFAULT_LABEL};
use crate::percent::{parse_percent, percent_text};
use crate::report::{only_progress, Message, ProgressNote, ShownStage};
use crate::stage::{
    command_view, exit_error, exit_error_code, stage_view, Argument, ExitInfo, StageError, StagePlan,
};
use crate::text::{join2, join3, owned, signed_decimal, text_view};

verus! {

/// The command line of the conversion.
pub open spec fn potree_command() -> Seq<Argument<Seq<char>>> {
    seq![
        Argument::Text("-i"@),
        Argument::Input,
        Argument::Text("-o"@),
        Argument::Output,
        Argument::Text("--encoding"@),
        Argument::Text("BROTLI"@),
    ]
}

/// The command line of the conversion.
pub fn potree_arguments() -> (args: Vec<Argument>)
    ensures
        command_view(args@) == potree_command(),
{
    let mut args: Vec<Argument> = Vec::new();
    args.push(Argument::Text(owned("-i")));
    args.push(Argument::Input);
    args.push(Argument::Text(owned("-o")));
    args.push(Argument::Output);
    args.push(Argument::Text(owned("--encoding")));
    args.push(Argument::Text(owned("BROTLI")));
    assert(command_view(args@) =~= potree_command());
    args
}

/// A line of a tool's output as it is logged: behind a tag in brackets.
pub open spec fn tagged(tag: Seq<char>, line: Seq<char>) -> Seq<char> {
    seq!['['] + tag + "] "@ + line
}

/// A line of a tool's output as it is logged.
pub fn log_line(tag: &str, line: &str) -> (r: String)
    ensures
        r@ == tagged(tag@, line@),
{
    let head = join3("[", tag, "] ");
    proof {
        reveal_strlit("[");
        assert("["@ =~= seq!['[']);
    }
    join2(head.as_str(), line)
}

/// What is reported of a line of output: the line for the log, the percentage
/// announced last, and the job with the stage that the line speaks of.
#[derive(Debug, PartialEq, Eq)]
pub struct LineReport<S = String> {
    pub log: S,
    pub percent: Option<S>,
    pub note: ProgressNote<S>,
}

impl View for LineReport<String> {
    type V = LineReport<Seq<char>>;

    open spec fn view(&self) -> LineReport<Seq<char>> {
        LineReport {
            log: self.log@,
            percent: text_view(self.percent),
            note: self.note@,
        }
    }
}

/// The percentage announced last, once a line came after `before` had been it.
pub open spec fn announced(before: Option<Seq<char>>, line: Seq<char>) -> Option<Seq<char>> {
    match percent_text(line) {
        Some(p) => Some(p),
        None => before,
    }
}

/// The report of a line, for a job and its plan.
pub open spec fn line_report(
    job: PotreeJob<Seq<char>>,
    before: Option<Seq<char>>,
    line: Seq<char>,
) -> LineReport<Seq<char>> {
    LineReport {
        log: tagged("potree stdout"@, line),
        percent: announced(before, line),
        note: ProgressNote {
            job_id: job.id,
            stage: ShownStage {
                index: job.plan.index,
                total: job.plan.total,
                label: match label_of(line) {
                    Some(label) => label,
                    None => DEFAULT_LABEL@,
                },
            },
        },
    }
}

/// The job that PotreeConverter runs for, and the plan of its stage.
#[derive(Debug, PartialEq, Eq)]
pub struct PotreeJob<S = String> {
    pub id: S,
    pub plan: StagePlan,
}

impl View for PotreeJob<String> {
    type V = PotreeJob<Seq<char>>;

    open spec fn view(&self) -> PotreeJob<Seq<char>> {
        PotreeJob { id: self.id@, plan: self.plan }
    }
}

/// Makes the report of a line, where `before` was announced last until then.
pub fn report_line(job: &PotreeJob, before: Option<String>, line: &str) -> (r: LineReport)
    ensures
        r@ == line_report(job@, text_view(before), line@),
{
    let percent = match parse_percent(line) {
        Some(p) => Some(p),
        None => before,
    };
    LineReport {
        log: log_line("potree stdout", line),
        percent,
        note: ProgressNote {
            job_id: job.id.clone(),
            stage: ShownStage {
                index: job.plan.index,
                total: job.plan.total,
                label: stage_label(line),
            },
        },
    }
}

/// What was observed.
#[derive(Debug, PartialEq, Eq)]
pub enum PotreeEvent<S = String> {
    /// The cancel flag was read.
    FlagRead(bool),
    /// The tool printed a line.
    Line(S),
    /// The tool's output ended, or could not be read further.
    OutputEnded,
    /// The tool ended.
    Exited(ExitInfo),
    /// Waiting for the tool failed.
    WaitFailed(S),
}

impl View for PotreeEvent<String> {
    type V = PotreeEvent<Seq<char>>;

    open spec fn view(&self) -> PotreeEvent<Seq<char>> {
        match self {
            PotreeEvent::FlagRead(raised) => PotreeEvent::FlagRead(*raised),
            PotreeEvent::Line(line) => PotreeEvent::Line(line@),
            PotreeEvent::OutputEnded => PotreeEvent::OutputEnded,
            PotreeEvent::Exited(exit) => PotreeEvent::Exited(*exit),
            PotreeEvent::WaitFailed(e) => PotreeEvent::WaitFailed(e@),
        }
    }
}

/// What to do next.
#[derive(Debug, PartialEq, Eq)]
pub enum PotreeAction<S = String> {
    /// Wait for a line of output or the end of the tool.
    AwaitOutput,
    /// Report a line, then read the cancel flag.
    Report(LineReport<S>),
    /// Wait for the end of the tool.
    AwaitExit,
    /// Kill the tool if `kill` says so; this is the outcome of the stage.
    End { kill: bool, result: Result<(), StageError<S>> },
}

impl View for PotreeAction<String> {
    type V = PotreeAction<Seq<char>>;

    open spec fn view(&self) -> PotreeAction<Seq<char>> {
        match self {
            PotreeAction::AwaitOutput => PotreeAction::AwaitOutput,
            PotreeAction::Report(report) => PotreeAction::Report(report@),
            PotreeAction::AwaitExit => PotreeAction::AwaitExit,
            PotreeAction::End { kill, result } => PotreeAction::End {
                kill: *kill,
                result: stage_view(*result),
            },
        }
    }
}

/// Where the stage stands.
#[derive(Clone, Copy, Debug, PartialEq, Eq)]
pub enum PotreePhase {
    ReadingFlag,
    AwaitingOutput,
    AwaitingExit,
    Ended,
}

/// The events that can be observed in a phase. The flag is not looked at any
/// more once the output ended.
pub open spec fn potree_accepts(phase: PotreePhase, event: PotreeEvent<Seq<char>>) -> bool {
    match phase {
        PotreePhase::ReadingFlag => event is FlagRead,
        PotreePhase::AwaitingOutput => event !is FlagRead,
        PotreePhase::AwaitingExit => event is Exited || event is WaitFailed,
        PotreePhase::Ended => false,
    }
}

/// What the way PotreeConverter ended makes of the stage. The message points
/// to the logs where the end came while output was still read.
pub open spec fn conversion(while_reading: bool, exit: ExitInfo) -> Result<
    (),
    StageError<Seq<char>>,
> {
    if exit.success {
        Ok(())
    } else {
        Err(
            StageError::Failed(
                exit_error("potree_exit_"@, exit),
                if while_reading {
                    "PotreeConverter exited with non-zero status (see terminal logs)"@
                } else {
                    "PotreeConverter exited with non-zero status"@
                },
            ),
        )
    }
}

/// Judges the stage by the way PotreeConverter ended.
pub fn potree_result(while_reading: bool, exit: ExitInfo) -> (r: Result<(), StageError>)
    ensures
        stage_view(r) == conversion(while_reading, exit),
{
    if exit.success {
        Ok(())
    } else {
        let message = if while_reading {
            owned("PotreeConverter exited with non-zero status (see terminal logs)")
        } else {
            owned("PotreeConverter exited with non-zero status")
        };
        Err(StageError::Failed(exit_error_code("potree_exit_", exit), message))
    }
}

/// The job, where its stage stands, and the percentage announced last.
pub struct PotreeState {
    pub job: PotreeJob<Seq<char>>,
    pub phase: PotreePhase,
    pub percent: Option<Seq<char>>,
}

/// The state at the start of a run.
pub open spec fn potree_start(job: PotreeJob<Seq<char>>) -> PotreeState {
    PotreeState { job, phase: PotreePhase::ReadingFlag, percent: None }
}

/// The next state and the next action.
pub open spec fn potree_next(state: PotreeState, event: PotreeEvent<Seq<char>>) -> (
    PotreeState,
    PotreeAction<Seq<char>>,
) {
    let job = state.job;
    let percent = state.percent;
    match event {
        PotreeEvent::FlagRead(raised) => if raised {
            (
                PotreeState { job, phase: PotreePhase::Ended, percent },
                PotreeAction::End { kill: true, result: Err(StageError::Cancelled) },
            )
        } else {
            (
                PotreeState { job, phase: PotreePhase::AwaitingOutput, percent },
                PotreeAction::AwaitOutput,
            )
        },
        PotreeEvent::Line(line) => (
            PotreeState { job, phase: PotreePhase::ReadingFlag, percent: announced(percent, line) },
            PotreeAction::Report(line_report(job, percent, line)),
        ),
        PotreeEvent::OutputEnded => (
            PotreeState { job, phase: PotreePhase::AwaitingExit, percent },
            PotreeAction::AwaitExit,
        ),
        PotreeEvent::Exited(exit) => (
            PotreeState { job, phase: PotreePhase::Ended, percent },
            PotreeAction::End {
                kill: false,
                result: conversion(state.phase is AwaitingOutput, exit),
            },
        ),
        PotreeEvent::WaitFailed(e) => (
            PotreeState { job, phase: PotreePhase::Ended, percent },
            PotreeAction::End {
                kill: false,
                result: Err(StageError::Failed("potree_wait_failed"@, e)),
            },
        ),
    }
}

/// One run of PotreeConverter.
pub struct PotreeRun {
    job: PotreeJob,
    phase: PotreePhase,
    percent: Option<String>,
}

impl View for PotreeRun {
    type V = PotreeState;

    closed spec fn view(&self) -> PotreeState {
        PotreeState { job: self.job@, phase: self.phase, percent: text_view(self.percent) }
    }
}

impl PotreeRun {
    /// The stage starts with a look at the cancel flag, and without a
    /// percentage.
    pub fn new(job_id: String, plan: StagePlan) -> (r: PotreeRun)
        ensures
            r@ == potree_start(PotreeJob { id: job_id@, plan }),
    {
        PotreeRun {
            job: PotreeJob { id: job_id, plan },
            phase: PotreePhase::ReadingFlag,
            percent: None,
        }
    }

    /// Tells whether an event can be observed now.
    pub fn accepts(&self, event: &PotreeEvent) -> (r: bool)
        ensures
            r == potree_accepts(self@.phase, event@),
    {
        match self.phase {
            PotreePhase::ReadingFlag => match event {
                PotreeEvent::FlagRead(_) => true,
                _ => false,
            },
            PotreePhase::AwaitingOutput => match event {
                PotreeEvent::FlagRead(_) => false,
                _ => true,
            },
            PotreePhase::AwaitingExit => match event {
                PotreeEvent::Exited(_) => true,
                PotreeEvent::WaitFailed(_) => true,
                _ => false,
            },
            PotreePhase::Ended => false,
        }
    }

    /// Takes what was observed and says what to do next.
    pub fn step(&mut self, event: PotreeEvent) -> (action: PotreeAction)
        requires
            potree_accepts(old(self)@.phase, event@),
        ensures
            final(self)@ == potree_next(old(self)@, event@).0,
            action@ == potree_next(old(self)@, event@).1,
    {
        let while_reading = match self.phase {
            PotreePhase::AwaitingOutput => true,
            _ => false,
        };
        match event {
            PotreeEvent::FlagRead(raised) => {
                if raised {
                    self.phase = PotreePhase::Ended;
                    PotreeAction::End { kill: true, result: Err(StageError::Cancelled) }
                } else {
                    self.phase = PotreePhase::AwaitingOutput;
                    PotreeAction::AwaitOutput
                }
            },
            PotreeEvent::Line(line) => {
                self.phase = PotreePhase::ReadingFlag;
                let report = report_line(&self.job, self.percent.clone(), line.as_str());
                self.percent = report.percent.clone();
                PotreeAction::Report(report)
            },
            PotreeEvent::OutputEnded => {
                self.phase = PotreePhase::AwaitingExit;
                PotreeAction::AwaitExit
            },
            PotreeEvent::Exited(exit) => {
                self.phase = PotreePhase::Ended;
                PotreeAction::End { kill: false, result: potree_result(while_reading, exit) }
            },
            PotreeEvent::WaitFailed(e) => {
                self.phase = PotreePhase::Ended;
                PotreeAction::End {
                    kill: false,
                    result: Err(StageError::Failed(owned("potree_wait_failed"), e)),
                }
            },
        }
    }
}

// ---------------------------------------------------------------------------
// Laws
// ---------------------------------------------------------------------------

/// The events of a run, from a state on: each can be observed when it comes.
pub open spec fn potree_run(state: PotreeState, events: Seq<PotreeEvent<Seq<char>>>) -> bool
    decreases events.len(),
{
    events.len() == 0 || (potree_accepts(state.phase, events[0]) && potree_run(
        potree_next(state, events[0]).0,
        events.drop_first(),
    ))
}

/// The state after the events of a run.
pub open spec fn potree_after(
    state: PotreeState,
    events: Seq<PotreeEvent<Seq<char>>>,
) -> PotreeState
    decreases events.len(),
{
    if events.len() == 0 {
        state
    } else {
        potree_after(potree_next(state, events[0]).0, events.drop_first())
    }
}

/// A run is over with the event that shows a raised flag, an exit or a failed
/// wait: nothing comes after it.
pub proof fn nothing_follows_the_end(
    state: PotreeState,
    events: Seq<PotreeEvent<Seq<char>>>,
    i: int,
)
    requires
        potree_run(state, events),
        0 <= i < events.len(),
        events[i] == PotreeEvent::<Seq<char>>::FlagRead(true) || events[i] is Exited
            || events[i] is WaitFailed,
    ensures
        i == events.len() - 1,
    decreases events.len(),
{
    let rest = events.drop_first();
    if i > 0 {
        assert(rest[i - 1] == events[i]);
        nothing_follows_the_end(potree_next(state, events[0]).0, rest, i - 1);
    } else {
        reveal_with_fuel(potree_run, 2);
    }
}

/// The tool is killed, and the stage reported as cancelled, exactly when the
/// flag was seen raised; the stage succeeds exactly when the tool ended with
/// success.
pub proof fn the_last_event_decides_the_outcome(
    state: PotreeState,
    event: PotreeEvent<Seq<char>>,
)
    ensures
        potree_next(state, event).1 is End <==> potree_next(state, event).0.phase is Ended,
        potree_next(state, event).1 matches PotreeAction::End { kill, result } ==> {
            &&& kill <==> event == PotreeEvent::<Seq<char>>::FlagRead(true)
            &&& kill <==> result == Err::<(), StageError<Seq<char>>>(StageError::Cancelled)
            &&& result is Ok <==> (event matches PotreeEvent::Exited(exit) && exit.success)
        },
{
}

/// After every line the flag is read before anything else is waited for.
pub proof fn the_flag_is_read_after_every_line(
    state: PotreeState,
    events: Seq<PotreeEvent<Seq<char>>>,
    i: int,
)
    requires
        potree_run(state, events),
        0 <= i < events.len() - 1,
        events[i] is Line,
    ensures
        events[i + 1] is FlagRead,
    decreases events.len(),
{
    let rest = events.drop_first();
    assert(rest[i] == events[i + 1]);
    if i > 0 {
        assert(rest[i - 1] == events[i]);
        the_flag_is_read_after_every_line(potree_next(state, events[0]).0, rest, i - 1);
    } else {
        reveal_with_fuel(potree_run, 2);
    }
}

/// The percentage in force is that of the last line that announced one.
pub proof fn the_last_announcement_is_in_force(
    state: PotreeState,
    events: Seq<PotreeEvent<Seq<char>>>,
    i: int,
)
    requires
        0 <= i < events.len(),
        events[i] matches PotreeEvent::Line(line) && percent_text(line) is Some,
        forall|j: int|
            i < j < events.len() ==> (#[trigger] events[j] matches PotreeEvent::Line(line)
                ==> percent_text(line) is None),
    ensures
        potree_after(state, events).percent == percent_text(events[i]->Line_0),
    decreases events.len(),
{
    let rest = events.drop_first();
    let next = potree_next(state, events[0]).0;
    if i > 0 {
        assert(rest[i - 1] == events[i]);
        assert forall|j: int|
            i - 1 < j < rest.len() implies (#[trigger] rest[j] matches PotreeEvent::Line(line)
            ==> percent_text(line) is None) by {
            assert(rest[j] == events[j + 1]);
        }
        the_last_announcement_is_in_force(next, rest, i - 1);
    } else {
        assert forall|j: int|
            0 <= j < rest.len() implies (#[trigger] rest[j] matches PotreeEvent::Line(line)
            ==> percent_text(line) is None) by {
            assert(rest[j] == events[j + 1]);
        }
        silence_keeps_the_percentage(next, rest);
    }
}

proof fn silence_keeps_the_percentage(state: PotreeState, events: Seq<PotreeEvent<Seq<char>>>)
    requires
        forall|j: int|
            0 <= j < events.len() ==> (#[trigger] events[j] matches PotreeEvent::Line(line)
                ==> percent_text(line) is None),
    ensures
        potree_after(state, events).percent == state.percent,
    decreases events.len(),
{
    if events.len() > 0 {
        let rest = events.drop_first();
        assert forall|j: int|
            0 <= j < rest.len() implies (#[trigger] rest[j] matches PotreeEvent::Line(line)
            ==> percent_text(line) is None) by {
            assert(rest[j] == events[j + 1]);
        }
        silence_keeps_the_percentage(potree_next(state, events[0]).0, rest);
    }
}

/// What is told when the events of a run come.
pub open spec fn potree_told(
    state: PotreeState,
    events: Seq<PotreeEvent<Seq<char>>>,
) -> Seq<Message>
    decreases events.len(),
{
    if events.len() == 0 {
        Seq::empty()
    } else {
        (match potree_next(state, events[0]).1 {
            PotreeAction::Report(report) => seq![Message::Progress(report.note)],
            _ => Seq::empty(),
        }) + potree_told(potree_next(state, events[0]).0, events.drop_first())
    }
}

/// What is told while PotreeConverter runs is progress of the job.
pub proof fn converting_tells_only_progress(
    state: PotreeState,
    events: Seq<PotreeEvent<Seq<char>>>,
)
    ensures
        only_progress(potree_told(state, events), state.job.id),
    decreases events.len(),
{
    if events.len() > 0 {
        let next = potree_next(state, events[0]).0;
        let rest = potree_told(next, events.drop_first());
        converting_tells_only_progress(next, events.drop_first());
        let all = potree_told(state, events);
        let n = all.len() - rest.len();
        assert forall|i: int| 0 <= i < all.len() implies (#[trigger] all[i] matches Message::Progress(
            note,
        ) && note.job_id == state.job.id) by {
            if i >= n {
                assert(all[i] == rest[i - n]);
            }
        }
    }
}

/// A flag that is raised when PotreeConverter was started cancels the stage:
/// nothing follows the first look.
pub proof fn a_raised_flag_cancels_the_conversion(
    state: PotreeState,
    events: Seq<PotreeEvent<Seq<char>>>,
)
    requires
        state.phase is ReadingFlag,
        potree_run(state, events),
        events.len() > 0,
        events[0] == PotreeEvent::<Seq<char>>::FlagRead(true),
    ensures
        events.len() == 1,
        potree_next(state, events[0]).1 == (PotreeAction::<Seq<char>>::End {
            kill: true,
            result: Err(StageError::Cancelled),
        }),
        potree_told(state, events).len() == 0,
{
    reveal_with_fuel(potree_run, 2);
    reveal_with_fuel(potree_told, 2);
}

/// What is reported of a line: the line behind its tag, the job with the place
/// of its stage, the label of the line, and the percentage that the line itself
/// announces, or else the one that was in force before it. The percentage
/// reported is the one in force from then on.
pub proof fn what_is_reported_of_a_line(state: PotreeState, line: Seq<char>)
    ensures
        ({
            let (next, action) = potree_next(state, PotreeEvent::Line(line));
            &&& next.phase is ReadingFlag
            &&& next.job == state.job
            &&& action matches PotreeAction::Report(report)
            &&& report.percent == next.percent
            &&& percent_text(line) matches Some(p) ==> report.percent == Some(p)
            &&& percent_text(line) is None ==> report.percent == state.percent
            &&& report.log == "[potree stdout] "@ + line
            &&& report.note.job_id == state.job.id
            &&& report.note.stage.index == state.job.plan.index
            &&& report.note.stage.total == state.job.plan.total
            &&& report.note.stage.label == told_label(line)
        }),
{
    reveal_strlit("potree stdout");
    reveal_strlit("] ");
    reveal_strlit("[potree stdout] ");
    assert(seq!['['] + "potree stdout"@ + "] "@ =~= "[potree stdout] "@);
}

/// The report of a single line, for any job and whatever was announced before.
pub proof fn a_line_is_reported_with_its_own_percentage(
    job: PotreeJob<Seq<char>>,
    before: Option<Seq<char>>,
    line: Seq<char>,
)
    ensures
        percent_text(line) matches Some(p) ==> line_report(job, before, line).percent == Some(p),
        percent_text(line) is None ==> line_report(job, before, line).percent == before,
        line_report(job, before, line).note.job_id == job.id,
        line_report(job, before, line).note.stage.index == job.plan.index,
        line_report(job, before, line).note.stage.total == job.plan.total,
        line_report(job, before, line).note.stage.label == told_label(line),
{
}

/// The percentage that is reported of a line of a run is that of the last line
/// that announced one, the line itself included.
pub proof fn the_last_announcement_is_reported(
    state: PotreeState,
    events: Seq<PotreeEvent<Seq<char>>>,
    i: int,
    line: Seq<char>,
)
    requires
        percent_text(line) is None ==> {
            &&& 0 <= i < events.len()
            &&& events[i] matches PotreeEvent::Line(l) && percent_text(l) is Some
            &&& forall|j: int|
                i < j < events.len() ==> (#[trigger] events[j] matches PotreeEvent::Line(l)
                    ==> percent_text(l) is None)
        },
    ensures
        potree_next(potree_after(state, events), PotreeEvent::Line(line)).1
            matches PotreeAction::Report(report) && report.percent == if percent_text(line)
            is Some {
            percent_text(line)
        } else {
            percent_text(events[i]->Line_0)
        },
{
    if percent_text(line) is None {
        the_last_announcement_is_in_force(state, events, i);
    }
}

/// What follows everything but a line: a lowered flag lets the output be waited
/// for, a raised one kills the tool, the end of the output lets its exit be
/// waited for, and the way it ends becomes the outcome. None of this changes
/// the job or the percentage.
pub proof fn what_follows_in_a_run(state: PotreeState, exit: ExitInfo, e: Seq<char>)
    ensures
        ({
            let (next, action) = potree_next(state, PotreeEvent::FlagRead(false));
            next == (PotreeState { phase: PotreePhase::AwaitingOutput, ..state }) && action
                is AwaitOutput
        }),
        ({
            let (next, action) = potree_next(state, PotreeEvent::FlagRead(true));
            &&& next == (PotreeState { phase: PotreePhase::Ended, ..state })
            &&& action matches PotreeAction::End { kill, result } && kill && result == Err::<
                (),
                StageError<Seq<char>>,
            >(StageError::Cancelled)
        }),
        ({
            let (next, action) = potree_next(state, PotreeEvent::OutputEnded);
            next == (PotreeState { phase: PotreePhase::AwaitingExit, ..state }) && action
                is AwaitExit
        }),
        ({
            let (next, action) = potree_next(state, PotreeEvent::Exited(exit));
            &&& next == (PotreeState { phase: PotreePhase::Ended, ..state })
            &&& action matches PotreeAction::End { kill, result }
            &&& !kill
            &&& exit.success <==> result is Ok
            &&& !exit.success ==> (result matches Err(StageError::Failed(code, message)) && code
                == "potree_exit_"@ + signed_decimal(
                match exit.code {
                    Some(c) => c as int,
                    None => -1,
                },
            ) && message == if state.phase is AwaitingOutput {
                "PotreeConverter exited with non-zero status (see terminal logs)"@
            } else {
                "PotreeConverter exited with non-zero status"@
            })
        }),
        ({
            let (next, action) = potree_next(state, PotreeEvent::WaitFailed(e));
            &&& next == (PotreeState { phase: PotreePhase::Ended, ..state })
            &&& action matches PotreeAction::End { kill, result }
            &&& !kill
            &&& result == Err::<(), StageError<Seq<char>>>(
                StageError::Failed("potree_wait_failed"@, e),
            )
        }),
{
}

/// What can be observed in each phase of a run.
pub proof fn what_is_observed_in_a_run(phase: PotreePhase, event: PotreeEvent<Seq<char>>)
    ensures
        potree_accepts(phase, event) <==> ({
            ||| phase is ReadingFlag && event is FlagRead
            ||| phase is AwaitingOutput && (event is Line || event is OutputEnded || event is Exited
                || event is WaitFailed)
            ||| phase is AwaitingExit && (event is Exited || event is WaitFailed)
        }),
{
}

/// A line is logged behind its tag in brackets and a space, whole.
pub proof fn a_logged_line_is_whole(tag: Seq<char>, line: Seq<char>)
    ensures
        tagged(tag, line).len() == tag.len() + line.len() + 3,
        tagged(tag, line)[0] == '[',
        tagged(tag, line).subrange(1, tag.len() as int + 1) == tag,
        tagged(tag, line)[tag.len() as int + 1] == ']',
        tagged(tag, line)[tag.len() as int + 2] == ' ',
        tagged(tag, line).skip(tag.len() as int + 3) == line,
{
    reveal_strlit("] ");
    assert(tagged(tag, line).subrange(1, tag.len() as int + 1) =~= tag);
    assert(tagged(tag, line).skip(tag.len() as int + 3) =~= line);
}

/// PotreeConverter reads from the input and writes to the output, in its most
/// compact encoding.
pub proof fn how_potree_converter_is_called()
    ensures
        potree_command().len() == 6,
        potree_command()[0] == Argument::Text("-i"@) && potree_command()[1] is Input,
        potree_command()[2] == Argument::Text("-o"@) && potree_command()[3] is Output,
        potree_command()[4] == Argument::Text("--encoding"@),
        potree_command()[5] == Argument::Text("BROTLI"@),
{
}

/// Events, actions and reports of a run show all that they hold.
pub proof fn runs_are_shown_whole(
    event: PotreeEvent,
    action: PotreeAction,
    report: LineReport,
    job: PotreeJob,
)
    ensures
        match event {
            PotreeEvent::FlagRead(raised) => event@ == PotreeEvent::<Seq<char>>::FlagRead(raised),
            PotreeEvent::Line(line) => event@ matches PotreeEvent::Line(l) && l == line@,
            PotreeEvent::OutputEnded => event@ is OutputEnded,
            PotreeEvent::Exited(exit) => event@ == PotreeEvent::<Seq<char>>::Exited(exit),
            PotreeEvent::WaitFailed(e) => event@ matches PotreeEvent::WaitFailed(m) && m == e@,
        },
        match action {
            PotreeAction::AwaitOutput => action@ is AwaitOutput,
            PotreeAction::Report(r) => action@ matches PotreeAction::Report(v) && v == r@,
            PotreeAction::AwaitExit => action@ is AwaitExit,
            PotreeAction::End { kill, result } => action@
                matches PotreeAction::End { kill: k, result: r } && k == kill && r == stage_view(
                result,
            ),
        },
        report@.log == report.log@,
        report@.percent == text_view(report.percent),
        report@.note == report.note@,
        job@.id == job.id@,
        job@.plan == job.plan,
{
}

} // verus!
