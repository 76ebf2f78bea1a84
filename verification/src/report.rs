//! What the user interface is told about a job.

use vstd::prelude::*;

verus! {

/// The event under which progress is told.
pub const PROGRESS_EVENT: &'static str = "convert:progress";

/// The event under which a line of a tool's output is told.
pub const LOG_EVENT: &'static str = "convert:log";

/// The event under which a finished job is told.
pub const DONE_EVENT: &'static str = "convert:done";

/// The event under which a failed job is told.
pub const ERROR_EVENT: &'static str = "convert:error";

/// The event under which a cancelled job is told.
pub const CANCELLED_EVENT: &'static str = "convert:cancelled";

/// A stage as it is shown: its place among the stages and its label.
#[derive(Debug, PartialEq, Eq)]
pub struct ShownStage<S = String> {
    pub index: u32,
    pub total: u32,
    pub label: S,
}

impl View for ShownStage<String> {
    type V = ShownStage<Seq<char>>;

    open spec fn view(&self) -> ShownStage<Seq<char>> {
        ShownStage { index: self.index, total: self.total, label: self.label@ }
    }
}

/// What a progress message says besides its figures: the job and its stage.
#[derive(Debug, PartialEq, Eq)]
pub struct ProgressNote<S = String> {
    pub job_id: S,
    pub stage: ShownStage<S>,
}

impl View for ProgressNote<String> {
    type V = ProgressNote<Seq<char>>;

    open spec fn view(&self) -> ProgressNote<Seq<char>> {
        ProgressNote { job_id: self.job_id@, stage: self.stage@ }
    }
}

/// A job that finished.
#[derive(Debug, PartialEq, Eq)]
pub struct DonePayload<S = String> {
    pub job_id: S,
    pub output_path: S,
    pub duration_ms: u64,
    pub output_bytes: u64,
    pub points_total: u64,
}

/// A job that failed.
#[derive(Debug, PartialEq, Eq)]
pub struct ErrorPayload<S = String> {
    pub job_id: S,
    pub code: S,
    pub message: S,
}

/// A job that was cancelled.
#[derive(Debug, PartialEq, Eq)]
pub struct CancelledPayload<S = String> {
    pub job_id: S,
}

/// The last thing that is told of a job.
#[derive(Debug, PartialEq, Eq)]
pub enum Report<S = String> {
    Done(DonePayload<S>),
    Error(ErrorPayload<S>),
    Cancelled(CancelledPayload<S>),
}

impl View for Report<String> {
    type V = Report<Seq<char>>;

    open spec fn view(&self) -> Report<Seq<char>> {
        match self {
            Report::Done(p) => Report::Done(
                DonePayload {
                    job_id: p.job_id@,
                    output_path: p.output_path@,
                    duration_ms: p.duration_ms,
                    output_bytes: p.output_bytes,
                    points_total: p.points_total,
                },
            ),
            Report::Error(p) => Report::Error(
                ErrorPayload { job_id: p.job_id@, code: p.code@, message: p.message@ },
            ),
            Report::Cancelled(p) => Report::Cancelled(CancelledPayload { job_id: p.job_id@ }),
        }
    }
}

/// The job that a report is about.
pub open spec fn report_job(report: Report<Seq<char>>) -> Seq<char> {
    match report {
        Report::Done(p) => p.job_id,
        Report::Error(p) => p.job_id,
        Report::Cancelled(p) => p.job_id,
    }
}

/// A message about a job: progress on the way, or the report that closes it.
pub enum Message {
    Progress(ProgressNote<Seq<char>>),
    Closing(Report<Seq<char>>),
}

/// All messages tell of progress, and of this job.
pub open spec fn only_progress(messages: Seq<Message>, job: Seq<char>) -> bool {
    forall|i: int|
        0 <= i < messages.len() ==> (#[trigger] messages[i] matches Message::Progress(note)
            && note.job_id == job)
}

/// The last message is a report, all before it tell of progress, and all are
/// about this job.
pub open spec fn closed_once(messages: Seq<Message>, job: Seq<char>) -> bool {
    &&& messages.len() > 0
    &&& only_progress(messages.drop_last(), job)
    &&& messages.last() matches Message::Closing(report) && report_job(report) == job
}

/// The event under which a report is told.
pub open spec fn event_of(report: Report<Seq<char>>) -> Seq<char> {
    match report {
        Report::Done(_) => DONE_EVENT@,
        Report::Error(_) => ERROR_EVENT@,
        Report::Cancelled(_) => CANCELLED_EVENT@,
    }
}

/// The event under which a report is told.
pub fn report_event(report: &Report) -> (event: &'static str)
    ensures
        event@ == event_of(report@),
        event@ == (match report {
            Report::Done(_) => DONE_EVENT@,
            Report::Error(_) => ERROR_EVENT@,
            Report::Cancelled(_) => CANCELLED_EVENT@,
        }),
{
    match report {
        Report::Done(_) => DONE_EVENT,
        Report::Error(_) => ERROR_EVENT,
        Report::Cancelled(_) => CANCELLED_EVENT,
    }
}

// ---------------------------------------------------------------------------
// Laws
// ---------------------------------------------------------------------------

/// Each kind of report is told under an event of its own.
pub proof fn reports_are_told_under_their_events(report: Report<Seq<char>>)
    ensures
        report is Done ==> event_of(report) == "convert:done"@,
        report is Error ==> event_of(report) == "convert:error"@,
        report is Cancelled ==> event_of(report) == "convert:cancelled"@,
{
}

/// A report is about the job whose id it carries.
pub proof fn a_report_is_about_its_job(
    done: DonePayload<Seq<char>>,
    error: ErrorPayload<Seq<char>>,
    cancelled: CancelledPayload<Seq<char>>,
)
    ensures
        report_job(Report::Done(done)) == done.job_id,
        report_job(Report::Error(error)) == error.job_id,
        report_job(Report::Cancelled(cancelled)) == cancelled.job_id,
{
}

/// A closed sequence of messages holds exactly one report, and all of its
/// messages are about the job.
pub proof fn what_is_closed_once(messages: Seq<Message>, job: Seq<char>, i: int)
    requires
        closed_once(messages, job),
        0 <= i < messages.len(),
    ensures
        messages[i] is Closing <==> i == messages.len() - 1,
        messages[i] matches Message::Closing(report) ==> report_job(report) == job,
        messages[i] matches Message::Progress(note) ==> note.job_id == job,
{
    if i < messages.len() - 1 {
        assert(messages.drop_last()[i] == messages[i]);
    }
}

/// Reports and notes show all that they hold.
pub proof fn reports_are_shown_whole(report: Report, note: ProgressNote, stage: ShownStage)
    ensures
        match report {
            Report::Done(p) => report@ matches Report::Done(v) && v.job_id == p.job_id@
                && v.output_path == p.output_path@ && v.duration_ms == p.duration_ms
                && v.output_bytes == p.output_bytes && v.points_total == p.points_total,
            Report::Error(p) => report@ matches Report::Error(v) && v.job_id == p.job_id@ && v.code
                == p.code@ && v.message == p.message@,
            Report::Cancelled(p) => report@ matches Report::Cancelled(v) && v.job_id == p.job_id@,
        },
        note@.job_id == note.job_id@,
        note@.stage == note.stage@,
        stage@.index == stage.index,
        stage@.total == stage.total,
        stage@.label == stage.label@,
{
}

/// Progress and lines of output are told under events of their own.
pub proof fn progress_and_lines_are_told_under_their_events()
    ensures
        PROGRESS_EVENT@ == "convert:progress"@,
        LOG_EVENT@ == "convert:log"@,
{
}

} // verus!
