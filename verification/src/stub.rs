//! The stand-in for a conversion when no converter is installed: progress is
//! told as if one ran, until it reaches the end.
//!
//! [`StubRun`] takes what was observed and says what to do next: the cancel
//! flag is looked at before each advance, and the run closes with one report.

use vstd::prelude::*;

use crate::files::{estimate_points, estimated_points};
use crate::report::{
    closed_once, only_progress, CancelledPayload, DonePayload, Message, ProgressNote, Report,
    ShownStage,
};
use crate::text::owned;

verus! {

/// How long the stand-in rests between two steps.
pub const STUB_INTERVAL_MS: u64 = 150;

/// The labels of the stand-in's stages.
pub open spec fn stub_labels() -> Seq<Seq<char>> {
    seq!["Reading file"@, "Loading points"@, "Building octree"@, "Writing"@]
}

/// The stage that is shown for a quarter of the way; the last one is also
/// shown at the end.
pub open spec fn shown_stage(quarter: usize) -> ShownStage<Seq<char>> {
    let index: u32 = if quarter < 3 {
        quarter as u32
    } else {
        3
    };
    ShownStage { index, total: 4, label: stub_labels()[index as int] }
}

/// The stage to show for a quarter of the way.
pub fn stub_stage(quarter: usize) -> (r: ShownStage)
    ensures
        r@ == shown_stage(quarter),
{
    if quarter == 0 {
        ShownStage { index: 0, total: 4, label: owned("Reading file") }
    } else if quarter == 1 {
        ShownStage { index: 1, total: 4, label: owned("Loading points") }
    } else if quarter == 2 {
        ShownStage { index: 2, total: 4, label: owned("Building octree") }
    } else {
        ShownStage { index: 3, total: 4, label: owned("Writing") }
    }
}

/// The jitter of a step in thousandths, from the nanoseconds of the clock.
pub open spec fn jitter(nanos: u32) -> u32 {
    nanos % 1000
}

/// The jitter of a step in thousandths, from the nanoseconds of the clock.
pub fn jitter_thousandths(nanos: u32) -> (r: u32)
    ensures
        r == jitter(nanos),
        r == nanos % 1000,
        r < 1000,
{
    nanos % 1000
}

/// What was observed.
#[derive(Clone, Copy, Debug, PartialEq, Eq)]
pub enum StubEvent {
    /// The cancel flag was read.
    FlagRead(bool),
    /// The progress was advanced into this quarter, perhaps to its end.
    Advanced { quarter: usize, complete: bool },
    /// The output directory was made or not, and the figures are at hand.
    OutputMeasured { made: bool, bytes: u64, duration_ms: u64 },
}

/// What to do next.
#[derive(Debug, PartialEq, Eq)]
pub enum StubAction<S = String> {
    /// Advance the progress.
    Advance,
    /// Tell the progress, rest, then read the cancel flag.
    ReportAndRest { note: ProgressNote<S>, rest_ms: u64 },
    /// Tell the progress, then try to make the output directory and measure.
    ReportAndMeasure { note: ProgressNote<S>, output_path: S },
    /// Tell the report.
    End { report: Report<S> },
}

impl View for StubAction<String> {
    type V = StubAction<Seq<char>>;

    open spec fn view(&self) -> StubAction<Seq<char>> {
        match self {
            StubAction::Advance => StubAction::Advance,
            StubAction::ReportAndRest { note, rest_ms } => StubAction::ReportAndRest {
                note: note@,
                rest_ms: *rest_ms,
            },
            StubAction::ReportAndMeasure { note, output_path } => StubAction::ReportAndMeasure {
                note: note@,
                output_path: output_path@,
            },
            StubAction::End { report } => StubAction::End { report: report@ },
        }
    }
}

/// Where the stand-in stands.
#[derive(Clone, Copy, Debug, PartialEq, Eq)]
pub enum StubPhase {
    ReadingFlag,
    Advancing,
    Measuring,
    Ended,
}

/// The job of the stand-in: its id, the path of its output directory, and the
/// points that its input is estimated to have.
pub struct StubJob {
    pub id: Seq<char>,
    pub output_path: Seq<char>,
    pub points_total: u64,
}

/// The job of the stand-in, and where it stands.
pub struct StubState {
    pub job: StubJob,
    pub phase: StubPhase,
}

/// The state at the start of a run.
pub open spec fn stub_start(job: StubJob) -> StubState {
    StubState { job, phase: StubPhase::ReadingFlag }
}

/// The event that each phase waits for.
pub open spec fn stub_accepts(phase: StubPhase, event: StubEvent) -> bool {
    match phase {
        StubPhase::ReadingFlag => event is FlagRead,
        StubPhase::Advancing => event is Advanced,
        StubPhase::Measuring => event is OutputMeasured,
        StubPhase::Ended => false,
    }
}

/// The next phase and the next action. Whether the output directory could be
/// made does not matter.
pub open spec fn stub_next(state: StubState, event: StubEvent) -> (
    StubPhase,
    StubAction<Seq<char>>,
) {
    let job = state.job;
    match event {
        StubEvent::FlagRead(raised) => if raised {
            (
                StubPhase::Ended,
                StubAction::End { report: Report::Cancelled(CancelledPayload { job_id: job.id }) },
            )
        } else {
            (StubPhase::Advancing, StubAction::Advance)
        },
        StubEvent::Advanced { quarter, complete } => {
            let note = ProgressNote { job_id: job.id, stage: shown_stage(quarter) };
            if complete {
                (
                    StubPhase::Measuring,
                    StubAction::ReportAndMeasure { note, output_path: job.output_path },
                )
            } else {
                (
                    StubPhase::ReadingFlag,
                    StubAction::ReportAndRest { note, rest_ms: STUB_INTERVAL_MS },
                )
            }
        },
        StubEvent::OutputMeasured { made: _, bytes, duration_ms } => (
            StubPhase::Ended,
            StubAction::End {
                report: Report::Done(
                    DonePayload {
                        job_id: job.id,
                        output_path: job.output_path,
                        duration_ms,
                        output_bytes: bytes,
                        points_total: job.points_total,
                    },
                ),
            },
        ),
    }
}

/// One run of the stand-in.
pub struct StubRun {
    job_id: String,
    output_path: String,
    points_total: u64,
    phase: StubPhase,
}

impl View for StubRun {
    type V = StubState;

    closed spec fn view(&self) -> StubState {
        StubState {
            job: StubJob {
                id: self.job_id@,
                output_path: self.output_path@,
                points_total: self.points_total,
            },
            phase: self.phase,
        }
    }
}

impl StubRun {
    /// A run for an input of this length, where that is known, into this output
    /// directory. It starts with a look at the cancel flag.
    pub fn new(job_id: String, output_path: String, input_len: Option<u64>) -> (r: StubRun)
        ensures
            r@ == stub_start(
                StubJob {
                    id: job_id@,
                    output_path: output_path@,
                    points_total: estimated_points(input_len),
                },
            ),
    {
        StubRun {
            job_id,
            output_path,
            points_total: estimate_points(input_len),
            phase: StubPhase::ReadingFlag,
        }
    }

    /// Tells whether an event is the one that is waited for.
    pub fn accepts(&self, event: &StubEvent) -> (r: bool)
        ensures
            r == stub_accepts(self@.phase, *event),
    {
        match (self.phase, event) {
            (StubPhase::ReadingFlag, StubEvent::FlagRead(_)) => true,
            (StubPhase::Advancing, StubEvent::Advanced { .. }) => true,
            (StubPhase::Measuring, StubEvent::OutputMeasured { .. }) => true,
            _ => false,
        }
    }

    /// Takes what was observed and says what to do next.
    pub fn step(&mut self, event: StubEvent) -> (action: StubAction)
        requires
            stub_accepts(old(self)@.phase, event),
        ensures
            final(self)@.job == old(self)@.job,
            final(self)@.phase == stub_next(old(self)@, event).0,
            action@ == stub_next(old(self)@, event).1,
    {
        let job_id = self.job_id.clone();
        match event {
            StubEvent::FlagRead(raised) => {
                if raised {
                    self.phase = StubPhase::Ended;
                    StubAction::End { report: Report::Cancelled(CancelledPayload { job_id }) }
                } else {
                    self.phase = StubPhase::Advancing;
                    StubAction::Advance
                }
            },
            StubEvent::Advanced { quarter, complete } => {
                let note = ProgressNote { job_id, stage: stub_stage(quarter) };
                if complete {
                    self.phase = StubPhase::Measuring;
                    StubAction::ReportAndMeasure { note, output_path: self.output_path.clone() }
                } else {
                    self.phase = StubPhase::ReadingFlag;
                    StubAction::ReportAndRest { note, rest_ms: STUB_INTERVAL_MS }
                }
            },
            StubEvent::OutputMeasured { made: _, bytes, duration_ms } => {
                self.phase = StubPhase::Ended;
                StubAction::End {
                    report: Report::Done(
                        DonePayload {
                            job_id,
                            output_path: self.output_path.clone(),
                            duration_ms,
                            output_bytes: bytes,
                            points_total: self.points_total,
                        },
                    ),
                }
            },
        }
    }
}

// ---------------------------------------------------------------------------
// Laws
// ---------------------------------------------------------------------------

/// The state after an event.
pub open spec fn stub_state_after(state: StubState, event: StubEvent) -> StubState {
    StubState { job: state.job, phase: stub_next(state, event).0 }
}

/// The events of a run, from a state on: each is waited for when it comes.
pub open spec fn stub_run(state: StubState, events: Seq<StubEvent>) -> bool
    decreases events.len(),
{
    events.len() == 0 || (stub_accepts(state.phase, events[0]) && stub_run(
        stub_state_after(state, events[0]),
        events.drop_first(),
    ))
}

/// The phase after the events of a run.
pub open spec fn stub_after(state: StubState, events: Seq<StubEvent>) -> StubPhase
    decreases events.len(),
{
    if events.len() == 0 {
        state.phase
    } else {
        stub_after(stub_state_after(state, events[0]), events.drop_first())
    }
}

/// What an action tells.
pub open spec fn stub_message(action: StubAction<Seq<char>>) -> Seq<Message> {
    match action {
        StubAction::Advance => Seq::empty(),
        StubAction::ReportAndRest { note, .. } => seq![Message::Progress(note)],
        StubAction::ReportAndMeasure { note, .. } => seq![Message::Progress(note)],
        StubAction::End { report } => seq![Message::Closing(report)],
    }
}

/// What is told when the events of a run come.
pub open spec fn stub_told(state: StubState, events: Seq<StubEvent>) -> Seq<Message>
    decreases events.len(),
{
    if events.len() == 0 {
        Seq::empty()
    } else {
        stub_message(stub_next(state, events[0]).1) + stub_told(
            stub_state_after(state, events[0]),
            events.drop_first(),
        )
    }
}

/// A run begins with a look at the cancel flag, and every advance follows a
/// look that saw it lowered.
pub proof fn the_flag_is_read_before_every_advance(
    job: StubJob,
    events: Seq<StubEvent>,
    i: int,
)
    requires
        stub_run(stub_start(job), events),
        0 <= i < events.len(),
    ensures
        events[0] is FlagRead,
        events[i] is Advanced ==> i > 0 && events[i - 1] == StubEvent::FlagRead(false),
{
    advances_follow_looks(stub_start(job), events, i);
}

proof fn advances_follow_looks(state: StubState, events: Seq<StubEvent>, i: int)
    requires
        stub_run(state, events),
        0 <= i < events.len(),
    ensures
        events[i] is Advanced && i > 0 ==> events[i - 1] == StubEvent::FlagRead(false),
    decreases events.len(),
{
    if i == 1 {
        reveal_with_fuel(stub_run, 2);
        assert(events.drop_first()[0] == events[1]);
    } else if i > 1 {
        let rest = events.drop_first();
        assert(rest[i - 1] == events[i] && rest[i - 2] == events[i - 1]);
        advances_follow_looks(stub_state_after(state, events[0]), rest, i - 1);
    }
}

/// Nothing follows the end: the event that shows a raised flag, or that brings
/// the figures of the output, is the last.
pub proof fn nothing_follows_the_end_of_the_stand_in(
    state: StubState,
    events: Seq<StubEvent>,
    i: int,
)
    requires
        stub_run(state, events),
        0 <= i < events.len(),
        events[i] == StubEvent::FlagRead(true) || events[i] is OutputMeasured,
    ensures
        i == events.len() - 1,
        stub_after(state, events) is Ended,
    decreases events.len(),
{
    let rest = events.drop_first();
    let next = stub_state_after(state, events[0]);
    if i > 0 {
        assert(rest[i - 1] == events[i]);
        nothing_follows_the_end_of_the_stand_in(next, rest, i - 1);
    } else {
        reveal_with_fuel(stub_run, 2);
        assert(rest.len() == 0);
        assert(stub_after(next, rest) == next.phase);
    }
}

/// A run that ended was told of once: one report about the job, at the very
/// end, and progress of the job before it.
pub proof fn the_stand_in_closes_once(state: StubState, events: Seq<StubEvent>)
    requires
        stub_run(state, events),
        events.len() > 0,
    ensures
        stub_after(state, events) is Ended ==> closed_once(stub_told(state, events), state.job.id),
        stub_after(state, events) !is Ended ==> only_progress(
            stub_told(state, events),
            state.job.id,
        ),
    decreases events.len(),
{
    let next = stub_state_after(state, events[0]);
    let rest = events.drop_first();
    let first = stub_message(stub_next(state, events[0]).1);
    let later = stub_told(next, rest);
    let all = stub_told(state, events);
    assert(all == first + later);
    if rest.len() > 0 {
        reveal_with_fuel(stub_run, 2);
        the_stand_in_closes_once(next, rest);
        assert forall|i: int| 0 <= i < all.len() - 1 implies all.drop_last()[i] == #[trigger] all[i]
        by {}
        assert forall|i: int| 0 <= i < first.len() implies #[trigger] all[i] == first[i] by {}
        assert forall|i: int| first.len() <= i < all.len() implies #[trigger] all[i] == later[i
            - first.len()] by {}
        if stub_after(state, events) is Ended {
            assert(all.last() == later.last());
            assert forall|i: int| 0 <= i < all.drop_last().len() implies (
            #[trigger] all.drop_last()[i] matches Message::Progress(note) && note.job_id
                == state.job.id) by {
                if i >= first.len() {
                    assert(all[i] == later.drop_last()[i - first.len()]);
                }
            }
        }
    } else {
        assert(later.len() == 0);
        assert(all =~= first);
        assert(stub_after(next, rest) == next.phase);
    }
}

/// A flag that is raised on entry ends the run with the one report that the
/// job was cancelled: no progress is told, no directory is made, and the job
/// is not reported done.
pub proof fn a_raised_flag_cancels_the_stand_in(job: StubJob, events: Seq<StubEvent>)
    requires
        stub_run(stub_start(job), events),
        events.len() > 0,
        events[0] == StubEvent::FlagRead(true),
    ensures
        events.len() == 1,
        stub_told(stub_start(job), events) == seq![
            Message::Closing(Report::Cancelled(CancelledPayload { job_id: job.id })),
        ],
{
    nothing_follows_the_end_of_the_stand_in(stub_start(job), events, 0);
    reveal_with_fuel(stub_told, 2);
    assert(stub_told(stub_start(job), events) =~= seq![
        Message::Closing(Report::Cancelled(CancelledPayload { job_id: job.id })),
    ]);
}

/// How a run that ended was closed: as cancelled exactly when its last event
/// shows a raised flag, and else as done, with the output directory and the
/// points of the job and the figures that the last event brought, also where
/// the directory could not be made.
pub proof fn the_last_event_closes_the_stand_in(
    state: StubState,
    events: Seq<StubEvent>,
)
    requires
        stub_run(state, events),
        events.len() > 0,
        stub_after(state, events) is Ended,
    ensures
        match events.last() {
            StubEvent::FlagRead(raised) => raised && stub_told(state, events).last()
                == Message::Closing(
                Report::Cancelled(CancelledPayload { job_id: state.job.id }),
            ),
            StubEvent::OutputMeasured { made: _, bytes, duration_ms } => stub_told(
                state,
                events,
            ).last() == Message::Closing(
                Report::Done(
                    DonePayload {
                        job_id: state.job.id,
                        output_path: state.job.output_path,
                        duration_ms,
                        output_bytes: bytes,
                        points_total: state.job.points_total,
                    },
                ),
            ),
            StubEvent::Advanced { .. } => false,
        },
    decreases events.len(),
{
    let next = stub_state_after(state, events[0]);
    let rest = events.drop_first();
    let first = stub_message(stub_next(state, events[0]).1);
    let later = stub_told(next, rest);
    assert(stub_told(state, events) == first + later);
    if rest.len() > 0 {
        the_last_event_closes_the_stand_in(next, rest);
        the_stand_in_closes_once(next, rest);
        assert(events.last() == rest.last());
        assert((first + later).last() == later.last());
    } else {
        assert(events.last() == events[0]);
        assert(later.len() == 0);
        assert(stub_after(next, rest) == next.phase);
        assert(first + later =~= first);
    }
}

/// The stages that are shown never go back while the progress advances, and
/// stay below their total.
pub proof fn shown_stages_only_advance(earlier: usize, later: usize)
    requires
        earlier <= later,
    ensures
        shown_stage(earlier).index <= shown_stage(later).index < shown_stage(later).total,
        shown_stage(earlier).total == shown_stage(later).total,
{
}

/// The jitter is what is left of the nanoseconds behind the last full thousand.
pub proof fn jitter_is_what_is_left(thousands: u32, rest: u32)
    requires
        rest < 1000,
        1000 * thousands + rest <= u32::MAX,
    ensures
        jitter((1000 * thousands + rest) as u32) == rest,
{
}

/// Each quarter of the way has a stage of its own; the last is also shown at
/// the end.
pub proof fn what_is_shown_for_a_quarter(quarter: usize)
    ensures
        shown_stage(quarter).total == 4,
        shown_stage(0) == (ShownStage { index: 0, total: 4, label: "Reading file"@ }),
        shown_stage(1) == (ShownStage { index: 1, total: 4, label: "Loading points"@ }),
        shown_stage(2) == (ShownStage { index: 2, total: 4, label: "Building octree"@ }),
        quarter >= 3 ==> shown_stage(quarter) == (ShownStage {
            index: 3,
            total: 4,
            label: "Writing"@,
        }),
{
}

/// What the stand-in does after each observation.
pub proof fn what_the_stand_in_does(
    state: StubState,
    quarter: usize,
    made: bool,
    bytes: u64,
    duration_ms: u64,
)
    ensures
        stub_next(state, StubEvent::FlagRead(true)).0 is Ended,
        stub_next(state, StubEvent::FlagRead(true)).1 matches StubAction::End { report }
            && report matches Report::Cancelled(p) && p.job_id == state.job.id,
        stub_next(state, StubEvent::FlagRead(false)).0 is Advancing,
        stub_next(state, StubEvent::FlagRead(false)).1 is Advance,
        stub_next(state, StubEvent::Advanced { quarter, complete: false }).0 is ReadingFlag,
        stub_next(state, StubEvent::Advanced { quarter, complete: false }).1
            matches StubAction::ReportAndRest { note, rest_ms } && rest_ms == 150 && note.job_id
            == state.job.id && note.stage == shown_stage(quarter),
        stub_next(state, StubEvent::Advanced { quarter, complete: true }).0 is Measuring,
        stub_next(state, StubEvent::Advanced { quarter, complete: true }).1
            matches StubAction::ReportAndMeasure { note, output_path } && output_path
            == state.job.output_path && note.job_id == state.job.id && note.stage == shown_stage(
            quarter,
        ),
        stub_next(state, StubEvent::OutputMeasured { made, bytes, duration_ms }).0 is Ended,
        stub_next(state, StubEvent::OutputMeasured { made, bytes, duration_ms }).1
            matches StubAction::End { report } && report matches Report::Done(p) && p.job_id
            == state.job.id && p.output_path == state.job.output_path && p.duration_ms
            == duration_ms && p.output_bytes == bytes && p.points_total == state.job.points_total,
{
}

/// What the stand-in waits for in each phase.
pub proof fn what_the_stand_in_waits_for(phase: StubPhase, event: StubEvent)
    ensures
        stub_accepts(phase, event) <==> ({
            ||| phase is ReadingFlag && event is FlagRead
            ||| phase is Advancing && event is Advanced
            ||| phase is Measuring && event is OutputMeasured
        }),
{
}

/// The actions of the stand-in show all that they hold.
pub proof fn the_stand_in_is_shown_whole(action: StubAction)
    ensures
        match action {
            StubAction::Advance => action@ is Advance,
            StubAction::ReportAndRest { note, rest_ms } => action@
                matches StubAction::ReportAndRest { note: n, rest_ms: t } && n == note@ && t
                == rest_ms,
            StubAction::ReportAndMeasure { note, output_path } => action@
                matches StubAction::ReportAndMeasure { note: n, output_path: p } && n == note@ && p
                == output_path@,
            StubAction::End { report } => action@ matches StubAction::End { report: r } && r
                == report@,
        },
{
}

} // verus!
