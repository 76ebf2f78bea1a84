//! A whole conversion: its course, and the runs of its stages within it.
//!
//! The course of a conversion ([`crate::pipeline`]) takes the outcomes of its
//! stages as events. Here they are tied to the runs of the stages, and what
//! holds of everything that is told of a job, from its start to its end, is
//! stated: one report closes it, a job whose flag is raised from the start is
//! not done, a job is cancelled exactly when its flag was seen raised, and a
//! done job names its own output directory.

use crate::pipeline::{
    a_conversion_closes_once, cancelled_means_a_stage_was, conversion_ok, conversion_plan,
    done_means_converted, done_names_the_directory_that_was_made, pipeline_actions, pipeline_after,
    pipeline_next, pipeline_run, reports_are_true_to_the_job, stage_cancelled, Phase,
    PipelineAction, PipelineEvent, PlannedJob,
};
use crate::poll::{
    a_child_is_killed_when_cancelled, a_run_ends_with_its_first_final_event, poll_next, poll_run,
    PollAction, PollEvent, PollPhase,
};
use crate::potree::{
    a_raised_flag_cancels_the_conversion, converting_tells_only_progress, nothing_follows_the_end,
    potree_after, potree_next, potree_run, potree_start, potree_told,
    the_last_event_decides_the_outcome, PotreeAction, PotreeEvent, PotreeJob, PotreeState,
};
use crate::report::{closed_once, only_progress, Message, Report};
use crate::stage::{reading_tells_only_progress, reading_told, translation, StageError};
use crate::stub::{
    a_raised_flag_cancels_the_stand_in, nothing_follows_the_end_of_the_stand_in, stub_after,
    stub_run, stub_start, stub_told, the_last_event_closes_the_stand_in, the_stand_in_closes_once,
    StubEvent, StubJob,
};
use vstd::prelude::*;

verus! {

/// Everything that was observed in one conversion.
pub struct ConversionRun {
    /// The events of the course.
    pub events: Seq<PipelineEvent<Seq<char>>>,
    /// What was observed of PDAL.
    pub translating: Seq<PollEvent<Seq<char>>>,
    /// The cancel flag, look by look, while the progress of PDAL was told.
    pub looks: Seq<bool>,
    /// The size of the file that PDAL left.
    pub las_bytes: u64,
    /// What was observed of PotreeConverter.
    pub converting: Seq<PotreeEvent<Seq<char>>>,
    /// The job as the stand-in knows it.
    pub stub_job: StubJob,
    /// What was observed by the stand-in.
    pub standing_in: Seq<StubEvent>,
}

/// PotreeConverter at the start of its stage.
pub open spec fn converter_start(job: PlannedJob) -> PotreeState {
    potree_start(PotreeJob { id: job.id, plan: conversion_plan(job.translate) })
}

/// The outcome of the translation is that of the run of PDAL; where PDAL could
/// not be started there was none.
pub open spec fn translation_fits(
    run: ConversionRun,
    r: Result<(), StageError<Seq<char>>>,
) -> bool {
    if run.translating.len() == 0 {
        &&& run.looks.len() == 0
        &&& r matches Err(e) && e matches StageError::Failed(code, _) && code
            == "pdal_spawn_failed"@
    } else {
        &&& poll_run(PollPhase::ReadingFlag, run.translating)
        &&& poll_next(run.translating.last()).1 matches PollAction::End { outcome, .. } && r
            == translation(outcome, run.las_bytes)
    }
}

/// The outcome of the conversion to an octree is that of the run of
/// PotreeConverter; where it could not be started there was none.
pub open spec fn conversion_fits(
    job: PlannedJob,
    run: ConversionRun,
    r: Result<(), StageError<Seq<char>>>,
) -> bool {
    let events = run.converting;
    if events.len() == 0 {
        r matches Err(e) && e matches StageError::Failed(code, _) && code
            == "potree_spawn_failed"@
    } else {
        &&& potree_run(converter_start(job), events)
        &&& potree_next(
            potree_after(converter_start(job), events.drop_last()),
            events.last(),
        ).1 matches PotreeAction::End { result, .. } && r == result
    }
}

/// An event of the course agrees with what was observed of the tools.
pub open spec fn event_fits(
    job: PlannedJob,
    run: ConversionRun,
    event: PipelineEvent<Seq<char>>,
) -> bool {
    match event {
        PipelineEvent::TranslationEnded(r) => translation_fits(run, r),
        PipelineEvent::ConversionEnded(r) => conversion_fits(job, run, r),
        _ => true,
    }
}

/// The conversion was handed over to the stand-in.
pub open spec fn stood_in(job: PlannedJob, run: ConversionRun) -> bool {
    pipeline_actions(job, Phase::New, run.events).last() is RunStub
}

/// A conversion from its start to its end: every stage of the course ended as
/// its run did, a stand-in that was called for ran to its end, and nothing was
/// observed of what did not run.
pub open spec fn whole_conversion(job: PlannedJob, run: ConversionRun) -> bool {
    &&& pipeline_run(job, Phase::New, run.events)
    &&& pipeline_after(job, Phase::New, run.events) is Ended
    &&& forall|i: int| 0 <= i < run.events.len() ==> event_fits(job, run, #[trigger] run.events[i])
    &&& run.translating.len() > 0 ==> exists|i: int|
        0 <= i < run.events.len() && #[trigger] run.events[i] is TranslationEnded
    &&& run.converting.len() > 0 ==> exists|i: int|
        0 <= i < run.events.len() && #[trigger] run.events[i] is ConversionEnded
    &&& run.stub_job.id == job.id
    &&& run.stub_job.output_path == job.output_path
    &&& if stood_in(job, run) {
        &&& stub_run(stub_start(run.stub_job), run.standing_in)
        &&& stub_after(stub_start(run.stub_job), run.standing_in) is Ended
    } else {
        run.standing_in.len() == 0
    }
}

/// What is told while an action is carried out.
pub open spec fn told_by(
    job: PlannedJob,
    run: ConversionRun,
    action: PipelineAction<Seq<char>>,
) -> Seq<Message> {
    match action {
        PipelineAction::Translate { note, .. } => seq![Message::Progress(note)] + reading_told(
            job.id,
            run.looks,
        ),
        PipelineAction::Convert { plan, .. } => potree_told(
            potree_start(PotreeJob { id: job.id, plan }),
            run.converting,
        ),
        PipelineAction::RunStub { .. } => stub_told(stub_start(run.stub_job), run.standing_in),
        PipelineAction::End { report, .. } => seq![Message::Closing(report)],
        _ => Seq::empty(),
    }
}

/// What is told from a phase on, when these events of the course come.
pub open spec fn told_from(
    job: PlannedJob,
    run: ConversionRun,
    phase: Phase,
    events: Seq<PipelineEvent<Seq<char>>>,
) -> Seq<Message>
    decreases events.len(),
{
    if events.len() == 0 {
        Seq::empty()
    } else {
        told_by(job, run, pipeline_next(job, phase, events[0]).1) + told_from(
            job,
            run,
            pipeline_next(job, phase, events[0]).0,
            events.drop_first(),
        )
    }
}

/// Everything that is told of a conversion, in order.
pub open spec fn told(job: PlannedJob, run: ConversionRun) -> Seq<Message> {
    told_from(job, run, Phase::New, run.events)
}

/// No look at the cancel flag saw it lowered: it was raised from the start.
pub open spec fn raised_throughout(run: ConversionRun) -> bool {
    &&& forall|i: int|
        0 <= i < run.translating.len() ==> #[trigger] run.translating[i] != PollEvent::<
            Seq<char>,
        >::FlagRead(false)
    &&& forall|i: int| 0 <= i < run.looks.len() ==> #[trigger] run.looks[i]
    &&& forall|i: int|
        0 <= i < run.converting.len() ==> #[trigger] run.converting[i] != PotreeEvent::<
            Seq<char>,
        >::FlagRead(false)
    &&& forall|i: int|
        0 <= i < run.standing_in.len() ==> #[trigger] run.standing_in[i] != StubEvent::FlagRead(
            false,
        )
}

/// While a tool or the stand-in was waited for, the cancel flag was seen
/// raised.
pub open spec fn seen_raised(run: ConversionRun) -> bool {
    ||| exists|i: int|
        0 <= i < run.translating.len() && #[trigger] run.translating[i] == PollEvent::<
            Seq<char>,
        >::FlagRead(true)
    ||| exists|i: int|
        0 <= i < run.converting.len() && #[trigger] run.converting[i] == PotreeEvent::<
            Seq<char>,
        >::FlagRead(true)
    ||| exists|i: int|
        0 <= i < run.standing_in.len() && #[trigger] run.standing_in[i] == StubEvent::FlagRead(true)
}

// ---------------------------------------------------------------------------
// Laws
// ---------------------------------------------------------------------------

/// Every conversion closes once, with or without the tools: the last message is
/// one report about the job, done, failed or cancelled, and all before it are
/// progress of the same job.
pub proof fn every_conversion_closes_once(job: PlannedJob, run: ConversionRun)
    requires
        whole_conversion(job, run),
    ensures
        closed_once(told(job, run), job.id),
{
    closed_from(job, run, Phase::New, run.events);
}

proof fn closed_from(
    job: PlannedJob,
    run: ConversionRun,
    phase: Phase,
    events: Seq<PipelineEvent<Seq<char>>>,
)
    requires
        pipeline_run(job, phase, events),
        pipeline_after(job, phase, events) is Ended,
        events.len() > 0,
        run.stub_job.id == job.id,
        pipeline_actions(job, phase, events).last() is RunStub ==> {
            &&& stub_run(stub_start(run.stub_job), run.standing_in)
            &&& stub_after(stub_start(run.stub_job), run.standing_in) is Ended
        },
    ensures
        closed_once(told_from(job, run, phase, events), job.id),
        told_by(job, run, pipeline_actions(job, phase, events).last()).len() > 0,
        told_from(job, run, phase, events).last() == told_by(
            job,
            run,
            pipeline_actions(job, phase, events).last(),
        ).last(),
    decreases events.len(),
{
    let (next, action) = pipeline_next(job, phase, events[0]);
    let rest = events.drop_first();
    let all = pipeline_actions(job, phase, events);
    let later = pipeline_actions(job, next, rest);
    assert(all =~= seq![action] + later);
    a_conversion_closes_once(job, phase, events);
    if rest.len() > 0 {
        a_conversion_closes_once(job, next, rest);
        assert(all.last() == later.last());
        assert(all[0] == action);
        closed_from(job, run, next, rest);
        progress_before_the_end(job, run, phase, events[0]);
        progress_then_closed(
            told_by(job, run, action),
            told_from(job, run, next, rest),
            job.id,
        );
    } else {
        assert(all.last() == action);
        assert(told_from(job, run, next, rest).len() == 0);
        assert(told_from(job, run, phase, events) =~= told_by(job, run, action));
        reports_are_true_to_the_job(job, phase, events[0]);
        if action is RunStub {
            assert(run.standing_in.len() > 0);
            the_stand_in_closes_once(stub_start(run.stub_job), run.standing_in);
        }
    }
}

proof fn progress_before_the_end(
    job: PlannedJob,
    run: ConversionRun,
    phase: Phase,
    event: PipelineEvent<Seq<char>>,
)
    ensures
        ({
            let action = pipeline_next(job, phase, event).1;
            action !is End && action !is RunStub ==> only_progress(
                told_by(job, run, action),
                job.id,
            )
        }),
{
    match pipeline_next(job, phase, event).1 {
        PipelineAction::Translate { note, .. } => {
            reading_tells_only_progress(job.id, run.looks);
            let later = reading_told(job.id, run.looks);
            let all = seq![Message::Progress(note)] + later;
            assert forall|i: int| 0 <= i < all.len() implies (
            #[trigger] all[i] matches Message::Progress(n) && n.job_id == job.id) by {
                if i > 0 {
                    assert(all[i] == later[i - 1]);
                }
            }
        },
        PipelineAction::Convert { plan, .. } => {
            converting_tells_only_progress(
                potree_start(PotreeJob { id: job.id, plan }),
                run.converting,
            );
        },
        _ => {},
    }
}

proof fn progress_then_closed(first: Seq<Message>, later: Seq<Message>, job: Seq<char>)
    requires
        only_progress(first, job),
        closed_once(later, job),
    ensures
        closed_once(first + later, job),
        (first + later).last() == later.last(),
{
    let all = first + later;
    assert forall|i: int| 0 <= i < all.drop_last().len() implies (
    #[trigger] all.drop_last()[i] matches Message::Progress(note) && note.job_id == job) by {
        if i < first.len() {
            assert(all.drop_last()[i] == first[i]);
        } else {
            assert(all.drop_last()[i] == later.drop_last()[i - first.len()]);
        }
    }
}

/// A job whose cancel flag is raised from the start is never reported done,
/// whether the tools are there or the stand-in takes their place.
pub proof fn a_raised_flag_is_never_done(job: PlannedJob, run: ConversionRun)
    requires
        whole_conversion(job, run),
        raised_throughout(run),
    ensures
        told(job, run).last() matches Message::Closing(report) && report !is Done,
{
    let last = pipeline_actions(job, Phase::New, run.events).last();
    closed_from(job, run, Phase::New, run.events);
    a_conversion_closes_once(job, Phase::New, run.events);
    if stood_in(job, run) {
        assert(run.standing_in[0] is FlagRead);
        a_raised_flag_cancels_the_stand_in(run.stub_job, run.standing_in);
    } else if last matches PipelineAction::End { report, .. } && report is Done {
        done_means_converted(job, run.events);
        let i = choose|i: int| 0 <= i < run.events.len() && conversion_ok(#[trigger] run.events[i]);
        assert(event_fits(job, run, run.events[i]));
        let events = run.converting;
        assert(events.len() > 0);
        assert(events[0] is FlagRead);
        a_raised_flag_cancels_the_conversion(converter_start(job), events);
        assert(events.drop_last().len() == 0);
        assert(events.last() == events[0]);
    }
}

/// A job that is reported done names the output directory that was planned for
/// it, whether the tools or the stand-in got it done.
pub proof fn done_names_the_planned_directory(job: PlannedJob, run: ConversionRun)
    requires
        whole_conversion(job, run),
    ensures
        told(job, run).last() matches Message::Closing(report) && (report matches Report::Done(p)
            ==> p.output_path == job.output_path),
{
    closed_from(job, run, Phase::New, run.events);
    a_conversion_closes_once(job, Phase::New, run.events);
    if stood_in(job, run) {
        the_last_event_closes_the_stand_in(stub_start(run.stub_job), run.standing_in);
    } else if pipeline_actions(job, Phase::New, run.events).last() matches PipelineAction::End {
        report,
        ..
    } && report is Done {
        done_names_the_directory_that_was_made(job, run.events);
    }
}

/// A job is reported cancelled exactly when its cancel flag was seen raised
/// while a tool or the stand-in was waited for.
pub proof fn cancelled_exactly_when_seen_raised(job: PlannedJob, run: ConversionRun)
    requires
        whole_conversion(job, run),
    ensures
        (told(job, run).last() matches Message::Closing(report) && report is Cancelled)
            <==> seen_raised(run),
{
    let last = pipeline_actions(job, Phase::New, run.events).last();
    closed_from(job, run, Phase::New, run.events);
    a_conversion_closes_once(job, Phase::New, run.events);
    cancelled_means_a_stage_was(job, Phase::New, run.events);
    if last matches PipelineAction::End { report, .. } && report is Cancelled {
        let i = choose|i: int|
            0 <= i < run.events.len() && stage_cancelled(#[trigger] run.events[i]);
        assert(event_fits(job, run, run.events[i]));
        a_cancelled_stage_saw_the_flag(job, run, run.events[i]);
    }
    if stood_in(job, run) {
        the_last_event_closes_the_stand_in(stub_start(run.stub_job), run.standing_in);
        if run.standing_in.last() == StubEvent::FlagRead(true) {
            assert(run.standing_in[run.standing_in.len() - 1] == run.standing_in.last());
        }
    }
    if seen_raised(run) {
        a_seen_flag_cancels(job, run);
    }
}

proof fn a_cancelled_stage_saw_the_flag(
    job: PlannedJob,
    run: ConversionRun,
    event: PipelineEvent<Seq<char>>,
)
    requires
        event_fits(job, run, event),
        stage_cancelled(event),
    ensures
        seen_raised(run),
{
    match event {
        PipelineEvent::TranslationEnded(_) => {
            a_child_is_killed_when_cancelled(run.translating.last());
            assert(run.translating[run.translating.len() - 1] == PollEvent::<Seq<char>>::FlagRead(
                true,
            ));
        },
        PipelineEvent::ConversionEnded(_) => {
            the_last_event_decides_the_outcome(
                potree_after(converter_start(job), run.converting.drop_last()),
                run.converting.last(),
            );
            assert(run.converting[run.converting.len() - 1] == PotreeEvent::<Seq<char>>::FlagRead(
                true,
            ));
        },
        _ => {},
    }
}

proof fn a_seen_flag_cancels(job: PlannedJob, run: ConversionRun)
    requires
        whole_conversion(job, run),
        seen_raised(run),
    ensures
        (exists|i: int| 0 <= i < run.events.len() && stage_cancelled(#[trigger] run.events[i])) || (
        stood_in(job, run) && run.standing_in.last() == StubEvent::FlagRead(true)),
{
    if exists|k: int|
        0 <= k < run.translating.len() && #[trigger] run.translating[k] == PollEvent::<
            Seq<char>,
        >::FlagRead(true) {
        let k = choose|k: int|
            0 <= k < run.translating.len() && #[trigger] run.translating[k] == PollEvent::<
                Seq<char>,
            >::FlagRead(true);
        let i = choose|i: int|
            0 <= i < run.events.len() && #[trigger] run.events[i] is TranslationEnded;
        assert(event_fits(job, run, run.events[i]));
        a_run_ends_with_its_first_final_event(PollPhase::ReadingFlag, run.translating, k);
        assert(stage_cancelled(run.events[i]));
    } else if exists|k: int|
        0 <= k < run.converting.len() && #[trigger] run.converting[k] == PotreeEvent::<
            Seq<char>,
        >::FlagRead(true) {
        let k = choose|k: int|
            0 <= k < run.converting.len() && #[trigger] run.converting[k] == PotreeEvent::<
                Seq<char>,
            >::FlagRead(true);
        let i = choose|i: int|
            0 <= i < run.events.len() && #[trigger] run.events[i] is ConversionEnded;
        assert(event_fits(job, run, run.events[i]));
        nothing_follows_the_end(converter_start(job), run.converting, k);
        assert(stage_cancelled(run.events[i]));
    } else {
        let k = choose|k: int|
            0 <= k < run.standing_in.len() && #[trigger] run.standing_in[k] == StubEvent::FlagRead(true);
        nothing_follows_the_end_of_the_stand_in(stub_start(run.stub_job), run.standing_in, k);
    }
}

} // verus!
