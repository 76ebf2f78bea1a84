//! The two stages of a conversion: how a child process is waited for, and what
//! the way it ends makes of the stage.
//!
//! The types that carry text are generic in it: they hold a `String` in
//! programs and a `Seq<char>` in contracts.

use vstd::prelude::*;

use crate::poll::{poll_next, poll_run, PollAction, PollEvent, PollPhase};
use crate::report::{only_progress, Message, ProgressNote, ShownStage};
use crate::text::{
    decimal, join2, join3, number, owned, signed_decimal, signed_decimal_is_injective, signed_number,
};

verus! {

// ---------------------------------------------------------------------------
// Outcomes
// ---------------------------------------------------------------------------

/// Why a stage did not succeed: it was cancelled, or it failed with a code and
/// a message.
#[derive(Debug, PartialEq, Eq)]
pub enum StageError<S = String> {
    Cancelled,
    Failed(S, S),
}

impl View for StageError<String> {
    type V = StageError<Seq<char>>;

    open spec fn view(&self) -> StageError<Seq<char>> {
        match self {
            StageError::Cancelled => StageError::Cancelled,
            StageError::Failed(code, message) => StageError::Failed(code@, message@),
        }
    }
}

/// The outcome of a stage with its texts as sequences.
pub open spec fn stage_view(r: Result<(), StageError<String>>) -> Result<(), StageError<Seq<char>>> {
    match r {
        Ok(()) => Ok(()),
        Err(e) => Err(e@),
    }
}

/// How a child process ended: whether it reports success, and its exit code
/// where it has one.
#[derive(Clone, Copy, Debug, PartialEq, Eq)]
pub struct ExitInfo {
    pub success: bool,
    pub code: Option<i32>,
}

/// The exit code of a process, -1 where it has none.
pub open spec fn exit_code(exit: ExitInfo) -> int {
    match exit.code {
        Some(code) => code as int,
        None => -1,
    }
}

/// The error code of a tool that ended without success: the tool's prefix and
/// the exit code.
pub open spec fn exit_error(prefix: Seq<char>, exit: ExitInfo) -> Seq<char> {
    prefix + signed_decimal(exit_code(exit))
}

pub(crate) fn exit_error_code(prefix: &str, exit: ExitInfo) -> (r: String)
    ensures
        r@ == exit_error(prefix@, exit),
{
    let code: i32 = match exit.code {
        Some(code) => code,
        None => -1,
    };
    join2(prefix, signed_number(code).as_str())
}

/// What waiting for a child process came to.
#[derive(Debug, PartialEq, Eq)]
pub enum WaitOutcome<S = String> {
    Cancelled,
    Exited(ExitInfo),
    WaitFailed(S),
}

impl View for WaitOutcome<String> {
    type V = WaitOutcome<Seq<char>>;

    open spec fn view(&self) -> WaitOutcome<Seq<char>> {
        match self {
            WaitOutcome::Cancelled => WaitOutcome::Cancelled,
            WaitOutcome::Exited(exit) => WaitOutcome::Exited(*exit),
            WaitOutcome::WaitFailed(e) => WaitOutcome::WaitFailed(e@),
        }
    }
}

// ---------------------------------------------------------------------------
// Command lines
// ---------------------------------------------------------------------------

/// An argument of a tool: a text, or the path that the tool reads from or
/// writes to.
#[derive(Debug, PartialEq, Eq)]
pub enum Argument<S = String> {
    Text(S),
    Input,
    Output,
}

impl View for Argument<String> {
    type V = Argument<Seq<char>>;

    open spec fn view(&self) -> Argument<Seq<char>> {
        match self {
            Argument::Text(t) => Argument::Text(t@),
            Argument::Input => Argument::Input,
            Argument::Output => Argument::Output,
        }
    }
}

/// A command line with its texts as sequences.
pub open spec fn command_view(args: Seq<Argument<String>>) -> Seq<Argument<Seq<char>>> {
    args.map_values(|a: Argument<String>| a@)
}

// ---------------------------------------------------------------------------
// The translation stage
// ---------------------------------------------------------------------------

/// A translated file smaller than this holds no points.
pub const MIN_LAS_BYTES: u64 = 1024;

/// The command line of the translation.
pub open spec fn pdal_command() -> Seq<Argument<Seq<char>>> {
    seq![Argument::Text("translate"@), Argument::Input, Argument::Output]
}

/// The command line of the translation.
pub fn pdal_arguments() -> (args: Vec<Argument>)
    ensures
        command_view(args@) == pdal_command(),
{
    let mut args: Vec<Argument> = Vec::new();
    args.push(Argument::Text(owned("translate")));
    args.push(Argument::Input);
    args.push(Argument::Output);
    assert(command_view(args@) =~= pdal_command());
    args
}

/// What the way PDAL ended makes of the translation.
pub open spec fn translation(
    outcome: WaitOutcome<Seq<char>>,
    las_bytes: u64,
) -> Result<(), StageError<Seq<char>>> {
    match outcome {
        WaitOutcome::Cancelled => Err(StageError::Cancelled),
        WaitOutcome::Exited(exit) => if !exit.success {
            Err(
                StageError::Failed(
                    exit_error("pdal_exit_"@, exit),
                    "PDAL translate exited with non-zero status (see terminal logs)"@,
                ),
            )
        } else if las_bytes < MIN_LAS_BYTES {
            Err(
                StageError::Failed(
                    "pdal_empty_output"@,
                    "PDAL produced only "@ + decimal(las_bytes as nat)
                        + " bytes \u{2014} E57 read likely failed"@,
                ),
            )
        } else {
            Ok(())
        },
        WaitOutcome::WaitFailed(e) => Err(StageError::Failed("pdal_wait_failed"@, e)),
    }
}

/// Judges the translation by the way PDAL ended and the size of the file that
/// it left.
pub fn pdal_result(outcome: WaitOutcome, las_bytes: u64) -> (r: Result<(), StageError>)
    ensures
        stage_view(r) == translation(outcome@, las_bytes),
{
    match outcome {
        WaitOutcome::Cancelled => Err(StageError::Cancelled),
        WaitOutcome::Exited(exit) => {
            if !exit.success {
                Err(
                    StageError::Failed(
                        exit_error_code("pdal_exit_", exit),
                        owned("PDAL translate exited with non-zero status (see terminal logs)"),
                    ),
                )
            } else if las_bytes < MIN_LAS_BYTES {
                Err(
                    StageError::Failed(
                        owned("pdal_empty_output"),
                        join3(
                            "PDAL produced only ",
                            number(las_bytes).as_str(),
                            " bytes \u{2014} E57 read likely failed",
                        ),
                    ),
                )
            } else {
                Ok(())
            }
        },
        WaitOutcome::WaitFailed(e) => Err(StageError::Failed(owned("pdal_wait_failed"), e)),
    }
}

/// The part of the whole that a stage is: its place among the stages, and where
/// its progress lies, in percent of the whole.
#[derive(Clone, Copy, Debug, PartialEq, Eq)]
pub struct StagePlan {
    pub index: u32,
    pub total: u32,
    pub progress_base: u32,
    pub progress_span: u32,
}

/// The plan of the translation: the first of two stages, with the first 48
/// percent of the whole.
pub open spec fn translation_plan() -> StagePlan {
    StagePlan { index: 0, total: 2, progress_base: 0, progress_span: 48 }
}

/// The translation as it is shown, under a label.
pub open spec fn reading_stage(label: Seq<char>) -> ShownStage<Seq<char>> {
    ShownStage { index: translation_plan().index, total: translation_plan().total, label }
}

/// Notes the translation before PDAL was started.
pub fn note_before_reading(job_id: &str) -> (r: ProgressNote)
    ensures
        r@ == (ProgressNote { job_id: job_id@, stage: reading_stage("Reading E57"@) }),
{
    ProgressNote {
        job_id: owned(job_id),
        stage: ShownStage { index: 0, total: 2, label: owned("Reading E57") },
    }
}

/// How long is rested between two progress messages of the translation.
pub const READING_INTERVAL_MS: u64 = 600;

/// What to do next about the progress of the translation.
#[derive(Debug, PartialEq, Eq)]
pub enum ReadingAction<S = String> {
    /// Tell no progress any more.
    Stop,
    /// Tell the progress, rest, then read the cancel flag.
    ReportAndRest { note: ProgressNote<S>, rest_ms: u64 },
}

impl View for ReadingAction<String> {
    type V = ReadingAction<Seq<char>>;

    open spec fn view(&self) -> ReadingAction<Seq<char>> {
        match self {
            ReadingAction::Stop => ReadingAction::Stop,
            ReadingAction::ReportAndRest { note, rest_ms } => ReadingAction::ReportAndRest {
                note: note@,
                rest_ms: *rest_ms,
            },
        }
    }
}

/// The action that follows a look at the cancel flag while PDAL runs.
pub open spec fn reading_next(job_id: Seq<char>, raised: bool) -> ReadingAction<Seq<char>> {
    if raised {
        ReadingAction::Stop
    } else {
        ReadingAction::ReportAndRest {
            note: ProgressNote { job_id, stage: reading_stage("Reading E57 (PDAL)"@) },
            rest_ms: READING_INTERVAL_MS,
        }
    }
}

/// Takes what the cancel flag showed while PDAL runs and says what to do next
/// about the progress.
pub fn reading_step(job_id: &str, raised: bool) -> (action: ReadingAction)
    ensures
        action@ == reading_next(job_id@, raised),
{
    if raised {
        ReadingAction::Stop
    } else {
        ReadingAction::ReportAndRest {
            note: ProgressNote {
                job_id: owned(job_id),
                stage: ShownStage { index: 0, total: 2, label: owned("Reading E57 (PDAL)") },
            },
            rest_ms: READING_INTERVAL_MS,
        }
    }
}

/// What is told of the progress of the translation when the cancel flag shows
/// this, look by look: nothing any more from the first raised look on.
pub open spec fn reading_told(job_id: Seq<char>, looks: Seq<bool>) -> Seq<Message>
    decreases looks.len(),
{
    if looks.len() == 0 {
        Seq::empty()
    } else {
        match reading_next(job_id, looks[0]) {
            ReadingAction::Stop => Seq::empty(),
            ReadingAction::ReportAndRest { note, .. } => seq![Message::Progress(note)]
                + reading_told(job_id, looks.drop_first()),
        }
    }
}

/// The two tools of a conversion.
#[derive(Clone, Copy, Debug, PartialEq, Eq)]
pub enum Tool {
    PotreeConverter,
    Pdal,
}

/// The name of a tool's program, without an ending.
pub open spec fn program(tool: Tool) -> Seq<char> {
    match tool {
        Tool::PotreeConverter => "PotreeConverter"@,
        Tool::Pdal => "pdal"@,
    }
}

/// The name of a tool's program, without an ending.
pub fn tool_name(tool: Tool) -> (name: &'static str)
    ensures
        name@ == program(tool),
        name@ == (match tool {
            Tool::PotreeConverter => "PotreeConverter"@,
            Tool::Pdal => "pdal"@,
        }),
{
    match tool {
        Tool::PotreeConverter => "PotreeConverter",
        Tool::Pdal => "pdal",
    }
}

/// The failure of a stage whose tool could not be started.
pub open spec fn not_started(tool: Tool, message: Seq<char>) -> StageError<Seq<char>> {
    StageError::Failed(
        match tool {
            Tool::PotreeConverter => "potree_spawn_failed"@,
            Tool::Pdal => "pdal_spawn_failed"@,
        },
        message,
    )
}

/// The failure of a stage whose tool could not be started.
pub fn spawn_failure(tool: Tool, message: String) -> (e: StageError)
    ensures
        e@ == not_started(tool, message@),
        e@ == StageError::Failed(
            match tool {
                Tool::PotreeConverter => "potree_spawn_failed"@,
                Tool::Pdal => "pdal_spawn_failed"@,
            },
            message@,
        ),
{
    match tool {
        Tool::PotreeConverter => StageError::Failed(owned("potree_spawn_failed"), message),
        Tool::Pdal => StageError::Failed(owned("pdal_spawn_failed"), message),
    }
}

// ---------------------------------------------------------------------------
// Laws
// ---------------------------------------------------------------------------

/// The error code of a tool tells its exit code: different exit codes give
/// different error codes.
pub proof fn exit_codes_are_told_apart(prefix: Seq<char>, one: ExitInfo, other: ExitInfo)
    requires
        exit_error(prefix, one) == exit_error(prefix, other),
    ensures
        exit_code(one) == exit_code(other),
{
    let a = signed_decimal(exit_code(one));
    let b = signed_decimal(exit_code(other));
    assert((prefix + a).skip(prefix.len() as int) =~= a);
    assert((prefix + b).skip(prefix.len() as int) =~= b);
    signed_decimal_is_injective(exit_code(one), exit_code(other));
}

/// The translation succeeds exactly when PDAL ended with success and left a
/// file that is not too small; it counts as cancelled exactly when the waiting
/// was cancelled.
pub proof fn when_a_translation_succeeds(outcome: WaitOutcome<Seq<char>>, las_bytes: u64)
    ensures
        translation(outcome, las_bytes) is Ok <==> (outcome matches WaitOutcome::Exited(exit)
            && exit.success && las_bytes >= MIN_LAS_BYTES),
        (translation(outcome, las_bytes) matches Err(e) && e is Cancelled) <==> outcome
            is Cancelled,
{
}

/// What is told while PDAL runs is progress of the job.
pub proof fn reading_tells_only_progress(job_id: Seq<char>, looks: Seq<bool>)
    ensures
        only_progress(reading_told(job_id, looks), job_id),
    decreases looks.len(),
{
    if looks.len() > 0 && !looks[0] {
        let rest = reading_told(job_id, looks.drop_first());
        reading_tells_only_progress(job_id, looks.drop_first());
        let all = reading_told(job_id, looks);
        assert forall|i: int| 0 <= i < all.len() implies (#[trigger] all[i] matches Message::Progress(
            note,
        ) && note.job_id == job_id) by {
            if i > 0 {
                assert(all[i] == rest[i - 1]);
            }
        }
    }
}

/// A flag that is raised when PDAL was started cancels the translation: PDAL is
/// killed after the first look, the outcome is a cancellation whatever PDAL
/// left behind, and no progress is told.
pub proof fn a_raised_flag_cancels_the_translation(
    job_id: Seq<char>,
    events: Seq<PollEvent<Seq<char>>>,
    looks: Seq<bool>,
    las_bytes: u64,
)
    requires
        poll_run(PollPhase::ReadingFlag, events),
        events.len() > 0,
        events[0] == PollEvent::<Seq<char>>::FlagRead(true),
        looks.len() > 0 ==> looks[0],
    ensures
        events.len() == 1,
        poll_next(events[0]).1 matches PollAction::End { kill, outcome } && kill && translation(
            outcome,
            las_bytes,
        ) == Err::<(), StageError<Seq<char>>>(StageError::Cancelled),
        reading_told(job_id, looks).len() == 0,
{
    reveal_with_fuel(poll_run, 2);
}

/// What a translation comes to: it succeeds when PDAL ended with success and
/// left at least 1024 bytes, and else the error tells why it did not.
pub proof fn what_a_translation_comes_to(exit: ExitInfo, las_bytes: u64, e: Seq<char>)
    ensures
        translation(WaitOutcome::Cancelled, las_bytes) == Err::<(), StageError<Seq<char>>>(
            StageError::Cancelled,
        ),
        exit.success && las_bytes >= 1024 ==> translation(WaitOutcome::Exited(exit), las_bytes)
            is Ok,
        exit.success && las_bytes < 1024 ==> translation(WaitOutcome::Exited(exit), las_bytes)
            == Err::<(), StageError<Seq<char>>>(
            StageError::Failed(
                "pdal_empty_output"@,
                "PDAL produced only "@ + decimal(las_bytes as nat)
                    + " bytes \u{2014} E57 read likely failed"@,
            ),
        ),
        !exit.success ==> translation(WaitOutcome::Exited(exit), las_bytes) == Err::<
            (),
            StageError<Seq<char>>,
        >(
            StageError::Failed(
                exit_error("pdal_exit_"@, exit),
                "PDAL translate exited with non-zero status (see terminal logs)"@,
            ),
        ),
        translation(WaitOutcome::WaitFailed(e), las_bytes) == Err::<(), StageError<Seq<char>>>(
            StageError::Failed("pdal_wait_failed"@, e),
        ),
{
}

/// The error code of a tool is its prefix with the exit code behind it, or with
/// -1 where there is none.
pub proof fn what_an_exit_is_called(prefix: Seq<char>, success: bool, code: i32)
    ensures
        exit_error(prefix, ExitInfo { success, code: Some(code) }) == prefix + signed_decimal(
            code as int,
        ),
        exit_error(prefix, ExitInfo { success, code: None }) == prefix + seq!['-', '1'],
{
    assert(signed_decimal(-1) =~= seq!['-', '1']);
}

/// PDAL is told to translate the input to the output.
pub proof fn how_pdal_is_called()
    ensures
        pdal_command().len() == 3,
        pdal_command()[0] == Argument::Text("translate"@),
        pdal_command()[1] is Input,
        pdal_command()[2] is Output,
{
}

/// What is done about the progress of the translation after a look at the flag:
/// nothing any more where it is raised, and else the job and its stage, the
/// first of two, are told and 600 milliseconds are rested.
pub proof fn what_follows_a_look(job_id: Seq<char>)
    ensures
        reading_next(job_id, true) is Stop,
        reading_next(job_id, false) matches ReadingAction::ReportAndRest { note, rest_ms }
            && rest_ms == 600 && note.job_id == job_id && note.stage.index == 0 && note.stage.total
            == 2 && note.stage.label == "Reading E57 (PDAL)"@,
{
}

/// The progress of the translation is told once for each look at the flag, up
/// to the first that saw it raised.
pub proof fn progress_is_told_until_the_flag_is_raised(
    job_id: Seq<char>,
    looks: Seq<bool>,
    n: int,
)
    requires
        0 <= n <= looks.len(),
        forall|i: int| 0 <= i < n ==> !#[trigger] looks[i],
        n < looks.len() ==> looks[n],
    ensures
        reading_told(job_id, looks).len() == n,
    decreases looks.len(),
{
    if n > 0 {
        assert forall|i: int| 0 <= i < n - 1 implies !#[trigger] looks.drop_first()[i] by {
            assert(looks.drop_first()[i] == looks[i + 1]);
        }
        progress_is_told_until_the_flag_is_raised(job_id, looks.drop_first(), n - 1);
    }
}

/// The tools go by their own names, and a tool that cannot be started says so
/// under its own code, with the message that it was refused with.
pub proof fn the_tools_are_told_apart(message: Seq<char>)
    ensures
        program(Tool::PotreeConverter) == "PotreeConverter"@,
        program(Tool::Pdal) == "pdal"@,
        not_started(Tool::PotreeConverter, message) == StageError::Failed(
            "potree_spawn_failed"@,
            message,
        ),
        not_started(Tool::Pdal, message) == StageError::Failed("pdal_spawn_failed"@, message),
{
}

/// Outcomes and actions of the stages show all that they hold.
pub proof fn stages_are_shown_whole(
    error: StageError,
    result: Result<(), StageError>,
    outcome: WaitOutcome,
    argument: Argument,
    action: ReadingAction,
)
    ensures
        match error {
            StageError::Cancelled => error@ is Cancelled,
            StageError::Failed(code, message) => error@ matches StageError::Failed(c, m) && c
                == code@ && m == message@,
        },
        result is Ok <==> stage_view(result) is Ok,
        result matches Err(e) ==> (stage_view(result) matches Err(v) && v == e@),
        match outcome {
            WaitOutcome::Cancelled => outcome@ is Cancelled,
            WaitOutcome::Exited(exit) => outcome@ == WaitOutcome::<Seq<char>>::Exited(exit),
            WaitOutcome::WaitFailed(e) => outcome@ matches WaitOutcome::WaitFailed(m) && m == e@,
        },
        match argument {
            Argument::Text(t) => argument@ matches Argument::Text(v) && v == t@,
            Argument::Input => argument@ is Input,
            Argument::Output => argument@ is Output,
        },
        match action {
            ReadingAction::Stop => action@ is Stop,
            ReadingAction::ReportAndRest { note, rest_ms } => action@
                matches ReadingAction::ReportAndRest { note: n, rest_ms: t } && n == note@ && t
                == rest_ms,
        },
{
}

/// A command line shows all of its arguments in order.
pub proof fn command_lines_are_shown_whole(args: Seq<Argument<String>>, i: int)
    requires
        0 <= i < args.len(),
    ensures
        command_view(args).len() == args.len(),
        command_view(args)[i] == args[i]@,
{
}

} // verus!
