//! Waiting for a child process while a cancel flag may be raised.
//!
//! The flag is read, then the child is waited for, but no longer than a short
//! while, then the flag is read again, and so on until the child ended or the
//! flag was seen raised. [`ChildPoll`] takes what was observed and says what
//! to do next.

use vstd::prelude::*;

use crate::stage::{ExitInfo, WaitOutcome};

verus! {

/// How long the child is waited for before the flag is read again.
pub const POLL_INTERVAL_MS: u64 = 300;

/// What was observed.
#[derive(Debug, PartialEq, Eq)]
pub enum PollEvent<S = String> {
    /// The cancel flag was read.
    FlagRead(bool),
    /// The child ended.
    Exited(ExitInfo),
    /// Waiting for the child failed.
    WaitFailed(S),
    /// The child did not end in time.
    TimedOut,
}

impl View for PollEvent<String> {
    type V = PollEvent<Seq<char>>;

    open spec fn view(&self) -> PollEvent<Seq<char>> {
        match self {
            PollEvent::FlagRead(raised) => PollEvent::FlagRead(*raised),
            PollEvent::Exited(exit) => PollEvent::Exited(*exit),
            PollEvent::WaitFailed(e) => PollEvent::WaitFailed(e@),
            PollEvent::TimedOut => PollEvent::TimedOut,
        }
    }
}

/// What to do next.
#[derive(Debug, PartialEq, Eq)]
pub enum PollAction<S = String> {
    /// Read the cancel flag.
    ReadFlag,
    /// Wait for the child, at most for the given time.
    AwaitChild { timeout_ms: u64 },
    /// Kill the child if `kill` says so, and report the outcome.
    End { kill: bool, outcome: WaitOutcome<S> },
}

impl View for PollAction<String> {
    type V = PollAction<Seq<char>>;

    open spec fn view(&self) -> PollAction<Seq<char>> {
        match self {
            PollAction::ReadFlag => PollAction::ReadFlag,
            PollAction::AwaitChild { timeout_ms } => PollAction::AwaitChild {
                timeout_ms: *timeout_ms,
            },
            PollAction::End { kill, outcome } => PollAction::End { kill: *kill, outcome: outcome@ },
        }
    }
}

/// Where the waiting stands.
#[derive(Clone, Copy, Debug, PartialEq, Eq)]
pub enum PollPhase {
    ReadingFlag,
    AwaitingChild,
    Ended,
}

/// The events that can be observed in a phase.
pub open spec fn poll_accepts(phase: PollPhase, event: PollEvent<Seq<char>>) -> bool {
    match phase {
        PollPhase::ReadingFlag => event is FlagRead,
        PollPhase::AwaitingChild => event !is FlagRead,
        PollPhase::Ended => false,
    }
}

/// The next phase and the next action.
pub open spec fn poll_next(event: PollEvent<Seq<char>>) -> (PollPhase, PollAction<Seq<char>>) {
    match event {
        PollEvent::FlagRead(raised) => if raised {
            (PollPhase::Ended, PollAction::End { kill: true, outcome: WaitOutcome::Cancelled })
        } else {
            (PollPhase::AwaitingChild, PollAction::AwaitChild { timeout_ms: POLL_INTERVAL_MS })
        },
        PollEvent::Exited(exit) => (
            PollPhase::Ended,
            PollAction::End { kill: false, outcome: WaitOutcome::Exited(exit) },
        ),
        PollEvent::WaitFailed(e) => (
            PollPhase::Ended,
            PollAction::End { kill: false, outcome: WaitOutcome::WaitFailed(e) },
        ),
        PollEvent::TimedOut => (PollPhase::ReadingFlag, PollAction::ReadFlag),
    }
}

/// The waiting for one child.
pub struct ChildPoll {
    phase: PollPhase,
}

impl View for ChildPoll {
    type V = PollPhase;

    closed spec fn view(&self) -> PollPhase {
        self.phase
    }
}

impl ChildPoll {
    /// The waiting starts with a look at the cancel flag.
    pub fn new() -> (r: ChildPoll)
        ensures
            r@ == PollPhase::ReadingFlag,
    {
        ChildPoll { phase: PollPhase::ReadingFlag }
    }

    /// Tells whether an event can be observed now.
    pub fn accepts(&self, event: &PollEvent) -> (r: bool)
        ensures
            r == poll_accepts(self@, event@),
    {
        match self.phase {
            PollPhase::ReadingFlag => match event {
                PollEvent::FlagRead(_) => true,
                _ => false,
            },
            PollPhase::AwaitingChild => match event {
                PollEvent::FlagRead(_) => false,
                _ => true,
            },
            PollPhase::Ended => false,
        }
    }

    /// Takes what was observed and says what to do next.
    pub fn step(&mut self, event: PollEvent) -> (action: PollAction)
        requires
            poll_accepts(old(self)@, event@),
        ensures
            final(self)@ == poll_next(event@).0,
            action@ == poll_next(event@).1,
    {
        match event {
            PollEvent::FlagRead(raised) => {
                if raised {
                    self.phase = PollPhase::Ended;
                    PollAction::End { kill: true, outcome: WaitOutcome::Cancelled }
                } else {
                    self.phase = PollPhase::AwaitingChild;
                    PollAction::AwaitChild { timeout_ms: POLL_INTERVAL_MS }
                }
            },
            PollEvent::Exited(exit) => {
                self.phase = PollPhase::Ended;
                PollAction::End { kill: false, outcome: WaitOutcome::Exited(exit) }
            },
            PollEvent::WaitFailed(e) => {
                self.phase = PollPhase::Ended;
                PollAction::End { kill: false, outcome: WaitOutcome::WaitFailed(e) }
            },
            PollEvent::TimedOut => {
                self.phase = PollPhase::ReadingFlag;
                PollAction::ReadFlag
            },
        }
    }
}

// ---------------------------------------------------------------------------
// Laws
// ---------------------------------------------------------------------------

/// The events of a run, from a phase on: each can be observed when it comes.
pub open spec fn poll_run(phase: PollPhase, events: Seq<PollEvent<Seq<char>>>) -> bool
    decreases events.len(),
{
    events.len() == 0 || (poll_accepts(phase, events[0]) && poll_run(
        poll_next(events[0]).0,
        events.drop_first(),
    ))
}

/// A run ends with the event that shows a raised flag, an exit or a failed
/// wait, with nothing after it, and every other event leaves it going.
pub proof fn a_run_ends_with_its_first_final_event(
    phase: PollPhase,
    events: Seq<PollEvent<Seq<char>>>,
    i: int,
)
    requires
        poll_run(phase, events),
        0 <= i < events.len(),
    ensures
        poll_next(events[i]).1 is End <==> (events[i] == PollEvent::<Seq<char>>::FlagRead(true)
            || events[i] is Exited || events[i] is WaitFailed),
        poll_next(events[i]).1 is End ==> i == events.len() - 1,
    decreases events.len(),
{
    let rest = events.drop_first();
    if i > 0 {
        assert(rest[i - 1] == events[i]);
        a_run_ends_with_its_first_final_event(poll_next(events[0]).0, rest, i - 1);
    } else if rest.len() > 0 {
        reveal_with_fuel(poll_run, 2);
    }
}

/// A child is killed exactly when the outcome is a cancellation, and that is
/// exactly when the flag was seen raised.
pub proof fn a_child_is_killed_when_cancelled(event: PollEvent<Seq<char>>)
    ensures
        poll_next(event).1 matches PollAction::End { kill, outcome } ==> (kill <==> outcome
            is Cancelled),
        (poll_next(event).1 matches PollAction::End { kill, outcome } && outcome is Cancelled)
            <==> event == PollEvent::<Seq<char>>::FlagRead(true),
{
}

/// The flag is read between any two waits: a wait that timed out is followed
/// by a look at the flag.
pub proof fn the_flag_is_read_between_two_waits(
    phase: PollPhase,
    events: Seq<PollEvent<Seq<char>>>,
    i: int,
)
    requires
        poll_run(phase, events),
        0 <= i < events.len() - 1,
        events[i] !is FlagRead,
    ensures
        events[i] is TimedOut,
        events[i + 1] is FlagRead,
    decreases events.len(),
{
    let rest = events.drop_first();
    assert(rest[i] == events[i + 1]);
    if i > 0 {
        assert(rest[i - 1] == events[i]);
        the_flag_is_read_between_two_waits(poll_next(events[0]).0, rest, i - 1);
    } else {
        reveal_with_fuel(poll_run, 2);
    }
}

/// What follows an observation: a lowered flag lets the child be waited for, at
/// most 300 milliseconds, a wait in vain lets the flag be read, and everything
/// else ends the waiting with what was observed.
pub proof fn what_follows_an_observation(exit: ExitInfo, e: Seq<char>)
    ensures
        poll_next(PollEvent::FlagRead(false)).0 is AwaitingChild,
        poll_next(PollEvent::FlagRead(false)).1 == (PollAction::<Seq<char>>::AwaitChild {
            timeout_ms: 300,
        }),
        poll_next(PollEvent::TimedOut).0 is ReadingFlag,
        poll_next(PollEvent::TimedOut).1 is ReadFlag,
        poll_next(PollEvent::FlagRead(true)).0 is Ended,
        poll_next(PollEvent::FlagRead(true)).1 == (PollAction::<Seq<char>>::End {
            kill: true,
            outcome: WaitOutcome::Cancelled,
        }),
        poll_next(PollEvent::Exited(exit)).0 is Ended,
        poll_next(PollEvent::Exited(exit)).1 == (PollAction::<Seq<char>>::End {
            kill: false,
            outcome: WaitOutcome::Exited(exit),
        }),
        poll_next(PollEvent::WaitFailed(e)).0 is Ended,
        poll_next(PollEvent::WaitFailed(e)).1 == (PollAction::<Seq<char>>::End {
            kill: false,
            outcome: WaitOutcome::WaitFailed(e),
        }),
{
}

/// What can be observed in each phase.
pub proof fn what_is_observed_while_waiting(phase: PollPhase, event: PollEvent<Seq<char>>)
    ensures
        poll_accepts(phase, event) <==> ({
            ||| phase is ReadingFlag && event is FlagRead
            ||| phase is AwaitingChild && (event is Exited || event is WaitFailed || event
                is TimedOut)
        }),
{
}

/// Events and actions show all that they hold.
pub proof fn waiting_is_shown_whole(event: PollEvent, action: PollAction)
    ensures
        match event {
            PollEvent::FlagRead(raised) => event@ == PollEvent::<Seq<char>>::FlagRead(raised),
            PollEvent::Exited(exit) => event@ == PollEvent::<Seq<char>>::Exited(exit),
            PollEvent::WaitFailed(e) => event@ matches PollEvent::WaitFailed(m) && m == e@,
            PollEvent::TimedOut => event@ is TimedOut,
        },
        match action {
            PollAction::ReadFlag => action@ is ReadFlag,
            PollAction::AwaitChild { timeout_ms } => action@ == (PollAction::<
                Seq<char>,
            >::AwaitChild { timeout_ms }),
            PollAction::End { kill, outcome } => action@
                matches PollAction::End { kill: k, outcome: o } && k == kill && o == outcome@,
        },
{
}

} // verus!
