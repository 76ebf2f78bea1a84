//! The running conversion: its handle, its cancel flag and the slot that
//! admits one conversion at a time.
//!
//! A job is told to stop through a flag that its worker reads. The flags of
//! all jobs stand in one table, [`CancelFlags`]; a handle and the job's worker
//! both hold the flag's place in it.

use vstd::prelude::*;

use crate::text;

verus! {

// ---------------------------------------------------------------------------
// Cancel flags
// ---------------------------------------------------------------------------

/// The cancel flags of the jobs that were started, in the order of their start.
pub struct CancelFlags {
    raised: Vec<bool>,
}

impl View for CancelFlags {
    type V = Seq<bool>;

    closed spec fn view(&self) -> Seq<bool> {
        self.raised@
    }
}

/// A table of flags once the one at a place, if there is one, was raised.
pub open spec fn raised_at(flags: Seq<bool>, flag: int) -> Seq<bool> {
    if 0 <= flag < flags.len() {
        flags.update(flag, true)
    } else {
        flags
    }
}

impl CancelFlags {
    /// A table without flags.
    pub fn new() -> (r: CancelFlags)
        ensures
            r@ == Seq::<bool>::empty(),
    {
        CancelFlags { raised: Vec::new() }
    }

    /// Adds a flag that is not raised and returns its place.
    pub fn add(&mut self) -> (flag: usize)
        ensures
            flag == old(self)@.len(),
            final(self)@ == old(self)@.push(false),
    {
        let flag: usize = self.raised.len();
        self.raised.push(false);
        flag
    }

    /// Raises the flag at a place, if the table has one there.
    pub fn raise(&mut self, flag: usize)
        ensures
            final(self)@ == raised_at(old(self)@, flag as int),
    {
        if flag < self.raised.len() {
            self.raised.set(flag, true);
        }
    }

    /// Tells whether there is a flag at a place and it is raised.
    pub fn is_raised(&self, flag: usize) -> (r: bool)
        ensures
            r == (flag < self@.len() && self@[flag as int]),
    {
        flag < self.raised.len() && self.raised[flag]
    }
}

// ---------------------------------------------------------------------------
// Job handles
// ---------------------------------------------------------------------------

/// A running job, as contracts speak of it: its id, and the place of its
/// cancel flag.
pub struct ActiveJob {
    pub id: Seq<char>,
    pub flag: int,
}

/// What the application holds of a running job: its id, and the place of its
/// cancel flag.
pub struct JobHandle {
    pub id: String,
    cancel_flag: usize,
}

impl View for JobHandle {
    type V = ActiveJob;

    closed spec fn view(&self) -> ActiveJob {
        ActiveJob { id: self.id@, flag: self.cancel_flag as int }
    }
}

impl JobHandle {
    /// The place of the job's cancel flag, for the job's worker.
    pub fn cancel_flag(&self) -> (flag: usize)
        ensures
            flag == self@.flag,
    {
        self.cancel_flag
    }

    /// Tells the job to stop. The handle is used up: a job is cancelled once.
    pub fn cancel(self, flags: &mut CancelFlags)
        ensures
            final(flags)@ == raised_at(old(flags)@, self@.flag),
    {
        flags.raise(self.cancel_flag);
    }
}

/// Makes the handle of a new job, with a cancel flag of its own.
pub fn start(flags: &mut CancelFlags, job_id: String) -> (handle: JobHandle)
    ensures
        handle@ == (ActiveJob { id: job_id@, flag: old(flags)@.len() as int }),
        final(flags)@ == old(flags)@.push(false),
{
    JobHandle { id: job_id, cancel_flag: flags.add() }
}

// ---------------------------------------------------------------------------
// Job ids
// ---------------------------------------------------------------------------

/// A lower-case hexadecimal digit.
pub open spec fn hex_digit(c: char) -> bool {
    '0' <= c <= '9' || 'a' <= c <= 'f'
}

/// The hyphenated text of a random UUID: groups of 8, 4, 4, 4 and 12
/// lower-case hexadecimal digits, the version digit 4 and the variant digit
/// one of 8, 9, a and b.
pub open spec fn random_uuid(s: Seq<char>) -> bool {
    &&& s.len() == 36
    &&& forall|i: int|
        0 <= i < 36 ==> if i == 8 || i == 13 || i == 18 || i == 23 {
            #[trigger] s[i] == '-'
        } else {
            hex_digit(s[i])
        }
    &&& s[14] == '4'
    &&& (s[19] == '8' || s[19] == '9' || s[19] == 'a' || s[19] == 'b')
}

/// `uuid::Uuid::new_v4`, written with its `Display`: a random UUID in the
/// lower-case hyphenated form, with the version and variant digits in place.
/// Which one comes out is left to chance; that two calls differ is not claimed.
/// The call panics where the operating system gives no random bytes.
#[verifier::external_body]
fn fresh_job_id() -> (id: String)
    ensures
        random_uuid(id@),
{
    uuid::Uuid::new_v4().to_string()
}

// ---------------------------------------------------------------------------
// The slot of the active job
// ---------------------------------------------------------------------------

/// The state of the application, as contracts speak of it.
pub struct JobsView {
    pub active: Option<ActiveJob>,
    pub flags: Seq<bool>,
}

impl JobsView {
    /// The active job's flag is in the table and not raised.
    pub open spec fn wf(self) -> bool {
        self.active matches Some(job) ==> 0 <= job.flag < self.flags.len() && !self.flags[job.flag]
    }

    /// The state once a job with this id was admitted.
    pub open spec fn admitted(self, id: Seq<char>) -> JobsView {
        JobsView {
            active: Some(ActiveJob { id, flag: self.flags.len() as int }),
            flags: self.flags.push(false),
        }
    }

    /// The state once the active job, if any, was cancelled.
    pub open spec fn cancelled(self) -> JobsView {
        JobsView {
            active: None,
            flags: match self.active {
                Some(job) => raised_at(self.flags, job.flag),
                None => self.flags,
            },
        }
    }

    /// The state once the active job, if any, was reported finished.
    pub open spec fn finished(self) -> JobsView {
        JobsView { active: None, flags: self.flags }
    }
}

/// A job that was admitted: what its worker needs.
#[derive(Debug, PartialEq, Eq)]
pub struct StartedJob {
    pub id: String,
    pub cancel_flag: usize,
}

/// The state of the application: the slot of the active job and the cancel
/// flags of all jobs.
pub struct AppState {
    active_job: Option<JobHandle>,
    flags: CancelFlags,
}

impl View for AppState {
    type V = JobsView;

    closed spec fn view(&self) -> JobsView {
        JobsView {
            active: match self.active_job {
                Some(h) => Some(h@),
                None => None,
            },
            flags: self.flags@,
        }
    }
}

/// What a request for a conversion is answered while another one runs.
pub const ALREADY_RUNNING: &'static str = "A conversion is already running";

impl AppState {
    #[verifier::type_invariant]
    spec fn inv(self) -> bool {
        self@.wf()
    }

    /// The state at the start: no job, no flags.
    pub fn new() -> (r: AppState)
        ensures
            r@.wf(),
            r@.active is None,
            r@.flags == Seq::<bool>::empty(),
    {
        AppState { active_job: None, flags: CancelFlags::new() }
    }

    /// Admits a job with the given id if none is active. The job gets a cancel
    /// flag of its own, which is not raised. While a job is active nothing
    /// changes and the request is refused.
    pub fn begin(&mut self, job_id: String) -> (r: Result<StartedJob, String>)
        ensures
            final(self)@.wf(),
            match r {
                Ok(job) => {
                    &&& old(self)@.active is None
                    &&& final(self)@ == old(self)@.admitted(job_id@)
                    &&& job.id@ == job_id@
                    &&& job.cancel_flag == old(self)@.flags.len()
                },
                Err(e) => {
                    &&& old(self)@.active is Some
                    &&& final(self)@ == old(self)@
                    &&& e@ == ALREADY_RUNNING@
                },
            },
    {
        proof {
            use_type_invariant(&*self);
        }
        if self.active_job.is_some() {
            return Err(text::owned(ALREADY_RUNNING));
        }
        let id = job_id.clone();
        let mut flags = CancelFlags::new();
        std::mem::swap(&mut self.flags, &mut flags);
        let handle = start(&mut flags, job_id);
        let cancel_flag: usize = handle.cancel_flag();
        self.flags = flags;
        self.active_job = Some(handle);
        Ok(StartedJob { id, cancel_flag })
    }

    /// Starts a conversion under a fresh random id if none is active.
    pub fn convert_start(&mut self) -> (r: Result<StartedJob, String>)
        ensures
            final(self)@.wf(),
            match r {
                Ok(job) => {
                    &&& old(self)@.active is None
                    &&& random_uuid(job.id@)
                    &&& final(self)@ == old(self)@.admitted(job.id@)
                    &&& job.cancel_flag == old(self)@.flags.len()
                },
                Err(e) => {
                    &&& old(self)@.active is Some
                    &&& final(self)@ == old(self)@
                    &&& e@ == ALREADY_RUNNING@
                },
            },
    {
        proof {
            use_type_invariant(&*self);
        }
        if self.active_job.is_some() {
            return Err(text::owned(ALREADY_RUNNING));
        }
        self.begin(fresh_job_id())
    }

    /// Cancels the active job and empties the slot; without an active job
    /// nothing changes.
    pub fn convert_cancel(&mut self)
        ensures
            final(self)@.wf(),
            final(self)@ == old(self)@.cancelled(),
    {
        proof {
            use_type_invariant(&*self);
        }
        let mut active: Option<JobHandle> = None;
        std::mem::swap(&mut self.active_job, &mut active);
        match active {
            Some(h) => {
                let mut flags = CancelFlags::new();
                std::mem::swap(&mut self.flags, &mut flags);
                h.cancel(&mut flags);
                self.flags = flags;
            },
            None => {},
        }
    }

    /// Empties the slot once the active job reported its end. Its cancel flag
    /// stays as it is.
    pub fn job_finished(&mut self)
        ensures
            final(self)@.wf(),
            final(self)@ == old(self)@.finished(),
    {
        self.active_job = None;
    }

    /// Tells a worker whether the job with this cancel flag was cancelled.
    pub fn is_cancelled(&self, cancel_flag: usize) -> (r: bool)
        ensures
            r == (cancel_flag < self@.flags.len() && self@.flags[cancel_flag as int]),
    {
        self.flags.is_raised(cancel_flag)
    }
}

// ---------------------------------------------------------------------------
// Laws
// ---------------------------------------------------------------------------

/// What the user interface can ask of the application.
pub enum Request {
    Start { id: Seq<char> },
    Cancel,
    Finish,
}

/// The state after one request; a refused start changes nothing.
pub open spec fn served(state: JobsView, request: Request) -> JobsView {
    match request {
        Request::Start { id } => if state.active is None {
            state.admitted(id)
        } else {
            state
        },
        Request::Cancel => state.cancelled(),
        Request::Finish => state.finished(),
    }
}

/// The state after a sequence of requests.
pub open spec fn served_all(state: JobsView, requests: Seq<Request>) -> JobsView
    decreases requests.len(),
{
    if requests.len() == 0 {
        state
    } else {
        served_all(served(state, requests[0]), requests.drop_first())
    }
}

/// Every request keeps the state well-formed.
pub proof fn requests_keep_the_state_well_formed(state: JobsView, requests: Seq<Request>)
    requires
        state.wf(),
    ensures
        served_all(state, requests).wf(),
    decreases requests.len(),
{
    if requests.len() > 0 {
        requests_keep_the_state_well_formed(served(state, requests[0]), requests.drop_first());
    }
}

/// A flag that is raised stays raised, whatever is asked afterwards, and no
/// flag leaves the table.
pub proof fn a_cancelled_job_stays_cancelled(state: JobsView, requests: Seq<Request>, flag: int)
    requires
        state.wf(),
        0 <= flag < state.flags.len(),
        state.flags[flag],
    ensures
        flag < served_all(state, requests).flags.len(),
        served_all(state, requests).flags[flag],
    decreases requests.len(),
{
    if requests.len() > 0 {
        a_cancelled_job_stays_cancelled(
            served(state, requests[0]),
            requests.drop_first(),
            flag,
        );
    }
}

/// A request raises no flag but that of the active job, and only when it asks
/// for cancellation.
pub proof fn only_the_active_job_is_cancelled(state: JobsView, request: Request, flag: int)
    requires
        state.wf(),
        0 <= flag < served(state, request).flags.len(),
        served(state, request).flags[flag],
        flag < state.flags.len() ==> !state.flags[flag],
    ensures
        request is Cancel,
        state.active matches Some(job) && job.flag == flag,
{
}

/// Once the slot was emptied by a cancellation or a finish, the next start is
/// admitted; until then every start is refused and changes nothing.
pub proof fn one_conversion_at_a_time(state: JobsView, first: Seq<char>, second: Seq<char>)
    ensures
        served(state.cancelled(), Request::Start { id: first }) == state.cancelled().admitted(first),
        served(state.finished(), Request::Start { id: first }) == state.finished().admitted(first),
        served(state.admitted(first), Request::Start { id: second }) == state.admitted(first),
{
}

/// Cancelling an admitted job raises its own flag and leaves the flags of all
/// jobs before it as they were.
pub proof fn cancelling_reaches_the_job_just_started(state: JobsView, id: Seq<char>)
    ensures
        state.admitted(id).cancelled().active is None,
        state.admitted(id).cancelled().flags == state.flags.push(true),
{
    assert(state.flags.push(false).update(state.flags.len() as int, true) =~= state.flags.push(
        true,
    ));
}

/// A second cancellation in a row does nothing, and neither does one after
/// the job finished.
pub proof fn cancelling_an_empty_slot_does_nothing(state: JobsView)
    ensures
        state.cancelled().cancelled() == state.cancelled(),
        state.finished().cancelled() == state.finished(),
{
}

/// A job that is no longer in the slot and was not cancelled never will be,
/// whatever is asked afterwards.
pub proof fn a_finished_job_is_never_cancelled(state: JobsView, requests: Seq<Request>, flag: int)
    requires
        state.wf(),
        0 <= flag < state.flags.len(),
        !state.flags[flag],
        state.active matches Some(job) ==> job.flag != flag,
    ensures
        flag < served_all(state, requests).flags.len(),
        !served_all(state, requests).flags[flag],
    decreases requests.len(),
{
    if requests.len() > 0 {
        a_finished_job_is_never_cancelled(
            served(state, requests[0]),
            requests.drop_first(),
            flag,
        );
    }
}

/// What a request does to the slot and to the flags: a start that is admitted
/// adds one lowered flag, a cancellation raises that of the active job, and
/// nothing else changes a flag.
pub proof fn what_a_request_does(state: JobsView, id: Seq<char>, i: int)
    requires
        state.wf(),
        0 <= i < state.flags.len(),
    ensures
        state.admitted(id).active == Some(ActiveJob { id, flag: state.flags.len() as int }),
        state.admitted(id).flags.len() == state.flags.len() + 1,
        state.admitted(id).flags[i] == state.flags[i],
        !state.admitted(id).flags[state.flags.len() as int],
        state.cancelled().active is None,
        state.cancelled().flags.len() == state.flags.len(),
        state.cancelled().flags[i] <==> state.flags[i] || (state.active matches Some(job)
            && job.flag == i),
        state.finished().active is None,
        state.finished().flags == state.flags,
{
}

/// A request for a start is served exactly when no job is active; the other
/// requests always are.
pub proof fn what_is_served(state: JobsView, id: Seq<char>)
    ensures
        state.active is None ==> served(state, Request::Start { id }) == state.admitted(id),
        state.active is Some ==> served(state, Request::Start { id }) == state,
        served(state, Request::Cancel) == state.cancelled(),
        served(state, Request::Finish) == state.finished(),
{
}

/// Raising a flag raises that one alone, and none where there is no such flag.
pub proof fn one_flag_is_raised(flags: Seq<bool>, flag: int, i: int)
    requires
        0 <= i < flags.len(),
    ensures
        raised_at(flags, flag).len() == flags.len(),
        raised_at(flags, flag)[i] <==> flags[i] || i == flag,
{
}

/// The form of a job's id: 36 characters, hyphens at four places, and
/// hexadecimal digits in lower case at all others.
pub proof fn the_form_of_an_id(id: Seq<char>, i: int)
    requires
        random_uuid(id),
        0 <= i < id.len(),
    ensures
        id.len() == 36,
        i == 8 || i == 13 || i == 18 || i == 23 <==> id[i] == '-',
        id[i] == '-' || '0' <= id[i] <= '9' || 'a' <= id[i] <= 'f',
        id[14] == '4',
        id[19] == '8' || id[19] == '9' || id[19] == 'a' || id[19] == 'b',
{
}

/// What a refused request is told.
pub proof fn what_a_refused_request_is_told()
    ensures
        ALREADY_RUNNING@ == "A conversion is already running"@,
{
}

} // verus!
