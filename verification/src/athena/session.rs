//! Running a Python model as a calculation in a Spark session.
//!
//! Sessions are shared by the models of a process: a model takes a free session that was
//! started with the same engine configuration, or starts one. A run is a state machine:
//! whoever drives it performs the action and hands back what came of it.

use crate::athena::driver::{
    reply_view, OpsError, OpsErrorKind, OpsErrorView, Reply, ReplyView, Request, RequestView,
};
use crate::athena::glue::text;
use crate::json::{
    fields, member, nil, or_empty, text_at, text_or_empty, Fields, FieldsView, Json, JsonView,
};
use crate::number::{decimal, decimal_of};
use crate::text::{contains, has, same, trim, trim_start, trimmed, trimmed_front};
use vstd::prelude::*;

verus! {

pub const SESSION_IDLE_TIMEOUT_MIN: i128 = 10;

/// How often a model tries to start in a session that turns out to have ended.
pub const MAX_START_ATTEMPTS: u8 = 3;

// ---------------------------------------------------------------------------
// The pool
// ---------------------------------------------------------------------------

/// A session of the process.
#[derive(Debug, PartialEq)]
pub struct PooledSession {
    pub id: String,
    pub description: String,
    pub busy: bool,
}

pub struct SessionView {
    pub id: Seq<char>,
    pub description: Seq<char>,
    pub busy: bool,
}

impl View for PooledSession {
    type V = SessionView;

    open spec fn view(&self) -> SessionView {
        SessionView { id: self.id@, description: self.description@, busy: self.busy }
    }
}

pub open spec fn pool_view(sessions: Seq<PooledSession>) -> Seq<SessionView> {
    sessions.map_values(|s: PooledSession| s@)
}

/// The sessions of the process.
#[derive(Debug, PartialEq)]
pub struct SessionPool {
    pub sessions: Vec<PooledSession>,
}

impl View for SessionPool {
    type V = Seq<SessionView>;

    open spec fn view(&self) -> Seq<SessionView> {
        pool_view(self.sessions@)
    }
}

/// A session that a model with this description can take.
pub open spec fn free(s: SessionView, description: Seq<char>) -> bool {
    !s.busy && s.description == description
}

/// The place of the first session that is free for a description; the size of the pool
/// where there is none.
pub open spec fn first_free(pool: Seq<SessionView>, description: Seq<char>) -> int
    decreases pool.len(),
{
    if pool.len() == 0 {
        0
    } else if free(pool[0], description) {
        0
    } else {
        1 + first_free(pool.drop_first(), description)
    }
}

/// The place of the first session with an id; the size of the pool where there is none.
pub open spec fn first_with_id(pool: Seq<SessionView>, id: Seq<char>) -> int
    decreases pool.len(),
{
    if pool.len() == 0 {
        0
    } else if pool[0].id == id {
        0
    } else {
        1 + first_with_id(pool.drop_first(), id)
    }
}

pub open spec fn marked(s: SessionView, busy: bool) -> SessionView {
    SessionView { id: s.id, description: s.description, busy }
}

/// The pool after a session was taken, where one is free.
pub open spec fn taken(pool: Seq<SessionView>, description: Seq<char>) -> Seq<SessionView> {
    let p = first_free(pool, description);
    if 0 <= p < pool.len() {
        pool.update(p, marked(pool[p], true))
    } else {
        pool
    }
}

/// The id of the session that is taken.
pub open spec fn taken_id(pool: Seq<SessionView>, description: Seq<char>) -> Option<Seq<char>> {
    let p = first_free(pool, description);
    if 0 <= p < pool.len() {
        Some(pool[p].id)
    } else {
        None
    }
}

/// The sessions of a pool with other ids.
pub open spec fn without_id(pool: Seq<SessionView>, id: Seq<char>) -> Seq<SessionView>
    decreases pool.len(),
{
    if pool.len() == 0 {
        Seq::empty()
    } else {
        let rest = without_id(pool.drop_last(), id);
        if pool.last().id == id {
            rest
        } else {
            rest.push(pool.last())
        }
    }
}

/// The pool after a session was given back: free again where it can still be used, gone
/// where it cannot.
pub open spec fn released(pool: Seq<SessionView>, id: Seq<char>, usable: bool) -> Seq<
    SessionView,
> {
    if usable {
        let p = first_with_id(pool, id);
        if 0 <= p < pool.len() {
            pool.update(p, marked(pool[p], false))
        } else {
            pool
        }
    } else {
        without_id(pool, id)
    }
}

proof fn first_free_is(pool: Seq<SessionView>, description: Seq<char>, p: int)
    requires
        0 <= p <= pool.len(),
        p < pool.len() ==> free(pool[p], description),
        forall|i: int| 0 <= i < p ==> !free(#[trigger] pool[i], description),
    ensures
        p == first_free(pool, description),
    decreases pool.len(),
{
    if p > 0 {
        assert(!free(pool[0], description));
        let rest = pool.drop_first();
        assert forall|i: int| 0 <= i < p - 1 implies !free(#[trigger] rest[i], description) by {
            assert(rest[i] == pool[i + 1]);
        }
        first_free_is(rest, description, p - 1);
    }
}

pub proof fn first_free_holds(pool: Seq<SessionView>, description: Seq<char>)
    ensures
        0 <= first_free(pool, description) <= pool.len(),
        first_free(pool, description) < pool.len() ==> free(
            pool[first_free(pool, description)],
            description,
        ),
    decreases pool.len(),
{
    if pool.len() > 0 && !free(pool[0], description) {
        first_free_holds(pool.drop_first(), description);
    }
}

proof fn first_with_id_is(pool: Seq<SessionView>, id: Seq<char>, p: int)
    requires
        0 <= p <= pool.len(),
        p < pool.len() ==> pool[p].id == id,
        forall|i: int| 0 <= i < p ==> (#[trigger] pool[i]).id != id,
    ensures
        p == first_with_id(pool, id),
    decreases pool.len(),
{
    if p > 0 {
        assert(pool[0].id != id);
        let rest = pool.drop_first();
        assert forall|i: int| 0 <= i < p - 1 implies (#[trigger] rest[i]).id != id by {
            assert(rest[i] == pool[i + 1]);
        }
        first_with_id_is(rest, id, p - 1);
    }
}

/// A session that was taken is not taken again: the next one that is taken stands elsewhere
/// in the pool.
pub proof fn a_taken_session_is_not_shared(
    pool: Seq<SessionView>,
    first: Seq<char>,
    second: Seq<char>,
)
    requires
        taken_id(pool, first) is Some,
        taken_id(taken(pool, first), second) is Some,
    ensures
        first_free(pool, first) != first_free(taken(pool, first), second),
{
    first_free_holds(taken(pool, first), second);
    first_free_holds(pool, first);
}

/// A session that is given back can be taken again by a model with its description.
pub proof fn a_released_session_is_free(pool: Seq<SessionView>, p: int)
    requires
        0 <= p < pool.len(),
        first_with_id(pool, pool[p].id) == p,
    ensures
        free(released(pool, pool[p].id, true)[p], pool[p].description),
{
}

impl SessionPool {
    pub fn new() -> (r: SessionPool)
        ensures
            r@.len() == 0,
    {
        SessionPool { sessions: Vec::new() }
    }

    /// Takes the first session that is free for a description.
    pub fn take(&mut self, description: &str) -> (r: Option<String>)
        ensures
            final(self)@ == taken(old(self)@, description@),
            crate::json::opt(r) == taken_id(old(self)@, description@),
    {
        let ghost pool = self@;
        let mut i: usize = 0;
        while i < self.sessions.len()
            invariant
                i <= self.sessions.len(),
                pool == self@,
                pool == old(self)@,
                forall|j: int| 0 <= j < i ==> !free(#[trigger] pool[j], description@),
            decreases self.sessions.len() - i,
        {
            assert(pool[i as int] == self.sessions@[i as int]@);
            if !self.sessions[i].busy && same(self.sessions[i].description.as_str(), description) {
                proof {
                    first_free_is(pool, description@, i as int);
                }
                let id = self.sessions[i].id.clone();
                let description = self.sessions[i].description.clone();
                self.sessions.set(i, PooledSession { id: id.clone(), description, busy: true });
                assert(self@ =~= pool.update(i as int, marked(pool[i as int], true)));
                return Some(id);
            }
            i += 1;
        }
        proof {
            first_free_is(pool, description@, i as int);
        }
        None
    }

    /// Adds a session that is in use.
    pub fn add_busy(&mut self, id: &str, description: &str)
        ensures
            final(self)@ == old(self)@.push(
                SessionView { id: id@, description: description@, busy: true },
            ),
    {
        let ghost before = self@;
        self.sessions.push(
            PooledSession {
                id: id.to_owned(),
                description: description.to_owned(),
                busy: true,
            },
        );
        assert(self@ =~= before.push(
            SessionView { id: id@, description: description@, busy: true },
        ));
    }

    /// Gives a session back.
    pub fn release(&mut self, id: &str, usable: bool)
        ensures
            final(self)@ == released(old(self)@, id@, usable),
    {
        let ghost pool = self@;
        if usable {
            let mut i: usize = 0;
            while i < self.sessions.len() && !same(self.sessions[i].id.as_str(), id)
                invariant
                    i <= self.sessions.len(),
                    pool == self@,
                    forall|j: int| 0 <= j < i ==> (#[trigger] pool[j]).id != id@,
                decreases self.sessions.len() - i,
            {
                assert(pool[i as int] == self.sessions@[i as int]@);
                i += 1;
            }
            proof {
                if i < self.sessions.len() {
                    assert(pool[i as int] == self.sessions@[i as int]@);
                }
                first_with_id_is(pool, id@, i as int);
            }
            if i < self.sessions.len() {
                let own = self.sessions[i].id.clone();
                let description = self.sessions[i].description.clone();
                self.sessions.set(i, PooledSession { id: own, description, busy: false });
                assert(self@ =~= pool.update(i as int, marked(pool[i as int], false)));
            }
        } else {
            let mut kept: Vec<PooledSession> = Vec::new();
            let mut i: usize = 0;
            assert(pool_view(kept@) =~= without_id(pool.take(0), id@));
            while i < self.sessions.len()
                invariant
                    i <= self.sessions.len(),
                    pool == self@,
                    pool_view(kept@) == without_id(pool.take(i as int), id@),
                decreases self.sessions.len() - i,
            {
                assert(pool.take(i + 1).drop_last() =~= pool.take(i as int));
                assert(pool.take(i + 1).last() == self.sessions@[i as int]@);
                if !same(self.sessions[i].id.as_str(), id) {
                    let ghost before = pool_view(kept@);
                    let s = &self.sessions[i];
                    kept.push(
                        PooledSession {
                            id: s.id.clone(),
                            description: s.description.clone(),
                            busy: s.busy,
                        },
                    );
                    assert(pool_view(kept@) =~= before.push(self.sessions@[i as int]@));
                }
                i += 1;
            }
            assert(pool.take(i as int) =~= pool);
            self.sessions = kept;
        }
    }
}

// ---------------------------------------------------------------------------
// The run
// ---------------------------------------------------------------------------

/// What a run is of: the code of a model, its session's work group, engine configuration
/// and description, its timeout and its relation.
#[derive(Debug)]
pub struct SparkJob {
    pub work_group: String,
    pub description: String,
    pub engine_config: Json,
    pub timeout_secs: u64,
    pub relation_name: String,
    pub compiled_code: String,
}

/// Where a run stands.
#[derive(Debug, PartialEq)]
pub enum SparkState {
    /// Nothing was done yet.
    New,
    /// A session is being started.
    StartingSession { attempts: u8 },
    /// The status of a starting session was asked for.
    AwaitingSession { attempts: u8, session: String },
    /// The run waits before it asks for the status of a starting session again.
    PausedForSession { attempts: u8, session: String },
    /// The calculation is being started.
    StartingCalculation { attempts: u8, session: String },
    /// The state of the calculation was asked for.
    AwaitingCalculation { session: String, calculation: String },
    /// The run waits before it asks for the state of the calculation again.
    PausedForCalculation { session: String, calculation: String },
    /// The calculation is being stopped.
    Stopping { session: String, error: OpsError },
    /// The run has ended.
    Ended,
}

/// What came of the last action.
#[derive(Debug, PartialEq)]
pub enum SparkEvent {
    /// The run begins.
    Begin,
    /// The driver answered; `timed_out` tells whether the timeout has passed since the
    /// status was first asked for.
    Answered { reply: Reply, timed_out: bool },
    /// The pause is over.
    Waited,
    /// The run was cancelled during the pause.
    Cancelled,
}

/// What is to be done next.
#[derive(Debug, PartialEq)]
pub enum SparkAction {
    /// Put a question to the driver; `starts_clock` tells that the timeout counts from
    /// here.
    Call { request: Request, starts_clock: bool },
    /// Pause for the polling interval.
    Wait,
    /// The run is over, with what is answered of it.
    Return(Result<String, OpsError>),
}

pub enum StateView {
    New,
    StartingSession { attempts: int },
    AwaitingSession { attempts: int, session: Seq<char> },
    PausedForSession { attempts: int, session: Seq<char> },
    StartingCalculation { attempts: int, session: Seq<char> },
    AwaitingCalculation { session: Seq<char>, calculation: Seq<char> },
    PausedForCalculation { session: Seq<char>, calculation: Seq<char> },
    Stopping { session: Seq<char>, error: OpsErrorView },
    Ended,
}

pub enum EventView {
    Begin,
    Answered { reply: ReplyView, timed_out: bool },
    Waited,
    Cancelled,
}

pub enum ActionView {
    Call { request: RequestView, starts_clock: bool },
    Wait,
    Return(Result<Seq<char>, OpsErrorView>),
}

impl View for SparkState {
    type V = StateView;

    open spec fn view(&self) -> StateView {
        match self {
            SparkState::New => StateView::New,
            SparkState::StartingSession { attempts } => StateView::StartingSession {
                attempts: *attempts as int,
            },
            SparkState::AwaitingSession { attempts, session } => StateView::AwaitingSession {
                attempts: *attempts as int,
                session: session@,
            },
            SparkState::PausedForSession { attempts, session } => StateView::PausedForSession {
                attempts: *attempts as int,
                session: session@,
            },
            SparkState::StartingCalculation {
                attempts,
                session,
            } => StateView::StartingCalculation { attempts: *attempts as int, session: session@ },
            SparkState::AwaitingCalculation {
                session,
                calculation,
            } => StateView::AwaitingCalculation { session: session@, calculation: calculation@ },
            SparkState::PausedForCalculation {
                session,
                calculation,
            } => StateView::PausedForCalculation { session: session@, calculation: calculation@ },
            SparkState::Stopping { session, error } => StateView::Stopping {
                session: session@,
                error: error@,
            },
            SparkState::Ended => StateView::Ended,
        }
    }
}

impl View for SparkEvent {
    type V = EventView;

    open spec fn view(&self) -> EventView {
        match self {
            SparkEvent::Begin => EventView::Begin,
            SparkEvent::Answered { reply, timed_out } => EventView::Answered {
                reply: reply_view(*reply),
                timed_out: *timed_out,
            },
            SparkEvent::Waited => EventView::Waited,
            SparkEvent::Cancelled => EventView::Cancelled,
        }
    }
}

impl View for SparkAction {
    type V = ActionView;

    open spec fn view(&self) -> ActionView {
        match self {
            SparkAction::Call { request, starts_clock } => ActionView::Call {
                request: request@,
                starts_clock: *starts_clock,
            },
            SparkAction::Wait => ActionView::Wait,
            SparkAction::Return(Ok(message)) => ActionView::Return(Ok(message@)),
            SparkAction::Return(Err(e)) => ActionView::Return(Err(e@)),
        }
    }
}

/// A step of a run: where it stands next, what the pool holds, and what is to be done.
pub struct StepView {
    pub state: StateView,
    pub pool: Seq<SessionView>,
    pub action: ActionView,
}

pub open spec fn called(operation: Seq<char>, payload: FieldsView, starts_clock: bool) -> ActionView {
    ActionView::Call {
        request: RequestView { operation, payload: JsonView::Object(payload) },
        starts_clock,
    }
}

pub open spec fn runtime_error(message: Seq<char>) -> OpsErrorView {
    OpsErrorView { kind: OpsErrorKind::UnexpectedResult, message }
}

pub open spec fn cancelled_error() -> OpsErrorView {
    OpsErrorView {
        kind: OpsErrorKind::Cancelled,
        message: "Python model execution was cancelled"@,
    }
}

pub open spec fn ended(pool: Seq<SessionView>, result: Result<Seq<char>, OpsErrorView>) -> StepView {
    StepView { state: StateView::Ended, pool, action: ActionView::Return(result) }
}

/// Asking for the status of a starting session.
pub open spec fn ask_session(
    pool: Seq<SessionView>,
    attempts: int,
    session: Seq<char>,
    starts_clock: bool,
) -> StepView {
    StepView {
        state: StateView::AwaitingSession { attempts, session },
        pool,
        action: called(
            "athena.get_session_status"@,
            nil().push(("SessionId"@, text(session))),
            starts_clock,
        ),
    }
}

/// Starting the calculation in a session.
pub open spec fn start_calculation(
    job: SparkJob,
    pool: Seq<SessionView>,
    attempts: int,
    session: Seq<char>,
) -> StepView {
    StepView {
        state: StateView::StartingCalculation { attempts, session },
        pool,
        action: called(
            "athena.start_calculation_execution"@,
            nil().push(("SessionId"@, text(session))).push(
                ("CodeBlock"@, text(trim_start(job.compiled_code@))),
            ),
            false,
        ),
    }
}

/// Asking for the state of the calculation.
pub open spec fn ask_calculation(
    pool: Seq<SessionView>,
    session: Seq<char>,
    calculation: Seq<char>,
    starts_clock: bool,
) -> StepView {
    StepView {
        state: StateView::AwaitingCalculation { session, calculation },
        pool,
        action: called(
            "athena.get_calculation_execution"@,
            nil().push(("CalculationExecutionId"@, text(calculation))),
            starts_clock,
        ),
    }
}

/// Stopping the calculation, to report an error.
pub open spec fn stop_calculation(
    pool: Seq<SessionView>,
    session: Seq<char>,
    calculation: Seq<char>,
    error: OpsErrorView,
) -> StepView {
    StepView {
        state: StateView::Stopping { session, error },
        pool,
        action: called(
            "athena.stop_calculation_execution"@,
            nil().push(("CalculationExecutionId"@, text(calculation))),
            false,
        ),
    }
}

/// Taking a session, or starting one where none is free.
pub open spec fn acquire(job: SparkJob, pool: Seq<SessionView>, attempts: int) -> StepView {
    match taken_id(pool, job.description@) {
        Some(session) => start_calculation(
            job,
            taken(pool, job.description@),
            attempts,
            session,
        ),
        None => StepView {
            state: StateView::StartingSession { attempts },
            pool,
            action: called(
                "athena.start_session"@,
                nil().push(("Description"@, text(job.description@))).push(
                    ("WorkGroup"@, text(job.work_group@)),
                ).push(("EngineConfiguration"@, job.engine_config@)).push(
                    (
                        "SessionIdleTimeoutInMinutes"@,
                        JsonView::Int(SESSION_IDLE_TIMEOUT_MIN as int),
                    ),
                ),
                false,
            ),
        },
    }
}

pub open spec fn busy_session(job: SparkJob, session: Seq<char>) -> SessionView {
    SessionView { id: session, description: job.description@, busy: true }
}

/// A session that is ready comes into the pool, in use.
pub open spec fn session_ready(
    job: SparkJob,
    pool: Seq<SessionView>,
    attempts: int,
    session: Seq<char>,
) -> StepView {
    start_calculation(job, pool.push(busy_session(job, session)), attempts, session)
}

pub open spec fn status_text(v: JsonView, key: Seq<char>) -> Seq<char> {
    or_empty(text_at(member(v, "Status"@), key))
}

pub open spec fn session_failed(state: Seq<char>) -> bool {
    state == "FAILED"@ || state == "TERMINATED"@ || state == "DEGRADED"@
}

/// A failure to start a calculation that tells that the session has ended.
pub open spec fn tells_ended(message: Seq<char>) -> bool {
    contains(message, "TERMINATED"@) || contains(message, "TERMINATING"@) || contains(
        message,
        "DEGRADED"@,
    ) || contains(message, "FAILED"@)
}

pub open spec fn calculation_failed(
    job: SparkJob,
    session: Seq<char>,
    calculation: Seq<char>,
    state: Seq<char>,
    execution: JsonView,
) -> OpsErrorView {
    runtime_error(
        "Model "@ + job.relation_name@ + "\nCalculation Id:   "@ + calculation
            + "\nSession Id:     "@ + session + "\nStatus:         "@ + state
            + "\nReason:         "@ + status_text(execution, "StateChangeReason"@)
            + "\nStderr s3 path: "@ + or_empty(
            text_at(member(execution, "Result"@), "StdErrorS3Uri"@),
        ),
    )
}

/// What follows a status of a starting session.
pub open spec fn after_status(
    job: SparkJob,
    pool: Seq<SessionView>,
    attempts: int,
    session: Seq<char>,
    status: JsonView,
    timed_out: bool,
) -> StepView {
    let state = status_text(status, "State"@);
    if state == "IDLE"@ {
        session_ready(job, pool, attempts, session)
    } else if session_failed(state) {
        ended(
            pool,
            Err(
                runtime_error(
                    "Unable to create session: "@ + session + ". Got status: "@ + state
                        + " with reason: "@ + status_text(status, "StateChangeReason"@) + "."@,
                ),
            ),
        )
    } else if timed_out {
        ended(
            pool,
            Err(
                runtime_error(
                    "Session "@ + session + " did not create within "@ + decimal(
                        job.timeout_secs as int,
                    ) + " seconds."@,
                ),
            ),
        )
    } else {
        StepView {
            state: StateView::PausedForSession { attempts, session },
            pool,
            action: ActionView::Wait,
        }
    }
}

/// What follows a failure to start the calculation: another session, where the one had
/// ended and a few have not been tried yet.
pub open spec fn after_start_failure(
    job: SparkJob,
    pool: Seq<SessionView>,
    attempts: int,
    session: Seq<char>,
    message: Seq<char>,
) -> StepView {
    let gone = tells_ended(message);
    let after = released(pool, session, !gone);
    if gone && attempts + 1 < MAX_START_ATTEMPTS {
        acquire(job, after, attempts + 1)
    } else {
        ended(
            after,
            Err(runtime_error("Unable to start spark python code execution. "@ + message)),
        )
    }
}

/// What follows a state of the calculation.
pub open spec fn after_execution(
    job: SparkJob,
    pool: Seq<SessionView>,
    session: Seq<char>,
    calculation: Seq<char>,
    execution: JsonView,
    timed_out: bool,
) -> StepView {
    let state = status_text(execution, "State"@);
    if state == "COMPLETED"@ {
        ended(released(pool, session, true), Ok("OK"@))
    } else if state == "FAILED"@ || state == "CANCELED"@ {
        ended(
            released(pool, session, true),
            Err(calculation_failed(job, session, calculation, state, execution)),
        )
    } else if timed_out {
        stop_calculation(
            pool,
            session,
            calculation,
            runtime_error(
                "Execution "@ + calculation + " did not complete within "@ + decimal(
                    job.timeout_secs as int,
                ) + " seconds."@,
            ),
        )
    } else {
        StepView {
            state: StateView::PausedForCalculation { session, calculation },
            pool,
            action: ActionView::Wait,
        }
    }
}

pub open spec fn blank(code: Seq<char>) -> bool {
    trim(code).len() == 0
}

/// What follows an event. An event that does not fit where the run stands ends it.
pub open spec fn next_step(
    job: SparkJob,
    state: StateView,
    pool: Seq<SessionView>,
    event: EventView,
) -> StepView {
    match (state, event) {
        (StateView::New, EventView::Begin) => if blank(job.compiled_code@) {
            ended(pool, Ok("OK"@))
        } else {
            acquire(job, pool, 0)
        },
        (
            StateView::StartingSession { attempts },
            EventView::Answered { reply, timed_out },
        ) => match reply {
            Err(e) => ended(pool, Err(e)),
            Ok(started) => {
                let session = or_empty(text_at(started, "SessionId"@));
                if or_empty(text_at(started, "State"@)) == "IDLE"@ {
                    session_ready(job, pool, attempts, session)
                } else {
                    ask_session(pool, attempts, session, true)
                }
            },
        },
        (
            StateView::AwaitingSession { attempts, session },
            EventView::Answered { reply, timed_out },
        ) => match reply {
            Err(e) => ended(pool, Err(e)),
            Ok(status) => after_status(job, pool, attempts, session, status, timed_out),
        },
        (StateView::PausedForSession { attempts, session }, EventView::Waited) => ask_session(
            pool,
            attempts,
            session,
            false,
        ),
        (StateView::PausedForSession { attempts, session }, EventView::Cancelled) => ended(
            pool,
            Err(cancelled_error()),
        ),
        (
            StateView::StartingCalculation { attempts, session },
            EventView::Answered { reply, timed_out },
        ) => match reply {
            Err(e) => after_start_failure(job, pool, attempts, session, e.message),
            Ok(started) => ask_calculation(
                pool,
                session,
                or_empty(text_at(started, "CalculationExecutionId"@)),
                true,
            ),
        },
        (
            StateView::AwaitingCalculation { session, calculation },
            EventView::Answered { reply, timed_out },
        ) => match reply {
            Err(e) => ended(released(pool, session, true), Err(e)),
            Ok(execution) => after_execution(
                job,
                pool,
                session,
                calculation,
                execution,
                timed_out,
            ),
        },
        (
            StateView::PausedForCalculation { session, calculation },
            EventView::Waited,
        ) => ask_calculation(pool, session, calculation, false),
        (
            StateView::PausedForCalculation { session, calculation },
            EventView::Cancelled,
        ) => stop_calculation(pool, session, calculation, cancelled_error()),
        (
            StateView::Stopping { session, error },
            EventView::Answered { reply, timed_out },
        ) => ended(released(pool, session, true), Err(error)),
        _ => ended(pool, Err(runtime_error("unexpected event in a Spark run"@))),
    }
}

fn error(kind: OpsErrorKind, message: String) -> (e: OpsError)
    ensures
        e@ == (OpsErrorView { kind, message: message@ }),
{
    OpsError { kind, message }
}

fn question(operation: &str, payload: Fields, starts_clock: bool) -> (a: SparkAction)
    ensures
        a@ == called(operation@, payload@, starts_clock),
{
    SparkAction::Call {
        request: Request { operation: operation.to_owned(), payload: payload.object() },
        starts_clock,
    }
}

fn status_at(v: &Json, key: &str) -> (r: String)
    ensures
        r@ == status_text(v@, key@),
{
    match v.get("Status") {
        Some(status) => text_or_empty(status.str_at(key)),
        None => String::new(),
    }
}

pub open spec fn is_step(r: (SparkState, SparkAction), pool: SessionPool, step: StepView) -> bool {
    r.0@ == step.state && r.1@ == step.action && pool@ == step.pool
}

fn end(result: Result<String, OpsError>) -> (r: (SparkState, SparkAction))
    ensures
        r.0@ == StateView::Ended,
        r.1@ == ActionView::Return(match result {
            Ok(message) => Ok(message@),
            Err(e) => Err(e@),
        }),
{
    (SparkState::Ended, SparkAction::Return(result))
}

impl SparkJob {
    fn start_in(&self, attempts: u8, session: String) -> (r: (SparkState, SparkAction))
        ensures
            forall|pool: SessionPool| #[trigger]
                is_step(r, pool, start_calculation(*self, pool@, attempts as int, session@)),
    {
        let code = trimmed_front(self.compiled_code.as_str());
        let payload = fields().text("SessionId", session.as_str()).text("CodeBlock", code.as_str());
        (
            SparkState::StartingCalculation { attempts, session },
            question("athena.start_calculation_execution", payload, false),
        )
    }

    fn acquire_session(&self, pool: &mut SessionPool, attempts: u8) -> (r: (SparkState, SparkAction))
        ensures
            is_step(r, *final(pool), acquire(*self, old(pool)@, attempts as int)),
    {
        match pool.take(self.description.as_str()) {
            Some(session) => {
                let r = self.start_in(attempts, session);
                assert(is_step(
                    r,
                    *pool,
                    start_calculation(*self, pool@, attempts as int, session@),
                ));
                r
            },
            None => {
                let payload = fields().text("Description", self.description.as_str()).text(
                    "WorkGroup",
                    self.work_group.as_str(),
                ).with("EngineConfiguration", self.engine_config.copy()).with(
                    "SessionIdleTimeoutInMinutes",
                    Json::Int(SESSION_IDLE_TIMEOUT_MIN),
                );
                (
                    SparkState::StartingSession { attempts },
                    question("athena.start_session", payload, false),
                )
            },
        }
    }

    fn ready(&self, pool: &mut SessionPool, attempts: u8, session: String) -> (r: (
        SparkState,
        SparkAction,
    ))
        ensures
            is_step(
                r,
                *final(pool),
                session_ready(*self, old(pool)@, attempts as int, session@),
            ),
    {
        pool.add_busy(session.as_str(), self.description.as_str());
        let r = self.start_in(attempts, session);
        assert(is_step(r, *pool, start_calculation(*self, pool@, attempts as int, session@)));
        r
    }

    fn poll_session(attempts: u8, session: String, starts_clock: bool) -> (r: (
        SparkState,
        SparkAction,
    ))
        ensures
            forall|pool: SessionPool| #[trigger]
                is_step(r, pool, ask_session(pool@, attempts as int, session@, starts_clock)),
    {
        let payload = fields().text("SessionId", session.as_str());
        (
            SparkState::AwaitingSession { attempts, session },
            question("athena.get_session_status", payload, starts_clock),
        )
    }

    fn poll_calculation(session: String, calculation: String, starts_clock: bool) -> (r: (
        SparkState,
        SparkAction,
    ))
        ensures
            forall|pool: SessionPool| #[trigger]
                is_step(r, pool, ask_calculation(pool@, session@, calculation@, starts_clock)),
    {
        let payload = fields().text("CalculationExecutionId", calculation.as_str());
        (
            SparkState::AwaitingCalculation { session, calculation },
            question("athena.get_calculation_execution", payload, starts_clock),
        )
    }

    fn stop(session: String, calculation: &str, error: OpsError) -> (r: (SparkState, SparkAction))
        ensures
            forall|pool: SessionPool| #[trigger]
                is_step(r, pool, stop_calculation(pool@, session@, calculation@, error@)),
    {
        let payload = fields().text("CalculationExecutionId", calculation);
        (
            SparkState::Stopping { session, error },
            question("athena.stop_calculation_execution", payload, false),
        )
    }

    /// What follows a status of a starting session.
    fn wait_until_session_idle(
        &self,
        pool: &mut SessionPool,
        attempts: u8,
        session: String,
        status: &Json,
        timed_out: bool,
    ) -> (r: (SparkState, SparkAction))
        ensures
            is_step(
                r,
                *final(pool),
                after_status(
                    *self,
                    old(pool)@,
                    attempts as int,
                    session@,
                    status@,
                    timed_out,
                ),
            ),
    {
        let state = status_at(status, "State");
        if same(state.as_str(), "IDLE") {
            return self.ready(pool, attempts, session);
        }
        if same(state.as_str(), "FAILED") || same(state.as_str(), "TERMINATED") || same(
            state.as_str(),
            "DEGRADED",
        ) {
            let reason = status_at(status, "StateChangeReason");
            let message = "Unable to create session: ".to_owned().concat(
                session.as_str(),
            ).concat(". Got status: ").concat(state.as_str()).concat(" with reason: ").concat(
                reason.as_str(),
            ).concat(".");
            return end(Err(error(OpsErrorKind::UnexpectedResult, message)));
        }
        if timed_out {
            let message = "Session ".to_owned().concat(session.as_str()).concat(
                " did not create within ",
            ).concat(decimal_of(self.timeout_secs as i128).as_str()).concat(" seconds.");
            return end(Err(error(OpsErrorKind::UnexpectedResult, message)));
        }
        (SparkState::PausedForSession { attempts, session }, SparkAction::Wait)
    }

    /// What follows a failure to start the calculation.
    fn start_failed(
        &self,
        pool: &mut SessionPool,
        attempts: u8,
        session: String,
        message: String,
    ) -> (r: (SparkState, SparkAction))
        requires
            attempts < MAX_START_ATTEMPTS,
        ensures
            is_step(
                r,
                *final(pool),
                after_start_failure(
                    *self,
                    old(pool)@,
                    attempts as int,
                    session@,
                    message@,
                ),
            ),
    {
        let gone = has(message.as_str(), "TERMINATED") || has(message.as_str(), "TERMINATING")
            || has(message.as_str(), "DEGRADED") || has(message.as_str(), "FAILED");
        pool.release(session.as_str(), !gone);
        if gone && attempts + 1 < MAX_START_ATTEMPTS {
            return self.acquire_session(pool, attempts + 1);
        }
        let text = "Unable to start spark python code execution. ".to_owned().concat(
            message.as_str(),
        );
        end(Err(error(OpsErrorKind::UnexpectedResult, text)))
    }

    /// What follows a state of the calculation.
    fn wait_for_calculation(
        &self,
        pool: &mut SessionPool,
        session: String,
        calculation: String,
        execution: &Json,
        timed_out: bool,
    ) -> (r: (SparkState, SparkAction))
        ensures
            is_step(
                r,
                *final(pool),
                after_execution(
                    *self,
                    old(pool)@,
                    session@,
                    calculation@,
                    execution@,
                    timed_out,
                ),
            ),
    {
        let state = status_at(execution, "State");
        if same(state.as_str(), "COMPLETED") {
            pool.release(session.as_str(), true);
            return end(Ok("OK".to_owned()));
        }
        if same(state.as_str(), "FAILED") || same(state.as_str(), "CANCELED") {
            let reason = status_at(execution, "StateChangeReason");
            let stderr = match execution.get("Result") {
                Some(result) => text_or_empty(result.str_at("StdErrorS3Uri")),
                None => String::new(),
            };
            let message = "Model ".to_owned().concat(self.relation_name.as_str()).concat(
                "\nCalculation Id:   ",
            ).concat(calculation.as_str()).concat("\nSession Id:     ").concat(
                session.as_str(),
            ).concat("\nStatus:         ").concat(state.as_str()).concat(
                "\nReason:         ",
            ).concat(reason.as_str()).concat("\nStderr s3 path: ").concat(stderr.as_str());
            pool.release(session.as_str(), true);
            return end(Err(error(OpsErrorKind::UnexpectedResult, message)));
        }
        if timed_out {
            let message = "Execution ".to_owned().concat(calculation.as_str()).concat(
                " did not complete within ",
            ).concat(decimal_of(self.timeout_secs as i128).as_str()).concat(" seconds.");
            let r = Self::stop(
                session,
                calculation.as_str(),
                error(OpsErrorKind::UnexpectedResult, message),
            );
            assert(is_step(
                r,
                *pool,
                stop_calculation(
                    pool@,
                    session@,
                    calculation@,
                    runtime_error(message@),
                ),
            ));
            return r;
        }
        (SparkState::PausedForCalculation { session, calculation }, SparkAction::Wait)
    }

    /// The next step of a run: where it stands, after what came of the last action. A run
    /// begins in the state `New`.
    pub fn step(&self, state: SparkState, pool: &mut SessionPool, event: SparkEvent) -> (r: (
        SparkState,
        SparkAction,
    ))
        requires
            attempts_within(state@),
        ensures
            is_step(r, *final(pool), next_step(*self, state@, old(pool)@, event@)),
            attempts_within(r.0@),
    {
        match (state, event) {
            (SparkState::New, SparkEvent::Begin) => {
                let code = trimmed(self.compiled_code.as_str());
                if code.as_str().is_empty() {
                    end(Ok("OK".to_owned()))
                } else {
                    self.acquire_session(pool, 0)
                }
            },
            (
                SparkState::StartingSession { attempts },
                SparkEvent::Answered { reply, timed_out },
            ) => match reply {
                Err(e) => end(Err(e)),
                Ok(started) => {
                    let session = text_or_empty(started.str_at("SessionId"));
                    let status = text_or_empty(started.str_at("State"));
                    if same(status.as_str(), "IDLE") {
                        self.ready(pool, attempts, session)
                    } else {
                        let r = Self::poll_session(attempts, session, true);
                        assert(is_step(
                            r,
                            *pool,
                            ask_session(pool@, attempts as int, session@, true),
                        ));
                        r
                    }
                },
            },
            (
                SparkState::AwaitingSession { attempts, session },
                SparkEvent::Answered { reply, timed_out },
            ) => match reply {
                Err(e) => end(Err(e)),
                Ok(status) => self.wait_until_session_idle(
                    pool,
                    attempts,
                    session,
                    &status,
                    timed_out,
                ),
            },
            (SparkState::PausedForSession { attempts, session }, SparkEvent::Waited) => {
                let r = Self::poll_session(attempts, session, false);
                assert(is_step(r, *pool, ask_session(pool@, attempts as int, session@, false)));
                r
            },
            (SparkState::PausedForSession { attempts, session }, SparkEvent::Cancelled) => end(
                Err(
                    error(
                        OpsErrorKind::Cancelled,
                        "Python model execution was cancelled".to_owned(),
                    ),
                ),
            ),
            (
                SparkState::StartingCalculation { attempts, session },
                SparkEvent::Answered { reply, timed_out },
            ) => match reply {
                Err(e) => self.start_failed(pool, attempts, session, e.message),
                Ok(started) => {
                    let calculation = text_or_empty(started.str_at("CalculationExecutionId"));
                    let r = Self::poll_calculation(session, calculation, true);
                    assert(is_step(
                        r,
                        *pool,
                        ask_calculation(pool@, session@, calculation@, true),
                    ));
                    r
                },
            },
            (
                SparkState::AwaitingCalculation { session, calculation },
                SparkEvent::Answered { reply, timed_out },
            ) => match reply {
                Err(e) => {
                    pool.release(session.as_str(), true);
                    end(Err(e))
                },
                Ok(execution) => self.wait_for_calculation(
                    pool,
                    session,
                    calculation,
                    &execution,
                    timed_out,
                ),
            },
            (SparkState::PausedForCalculation { session, calculation }, SparkEvent::Waited) => {
                let r = Self::poll_calculation(session, calculation, false);
                assert(is_step(
                    r,
                    *pool,
                    ask_calculation(pool@, session@, calculation@, false),
                ));
                r
            },
            (
                SparkState::PausedForCalculation { session, calculation },
                SparkEvent::Cancelled,
            ) => {
                let cancelled = error(
                    OpsErrorKind::Cancelled,
                    "Python model execution was cancelled".to_owned(),
                );
                let r = Self::stop(session, calculation.as_str(), cancelled);
                assert(is_step(
                    r,
                    *pool,
                    stop_calculation(pool@, session@, calculation@, cancelled_error()),
                ));
                r
            },
            (SparkState::Stopping { session, error: reported }, SparkEvent::Answered { .. }) => {
                pool.release(session.as_str(), true);
                end(Err(reported))
            },
            _ => end(
                Err(
                    error(
                        OpsErrorKind::UnexpectedResult,
                        "unexpected event in a Spark run".to_owned(),
                    ),
                ),
            ),
        }
    }
}

/// A run has not used up its attempts: what every step keeps.
pub open spec fn attempts_within(state: StateView) -> bool {
    match state {
        StateView::StartingSession { attempts } => 0 <= attempts < MAX_START_ATTEMPTS,
        StateView::AwaitingSession { attempts, .. } => 0 <= attempts < MAX_START_ATTEMPTS,
        StateView::PausedForSession { attempts, .. } => 0 <= attempts < MAX_START_ATTEMPTS,
        StateView::StartingCalculation { attempts, .. } => 0 <= attempts < MAX_START_ATTEMPTS,
        _ => true,
    }
}

/// A session that a run was given is given back when the run ends, usable or gone: the
/// pool that an ending step leaves is the one with that session released.
pub proof fn a_run_gives_its_session_back(
    job: SparkJob,
    state: StateView,
    pool: Seq<SessionView>,
    event: EventView,
)
    requires
        next_step(job, state, pool, event).state is Ended,
    ensures
        (state matches StateView::StartingCalculation { session, .. } && event is Answered)
            ==> exists|usable: bool|
            next_step(job, state, pool, event).pool == #[trigger] released(
                pool,
                state->StartingCalculation_session,
                usable,
            ),
        (state is AwaitingCalculation && event is Answered) ==> next_step(
            job,
            state,
            pool,
            event,
        ).pool == released(pool, state->AwaitingCalculation_session, true),
        (state is Stopping && event is Answered) ==> next_step(job, state, pool, event).pool
            == released(pool, state->Stopping_session, true),
{
    match (state, event) {
        (
            StateView::StartingCalculation { attempts, session },
            EventView::Answered { reply, timed_out },
        ) => match reply {
            Err(e) => {
                assert(next_step(job, state, pool, event).pool == released(
                    pool,
                    session,
                    !tells_ended(e.message),
                ));
            },
            Ok(_) => {},
        },
        _ => {},
    }
}

} // verus!
