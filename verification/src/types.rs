//! The job and run model.

use vstd::prelude::*;

verus! {

/// When a job is due.
#[derive(Debug, PartialEq, Eq)]
pub enum CronSchedule {
    /// Once, at an absolute time.
    At { at_ms: u64 },
    /// Again and again, a fixed time apart.
    Every { every_ms: u64 },
    /// At the times that a five-field cron expression names, in UTC.
    Cron { expr: String },
}

/// What a job executes. The engine only passes it on.
#[derive(Debug, PartialEq, Eq)]
pub enum CronPayload {
    /// A text to inject as a system event.
    SystemEvent { text: String },
    /// A prompt for an agent turn.
    AgentTurn { message: String },
}

/// Where the output of a job goes.
#[derive(Debug, PartialEq, Eq)]
pub enum SessionTarget {
    Main,
    Named(String),
}

/// The scheduling state of a job.
#[derive(Clone, Copy, Debug, PartialEq, Eq, Structural)]
pub struct CronJobState {
    pub last_fired_ms: Option<u64>,
    pub next_fire_ms: Option<u64>,
    pub consecutive_failures: u32,
}

/// A scheduled unit of work.
#[derive(Debug, PartialEq, Eq)]
pub struct CronJob {
    pub id: String,
    pub name: String,
    pub enabled: bool,
    pub delete_after_run: bool,
    pub schedule: CronSchedule,
    pub payload: CronPayload,
    pub session_target: SessionTarget,
    pub state: CronJobState,
    pub created_at_ms: u64,
    pub updated_at_ms: u64,
}

/// How an execution attempt ended.
#[derive(Clone, Copy, Debug, PartialEq, Eq, Structural)]
pub enum RunStatus {
    Succeeded,
    Failed,
    /// Not executed, because an earlier run of the same job was still in flight.
    Skipped,
}

/// One entry of a job's run history.
#[derive(Debug, PartialEq, Eq)]
pub struct CronRunRecord {
    pub job_id: String,
    pub started_at_ms: u64,
    pub finished_at_ms: u64,
    pub status: RunStatus,
    pub error: Option<String>,
    pub duration_ms: u64,
    pub output: Option<String>,
}

/// What a caller gives to create a job.
#[derive(Debug, PartialEq, Eq)]
pub struct CronJobCreate {
    pub name: String,
    pub schedule: CronSchedule,
    pub payload: CronPayload,
    pub session_target: Option<SessionTarget>,
    pub enabled: Option<bool>,
    pub delete_after_run: Option<bool>,
}

/// A partial update of a job: only the fields that are present change.
#[derive(Debug, PartialEq, Eq)]
pub struct CronJobPatch {
    pub name: Option<String>,
    pub enabled: Option<bool>,
    pub delete_after_run: Option<bool>,
    pub schedule: Option<CronSchedule>,
    pub payload: Option<CronPayload>,
    pub session_target: Option<SessionTarget>,
}

/// Why an operation failed.
#[derive(Debug, PartialEq, Eq)]
pub enum CronError {
    /// A schedule or payload is malformed; the text says what is wrong.
    Validation(String),
    /// No job has the id that the error carries.
    NotFound(String),
    /// The storage backend could not read or write.
    StoreIo(String),
}

/// What the execution collaborator reports of one attempt.
#[derive(Debug, PartialEq, Eq)]
pub enum RunOutcome {
    Succeeded { output: Option<String> },
    Failed { error: String, output: Option<String> },
}

/// What a schedule says.
pub enum ScheduleView {
    At { at_ms: u64 },
    Every { every_ms: u64 },
    Cron { expr: Seq<char> },
}

/// What a payload says.
pub enum PayloadView {
    SystemEvent { text: Seq<char> },
    AgentTurn { message: Seq<char> },
}

/// What a session target says.
pub enum TargetView {
    Main,
    Named(Seq<char>),
}

/// What a job says.
pub struct JobView {
    pub id: Seq<char>,
    pub name: Seq<char>,
    pub enabled: bool,
    pub delete_after_run: bool,
    pub schedule: ScheduleView,
    pub payload: PayloadView,
    pub session_target: TargetView,
    pub state: CronJobState,
    pub created_at_ms: u64,
    pub updated_at_ms: u64,
}

/// What a run record says.
pub struct RunView {
    pub job_id: Seq<char>,
    pub started_at_ms: u64,
    pub finished_at_ms: u64,
    pub status: RunStatus,
    pub error: Option<Seq<char>>,
    pub duration_ms: u64,
    pub output: Option<Seq<char>>,
}

/// What a request to create a job says.
pub struct CreateView {
    pub name: Seq<char>,
    pub schedule: ScheduleView,
    pub payload: PayloadView,
    pub session_target: Option<TargetView>,
    pub enabled: Option<bool>,
    pub delete_after_run: Option<bool>,
}

/// What a patch says.
pub struct PatchView {
    pub name: Option<Seq<char>>,
    pub enabled: Option<bool>,
    pub delete_after_run: Option<bool>,
    pub schedule: Option<ScheduleView>,
    pub payload: Option<PayloadView>,
    pub session_target: Option<TargetView>,
}

/// What the report of an attempt says.
pub enum OutcomeView {
    Succeeded { output: Option<Seq<char>> },
    Failed { error: Seq<char>, output: Option<Seq<char>> },
}

/// What an optional text says.
pub open spec fn text_view(o: Option<String>) -> Option<Seq<char>> {
    match o {
        Some(s) => Some(s@),
        None => None,
    }
}

impl View for CronSchedule {
    type V = ScheduleView;

    open spec fn view(&self) -> ScheduleView {
        match self {
            CronSchedule::At { at_ms } => ScheduleView::At { at_ms: *at_ms },
            CronSchedule::Every { every_ms } => ScheduleView::Every { every_ms: *every_ms },
            CronSchedule::Cron { expr } => ScheduleView::Cron { expr: expr@ },
        }
    }
}

impl View for CronPayload {
    type V = PayloadView;

    open spec fn view(&self) -> PayloadView {
        match self {
            CronPayload::SystemEvent { text } => PayloadView::SystemEvent { text: text@ },
            CronPayload::AgentTurn { message } => PayloadView::AgentTurn { message: message@ },
        }
    }
}

impl View for SessionTarget {
    type V = TargetView;

    open spec fn view(&self) -> TargetView {
        match self {
            SessionTarget::Main => TargetView::Main,
            SessionTarget::Named(name) => TargetView::Named(name@),
        }
    }
}

impl View for CronJob {
    type V = JobView;

    open spec fn view(&self) -> JobView {
        JobView {
            id: self.id@,
            name: self.name@,
            enabled: self.enabled,
            delete_after_run: self.delete_after_run,
            schedule: self.schedule@,
            payload: self.payload@,
            session_target: self.session_target@,
            state: self.state,
            created_at_ms: self.created_at_ms,
            updated_at_ms: self.updated_at_ms,
        }
    }
}

impl View for CronRunRecord {
    type V = RunView;

    open spec fn view(&self) -> RunView {
        RunView {
            job_id: self.job_id@,
            started_at_ms: self.started_at_ms,
            finished_at_ms: self.finished_at_ms,
            status: self.status,
            error: text_view(self.error),
            duration_ms: self.duration_ms,
            output: text_view(self.output),
        }
    }
}

impl View for RunOutcome {
    type V = OutcomeView;

    open spec fn view(&self) -> OutcomeView {
        match self {
            RunOutcome::Succeeded { output } => OutcomeView::Succeeded {
                output: text_view(*output),
            },
            RunOutcome::Failed { error, output } => OutcomeView::Failed {
                error: error@,
                output: text_view(*output),
            },
        }
    }
}

impl View for CronJobCreate {
    type V = CreateView;

    open spec fn view(&self) -> CreateView {
        CreateView {
            name: self.name@,
            schedule: self.schedule@,
            payload: self.payload@,
            session_target: match self.session_target {
                Some(t) => Some(t@),
                None => None,
            },
            enabled: self.enabled,
            delete_after_run: self.delete_after_run,
        }
    }
}

impl View for CronJobPatch {
    type V = PatchView;

    open spec fn view(&self) -> PatchView {
        PatchView {
            name: text_view(self.name),
            enabled: self.enabled,
            delete_after_run: self.delete_after_run,
            schedule: match self.schedule {
                Some(s) => Some(s@),
                None => None,
            },
            payload: match self.payload {
                Some(p) => Some(p@),
                None => None,
            },
            session_target: match self.session_target {
                Some(t) => Some(t@),
                None => None,
            },
        }
    }
}

/// The views of a sequence of jobs.
pub open spec fn job_views(jobs: Seq<CronJob>) -> Seq<JobView> {
    jobs.map_values(|j: CronJob| j@)
}

/// The views of a sequence of run records.
pub open spec fn run_views(runs: Seq<CronRunRecord>) -> Seq<RunView> {
    runs.map_values(|r: CronRunRecord| r@)
}

pub fn clone_text(o: &Option<String>) -> (r: Option<String>)
    ensures
        r == *o,
{
    match o {
        Some(s) => Some(s.clone()),
        None => None,
    }
}

impl Clone for CronSchedule {
    fn clone(&self) -> (r: Self)
        ensures
            r == *self,
    {
        match self {
            CronSchedule::At { at_ms } => CronSchedule::At { at_ms: *at_ms },
            CronSchedule::Every { every_ms } => CronSchedule::Every { every_ms: *every_ms },
            CronSchedule::Cron { expr } => CronSchedule::Cron { expr: expr.clone() },
        }
    }
}

impl Clone for CronPayload {
    fn clone(&self) -> (r: Self)
        ensures
            r == *self,
    {
        match self {
            CronPayload::SystemEvent { text } => CronPayload::SystemEvent { text: text.clone() },
            CronPayload::AgentTurn { message } => CronPayload::AgentTurn {
                message: message.clone(),
            },
        }
    }
}

impl Clone for SessionTarget {
    fn clone(&self) -> (r: Self)
        ensures
            r == *self,
    {
        match self {
            SessionTarget::Main => SessionTarget::Main,
            SessionTarget::Named(name) => SessionTarget::Named(name.clone()),
        }
    }
}

impl Clone for CronJob {
    fn clone(&self) -> (r: Self)
        ensures
            r == *self,
    {
        CronJob {
            id: self.id.clone(),
            name: self.name.clone(),
            enabled: self.enabled,
            delete_after_run: self.delete_after_run,
            schedule: self.schedule.clone(),
            payload: self.payload.clone(),
            session_target: self.session_target.clone(),
            state: self.state,
            created_at_ms: self.created_at_ms,
            updated_at_ms: self.updated_at_ms,
        }
    }
}

impl Clone for CronRunRecord {
    fn clone(&self) -> (r: Self)
        ensures
            r == *self,
    {
        CronRunRecord {
            job_id: self.job_id.clone(),
            started_at_ms: self.started_at_ms,
            finished_at_ms: self.finished_at_ms,
            status: self.status,
            error: clone_text(&self.error),
            duration_ms: self.duration_ms,
            output: clone_text(&self.output),
        }
    }
}

impl Default for CronJobState {
    fn default() -> (r: Self)
        ensures
            r == (CronJobState {
                last_fired_ms: None,
                next_fire_ms: None,
                consecutive_failures: 0,
            }),
    {
        CronJobState { last_fired_ms: None, next_fire_ms: None, consecutive_failures: 0 }
    }
}

/// What the error of a malformed job says in words.
pub open spec fn invalid_text(reason: Seq<char>) -> Seq<char> {
    "invalid job: "@ + reason
}

/// What the error of a missing job says in words.
pub open spec fn not_found_text(id: Seq<char>) -> Seq<char> {
    "job not found: "@ + id
}

/// What the error of a failing store says in words.
pub open spec fn store_failure_text(reason: Seq<char>) -> Seq<char> {
    "store failure: "@ + reason
}

/// What an error says in words.
pub open spec fn error_message(e: CronError) -> Seq<char> {
    match e {
        CronError::Validation(reason) => invalid_text(reason@),
        CronError::NotFound(id) => not_found_text(id@),
        CronError::StoreIo(reason) => store_failure_text(reason@),
    }
}

/// `text` is what the error of a malformed job says.
pub open spec fn says_invalid(text: Seq<char>) -> bool {
    exists|reason: Seq<char>| text == #[trigger] invalid_text(reason)
}

/// `text` is what the error of a failing store says.
pub open spec fn says_store_failure(text: Seq<char>) -> bool {
    exists|reason: Seq<char>| text == #[trigger] store_failure_text(reason)
}

impl CronError {
    /// The error in words.
    pub fn message(&self) -> (r: String)
        ensures
            r@ == error_message(*self),
            self is Validation ==> says_invalid(r@),
            self is StoreIo ==> says_store_failure(r@),
    {
        proof {
            if self is Validation {
                assert(error_message(*self) == invalid_text(self->Validation_0@));
            }
            if self is StoreIo {
                assert(error_message(*self) == store_failure_text(self->StoreIo_0@));
            }
        }
        match self {
            CronError::Validation(reason) => crate::text::joined_text(
                "invalid job: ",
                reason.as_str(),
            ),
            CronError::NotFound(id) => crate::text::joined_text("job not found: ", id.as_str()),
            CronError::StoreIo(reason) => crate::text::joined_text(
                "store failure: ",
                reason.as_str(),
            ),
        }
    }
}

impl RunView {
    /// The record is consistent: it does not end before it starts, the duration is the
    /// difference of the two times, and an error text is there exactly when the status is
    /// not `Succeeded`.
    pub open spec fn well_formed(self) -> bool {
        &&& self.started_at_ms <= self.finished_at_ms
        &&& self.duration_ms == self.finished_at_ms - self.started_at_ms
        &&& self.error.is_some() == (self.status != RunStatus::Succeeded)
    }
}

impl JobView {
    /// The job was not updated before it was created.
    pub open spec fn well_formed(self) -> bool {
        self.created_at_ms <= self.updated_at_ms
    }
}

} // verus!
