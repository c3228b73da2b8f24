//! The cron service: job creation and mutation, run bookkeeping with at most one run of a
//! job in flight, and the scheduler's view of which jobs are due.
//!
//! The service is a sequential state machine. Whoever drives it supplies the time and the
//! ids of new jobs, and may let other calls come between the start and the end of a run:
//! a second start of a job whose run is still in flight is recorded as skipped.

use vstd::prelude::*;
use crate::schedule::{
    due, is_due, job_fires_next, next_fire_of_job, reference_time, schedule_valid,
    validate_schedule,
};
use crate::status::{enabled_count, next_fires, summarise, CronStatus};
use crate::store::{
    chronological, find_job, has_job, index_of, lemma_index_of, lemma_upsert, lemma_with_run,
    lemma_without, unique_ids, upsert, with_run, without, CronStore,
};
use crate::types::{
    clone_text, job_views, text_view, CreateView, CronError, CronJob, CronJobCreate,
    CronJobPatch, CronJobState, CronPayload, CronRunRecord, JobView, OutcomeView, PatchView,
    PayloadView, RunOutcome, RunStatus, RunView, SessionTarget, TargetView,
};

verus! {

/// The cron service over a store `S`.
pub struct CronService<S: CronStore> {
    pub store: S,
    /// The ids of the jobs that have a run in flight.
    pub running: Vec<String>,
    /// The error text of the last failed run, if any run has failed.
    pub last_error: Option<String>,
}

/// The texts of a sequence of strings.
pub open spec fn texts(ids: Seq<String>) -> Seq<Seq<char>> {
    ids.map_values(|s: String| s@)
}

/// A payload that can be stored: its text is not empty.
pub open spec fn payload_valid(p: PayloadView) -> bool {
    match p {
        PayloadView::SystemEvent { text } => text.len() > 0,
        PayloadView::AgentTurn { message } => message.len() > 0,
    }
}

/// A request to create a job that can be granted.
pub open spec fn create_valid(c: CreateView) -> bool {
    schedule_valid(c.schedule) && payload_valid(c.payload)
}

/// The job that a request creates under the id `id` at the time `now_ms`, with `next` as
/// its cached next fire time. What the request leaves open is enabled, kept after its
/// run, and bound to the main session.
pub open spec fn created_job(
    c: CreateView,
    id: Seq<char>,
    now_ms: u64,
    next: Option<u64>,
) -> JobView {
    JobView {
        id,
        name: c.name,
        enabled: match c.enabled {
            Some(e) => e,
            None => true,
        },
        delete_after_run: match c.delete_after_run {
            Some(d) => d,
            None => false,
        },
        schedule: c.schedule,
        payload: c.payload,
        session_target: match c.session_target {
            Some(t) => t,
            None => TargetView::Main,
        },
        state: CronJobState { last_fired_ms: None, next_fire_ms: next, consecutive_failures: 0 },
        created_at_ms: now_ms,
        updated_at_ms: now_ms,
    }
}

/// A patch that can be applied: what it brings of schedule and payload is well formed.
pub open spec fn patch_valid(p: PatchView) -> bool {
    &&& p.schedule matches Some(s) ==> schedule_valid(s)
    &&& p.payload matches Some(x) ==> payload_valid(x)
}

/// The later of two times.
pub open spec fn later_of(a: u64, b: u64) -> u64 {
    if a >= b {
        a
    } else {
        b
    }
}

/// The later of two times.
pub fn later(a: u64, b: u64) -> (r: u64)
    ensures
        r == later_of(a, b),
{
    if a >= b {
        a
    } else {
        b
    }
}

/// `job` with the fields that the patch brings, updated at `now_ms`, with `next` as
/// its cached next fire time. The id, the creation time and the rest of the state stay.
/// The time of the update never goes back: it is `now_ms` unless the clock is behind the
/// job's last update or its creation.
pub open spec fn patched_job(
    job: JobView,
    p: PatchView,
    now_ms: u64,
    next: Option<u64>,
) -> JobView {
    JobView {
        id: job.id,
        name: match p.name {
            Some(n) => n,
            None => job.name,
        },
        enabled: match p.enabled {
            Some(e) => e,
            None => job.enabled,
        },
        delete_after_run: match p.delete_after_run {
            Some(d) => d,
            None => job.delete_after_run,
        },
        schedule: match p.schedule {
            Some(s) => s,
            None => job.schedule,
        },
        payload: match p.payload {
            Some(x) => x,
            None => job.payload,
        },
        session_target: match p.session_target {
            Some(t) => t,
            None => job.session_target,
        },
        state: CronJobState { next_fire_ms: next, ..job.state },
        created_at_ms: job.created_at_ms,
        updated_at_ms: later_of(now_ms, later_of(job.updated_at_ms, job.created_at_ms)),
    }
}

/// The record of an attempt that was skipped at `now_ms` because a run of the job was
/// in flight.
pub open spec fn skipped_run(id: Seq<char>, now_ms: u64) -> RunView {
    RunView {
        job_id: id,
        started_at_ms: now_ms,
        finished_at_ms: now_ms,
        status: RunStatus::Skipped,
        error: Some("skipped: a previous run is still in flight"@),
        duration_ms: 0,
        output: None,
    }
}

/// The record of an attempt that ran from `started` to `finished` and ended as `outcome`
/// says. An attempt that is reported to end before it started counts as ending at its
/// start.
pub open spec fn finished_run(
    id: Seq<char>,
    started: u64,
    finished: u64,
    outcome: OutcomeView,
) -> RunView {
    let end = if finished >= started {
        finished
    } else {
        started
    };
    RunView {
        job_id: id,
        started_at_ms: started,
        finished_at_ms: end,
        status: match outcome {
            OutcomeView::Succeeded { .. } => RunStatus::Succeeded,
            OutcomeView::Failed { .. } => RunStatus::Failed,
        },
        error: match outcome {
            OutcomeView::Succeeded { .. } => None,
            OutcomeView::Failed { error, .. } => Some(error),
        },
        duration_ms: (end - started) as u64,
        output: match outcome {
            OutcomeView::Succeeded { output } => output,
            OutcomeView::Failed { output, .. } => output,
        },
    }
}

/// `job` after a run that started at `started` and ended with `status`, with `next` as
/// its cached next fire time: it has fired at `started`, and its failures in a row are
/// none after a success and one more otherwise.
pub open spec fn job_after_run(
    job: JobView,
    started: u64,
    status: RunStatus,
    next: Option<u64>,
) -> JobView {
    JobView {
        state: CronJobState {
            last_fired_ms: Some(started),
            next_fire_ms: next,
            consecutive_failures: if status == RunStatus::Succeeded {
                0
            } else if job.state.consecutive_failures < u32::MAX {
                (job.state.consecutive_failures + 1) as u32
            } else {
                u32::MAX
            },
        },
        ..job
    }
}

/// The jobs that the service makes are well formed: a new job, a patched job, and a
/// well-formed job after a run.
pub proof fn lemma_jobs_stay_well_formed(
    c: CreateView,
    id: Seq<char>,
    job: JobView,
    p: PatchView,
    now_ms: u64,
    status: RunStatus,
    next: Option<u64>,
)
    ensures
        created_job(c, id, now_ms, next).well_formed(),
        patched_job(job, p, now_ms, next).well_formed(),
        patched_job(job, p, now_ms, next).updated_at_ms >= job.updated_at_ms,
        patched_job(job, p, now_ms, next).updated_at_ms >= now_ms,
        now_ms >= job.updated_at_ms && now_ms >= job.created_at_ms ==> patched_job(
            job,
            p,
            now_ms,
            next,
        ).updated_at_ms == now_ms,
        job.well_formed() ==> job_after_run(job, now_ms, status, next).well_formed(),
{
}

/// The records that the service makes are well formed.
pub proof fn lemma_records_are_well_formed(
    id: Seq<char>,
    started: u64,
    finished: u64,
    outcome: OutcomeView,
)
    ensures
        skipped_run(id, started).well_formed(),
        finished_run(id, started, finished, outcome).well_formed(),
        finished_run(id, started, finished, outcome).status != RunStatus::Skipped,
{
}

/// How the start of a run went.
#[derive(Debug, PartialEq, Eq)]
pub enum RunStart {
    /// The job is now running; the caller executes it and reports the end.
    Started(CronJob),
    /// A run of the job is in flight; the attempt was recorded as skipped.
    Skipped(CronRunRecord),
    /// The run was not forced, and the job is disabled or not due.
    NotDue,
}

/// How a run went.
#[derive(Debug, PartialEq, Eq)]
pub enum RunResult {
    /// The job was executed; the record says how it ended.
    Ran(CronRunRecord),
    /// A run of the job is in flight; the attempt was recorded as skipped.
    Skipped(CronRunRecord),
    /// The run was not forced, and the job is disabled or not due.
    NotDue,
}

/// What the execution collaborator reports of one attempt, with the time at which it
/// ended.
#[derive(Debug, PartialEq, Eq)]
pub struct RunReport {
    pub outcome: RunOutcome,
    pub finished_at_ms: u64,
}

/// The execution collaborator: runs the payload of a job in an isolated context, within
/// a bounded time. A timeout is reported as a failure.
pub trait Executor {
    /// `r` is a report that the executor may give of an execution of `job`. An executor
    /// that does not say what it reports may report anything.
    open spec fn reports(&self, job: JobView, r: RunReport) -> bool {
        true
    }

    fn execute(&self, job: &CronJob) -> (r: RunReport)
        ensures
            self.reports(job@, r),
    ;
}

/// Checks that a payload can be stored.
pub fn validate_payload(payload: &CronPayload) -> (r: Result<(), CronError>)
    ensures
        r.is_ok() == payload_valid(payload@),
        r matches Err(e) ==> e is Validation,
{
    let empty = match payload {
        CronPayload::SystemEvent { text } => text.as_str().is_empty(),
        CronPayload::AgentTurn { message } => message.as_str().is_empty(),
    };
    if empty {
        Err(CronError::Validation("payload must not be empty".to_string()))
    } else {
        Ok(())
    }
}

/// The place in `jobs` of the job with the id `id`.
fn position_of(jobs: &Vec<CronJob>, id: &str) -> (r: Option<usize>)
    requires
        unique_ids(job_views(jobs@)),
    ensures
        match r {
            Some(i) => i < jobs@.len() && has_job(job_views(jobs@), id@) && index_of(
                job_views(jobs@),
                id@,
            ) == i && find_job(job_views(jobs@), id@) == Some(jobs@[i as int]@),
            None => !has_job(job_views(jobs@), id@),
        },
{
    let key = id.to_owned();
    let mut i: usize = 0;
    while i < jobs.len()
        invariant
            i <= jobs@.len(),
            key@ == id@,
            unique_ids(job_views(jobs@)),
            forall|j: int| 0 <= j < i ==> (#[trigger] job_views(jobs@)[j]).id != id@,
        decreases jobs@.len() - i,
    {
        if jobs[i].id == key {
            proof {
                lemma_index_of(job_views(jobs@), i as int);
            }
            return Some(i);
        }
        i = i + 1;
    }
    None
}

impl<S: CronStore> CronService<S> {
    /// The store is valid and no job is entered twice as running.
    pub open spec fn valid(&self) -> bool {
        &&& self.store.valid()
        &&& forall|i: int, j: int|
            0 <= i < j < self.running@.len() ==> (#[trigger] self.running@[i])@ != (
            #[trigger] self.running@[j])@
    }

    /// A run of the job `id` is in flight.
    pub open spec fn is_running(&self, id: Seq<char>) -> bool {
        texts(self.running@).contains(id)
    }

    /// The same jobs and the same run histories.
    pub open spec fn same_store(&self, other: &Self) -> bool {
        &&& self.store.jobs() == other.store.jobs()
        &&& forall|id: Seq<char>| #[trigger] self.store.runs_for(id) == other.store.runs_for(id)
    }

    /// A service over `store`, with no run in flight.
    pub fn new(store: S) -> (r: Self)
        requires
            store.valid(),
        ensures
            r.valid(),
            r.store == store,
            r.running@.len() == 0,
            r.last_error.is_none(),
    {
        CronService { store, running: Vec::new(), last_error: None }
    }

    /// All jobs.
    pub fn list(&self) -> (r: Result<Vec<CronJob>, CronError>)
        requires
            self.valid(),
        ensures
            self.store.dependable() ==> r.is_ok(),
            match r {
                Ok(v) => job_views(v@) == self.store.jobs(),
                Err(e) => e is StoreIo,
            },
    {
        self.store.load_jobs()
    }

    /// The most recent `limit` runs of the job `id`, oldest first.
    pub fn runs(&self, id: &str, limit: usize) -> (r: Result<Vec<CronRunRecord>, CronError>)
        requires
            self.valid(),
        ensures
            self.store.dependable() ==> r.is_ok(),
            match r {
                Ok(v) => crate::types::run_views(v@) == crate::store::latest(
                    self.store.runs_for(id@),
                    limit as int,
                ),
                Err(e) => e is StoreIo,
            },
    {
        self.store.get_runs(id, limit)
    }

    /// Deletes the job `id`. A run of it that is in flight goes on.
    pub fn remove(&mut self, id: &str) -> (r: Result<(), CronError>)
        requires
            old(self).valid(),
        ensures
            final(self).valid(),
            removed(*old(self), *final(self), id@, r),
    {
        self.store.delete_job(id)
    }

    /// Counts of enabled and disabled jobs and of runs in flight, the next few fire
    /// times, and the last error.
    pub fn status(&self) -> (r: Result<CronStatus, CronError>)
        requires
            self.valid(),
        ensures
            self.store.dependable() ==> r.is_ok(),
            match r {
                Ok(s) => {
                    &&& s.enabled_jobs == enabled_count(self.store.jobs())
                    &&& s.enabled_jobs + s.disabled_jobs == self.store.jobs().len()
                    &&& s.running_jobs == self.running@.len()
                    &&& s.next_fires_ms@ == next_fires(self.store.jobs())
                    &&& text_view(s.last_error) == text_view(self.last_error)
                },
                Err(e) => e is StoreIo,
            },
    {
        let jobs = self.store.load_jobs()?;
        let (enabled, disabled, shown) = summarise(&jobs);
        Ok(
            CronStatus {
                enabled_jobs: enabled,
                disabled_jobs: disabled,
                running_jobs: self.running.len(),
                next_fires_ms: shown,
                last_error: clone_text(&self.last_error),
            },
        )
    }

    /// Creates a job from `create` under the id `id` at the time `now_ms`.
    ///
    /// The request is refused as invalid if its schedule or payload is malformed or if
    /// the id is in use; nothing is stored then.
    pub fn add(&mut self, create: CronJobCreate, id: String, now_ms: u64) -> (r: Result<
        CronJob,
        CronError,
    >)
        requires
            old(self).valid(),
        ensures
            final(self).valid(),
            added(*old(self), *final(self), create@, id@, now_ms, r),
    {
        validate_schedule(&create.schedule)?;
        validate_payload(&create.payload)?;
        let jobs = self.store.load_jobs()?;
        if position_of(&jobs, id.as_str()).is_some() {
            return Err(CronError::Validation("job id is already in use".to_string()));
        }
        let mut job = CronJob {
            id,
            name: create.name,
            enabled: match create.enabled {
                Some(e) => e,
                None => true,
            },
            delete_after_run: match create.delete_after_run {
                Some(d) => d,
                None => false,
            },
            schedule: create.schedule,
            payload: create.payload,
            session_target: match create.session_target {
                Some(t) => t,
                None => SessionTarget::Main,
            },
            state: CronJobState {
                last_fired_ms: None,
                next_fire_ms: None,
                consecutive_failures: 0,
            },
            created_at_ms: now_ms,
            updated_at_ms: now_ms,
        };
        let next = next_fire_of_job(&job, now_ms);
        job.state.next_fire_ms = next;
        self.store.save_job(&job)?;
        Ok(job)
    }
}

/// Over a dependable store the outcome of an operation is owed: it succeeds exactly
/// when `due` says so, and never fails as a failure of the store. A store stays
/// dependable or not as it is.
pub open spec fn dependably<S: CronStore>(
    before: CronService<S>,
    after: CronService<S>,
    succeeded: bool,
    store_failed: bool,
    due: bool,
) -> bool {
    &&& after.store.dependable() == before.store.dependable()
    &&& before.store.dependable() ==> succeeded == due && !store_failed
}

/// What `remove` does: the job `id` is gone, or the error says why not, and then nothing
/// has changed. Runs in flight and histories stay. Over a dependable store it succeeds
/// exactly if there is such a job.
pub open spec fn removed<S: CronStore>(
    before: CronService<S>,
    after: CronService<S>,
    id: Seq<char>,
    r: Result<(), CronError>,
) -> bool {
    &&& dependably(
        before,
        after,
        r.is_ok(),
        r is Err && r->Err_0 is StoreIo,
        has_job(before.store.jobs(), id),
    )
    &&& after.running == before.running
    &&& after.last_error == before.last_error
    &&& forall|other: Seq<char>|
        #[trigger] after.store.runs_for(other) == before.store.runs_for(other)
    &&& !has_job(before.store.jobs(), id) ==> r.is_err()
    &&& match r {
        Ok(_) => has_job(before.store.jobs(), id) && after.store.jobs() == without(
            before.store.jobs(),
            id,
        ),
        Err(e) => {
            &&& after.store.jobs() == before.store.jobs()
            &&& match e {
                CronError::NotFound(missing) => missing@ == id && !has_job(
                    before.store.jobs(),
                    id,
                ),
                CronError::StoreIo(_) => true,
                CronError::Validation(_) => false,
            }
        },
    }
}

/// What `add` does: the job that the request creates is appended to the jobs, or the
/// error says why not, and then nothing has changed. A request that is not valid always
/// fails as invalid. Over a dependable store it succeeds exactly if the request is valid
/// and the id is free.
pub open spec fn added<S: CronStore>(
    before: CronService<S>,
    after: CronService<S>,
    create: CreateView,
    id: Seq<char>,
    now_ms: u64,
    r: Result<CronJob, CronError>,
) -> bool {
    &&& dependably(
        before,
        after,
        r.is_ok(),
        r is Err && r->Err_0 is StoreIo,
        create_valid(create) && !has_job(before.store.jobs(), id),
    )
    &&& after.running == before.running
    &&& after.last_error == before.last_error
    &&& forall|other: Seq<char>|
        #[trigger] after.store.runs_for(other) == before.store.runs_for(other)
    &&& !create_valid(create) ==> (r is Err && r->Err_0 is Validation)
    &&& match r {
        Ok(job) => {
            &&& create_valid(create)
            &&& !has_job(before.store.jobs(), id)
            &&& job@ == created_job(create, id, now_ms, job@.state.next_fire_ms)
            &&& job_fires_next(job@, now_ms, job@.state.next_fire_ms)
            &&& after.store.jobs() == before.store.jobs().push(job@)
        },
        Err(e) => {
            &&& after.store.jobs() == before.store.jobs()
            &&& match e {
                CronError::Validation(_) => !create_valid(create) || has_job(
                    before.store.jobs(),
                    id,
                ),
                CronError::StoreIo(_) => create_valid(create),
                CronError::NotFound(_) => false,
            }
        },
    }
}

/// What `update` does: the job `id` is replaced by the patched job, or the error says
/// why not, and then nothing has changed. Over a dependable store it succeeds exactly if
/// there is such a job and the patch is valid.
pub open spec fn updated<S: CronStore>(
    before: CronService<S>,
    after: CronService<S>,
    id: Seq<char>,
    patch: PatchView,
    now_ms: u64,
    r: Result<CronJob, CronError>,
) -> bool {
    &&& dependably(
        before,
        after,
        r.is_ok(),
        r is Err && r->Err_0 is StoreIo,
        has_job(before.store.jobs(), id) && patch_valid(patch),
    )
    &&& after.running == before.running
    &&& after.last_error == before.last_error
    &&& forall|other: Seq<char>|
        #[trigger] after.store.runs_for(other) == before.store.runs_for(other)
    &&& !has_job(before.store.jobs(), id) ==> r.is_err()
    &&& match r {
        Ok(job) => {
            &&& find_job(before.store.jobs(), id) matches Some(found)
            &&& patch_valid(patch)
            &&& job@ == patched_job(found, patch, now_ms, job@.state.next_fire_ms)
            &&& job_fires_next(job@, reference_time(job@), job@.state.next_fire_ms)
            &&& job@.well_formed()
            &&& after.store.jobs() == upsert(before.store.jobs(), job@)
        },
        Err(e) => {
            &&& after.store.jobs() == before.store.jobs()
            &&& match e {
                CronError::NotFound(missing) => missing@ == id && !has_job(
                    before.store.jobs(),
                    id,
                ),
                CronError::Validation(_) => has_job(before.store.jobs(), id) && !patch_valid(
                    patch,
                ),
                CronError::StoreIo(_) => true,
            }
        },
    }
}

/// The jobs other than `id` are as they were, and so are their histories.
pub open spec fn others_kept<S: CronStore>(
    before: CronService<S>,
    after: CronService<S>,
    id: Seq<char>,
) -> bool {
    &&& forall|other: Seq<char>|
        other != id ==> #[trigger] after.store.runs_for(other) == before.store.runs_for(other)
    &&& forall|other: Seq<char>|
        other != id ==> #[trigger] find_job(after.store.jobs(), other) == find_job(
            before.store.jobs(),
            other,
        )
}

/// What a run leaves in the store when the job `id` was executed and `record` says how
/// it ended: the record in the history of the job, and the job deleted if it is to be
/// deleted after its run, else with its new state.
pub open spec fn settled<S: CronStore>(
    before: CronService<S>,
    after: CronService<S>,
    id: Seq<char>,
    record: RunView,
) -> bool {
    &&& after.store.runs_for(id) == with_run(before.store.runs_for(id), record)
    &&& match find_job(before.store.jobs(), id) {
        None => after.store.jobs() == before.store.jobs(),
        Some(job) => if job.delete_after_run {
            &&& after.store.jobs() == without(before.store.jobs(), id)
            &&& !has_job(after.store.jobs(), id)
        } else {
            &&& find_job(after.store.jobs(), id) matches Some(next)
            &&& next == job_after_run(
                job,
                record.started_at_ms,
                record.status,
                next.state.next_fire_ms,
            )
            &&& job_fires_next(next, record.started_at_ms, next.state.next_fire_ms)
            &&& after.store.jobs() == upsert(before.store.jobs(), next)
        },
    }
}

/// What `begin_run` does. The jobs stay as they are. A job that has a run in flight is
/// not started again: the attempt is recorded as skipped. Otherwise the job counts as
/// running from now on. Over a dependable store it succeeds exactly if there is such a
/// job.
pub open spec fn began<S: CronStore>(
    before: CronService<S>,
    after: CronService<S>,
    id: Seq<char>,
    force: bool,
    now_ms: u64,
    r: Result<RunStart, CronError>,
) -> bool {
    &&& dependably(
        before,
        after,
        r.is_ok(),
        r is Err && r->Err_0 is StoreIo,
        has_job(before.store.jobs(), id),
    )
    &&& after.last_error == before.last_error
    &&& after.store.jobs() == before.store.jobs()
    &&& others_kept(before, after, id)
    &&& !has_job(before.store.jobs(), id) ==> r.is_err()
    &&& match r {
        Ok(RunStart::Started(job)) => {
            &&& find_job(before.store.jobs(), id) == Some(job@)
            &&& force || is_due(job@, now_ms)
            &&& !before.is_running(id)
            &&& forall|x: Seq<char>|
                #[trigger] after.is_running(x) == (before.is_running(x) || x == id)
            &&& after.store.runs_for(id) == before.store.runs_for(id)
        },
        Ok(RunStart::Skipped(record)) => {
            &&& find_job(before.store.jobs(), id) matches Some(job)
            &&& force || is_due(job, now_ms)
            &&& before.is_running(id)
            &&& after.running == before.running
            &&& record@ == skipped_run(id, now_ms)
            &&& after.store.runs_for(id) == with_run(before.store.runs_for(id), record@)
        },
        Ok(RunStart::NotDue) => {
            &&& find_job(before.store.jobs(), id) matches Some(job)
            &&& !force
            &&& !is_due(job, now_ms)
            &&& after.running == before.running
            &&& after.store.runs_for(id) == before.store.runs_for(id)
        },
        Err(e) => {
            &&& after.running == before.running
            &&& after.store.runs_for(id) == before.store.runs_for(id)
            &&& match e {
                CronError::NotFound(missing) => missing@ == id && !has_job(
                    before.store.jobs(),
                    id,
                ),
                CronError::StoreIo(_) => true,
                CronError::Validation(_) => false,
            }
        },
    }
}

/// While a run of a job is in flight, no second run of it starts: a forced start that
/// comes before the end of the first is recorded as skipped, or fails.
pub proof fn lemma_second_start_is_skipped<S: CronStore>(
    first: CronService<S>,
    second: CronService<S>,
    third: CronService<S>,
    id: Seq<char>,
    force: bool,
    t1: u64,
    t2: u64,
    r1: Result<RunStart, CronError>,
    r2: Result<RunStart, CronError>,
)
    requires
        began(first, second, id, force, t1, r1),
        r1 matches Ok(RunStart::Started(_)),
        began(second, third, id, true, t2, r2),
    ensures
        second.is_running(id),
        third.is_running(id),
        r2 matches Ok(RunStart::Skipped(record)) ==> record@ == skipped_run(id, t2),
        !(r2 matches Ok(RunStart::Started(_))),
        !(r2 matches Ok(RunStart::NotDue)),
{
}

/// After a start of the job `id` and any number of forced starts that follow it before
/// its end, the run is in flight, and the jobs and the store's dependability are as at
/// the beginning.
proof fn lemma_stays_in_flight<S: CronStore>(
    states: Seq<CronService<S>>,
    results: Seq<Result<RunStart, CronError>>,
    times: Seq<u64>,
    id: Seq<char>,
    n: int,
)
    requires
        states.len() == results.len() + 1,
        times.len() == results.len(),
        forall|i: int|
            0 <= i < results.len() ==> began(
                states[i],
                states[i + 1],
                id,
                true,
                times[i],
                #[trigger] results[i],
            ),
        results.len() >= 1,
        results[0] matches Ok(RunStart::Started(_)),
        1 <= n <= results.len(),
    ensures
        states[n].is_running(id),
        states[n].store.jobs() == states[0].store.jobs(),
        states[n].store.dependable() == states[0].store.dependable(),
    decreases n,
{
    if n > 1 {
        lemma_stays_in_flight(states, results, times, id, n - 1);
    }
    assert(began(states[n - 1], states[n], id, true, times[n - 1], results[n - 1]));
}

/// Any number of forced starts of one job, one after the other and all before the end of
/// the first: the first starts the job, and none of the others does. Each of the others
/// is recorded as skipped or fails; over a dependable store each is recorded as skipped.
/// So among the records of these starts exactly one, that of the first, will not be a
/// skipped one.
pub proof fn lemma_starts_while_in_flight<S: CronStore>(
    states: Seq<CronService<S>>,
    results: Seq<Result<RunStart, CronError>>,
    times: Seq<u64>,
    id: Seq<char>,
)
    requires
        states.len() == results.len() + 1,
        times.len() == results.len(),
        forall|i: int|
            0 <= i < results.len() ==> began(
                states[i],
                states[i + 1],
                id,
                true,
                times[i],
                #[trigger] results[i],
            ),
        results.len() >= 1,
        results[0] matches Ok(RunStart::Started(_)),
    ensures
        forall|i: int|
            1 <= i < results.len() ==> {
                &&& !(#[trigger] results[i] matches Ok(RunStart::Started(_)))
                &&& !(results[i] matches Ok(RunStart::NotDue))
                &&& results[i] matches Ok(RunStart::Skipped(record)) ==> record@ == skipped_run(
                    id,
                    times[i],
                ) && states[i + 1].store.runs_for(id) == with_run(
                    states[i].store.runs_for(id),
                    record@,
                )
                &&& states[0].store.dependable() ==> results[i] matches Ok(RunStart::Skipped(_))
            },
        forall|i: int| 1 <= i <= results.len() ==> (#[trigger] states[i]).is_running(id),
{
    assert forall|i: int| 1 <= i <= results.len() implies (#[trigger] states[i]).is_running(
        id,
    ) by {
        lemma_stays_in_flight(states, results, times, id, i);
    }
    assert(began(states[0], states[1], id, true, times[0], results[0]));
    assert forall|i: int| 1 <= i < results.len() implies {
        &&& !(#[trigger] results[i] matches Ok(RunStart::Started(_)))
        &&& !(results[i] matches Ok(RunStart::NotDue))
        &&& results[i] matches Ok(RunStart::Skipped(record)) ==> record@ == skipped_run(
            id,
            times[i],
        ) && states[i + 1].store.runs_for(id) == with_run(states[i].store.runs_for(id), record@)
        &&& states[0].store.dependable() ==> results[i] matches Ok(RunStart::Skipped(_))
    } by {
        lemma_stays_in_flight(states, results, times, id, i);
        assert(began(states[i], states[i + 1], id, true, times[i], results[i]));
    }
}

/// A job that is due is among the due ids.
pub proof fn lemma_due_job_is_listed(jobs: Seq<JobView>, j: int, now_ms: u64)
    requires
        0 <= j < jobs.len(),
        is_due(jobs[j], now_ms),
    ensures
        due_ids(jobs, now_ms).contains(jobs[j].id),
    decreases jobs.len(),
{
    let due = due_ids(jobs, now_ms);
    if j == jobs.len() - 1 {
        assert(due[due.len() - 1] == jobs[j].id);
    } else {
        let front = jobs.drop_last();
        lemma_due_job_is_listed(front, j, now_ms);
        let before = due_ids(front, now_ms);
        let k = choose|k: int| 0 <= k < before.len() && before[k] == front[j].id;
        assert(due[k] == before[k]);
    }
}

/// What `finish_run` does. The job does not count as running any more, whatever else
/// happens. The last error is that of the run if it failed. If the store plays along,
/// as a dependable store always does, the record of the run is in the history and the
/// job is up to date.
pub open spec fn finished<S: CronStore>(
    before: CronService<S>,
    after: CronService<S>,
    id: Seq<char>,
    started_ms: u64,
    finished_ms: u64,
    outcome: OutcomeView,
    r: Result<CronRunRecord, CronError>,
) -> bool {
    &&& dependably(before, after, r.is_ok(), r is Err && r->Err_0 is StoreIo, true)
    &&& forall|x: Seq<char>| #[trigger] after.is_running(x) == (before.is_running(x) && x != id)
    &&& others_kept(before, after, id)
    &&& text_view(after.last_error) == (match outcome {
        OutcomeView::Failed { error, .. } => Some(error),
        OutcomeView::Succeeded { .. } => text_view(before.last_error),
    })
    &&& match r {
        Ok(record) => {
            &&& record@ == finished_run(id, started_ms, finished_ms, outcome)
            &&& record@.well_formed()
            &&& settled(before, after, id, record@)
        },
        Err(e) => e is StoreIo,
    }
}

/// `record` is the record of an execution of `job` by `executor` that started at
/// `now_ms`: it says what some report of the executor says.
pub open spec fn executed_by<E: Executor>(
    executor: E,
    job: JobView,
    now_ms: u64,
    record: RunView,
) -> bool {
    exists|report: RunReport|
        #[trigger] executor.reports(job, report) && record == finished_run(
            job.id,
            now_ms,
            report.finished_at_ms,
            report.outcome@,
        )
}

/// What `run` does with `executor`: what `ran` says, and the record of a job that was
/// executed is the record of an execution of that job by the executor.
pub open spec fn ran_by<S: CronStore, E: Executor>(
    before: CronService<S>,
    after: CronService<S>,
    executor: E,
    id: Seq<char>,
    force: bool,
    now_ms: u64,
    r: Result<RunResult, CronError>,
) -> bool {
    &&& ran(before, after, id, force, now_ms, r)
    &&& r matches Ok(RunResult::Ran(record)) ==> (find_job(before.store.jobs(), id) matches Some(
        job,
    ) && executed_by(executor, job, now_ms, record@))
}

/// What `run` does. Every attempt leaves exactly one record in the history of the job;
/// an unforced run of a job that is not due is no attempt and leaves nothing. The same
/// runs are in flight afterwards as before. Over a dependable store it succeeds exactly
/// if there is such a job.
pub open spec fn ran<S: CronStore>(
    before: CronService<S>,
    after: CronService<S>,
    id: Seq<char>,
    force: bool,
    now_ms: u64,
    r: Result<RunResult, CronError>,
) -> bool {
    &&& dependably(
        before,
        after,
        r.is_ok(),
        r is Err && r->Err_0 is StoreIo,
        has_job(before.store.jobs(), id),
    )
    &&& forall|x: Seq<char>| #[trigger] after.is_running(x) == before.is_running(x)
    &&& others_kept(before, after, id)
    &&& !has_job(before.store.jobs(), id) ==> r.is_err()
    &&& match r {
        Ok(RunResult::Ran(record)) => {
            &&& find_job(before.store.jobs(), id) matches Some(job)
            &&& force || is_due(job, now_ms)
            &&& !before.is_running(id)
            &&& record@.job_id == id
            &&& record@.started_at_ms == now_ms
            &&& record@.status != RunStatus::Skipped
            &&& record@.well_formed()
            &&& settled(before, after, id, record@)
        },
        Ok(RunResult::Skipped(record)) => {
            &&& find_job(before.store.jobs(), id) matches Some(job)
            &&& force || is_due(job, now_ms)
            &&& before.is_running(id)
            &&& record@ == skipped_run(id, now_ms)
            &&& after.store.jobs() == before.store.jobs()
            &&& after.store.runs_for(id) == with_run(before.store.runs_for(id), record@)
        },
        Ok(RunResult::NotDue) => {
            &&& find_job(before.store.jobs(), id) matches Some(job)
            &&& !force
            &&& !is_due(job, now_ms)
            &&& after.same_store(&before)
        },
        Err(e) => match e {
            CronError::NotFound(missing) => missing@ == id && !has_job(before.store.jobs(), id)
                && after.same_store(&before),
            CronError::StoreIo(_) => true,
            CronError::Validation(_) => false,
        },
    }
}

/// The ids of the jobs of `jobs` that are due at `now_ms`, in the order of the jobs.
pub open spec fn due_ids(jobs: Seq<JobView>, now_ms: u64) -> Seq<Seq<char>>
    decreases jobs.len(),
{
    if jobs.len() == 0 {
        Seq::empty()
    } else if is_due(jobs.last(), now_ms) {
        due_ids(jobs.drop_last(), now_ms).push(jobs.last().id)
    } else {
        due_ids(jobs.drop_last(), now_ms)
    }
}

/// What one tick of the scheduler did with the jobs that were due.
#[derive(Clone, Copy, Debug, PartialEq, Eq, Structural)]
pub struct TickReport {
    /// Jobs that were executed.
    pub ran: usize,
    /// Jobs whose earlier run was still in flight.
    pub skipped: usize,
    /// Jobs that were no longer there or no longer due when their turn came.
    pub passed: usize,
    /// Jobs whose run the store failed to record.
    pub store_errors: usize,
}

/// How many of `ids` are not among `running`.
pub open spec fn idle_count(ids: Seq<Seq<char>>, running: Seq<Seq<char>>) -> nat
    decreases ids.len(),
{
    if ids.len() == 0 {
        0
    } else {
        idle_count(ids.drop_last(), running) + if running.contains(ids.last()) {
            0nat
        } else {
            1nat
        }
    }
}

/// An attempt to run `job` at `now_ms` has added one record to its history, which was
/// `before` and is `after`: the record of a skipped attempt if a run of the job was in
/// flight, and else the record of an execution of the job by `executor`.
pub open spec fn attempted<E: Executor>(
    executor: E,
    job: JobView,
    was_running: bool,
    now_ms: u64,
    before: Seq<RunView>,
    after: Seq<RunView>,
) -> bool {
    exists|record: RunView|
        #[trigger] with_run(before, record) == after && if was_running {
            record == skipped_run(job.id, now_ms)
        } else {
            executed_by(executor, job, now_ms, record)
        }
}

/// The job `id` was there and due at `now_ms` before the tick, and the tick has made
/// one attempt to run it.
pub open spec fn attempted_job<S: CronStore, E: Executor>(
    before: CronService<S>,
    after: CronService<S>,
    executor: E,
    id: Seq<char>,
    now_ms: u64,
) -> bool {
    find_job(before.store.jobs(), id) matches Some(job) && is_due(job, now_ms) && attempted(
        executor,
        job,
        before.is_running(id),
        now_ms,
        before.store.runs_for(id),
        after.store.runs_for(id),
    )
}

/// What a tick does over a dependable store: every job that was due is attempted once,
/// so that its history has one more record; the jobs with no run in flight are executed
/// and counted as run, the others are counted as skipped, and none is passed over.
pub open spec fn ticked<S: CronStore, E: Executor>(
    before: CronService<S>,
    after: CronService<S>,
    executor: E,
    now_ms: u64,
    t: TickReport,
) -> bool {
    let due = due_ids(before.store.jobs(), now_ms);
    &&& t.passed == 0
    &&& t.store_errors == 0
    &&& t.ran == idle_count(due, texts(before.running@))
    &&& t.ran + t.skipped == due.len()
    &&& forall|k: int|
        0 <= k < due.len() ==> attempted_job(before, after, executor, #[trigger] due[k], now_ms)
}

/// The due ids are ids of jobs that are due, each once.
pub proof fn lemma_due_ids(jobs: Seq<JobView>, now_ms: u64)
    requires
        unique_ids(jobs),
    ensures
        forall|k: int|
            0 <= k < due_ids(jobs, now_ms).len() ==> (find_job(
                jobs,
                #[trigger] due_ids(jobs, now_ms)[k],
            ) matches Some(job) && is_due(job, now_ms) && job.id == due_ids(jobs, now_ms)[k]),
        forall|a: int, b: int|
            0 <= a < b < due_ids(jobs, now_ms).len() ==> #[trigger] due_ids(jobs, now_ms)[a]
                != #[trigger] due_ids(jobs, now_ms)[b],
    decreases jobs.len(),
{
    if jobs.len() > 0 {
        let front = jobs.drop_last();
        let last = jobs.len() - 1;
        let due = due_ids(jobs, now_ms);
        let before = due_ids(front, now_ms);
        assert(unique_ids(front)) by {
            assert forall|i: int, j: int| 0 <= i < j < front.len() implies (#[trigger] front[i]).id
                != (#[trigger] front[j]).id by {
                assert(jobs[i].id != jobs[j].id);
            }
        }
        lemma_due_ids(front, now_ms);
        assert forall|k: int| 0 <= k < before.len() implies (find_job(jobs, #[trigger] before[k])
            matches Some(job) && is_due(job, now_ms) && job.id == before[k]
            && before[k] != jobs[last].id) by {
            let i = index_of(front, before[k]);
            assert(has_job(front, before[k]));
            assert(jobs[i] == front[i]);
            lemma_index_of(jobs, i);
            lemma_index_of(front, i);
            assert(jobs[i].id != jobs[last].id);
        }
        if is_due(jobs.last(), now_ms) {
            lemma_index_of(jobs, last);
            assert forall|k: int| 0 <= k < due.len() implies (find_job(jobs, #[trigger] due[k])
                matches Some(job) && is_due(job, now_ms) && job.id == due[k]) by {
                if k < before.len() {
                    assert(due[k] == before[k]);
                }
            }
            assert forall|a: int, b: int| 0 <= a < b < due.len() implies #[trigger] due[a]
                != #[trigger] due[b] by {
                assert(due[a] == before[a]);
                if b < before.len() {
                    assert(due[b] == before[b]);
                }
            }
        }
    }
}

/// A tick over a dependable store at or after the start of a minute runs an enabled job
/// with the schedule `* * * * *` that has no run in flight: the history of the job has
/// one more record, which says what the executor reported of the job, as a success
/// without an error if the report is one.
pub proof fn lemma_tick_runs_every_minute_job<S: CronStore, E: Executor>(
    before: CronService<S>,
    after: CronService<S>,
    executor: E,
    now_ms: u64,
    t: TickReport,
    j: int,
)
    requires
        unique_ids(before.store.jobs()),
        0 <= j < before.store.jobs().len(),
        before.store.jobs()[j].enabled,
        before.store.jobs()[j].schedule == (crate::types::ScheduleView::Cron {
            expr: "* * * * *"@,
        }),
        (reference_time(before.store.jobs()[j]) / 60_000 + 1) * 60_000 <= now_ms,
        !before.is_running(before.store.jobs()[j].id),
        chronological(before.store.runs_for(before.store.jobs()[j].id)),
        ticked(before, after, executor, now_ms, t),
    ensures
        t.ran >= 1,
        after.store.runs_for(before.store.jobs()[j].id).len() == before.store.runs_for(
            before.store.jobs()[j].id,
        ).len() + 1,
        exists|report: RunReport|
            #[trigger] executor.reports(before.store.jobs()[j], report) && after.store.runs_for(
                before.store.jobs()[j].id,
            ) == with_run(
                before.store.runs_for(before.store.jobs()[j].id),
                finished_run(
                    before.store.jobs()[j].id,
                    now_ms,
                    report.finished_at_ms,
                    report.outcome@,
                ),
            ) && (report.outcome is Succeeded ==> {
                let record = finished_run(
                    before.store.jobs()[j].id,
                    now_ms,
                    report.finished_at_ms,
                    report.outcome@,
                );
                record.status == RunStatus::Succeeded && record.error.is_none()
            }),
{
    let jobs = before.store.jobs();
    let job = jobs[j];
    let due = due_ids(jobs, now_ms);
    crate::schedule::lemma_every_minute_job_is_due(job, now_ms);
    lemma_due_job_is_listed(jobs, j, now_ms);
    lemma_index_of(jobs, j);
    let k = choose|k: int| 0 <= k < due.len() && due[k] == job.id;
    assert(attempted_job(before, after, executor, due[k], now_ms));
    let record = choose|record: RunView|
        #[trigger] with_run(before.store.runs_for(job.id), record) == after.store.runs_for(
            job.id,
        ) && executed_by(executor, job, now_ms, record);
    lemma_with_run(before.store.runs_for(job.id), record);
    let report = choose|report: RunReport|
        #[trigger] executor.reports(job, report) && record == finished_run(
            job.id,
            now_ms,
            report.finished_at_ms,
            report.outcome@,
        );
    assert(executor.reports(job, report));
    lemma_idle_is_counted(due, texts(before.running@), k);
}

/// An id that is not among the running ones is counted among the idle ones.
proof fn lemma_idle_is_counted(ids: Seq<Seq<char>>, running: Seq<Seq<char>>, k: int)
    requires
        0 <= k < ids.len(),
        !running.contains(ids[k]),
    ensures
        idle_count(ids, running) >= 1,
    decreases ids.len(),
{
    if k < ids.len() - 1 {
        lemma_idle_is_counted(ids.drop_last(), running, k);
    }
}

/// The record of an attempt that was skipped.
fn skipped_record(id: &str, now_ms: u64) -> (r: CronRunRecord)
    ensures
        r@ == skipped_run(id@, now_ms),
        r@.well_formed(),
{
    CronRunRecord {
        job_id: id.to_owned(),
        started_at_ms: now_ms,
        finished_at_ms: now_ms,
        status: RunStatus::Skipped,
        error: Some("skipped: a previous run is still in flight".to_owned()),
        duration_ms: 0,
        output: None,
    }
}

/// The record of an attempt that was carried out.
fn finished_record(id: &str, started: u64, finished: u64, outcome: RunOutcome) -> (r:
    CronRunRecord)
    ensures
        r@ == finished_run(id@, started, finished, outcome@),
        r@.well_formed(),
        r@.status != RunStatus::Skipped,
{
    let end: u64 = if finished >= started {
        finished
    } else {
        started
    };
    match outcome {
        RunOutcome::Succeeded { output } => CronRunRecord {
            job_id: id.to_owned(),
            started_at_ms: started,
            finished_at_ms: end,
            status: RunStatus::Succeeded,
            error: None,
            duration_ms: end - started,
            output,
        },
        RunOutcome::Failed { error, output } => CronRunRecord {
            job_id: id.to_owned(),
            started_at_ms: started,
            finished_at_ms: end,
            status: RunStatus::Failed,
            error: Some(error),
            duration_ms: end - started,
            output,
        },
    }
}

impl<S: CronStore> CronService<S> {
    /// The place of `id` among the running jobs.
    fn running_place(&self, id: &str) -> (r: Option<usize>)
        ensures
            match r {
                Some(i) => i < self.running@.len() && self.running@[i as int]@ == id@
                    && self.is_running(id@),
                None => !self.is_running(id@),
            },
    {
        let key = id.to_owned();
        let mut i: usize = 0;
        while i < self.running.len()
            invariant
                i <= self.running@.len(),
                key@ == id@,
                forall|j: int| 0 <= j < i ==> (#[trigger] self.running@[j])@ != id@,
            decreases self.running@.len() - i,
        {
            if self.running[i] == key {
                proof {
                    assert(texts(self.running@)[i as int] == id@);
                }
                return Some(i);
            }
            i = i + 1;
        }
        proof {
            if texts(self.running@).contains(id@) {
                let j = choose|j: int|
                    0 <= j < texts(self.running@).len() && texts(self.running@)[j] == id@;
                assert(self.running@[j]@ == id@);
            }
        }
        None
    }

    /// Ends the run of the job `id`, if one is in flight.
    fn release(&mut self, id: &str)
        requires
            old(self).valid(),
        ensures
            final(self).valid(),
            final(self).store == old(self).store,
            final(self).last_error == old(self).last_error,
            forall|x: Seq<char>|
                #[trigger] final(self).is_running(x) == (old(self).is_running(x) && x != id@),
    {
        match self.running_place(id) {
            Some(i) => {
                let ghost before = self.running@;
                let _ = self.running.remove(i);
                proof {
                    let after = self.running@;
                    assert forall|a: int, b: int| 0 <= a < b < after.len() implies (
                    #[trigger] after[a])@ != (#[trigger] after[b])@ by {
                        let a0 = if a < i {
                            a
                        } else {
                            a + 1
                        };
                        let b0 = if b < i {
                            b
                        } else {
                            b + 1
                        };
                        assert(before[a0]@ != before[b0]@);
                    }
                    assert forall|x: Seq<char>| #[trigger]
                        texts(after).contains(x) == (texts(before).contains(x) && x != id@) by {
                        if texts(after).contains(x) {
                            let a = choose|a: int|
                                0 <= a < texts(after).len() && texts(after)[a] == x;
                            let a0 = if a < i {
                                a
                            } else {
                                a + 1
                            };
                            assert(texts(before)[a0] == x);
                            if a0 < i {
                                assert(before[a0]@ != before[i as int]@);
                            } else {
                                assert(before[i as int]@ != before[a0]@);
                            }
                        }
                        if texts(before).contains(x) && x != id@ {
                            let b = choose|b: int|
                                0 <= b < texts(before).len() && texts(before)[b] == x;
                            let a = if b < i {
                                b
                            } else {
                                b - 1
                            };
                            assert(texts(after)[a] == x);
                        }
                    }
                }
            },
            None => {},
        }
    }

    /// Applies `patch` to the job `id` at the time `now_ms`.
    ///
    /// Fails with `NotFound` if there is no such job, and as invalid if the patch brings
    /// a malformed schedule or payload; nothing changes then.
    pub fn update(&mut self, id: &str, patch: CronJobPatch, now_ms: u64) -> (r: Result<
        CronJob,
        CronError,
    >)
        requires
            old(self).valid(),
        ensures
            final(self).valid(),
            updated(*old(self), *final(self), id@, patch@, now_ms, r),
    {
        let mut jobs = self.store.load_jobs()?;
        let place = match position_of(&jobs, id) {
            Some(i) => i,
            None => {
                return Err(CronError::NotFound(id.to_owned()));
            },
        };
        match &patch.schedule {
            Some(s) => {
                validate_schedule(s)?;
            },
            None => {},
        }
        match &patch.payload {
            Some(p) => {
                validate_payload(p)?;
            },
            None => {},
        }
        let current = jobs.remove(place);
        let mut job = CronJob {
            id: current.id,
            name: match patch.name {
                Some(n) => n,
                None => current.name,
            },
            enabled: match patch.enabled {
                Some(e) => e,
                None => current.enabled,
            },
            delete_after_run: match patch.delete_after_run {
                Some(d) => d,
                None => current.delete_after_run,
            },
            schedule: match patch.schedule {
                Some(s) => s,
                None => current.schedule,
            },
            payload: match patch.payload {
                Some(p) => p,
                None => current.payload,
            },
            session_target: match patch.session_target {
                Some(t) => t,
                None => current.session_target,
            },
            state: current.state,
            created_at_ms: current.created_at_ms,
            updated_at_ms: later(now_ms, later(current.updated_at_ms, current.created_at_ms)),
        };
        let from: u64 = match job.state.last_fired_ms {
            Some(t) => t,
            None => job.created_at_ms,
        };
        let next = next_fire_of_job(&job, from);
        job.state.next_fire_ms = next;
        self.store.update_job(&job)?;
        Ok(job)
    }

    /// Starts a run of the job `id` at the time `now_ms`.
    ///
    /// A forced run starts whether or not the job is enabled or due; a run that is not
    /// forced starts only if the job is due. If a run of the job is already in flight,
    /// the attempt is recorded as skipped and nothing starts.
    pub fn begin_run(&mut self, id: &str, force: bool, now_ms: u64) -> (r: Result<
        RunStart,
        CronError,
    >)
        requires
            old(self).valid(),
        ensures
            final(self).valid(),
            began(*old(self), *final(self), id@, force, now_ms, r),
    {
        let mut jobs = self.store.load_jobs()?;
        let place = match position_of(&jobs, id) {
            Some(i) => i,
            None => {
                return Err(CronError::NotFound(id.to_owned()));
            },
        };
        if !force && !due(&jobs[place], now_ms) {
            return Ok(RunStart::NotDue);
        }
        if self.running_place(id).is_some() {
            let record = skipped_record(id, now_ms);
            self.store.append_run(id, &record)?;
            return Ok(RunStart::Skipped(record));
        }
        let ghost before = self.running@;
        self.running.push(id.to_owned());
        proof {
            let after = self.running@;
            assert forall|a: int, b: int| 0 <= a < b < after.len() implies (#[trigger] after[a])@
                != (#[trigger] after[b])@ by {
                if b == before.len() {
                    assert(texts(before)[a] == before[a]@);
                } else {
                    assert(before[a]@ != before[b]@);
                }
            }
            assert forall|x: Seq<char>| #[trigger]
                texts(after).contains(x) == (texts(before).contains(x) || x == id@) by {
                if texts(after).contains(x) {
                    let a = choose|a: int| 0 <= a < texts(after).len() && texts(after)[a] == x;
                    if a < before.len() {
                        assert(texts(before)[a] == x);
                    }
                }
                if texts(before).contains(x) {
                    let b = choose|b: int| 0 <= b < texts(before).len() && texts(before)[b] == x;
                    assert(texts(after)[b] == x);
                }
                if x == id@ {
                    assert(texts(after)[before.len() as int] == x);
                }
            }
        }
        Ok(RunStart::Started(jobs.remove(place)))
    }
}

impl<S: CronStore> CronService<S> {
    /// Files the record of a run that was carried out, and brings the job up to date:
    /// a job that is to be deleted after its run is deleted, any other gets its new state.
    fn settle(&mut self, id: &str, record: &CronRunRecord) -> (r: Result<(), CronError>)
        requires
            old(self).valid(),
            record@.job_id == id@,
        ensures
            final(self).valid(),
            final(self).running == old(self).running,
            final(self).last_error == old(self).last_error,
            final(self).store.dependable() == old(self).store.dependable(),
            old(self).store.dependable() ==> r.is_ok(),
            others_kept(*old(self), *final(self), id@),
            match r {
                Ok(_) => settled(*old(self), *final(self), id@, record@),
                Err(e) => e is StoreIo,
            },
    {
        proof {
            assert(crate::store::filed(record@, id@) == record@);
        }
        self.store.append_run(id, record)?;
        let mut jobs = self.store.load_jobs()?;
        proof {
            lemma_without(self.store.jobs(), id@);
        }
        let place = match position_of(&jobs, id) {
            Some(i) => i,
            None => {
                return Ok(());
            },
        };
        let current = jobs.remove(place);
        if current.delete_after_run {
            self.store.delete_job(id)?;
            return Ok(());
        }
        let failures: u32 = match record.status {
            RunStatus::Succeeded => 0,
            _ => if current.state.consecutive_failures < u32::MAX {
                current.state.consecutive_failures + 1
            } else {
                u32::MAX
            },
        };
        let mut job = CronJob {
            id: current.id,
            name: current.name,
            enabled: current.enabled,
            delete_after_run: current.delete_after_run,
            schedule: current.schedule,
            payload: current.payload,
            session_target: current.session_target,
            state: CronJobState {
                last_fired_ms: Some(record.started_at_ms),
                next_fire_ms: None,
                consecutive_failures: failures,
            },
            created_at_ms: current.created_at_ms,
            updated_at_ms: current.updated_at_ms,
        };
        let next = next_fire_of_job(&job, record.started_at_ms);
        job.state.next_fire_ms = next;
        proof {
            lemma_upsert(self.store.jobs(), job@);
        }
        self.store.update_job(&job)?;
        Ok(())
    }

    /// Ends the run of the job `id` that started at `started_ms`: files its record, brings
    /// the job up to date and lets the next run of the job start.
    ///
    /// A job that is to be deleted after its run is deleted whether the run succeeded or
    /// failed. Whatever happens, no run of the job is in flight afterwards.
    pub fn finish_run(
        &mut self,
        id: &str,
        started_ms: u64,
        finished_ms: u64,
        outcome: RunOutcome,
    ) -> (r: Result<CronRunRecord, CronError>)
        requires
            old(self).valid(),
        ensures
            final(self).valid(),
            finished(*old(self), *final(self), id@, started_ms, finished_ms, outcome@, r),
    {
        let record = finished_record(id, started_ms, finished_ms, outcome);
        match record.status {
            RunStatus::Failed => {
                self.last_error = clone_text(&record.error);
            },
            _ => {},
        }
        let settled = self.settle(id, &record);
        self.release(id);
        match settled {
            Ok(_) => Ok(record),
            Err(e) => Err(e),
        }
    }

    /// Runs the job `id` at the time `now_ms`: starts the run, has `executor` execute the
    /// job, and ends the run with what the executor reports.
    ///
    /// Every attempt leaves exactly one record in the history of the job: that of the
    /// execution, or that of a skipped attempt if a run of the job was in flight. That the
    /// execution failed is no error of this function.
    pub fn run<E: Executor>(&mut self, id: &str, force: bool, now_ms: u64, executor: &E) -> (r:
        Result<RunResult, CronError>)
        requires
            old(self).valid(),
        ensures
            final(self).valid(),
            ran_by(*old(self), *final(self), *executor, id@, force, now_ms, r),
    {
        match self.begin_run(id, force, now_ms)? {
            RunStart::Started(job) => {
                proof {
                    crate::store::lemma_found_has_id(old(self).store.jobs(), id@);
                }
                let report = executor.execute(&job);
                let ghost seen = report;
                let record = self.finish_run(id, now_ms, report.finished_at_ms, report.outcome)?;
                proof {
                    assert(executor.reports(job@, seen) && record@ == finished_run(
                        job@.id,
                        now_ms,
                        seen.finished_at_ms,
                        seen.outcome@,
                    ));
                }
                Ok(RunResult::Ran(record))
            },
            RunStart::Skipped(record) => Ok(RunResult::Skipped(record)),
            RunStart::NotDue => Ok(RunResult::NotDue),
        }
    }

    /// The ids of the jobs that are due at `now_ms`, in the order in which the store
    /// lists the jobs.
    pub fn due_jobs(&self, now_ms: u64) -> (r: Result<Vec<String>, CronError>)
        requires
            self.valid(),
        ensures
            self.store.dependable() ==> r.is_ok(),
            unique_ids(self.store.jobs()),
            match r {
                Ok(ids) => texts(ids@) == due_ids(self.store.jobs(), now_ms),
                Err(e) => e is StoreIo,
            },
    {
        let jobs = self.store.load_jobs()?;
        let ghost views = job_views(jobs@);
        let mut ids: Vec<String> = Vec::new();
        let mut i: usize = 0;
        while i < jobs.len()
            invariant
                i <= jobs@.len(),
                views == job_views(jobs@),
                texts(ids@) == due_ids(views.subrange(0, i as int), now_ms),
            decreases jobs@.len() - i,
        {
            proof {
                let part = views.subrange(0, i + 1);
                assert(part.drop_last() =~= views.subrange(0, i as int));
                assert(part.last() == jobs@[i as int]@);
            }
            if due(&jobs[i], now_ms) {
                let ghost so_far = ids@;
                ids.push(jobs[i].id.clone());
                proof {
                    assert(texts(ids@) =~= texts(so_far).push(jobs@[i as int]@.id));
                }
            }
            i = i + 1;
        }
        proof {
            assert(views.subrange(0, i as int) =~= views);
        }
        Ok(ids)
    }

    /// One tick of the scheduler at the time `now_ms`: runs, unforced, every job that is
    /// due, one after the other.
    ///
    /// A job whose run the store fails to record is counted and left for the next tick;
    /// only a failure to list the jobs fails the tick. Jobs that are not due stay as
    /// they are, and so do their histories.
    pub fn tick<E: Executor>(&mut self, now_ms: u64, executor: &E) -> (r: Result<
        TickReport,
        CronError,
    >)
        requires
            old(self).valid(),
        ensures
            final(self).valid(),
            final(self).store.dependable() == old(self).store.dependable(),
            old(self).store.dependable() ==> (r matches Ok(t) && ticked(
                *old(self),
                *final(self),
                *executor,
                now_ms,
                t,
            )),
            due_ids(old(self).store.jobs(), now_ms).len() == 0 ==> final(self).same_store(
                old(self),
            ),
            forall|x: Seq<char>| #[trigger] final(self).is_running(x) == old(self).is_running(x),
            forall|id: Seq<char>|
                !due_ids(old(self).store.jobs(), now_ms).contains(id)
                    ==> #[trigger] final(self).store.runs_for(id) == old(self).store.runs_for(id),
            forall|id: Seq<char>|
                !due_ids(old(self).store.jobs(), now_ms).contains(id) ==> #[trigger] find_job(
                    final(self).store.jobs(),
                    id,
                ) == find_job(old(self).store.jobs(), id),
            match r {
                Ok(t) => t.ran + t.skipped + t.passed + t.store_errors == due_ids(
                    old(self).store.jobs(),
                    now_ms,
                ).len(),
                Err(e) => e is StoreIo && final(self).same_store(old(self)),
            },
    {
        let ids = self.due_jobs(now_ms)?;
        let ghost due = texts(ids@);
        let ghost running = texts(old(self).running@);
        proof {
            lemma_due_ids(old(self).store.jobs(), now_ms);
            assert(due.subrange(0, 0) =~= Seq::<Seq<char>>::empty());
        }
        let mut report = TickReport { ran: 0, skipped: 0, passed: 0, store_errors: 0 };
        let mut i: usize = 0;
        while i < ids.len()
            invariant
                i <= ids@.len(),
                self.valid(),
                self.store.dependable() == old(self).store.dependable(),
                i == 0 ==> self.same_store(old(self)),
                due == texts(ids@),
                due == due_ids(old(self).store.jobs(), now_ms),
                running == texts(old(self).running@),
                forall|k: int|
                    0 <= k < due.len() ==> (find_job(old(self).store.jobs(), #[trigger] due[k])
                        matches Some(job) && is_due(job, now_ms) && job.id == due[k]),
                forall|a: int, b: int|
                    0 <= a < b < due.len() ==> #[trigger] due[a] != #[trigger] due[b],
                forall|x: Seq<char>| #[trigger] self.is_running(x) == old(self).is_running(x),
                forall|id: Seq<char>|
                    !due.subrange(0, i as int).contains(id) ==> #[trigger] self.store.runs_for(id)
                        == old(self).store.runs_for(id),
                forall|id: Seq<char>|
                    !due.subrange(0, i as int).contains(id) ==> #[trigger] find_job(
                        self.store.jobs(),
                        id,
                    ) == find_job(old(self).store.jobs(), id),
                report.ran + report.skipped + report.passed + report.store_errors == i,
                self.store.dependable() ==> {
                    &&& report.passed == 0
                    &&& report.store_errors == 0
                    &&& report.ran == idle_count(due.subrange(0, i as int), running)
                    &&& forall|k: int|
                        0 <= k < i ==> attempted_job(
                            *old(self),
                            *self,
                            *executor,
                            #[trigger] due[k],
                            now_ms,
                        )
                },
            decreases ids@.len() - i,
        {
            let ghost before = *self;
            let ghost id = due[i as int];
            proof {
                assert(due[i as int] == ids@[i as int]@);
                assert(!due.subrange(0, i as int).contains(id)) by {
                    if due.subrange(0, i as int).contains(id) {
                        let k = choose|k: int|
                            0 <= k < i && due.subrange(0, i as int)[k] == id;
                        assert(due[k] != due[i as int]);
                    }
                }
                let part = due.subrange(0, i + 1);
                assert(part.drop_last() =~= due.subrange(0, i as int));
                assert(part.last() == id);
            }
            let outcome = self.run(ids[i].as_str(), false, now_ms, executor);
            let ghost seen = outcome;
            proof {
                assert forall|other: Seq<char>|
                    !due.subrange(0, i + 1).contains(other) implies #[trigger] self.store.runs_for(
                    other,
                ) == old(self).store.runs_for(other) && find_job(self.store.jobs(), other)
                    == find_job(old(self).store.jobs(), other) by {
                    assert(due.subrange(0, i + 1)[i as int] == id);
                    assert(other != id);
                    if due.subrange(0, i as int).contains(other) {
                        let k = choose|k: int|
                            0 <= k < i && due.subrange(0, i as int)[k] == other;
                        assert(due.subrange(0, i + 1)[k] == other);
                    }
                    assert(before.store.runs_for(other) == old(self).store.runs_for(other));
                    assert(find_job(before.store.jobs(), other) == find_job(
                        old(self).store.jobs(),
                        other,
                    ));
                }
                if self.store.dependable() {
                    assert forall|k: int| 0 <= k < i implies attempted_job(
                        *old(self),
                        *self,
                        *executor,
                        #[trigger] due[k],
                        now_ms,
                    ) by {
                        assert(due[k] != id);
                        assert(attempted_job(*old(self), before, *executor, due[k], now_ms));
                        assert(self.store.runs_for(due[k]) == before.store.runs_for(due[k]));
                    }
                    assert(find_job(before.store.jobs(), id) == find_job(
                        old(self).store.jobs(),
                        id,
                    ));
                    assert(before.store.runs_for(id) == old(self).store.runs_for(id));
                    assert(before.is_running(id) == old(self).is_running(id));
                    match seen {
                        Ok(RunResult::Ran(record)) => {
                            assert(with_run(old(self).store.runs_for(id), record@)
                                == self.store.runs_for(id));
                        },
                        Ok(RunResult::Skipped(record)) => {
                            assert(with_run(old(self).store.runs_for(id), record@)
                                == self.store.runs_for(id));
                        },
                        _ => {},
                    }
                    assert(attempted_job(*old(self), *self, *executor, id, now_ms));
                }
            }
            match outcome {
                Ok(RunResult::Ran(_)) => {
                    report.ran = report.ran + 1;
                },
                Ok(RunResult::Skipped(_)) => {
                    report.skipped = report.skipped + 1;
                },
                Ok(RunResult::NotDue) => {
                    report.passed = report.passed + 1;
                },
                Err(CronError::StoreIo(_)) => {
                    report.store_errors = report.store_errors + 1;
                },
                Err(_) => {
                    report.passed = report.passed + 1;
                },
            }
            i = i + 1;
        }
        proof {
            assert(due.subrange(0, i as int) =~= due);
        }
        Ok(report)
    }
}

} // verus!
