//! The cron service as the gateway exposes it: operations that take the parameters of a
//! call as far as the caller gave them, and fail with a message.

use serde_json::Value;
use vstd::prelude::*;
use crate::json::{count_at, count_member, flag_at, flag_member, text_at, text_member};
use crate::service::{
    added, began, finished, ran_by, removed, updated, CronService, Executor, RunResult,
    RunStart,
};
use crate::status::{enabled_count, next_fires, CronStatus};
use crate::store::{latest, CronStore};
use crate::text::joined_text;
use crate::types::{
    error_message, job_views, run_views, says_store_failure, text_view, CreateView, CronError,
    CronJob, CronJobCreate, CronJobPatch, CronRunRecord, OutcomeView, PatchView, RunOutcome,
};

verus! {

/// How many runs `runs` returns when the caller names no limit.
pub const DEFAULT_RUNS_LIMIT: u64 = 20;

/// The parameters of `remove`.
#[derive(Debug, PartialEq, Eq)]
pub struct IdParams {
    pub id: Option<String>,
}

/// The parameters of `update`. The patch is what reading it from the call gave: nothing,
/// a patch, or the reason why it could not be read.
#[derive(Debug, PartialEq, Eq)]
pub struct UpdateParams {
    pub id: Option<String>,
    pub patch: Option<Result<CronJobPatch, String>>,
}

/// The parameters of `run`.
#[derive(Debug, PartialEq, Eq)]
pub struct RunParams {
    pub id: Option<String>,
    pub force: Option<bool>,
}

/// The parameters of `runs`.
#[derive(Debug, PartialEq, Eq)]
pub struct RunsParams {
    pub id: Option<String>,
    pub limit: Option<u64>,
}

/// The answer of `remove`.
#[derive(Debug, PartialEq, Eq)]
pub struct Removed {
    pub removed: String,
}

/// The answer of `run`.
#[derive(Debug, PartialEq, Eq)]
pub struct Ran {
    pub ran: String,
}

impl IdParams {
    /// The parameters that the call `params` gives: its member `id`, if that is a text.
    pub fn read(params: &Value) -> (r: IdParams)
        ensures
            text_view(r.id) == text_at(*params, "id"@),
    {
        IdParams { id: text_member(params, "id") }
    }
}

impl UpdateParams {
    /// The parameters that the call `params` gives, with what reading its member `patch`
    /// gave.
    pub fn read(params: &Value, patch: Option<Result<CronJobPatch, String>>) -> (r: UpdateParams)
        ensures
            text_view(r.id) == text_at(*params, "id"@),
            r.patch == patch,
    {
        UpdateParams { id: text_member(params, "id"), patch }
    }
}

impl RunParams {
    /// The parameters that the call `params` gives: its member `id`, if that is a text,
    /// and its member `force`, if that is a boolean.
    pub fn read(params: &Value) -> (r: RunParams)
        ensures
            text_view(r.id) == text_at(*params, "id"@),
            r.force == flag_at(*params, "force"@),
    {
        RunParams { id: text_member(params, "id"), force: flag_member(params, "force") }
    }

    /// Whether the call forces the run.
    pub fn forced(&self) -> (r: bool)
        ensures
            r == is_forced(self.force),
    {
        match self.force {
            Some(f) => f,
            None => false,
        }
    }
}

impl RunsParams {
    /// How many runs the call asks for.
    pub fn wanted(&self) -> (r: usize)
        ensures
            r == runs_limit(self.limit),
    {
        let wanted: u64 = match self.limit {
            Some(n) => n,
            None => DEFAULT_RUNS_LIMIT,
        };
        if wanted <= usize::MAX as u64 {
            wanted as usize
        } else {
            usize::MAX
        }
    }

    /// The parameters that the call `params` gives: its member `id`, if that is a text,
    /// and its member `limit`, if that is an integer that is not negative.
    pub fn read(params: &Value) -> (r: RunsParams)
        ensures
            text_view(r.id) == text_at(*params, "id"@),
            r.limit == count_at(*params, "limit"@),
    {
        RunsParams { id: text_member(params, "id"), limit: count_member(params, "limit") }
    }
}

/// The patch that changes nothing.
pub open spec fn no_change() -> PatchView {
    PatchView {
        name: None,
        enabled: None,
        delete_after_run: None,
        schedule: None,
        payload: None,
        session_target: None,
    }
}

/// The limit of a call of `runs`: 20 unless the caller names one.
pub open spec fn runs_limit(limit: Option<u64>) -> usize {
    let wanted = match limit {
        Some(n) => n,
        None => 20,
    };
    if wanted <= usize::MAX {
        wanted as usize
    } else {
        usize::MAX
    }
}

/// The id of a call, or the message that says that it is missing.
pub fn required_id(id: Option<String>) -> (r: Result<String, String>)
    ensures
        match id {
            Some(given) => r == Ok::<String, String>(given),
            None => r matches Err(m) && m@ == "missing 'id'"@,
        },
{
    match id {
        Some(given) => Ok(given),
        None => Err("missing 'id'".to_owned()),
    }
}

/// The patch of a call that could be read: what the call brings, or no change.
pub open spec fn change_of(patch: Option<Result<CronJobPatch, String>>) -> PatchView {
    match patch {
        Some(Ok(p)) => p@,
        _ => no_change(),
    }
}

/// Nothing has changed: the same jobs, histories, runs in flight and last error.
pub open spec fn unchanged<S: CronStore>(before: CronService<S>, after: CronService<S>) -> bool {
    &&& after.same_store(&before)
    &&& after.running == before.running
    &&& after.last_error == before.last_error
}

/// `r` is the result `inner` of the service, with its error in words.
pub open spec fn in_words<T>(inner: Result<T, CronError>, r: Result<T, String>) -> bool {
    match inner {
        Ok(x) => r == Ok::<T, String>(x),
        Err(e) => r matches Err(m) && m@ == error_message(e),
    }
}

/// What the gateway's `add` does: a request that could not be read fails with the reason
/// and changes nothing; one that could be read is handled as the service's `add` does.
pub open spec fn add_outcome<S: CronStore>(
    before: CronService<S>,
    after: CronService<S>,
    spec: Result<CronJobCreate, String>,
    id: Seq<char>,
    now_ms: u64,
    r: Result<CronJob, String>,
) -> bool {
    match spec {
        Err(reason) => (r matches Err(m) && m@ == "invalid job spec: "@ + reason@) && unchanged(
            before,
            after,
        ),
        Ok(create) => add_done(before, after, create@, id, now_ms, r),
    }
}

/// The service's `add` led from `before` to `after`, and `r` is its result with its
/// error in words.
pub open spec fn add_done<S: CronStore>(
    before: CronService<S>,
    after: CronService<S>,
    create: CreateView,
    id: Seq<char>,
    now_ms: u64,
    r: Result<CronJob, String>,
) -> bool {
    exists|inner: Result<CronJob, CronError>|
        #[trigger] added(before, after, create, id, now_ms, inner) && in_words(inner, r)
}

/// The service's `update` led from `before` to `after`, and `r` is its result with its
/// error in words.
pub open spec fn update_done<S: CronStore>(
    before: CronService<S>,
    after: CronService<S>,
    id: Seq<char>,
    patch: PatchView,
    now_ms: u64,
    r: Result<CronJob, String>,
) -> bool {
    exists|inner: Result<CronJob, CronError>|
        #[trigger] updated(before, after, id, patch, now_ms, inner) && in_words(inner, r)
}

/// The service's `remove` led from `before` to `after`, and `r` names the job as
/// removed or is the service's error in words.
pub open spec fn remove_done<S: CronStore>(
    before: CronService<S>,
    after: CronService<S>,
    id: Seq<char>,
    r: Result<Removed, String>,
) -> bool {
    exists|inner: Result<(), CronError>|
        #[trigger] removed(before, after, id, inner) && names_removed(inner, id, r)
}

/// The service's `run` led from `before` to `after`, and `r` names the job as run or
/// is the service's error in words.
pub open spec fn run_done<S: CronStore, E: Executor>(
    before: CronService<S>,
    after: CronService<S>,
    executor: E,
    id: Seq<char>,
    force: bool,
    now_ms: u64,
    r: Result<Ran, String>,
) -> bool {
    exists|inner: Result<RunResult, CronError>|
        #[trigger] ran_by(before, after, executor, id, force, now_ms, inner) && names_ran(
            inner,
            id,
            r,
        )
}

/// What the gateway's `update` does: a call without an id, or with a patch that could
/// not be read, fails with the reason and changes nothing; any other is handled as the
/// service's `update` does, with no change of the job's fields if there is no patch.
pub open spec fn update_outcome<S: CronStore>(
    before: CronService<S>,
    after: CronService<S>,
    id: Option<Seq<char>>,
    patch: Option<Result<CronJobPatch, String>>,
    now_ms: u64,
    r: Result<CronJob, String>,
) -> bool {
    match (id, patch) {
        (None, _) => (r matches Err(m) && m@ == "missing 'id'"@) && unchanged(before, after),
        (Some(_), Some(Err(reason))) => (r matches Err(m) && m@ == "invalid patch: "@ + reason@)
            && unchanged(before, after),
        (Some(job), _) => update_done(before, after, job, change_of(patch), now_ms, r),
    }
}

/// `r` names the job `id` as removed if the service removed it, and else is the
/// service's error in words.
pub open spec fn names_removed(inner: Result<(), CronError>, id: Seq<char>, r: Result<
    Removed,
    String,
>) -> bool {
    match inner {
        Ok(_) => r matches Ok(done) && done.removed@ == id,
        Err(e) => r matches Err(m) && m@ == error_message(e),
    }
}

/// `r` names the job `id` as run if the service came to a result, and else is the
/// service's error in words.
pub open spec fn names_ran(inner: Result<RunResult, CronError>, id: Seq<char>, r: Result<
    Ran,
    String,
>) -> bool {
    match inner {
        Ok(_) => r matches Ok(done) && done.ran@ == id,
        Err(e) => r matches Err(m) && m@ == error_message(e),
    }
}

/// What the gateway's `remove` does: a call without an id fails and changes nothing; any
/// other is handled as the service's `remove` does, and the answer names the job.
pub open spec fn remove_outcome<S: CronStore>(
    before: CronService<S>,
    after: CronService<S>,
    id: Option<Seq<char>>,
    r: Result<Removed, String>,
) -> bool {
    match id {
        None => (r matches Err(m) && m@ == "missing 'id'"@) && unchanged(before, after),
        Some(job) => remove_done(before, after, job, r),
    }
}

/// Whether a call of `run` forces the run: only if it says so.
pub open spec fn is_forced(force: Option<bool>) -> bool {
    match force {
        Some(f) => f,
        None => false,
    }
}

/// What the gateway's `run` does: a call without an id fails and changes nothing; any
/// other is handled as the service's `run` does, unforced unless the call says
/// otherwise, and the answer names the job whether it was executed, skipped, or not
/// due.
pub open spec fn run_outcome<S: CronStore, E: Executor>(
    before: CronService<S>,
    after: CronService<S>,
    executor: E,
    id: Option<Seq<char>>,
    force: Option<bool>,
    now_ms: u64,
    r: Result<Ran, String>,
) -> bool {
    match id {
        None => (r matches Err(m) && m@ == "missing 'id'"@) && unchanged(before, after),
        Some(job) => run_done(before, after, executor, job, is_forced(force), now_ms, r),
    }
}

/// What the gateway's `begin_run` does: a call without an id fails and changes nothing;
/// any other is handled as the service's `begin_run` does, unforced unless the call says
/// otherwise.
pub open spec fn begin_outcome<S: CronStore>(
    before: CronService<S>,
    after: CronService<S>,
    id: Option<Seq<char>>,
    force: Option<bool>,
    now_ms: u64,
    r: Result<RunStart, String>,
) -> bool {
    match id {
        None => (r matches Err(m) && m@ == "missing 'id'"@) && unchanged(before, after),
        Some(job) => begin_done(before, after, job, is_forced(force), now_ms, r),
    }
}

/// The service's `begin_run` led from `before` to `after`, and `r` is its result with
/// its error in words.
pub open spec fn begin_done<S: CronStore>(
    before: CronService<S>,
    after: CronService<S>,
    id: Seq<char>,
    force: bool,
    now_ms: u64,
    r: Result<RunStart, String>,
) -> bool {
    exists|inner: Result<RunStart, CronError>|
        #[trigger] began(before, after, id, force, now_ms, inner) && in_words(inner, r)
}

/// The service's `finish_run` led from `before` to `after`, and `r` is its result with
/// its error in words.
pub open spec fn finish_done<S: CronStore>(
    before: CronService<S>,
    after: CronService<S>,
    id: Seq<char>,
    started_ms: u64,
    finished_ms: u64,
    outcome: OutcomeView,
    r: Result<CronRunRecord, String>,
) -> bool {
    exists|inner: Result<CronRunRecord, CronError>|
        #[trigger] finished(before, after, id, started_ms, finished_ms, outcome, inner)
            && in_words(inner, r)
}

/// What the gateway's `runs` does: a call without an id fails; any other gets the most
/// recent runs of the job, oldest first, as many as the call says and 20 if it does not
/// say.
pub open spec fn runs_outcome<S: CronStore>(
    service: CronService<S>,
    id: Option<Seq<char>>,
    limit: Option<u64>,
    r: Result<Vec<CronRunRecord>, String>,
) -> bool {
    match id {
        None => r matches Err(m) && m@ == "missing 'id'"@,
        Some(job) => (service.store.dependable() ==> r.is_ok()) && match r {
            Ok(v) => run_views(v@) == latest(service.store.runs_for(job), runs_limit(limit) as int),
            Err(m) => says_store_failure(m@),
        },
    }
}

/// Gateway-facing cron service backed by a [`CronService`].
pub struct LiveCronService<S: CronStore> {
    inner: CronService<S>,
}

impl<S: CronStore> LiveCronService<S> {
    /// The service behind the gateway.
    pub closed spec fn service(&self) -> CronService<S> {
        self.inner
    }

    pub open spec fn valid(&self) -> bool {
        self.service().valid()
    }

    pub fn new(inner: CronService<S>) -> (r: Self)
        ensures
            r.service() == inner,
    {
        Self { inner }
    }

    pub fn inner(&self) -> (r: &CronService<S>)
        ensures
            *r == self.service(),
    {
        &self.inner
    }

    /// All jobs.
    pub fn list(&self) -> (r: Result<Vec<CronJob>, String>)
        requires
            self.valid(),
        ensures
            self.service().store.dependable() ==> r.is_ok(),
            match r {
                Ok(v) => job_views(v@) == self.service().store.jobs(),
                Err(m) => says_store_failure(m@),
            },
    {
        match self.inner.list() {
            Ok(v) => Ok(v),
            Err(e) => Err(e.message()),
        }
    }

    /// A snapshot of the service.
    pub fn status(&self) -> (r: Result<CronStatus, String>)
        requires
            self.valid(),
        ensures
            self.service().store.dependable() ==> r.is_ok(),
            match r {
                Ok(s) => {
                    &&& s.enabled_jobs == enabled_count(self.service().store.jobs())
                    &&& s.enabled_jobs + s.disabled_jobs == self.service().store.jobs().len()
                    &&& s.running_jobs == self.service().running@.len()
                    &&& s.next_fires_ms@ == next_fires(self.service().store.jobs())
                    &&& text_view(s.last_error) == text_view(self.service().last_error)
                },
                Err(m) => says_store_failure(m@),
            },
    {
        match self.inner.status() {
            Ok(s) => Ok(s),
            Err(e) => Err(e.message()),
        }
    }

    /// Creates a job under the id `id` at the time `now_ms`. `spec` is what reading the
    /// job from the call gave: the request, or the reason why it could not be read.
    pub fn add(&mut self, spec: Result<CronJobCreate, String>, id: String, now_ms: u64) -> (r:
        Result<CronJob, String>)
        requires
            old(self).valid(),
        ensures
            final(self).valid(),
            add_outcome(old(self).service(), final(self).service(), spec, id@, now_ms, r),
    {
        let create = match spec {
            Ok(c) => c,
            Err(reason) => {
                return Err(joined_text("invalid job spec: ", reason.as_str()));
            },
        };
        let ghost request = create@;
        let inner = self.inner.add(create, id, now_ms);
        let ghost seen = inner;
        let r = match inner {
            Ok(job) => Ok(job),
            Err(e) => Err(e.message()),
        };
        proof {
            assert(added(old(self).service(), self.service(), request, id@, now_ms, seen)
                && in_words(seen, r));
        }
        r
    }

    /// Applies the patch of the call to the job that the call names, at the time
    /// `now_ms`. A call without a patch changes nothing but the time of the update.
    pub fn update_job(&mut self, params: UpdateParams, now_ms: u64) -> (r: Result<
        CronJob,
        String,
    >)
        requires
            old(self).valid(),
        ensures
            final(self).valid(),
            update_outcome(
                old(self).service(),
                final(self).service(),
                text_view(params.id),
                params.patch,
                now_ms,
                r,
            ),
    {
        let id = required_id(params.id)?;
        let patch = match params.patch {
            Some(Ok(p)) => p,
            Some(Err(reason)) => {
                return Err(joined_text("invalid patch: ", reason.as_str()));
            },
            None => CronJobPatch {
                name: None,
                enabled: None,
                delete_after_run: None,
                schedule: None,
                payload: None,
                session_target: None,
            },
        };
        let ghost change = patch@;
        let inner = self.inner.update(id.as_str(), patch, now_ms);
        let ghost seen = inner;
        let r = match inner {
            Ok(job) => Ok(job),
            Err(e) => Err(e.message()),
        };
        proof {
            assert(updated(old(self).service(), self.service(), id@, change, now_ms, seen)
                && in_words(seen, r));
        }
        r
    }

    /// Deletes the job that the call names.
    pub fn remove_job(&mut self, params: IdParams) -> (r: Result<Removed, String>)
        requires
            old(self).valid(),
        ensures
            final(self).valid(),
            remove_outcome(old(self).service(), final(self).service(), text_view(params.id), r),
    {
        let id = required_id(params.id)?;
        let inner = self.inner.remove(id.as_str());
        let ghost seen = inner;
        let ghost name = id@;
        let r = match inner {
            Ok(_) => Ok(Removed { removed: id }),
            Err(e) => Err(e.message()),
        };
        proof {
            assert(removed(old(self).service(), self.service(), name, seen) && names_removed(
                seen,
                name,
                r,
            ));
        }
        r
    }

    /// Runs the job that the call names at the time `now_ms`, forced if the call says so.
    pub fn run_job<E: Executor>(&mut self, params: RunParams, now_ms: u64, executor: &E) -> (r:
        Result<Ran, String>)
        requires
            old(self).valid(),
        ensures
            final(self).valid(),
            run_outcome(
                old(self).service(),
                final(self).service(),
                *executor,
                text_view(params.id),
                params.force,
                now_ms,
                r,
            ),
    {
        let force = params.forced();
        let id = required_id(params.id)?;
        let inner = self.inner.run(id.as_str(), force, now_ms, executor);
        let ghost seen = inner;
        let ghost name = id@;
        let r = match inner {
            Ok(_) => Ok(Ran { ran: id }),
            Err(e) => Err(e.message()),
        };
        proof {
            assert(ran_by(
                old(self).service(),
                self.service(),
                *executor,
                name,
                force,
                now_ms,
                seen,
            ) && names_ran(seen, name, r));
        }
        r
    }

    /// Starts a run of the job that the call names at the time `now_ms`, for a caller
    /// that executes the job itself and reports the end with `finish_run`.
    pub fn begin_run(&mut self, params: RunParams, now_ms: u64) -> (r: Result<RunStart, String>)
        requires
            old(self).valid(),
        ensures
            final(self).valid(),
            begin_outcome(
                old(self).service(),
                final(self).service(),
                text_view(params.id),
                params.force,
                now_ms,
                r,
            ),
    {
        let force = params.forced();
        let id = required_id(params.id)?;
        let inner = self.inner.begin_run(id.as_str(), force, now_ms);
        let ghost seen = inner;
        let r = match inner {
            Ok(start) => Ok(start),
            Err(e) => Err(e.message()),
        };
        proof {
            assert(began(old(self).service(), self.service(), id@, force, now_ms, seen)
                && in_words(seen, r));
        }
        r
    }

    /// Ends the run of the job `id` that started at `started_ms`.
    pub fn finish_run(
        &mut self,
        id: &str,
        started_ms: u64,
        finished_ms: u64,
        outcome: RunOutcome,
    ) -> (r: Result<CronRunRecord, String>)
        requires
            old(self).valid(),
        ensures
            final(self).valid(),
            finish_done(
                old(self).service(),
                final(self).service(),
                id@,
                started_ms,
                finished_ms,
                outcome@,
                r,
            ),
    {
        let ghost report = outcome@;
        let inner = self.inner.finish_run(id, started_ms, finished_ms, outcome);
        let ghost seen = inner;
        let r = match inner {
            Ok(record) => Ok(record),
            Err(e) => Err(e.message()),
        };
        proof {
            assert(finished(
                old(self).service(),
                self.service(),
                id@,
                started_ms,
                finished_ms,
                report,
                seen,
            ) && in_words(seen, r));
        }
        r
    }

    /// The ids of the jobs that are due at `now_ms`, for the scheduler.
    pub fn due_jobs(&self, now_ms: u64) -> (r: Result<Vec<String>, String>)
        requires
            self.valid(),
        ensures
            self.service().store.dependable() ==> r.is_ok(),
            match r {
                Ok(ids) => crate::service::texts(ids@) == crate::service::due_ids(
                    self.service().store.jobs(),
                    now_ms,
                ),
                Err(m) => says_store_failure(m@),
            },
    {
        match self.inner.due_jobs(now_ms) {
            Ok(ids) => Ok(ids),
            Err(e) => Err(e.message()),
        }
    }

    /// The most recent runs of the job that the call names, oldest first.
    pub fn runs_of(&self, params: RunsParams) -> (r: Result<Vec<CronRunRecord>, String>)
        requires
            self.valid(),
        ensures
            runs_outcome(self.service(), text_view(params.id), params.limit, r),
    {
        let limit = params.wanted();
        let id = required_id(params.id)?;
        match self.inner.runs(id.as_str(), limit) {
            Ok(v) => Ok(v),
            Err(e) => Err(e.message()),
        }
    }

    /// `update_job` with the parameters read from the call `params`; `patch` is what
    /// reading the member `patch` of the call gave.
    pub fn update(
        &mut self,
        params: Value,
        patch: Option<Result<CronJobPatch, String>>,
        now_ms: u64,
    ) -> (r: Result<CronJob, String>)
        requires
            old(self).valid(),
        ensures
            final(self).valid(),
            update_outcome(
                old(self).service(),
                final(self).service(),
                text_at(params, "id"@),
                patch,
                now_ms,
                r,
            ),
    {
        self.update_job(UpdateParams::read(&params, patch), now_ms)
    }

    /// `remove_job` with the parameters read from the call `params`.
    pub fn remove(&mut self, params: Value) -> (r: Result<Removed, String>)
        requires
            old(self).valid(),
        ensures
            final(self).valid(),
            remove_outcome(
                old(self).service(),
                final(self).service(),
                text_at(params, "id"@),
                r,
            ),
    {
        self.remove_job(IdParams::read(&params))
    }

    /// `run_job` with the parameters read from the call `params`.
    pub fn run<E: Executor>(&mut self, params: Value, now_ms: u64, executor: &E) -> (r: Result<
        Ran,
        String,
    >)
        requires
            old(self).valid(),
        ensures
            final(self).valid(),
            run_outcome(
                old(self).service(),
                final(self).service(),
                *executor,
                text_at(params, "id"@),
                flag_at(params, "force"@),
                now_ms,
                r,
            ),
    {
        self.run_job(RunParams::read(&params), now_ms, executor)
    }

    /// `runs_of` with the parameters read from the call `params`.
    pub fn runs(&self, params: Value) -> (r: Result<Vec<CronRunRecord>, String>)
        requires
            self.valid(),
        ensures
            runs_outcome(
                self.service(),
                text_at(params, "id"@),
                count_at(params, "limit"@),
                r,
            ),
    {
        self.runs_of(RunsParams::read(&params))
    }
}

} // verus!
