//! The storage interface: persisted jobs and an append-only run history.
//!
//! Jobs are listed in the order in which they were first saved. The runs of a job are kept
//! in the order of their start times; a run that starts no earlier than the others of its
//! job comes last.

use vstd::prelude::*;
use crate::types::{CronError, CronJob, CronRunRecord, JobView, RunView};

verus! {

/// Some job in `jobs` has the id `id`.
pub open spec fn has_job(jobs: Seq<JobView>, id: Seq<char>) -> bool {
    exists|i: int| 0 <= i < jobs.len() && (#[trigger] jobs[i]).id == id
}

/// No two jobs share an id.
pub open spec fn unique_ids(jobs: Seq<JobView>) -> bool {
    forall|i: int, j: int|
        0 <= i < j < jobs.len() ==> (#[trigger] jobs[i]).id != (#[trigger] jobs[j]).id
}

/// The place of the job with the id `id`, if there is one.
pub open spec fn index_of(jobs: Seq<JobView>, id: Seq<char>) -> int {
    choose|i: int| 0 <= i < jobs.len() && (#[trigger] jobs[i]).id == id
}

/// The job with the id `id`.
pub open spec fn find_job(jobs: Seq<JobView>, id: Seq<char>) -> Option<JobView> {
    if has_job(jobs, id) {
        Some(jobs[index_of(jobs, id)])
    } else {
        None
    }
}

/// `jobs` with `job` in the place of the job of the same id, or at the end if there is
/// none.
pub open spec fn upsert(jobs: Seq<JobView>, job: JobView) -> Seq<JobView> {
    if has_job(jobs, job.id) {
        jobs.update(index_of(jobs, job.id), job)
    } else {
        jobs.push(job)
    }
}

/// `jobs` without the job that has the id `id`.
pub open spec fn without(jobs: Seq<JobView>, id: Seq<char>) -> Seq<JobView> {
    if has_job(jobs, id) {
        jobs.remove(index_of(jobs, id))
    } else {
        jobs
    }
}

/// The runs are in the order of their start times.
pub open spec fn chronological(runs: Seq<RunView>) -> bool {
    forall|i: int, j: int|
        0 <= i <= j < runs.len() ==> (#[trigger] runs[i]).started_at_ms <= (
        #[trigger] runs[j]).started_at_ms
}

/// Every run belongs to the job `job_id`.
pub open spec fn all_of_job(runs: Seq<RunView>, job_id: Seq<char>) -> bool {
    forall|i: int| 0 <= i < runs.len() ==> (#[trigger] runs[i]).job_id == job_id
}

/// Where a run that starts at `started` goes: behind the last run that starts no later.
pub open spec fn slot_for(runs: Seq<RunView>, started: u64) -> int
    decreases runs.len(),
{
    if runs.len() == 0 {
        0
    } else if runs.last().started_at_ms <= started {
        runs.len() as int
    } else {
        slot_for(runs.drop_last(), started)
    }
}

/// `run` as it is filed under the job `job_id`.
pub open spec fn filed(run: RunView, job_id: Seq<char>) -> RunView {
    RunView { job_id, ..run }
}

/// `runs` with `run` added in its place.
pub open spec fn with_run(runs: Seq<RunView>, run: RunView) -> Seq<RunView> {
    runs.insert(slot_for(runs, run.started_at_ms), run)
}

/// The last `limit` of `runs`, in their order.
pub open spec fn latest(runs: Seq<RunView>, limit: int) -> Seq<RunView> {
    if limit >= runs.len() {
        runs
    } else if limit <= 0 {
        Seq::empty()
    } else {
        runs.subrange(runs.len() - limit, runs.len() as int)
    }
}

/// `tail` is what is left of `whole` when some of its first elements are taken away.
pub open spec fn is_suffix(tail: Seq<RunView>, whole: Seq<RunView>) -> bool {
    tail.len() <= whole.len() && tail == whole.subrange(
        whole.len() - tail.len(),
        whole.len() as int,
    )
}

/// With unique ids, the job of an id is found at the one place that holds it.
pub proof fn lemma_index_of(jobs: Seq<JobView>, i: int)
    requires
        unique_ids(jobs),
        0 <= i < jobs.len(),
    ensures
        has_job(jobs, jobs[i].id),
        index_of(jobs, jobs[i].id) == i,
        find_job(jobs, jobs[i].id) == Some(jobs[i]),
{
    let k = index_of(jobs, jobs[i].id);
    assert(0 <= k < jobs.len() && jobs[k].id == jobs[i].id);
    if k < i {
        assert(jobs[k].id != jobs[i].id);
    } else if i < k {
        assert(jobs[i].id != jobs[k].id);
    }
}

/// The job that is found under an id has that id.
pub proof fn lemma_found_has_id(jobs: Seq<JobView>, id: Seq<char>)
    ensures
        find_job(jobs, id) matches Some(job) ==> job.id == id,
{
}

/// Saving a job keeps the ids unique, and the job is then the one found under its id; the
/// jobs of other ids stay as they were.
pub proof fn lemma_upsert(jobs: Seq<JobView>, job: JobView)
    requires
        unique_ids(jobs),
    ensures
        unique_ids(upsert(jobs, job)),
        find_job(upsert(jobs, job), job.id) == Some(job),
        forall|id: Seq<char>|
            id != job.id ==> find_job(upsert(jobs, job), id) == find_job(jobs, id),
        upsert(jobs, job).len() == if has_job(jobs, job.id) {
            jobs.len()
        } else {
            jobs.len() + 1
        },
{
    let after = upsert(jobs, job);
    let k = if has_job(jobs, job.id) {
        index_of(jobs, job.id)
    } else {
        jobs.len() as int
    };
    assert(after[k] == job);
    assert forall|i: int, j: int| 0 <= i < j < after.len() implies (#[trigger] after[i]).id != (
    #[trigger] after[j]).id by {
        if i != k && j != k {
            assert(jobs[i].id != jobs[j].id);
        } else if i == k && has_job(jobs, job.id) {
            assert(jobs[i].id != jobs[j].id);
        } else if j == k && has_job(jobs, job.id) {
            assert(jobs[i].id != jobs[j].id);
        } else {
            assert(jobs[i].id != job.id);
        }
    }
    lemma_index_of(after, k);
    assert forall|id: Seq<char>| id != job.id implies find_job(after, id) == find_job(
        jobs,
        id,
    ) by {
        if has_job(jobs, id) {
            let i = index_of(jobs, id);
            assert(after[i] == jobs[i]);
            lemma_index_of(jobs, i);
            lemma_index_of(after, i);
        } else if has_job(after, id) {
            let i = index_of(after, id);
            assert(jobs[i].id == id);
        }
    }
}

/// A job that was saved is among the jobs that are listed afterwards, as it was saved.
pub proof fn lemma_saved_job_is_listed(jobs: Seq<JobView>, job: JobView)
    requires
        unique_ids(jobs),
    ensures
        upsert(jobs, job).contains(job),
{
    let k = if has_job(jobs, job.id) {
        index_of(jobs, job.id)
    } else {
        jobs.len() as int
    };
    assert(upsert(jobs, job)[k] == job);
}

/// Deleting a job keeps the ids unique, and no job is then found under its id; the jobs
/// of other ids stay as they were.
pub proof fn lemma_without(jobs: Seq<JobView>, id: Seq<char>)
    requires
        unique_ids(jobs),
    ensures
        unique_ids(without(jobs, id)),
        !has_job(without(jobs, id), id),
        forall|other: Seq<char>|
            other != id ==> find_job(without(jobs, id), other) == find_job(jobs, other),
{
    let after = without(jobs, id);
    if has_job(jobs, id) {
        let k = index_of(jobs, id);
        assert forall|i: int| 0 <= i < after.len() implies (#[trigger] after[i]) == jobs[if i
            < k {
            i
        } else {
            i + 1
        }] by {}
        assert forall|i: int, j: int| 0 <= i < j < after.len() implies (#[trigger] after[i]).id
            != (#[trigger] after[j]).id by {
            let a = if i < k {
                i
            } else {
                i + 1
            };
            let b = if j < k {
                j
            } else {
                j + 1
            };
            assert(jobs[a].id != jobs[b].id);
        }
        if has_job(after, id) {
            let i = index_of(after, id);
            let a = if i < k {
                i
            } else {
                i + 1
            };
            assert(after[i] == jobs[a]);
            lemma_index_of(jobs, a);
        }
        assert forall|other: Seq<char>| other != id implies find_job(after, other) == find_job(
            jobs,
            other,
        ) by {
            if has_job(jobs, other) {
                let a = index_of(jobs, other);
                let i = if a < k {
                    a
                } else {
                    a - 1
                };
                assert(after[i] == jobs[a]);
                lemma_index_of(jobs, a);
                lemma_index_of(after, i);
            } else if has_job(after, other) {
                let i = index_of(after, other);
                let a = if i < k {
                    i
                } else {
                    i + 1
                };
                assert(jobs[a].id == other);
            }
        }
    }
}

/// The slot of a run lies behind every run that starts no later and before every run
/// that starts later.
pub proof fn lemma_slot_for(runs: Seq<RunView>, started: u64)
    requires
        chronological(runs),
    ensures
        0 <= slot_for(runs, started) <= runs.len(),
        forall|i: int|
            0 <= i < slot_for(runs, started) ==> (#[trigger] runs[i]).started_at_ms <= started,
        forall|i: int|
            slot_for(runs, started) <= i < runs.len() ==> (#[trigger] runs[i]).started_at_ms
                > started,
    decreases runs.len(),
{
    if runs.len() > 0 {
        if runs.last().started_at_ms <= started {
            assert forall|i: int| 0 <= i < runs.len() implies (#[trigger] runs[i]).started_at_ms
                <= started by {
                assert(runs[i].started_at_ms <= runs[runs.len() - 1].started_at_ms);
            }
        } else {
            let front = runs.drop_last();
            assert forall|i: int, j: int| 0 <= i <= j < front.len() implies (
            #[trigger] front[i]).started_at_ms <= (#[trigger] front[j]).started_at_ms by {
                assert(runs[i].started_at_ms <= runs[j].started_at_ms);
            }
            lemma_slot_for(front, started);
            assert forall|i: int| 0 <= i < slot_for(runs, started) implies (
            #[trigger] runs[i]).started_at_ms <= started by {
                assert(front[i].started_at_ms <= started);
            }
            assert forall|i: int| slot_for(runs, started) <= i < runs.len() implies (
            #[trigger] runs[i]).started_at_ms > started by {
                if i < front.len() {
                    assert(front[i].started_at_ms > started);
                }
            }
        }
    }
}

/// Adding a run keeps the history in the order of the start times, and a run that starts
/// no earlier than all others comes last.
pub proof fn lemma_with_run(runs: Seq<RunView>, run: RunView)
    requires
        chronological(runs),
    ensures
        chronological(with_run(runs, run)),
        with_run(runs, run).len() == runs.len() + 1,
        (forall|i: int| 0 <= i < runs.len() ==> (#[trigger] runs[i]).started_at_ms
            <= run.started_at_ms) ==> with_run(runs, run) == runs.push(run),
{
    lemma_slot_for(runs, run.started_at_ms);
    let k = slot_for(runs, run.started_at_ms);
    let after = with_run(runs, run);
    assert forall|i: int, j: int| 0 <= i <= j < after.len() implies (
    #[trigger] after[i]).started_at_ms <= (#[trigger] after[j]).started_at_ms by {
        let a = if i < k {
            i
        } else {
            i - 1
        };
        let b = if j < k {
            j
        } else {
            j - 1
        };
        if i != k && j != k {
            assert(runs[a].started_at_ms <= runs[b].started_at_ms);
        } else if i == k && j != k {
            assert(runs[b].started_at_ms > run.started_at_ms);
        } else if j == k && i != k {
            assert(runs[a].started_at_ms <= run.started_at_ms);
        }
    }
    if forall|i: int| 0 <= i < runs.len() ==> (#[trigger] runs[i]).started_at_ms
        <= run.started_at_ms {
        if k < runs.len() {
            assert(runs[k].started_at_ms > run.started_at_ms);
        }
        assert(after =~= runs.push(run));
    }
}

/// The latest runs are at most `limit`, they are the end of the history, and they are in
/// the order of their start times if the history is.
pub proof fn lemma_latest(runs: Seq<RunView>, limit: int)
    requires
        0 <= limit,
    ensures
        latest(runs, limit).len() <= limit,
        latest(runs, limit).len() == if limit <= runs.len() {
            limit
        } else {
            runs.len() as int
        },
        is_suffix(latest(runs, limit), runs),
        chronological(runs) ==> chronological(latest(runs, limit)),
{
    let tail = latest(runs, limit);
    assert(tail =~= runs.subrange(runs.len() - tail.len(), runs.len() as int));
    if chronological(runs) {
        assert forall|i: int, j: int| 0 <= i <= j < tail.len() implies (
        #[trigger] tail[i]).started_at_ms <= (#[trigger] tail[j]).started_at_ms by {
            let off = runs.len() - tail.len();
            assert(runs[off + i].started_at_ms <= runs[off + j].started_at_ms);
        }
    }
}

/// A store of jobs and of their run histories.
///
/// The three descriptions say what a store holds; the six operations are stated over
/// them. A backend that lives outside this library implements the operations and leaves
/// the descriptions as they are: it is then never valid, nothing is proved about a
/// service over it, and what the service does rests on the backend keeping to what is
/// stated here.
pub trait CronStore {
    /// What the backend needs to hold of itself.
    open spec fn valid(&self) -> bool {
        false
    }

    /// The persisted jobs, in the order in which they are listed.
    open spec fn jobs(&self) -> Seq<JobView> {
        Seq::empty()
    }

    /// The run history of the job `job_id`, oldest first.
    open spec fn runs_for(&self, job_id: Seq<char>) -> Seq<RunView> {
        Seq::empty()
    }

    /// The backend has no medium that can fail: none of its operations fails as a
    /// failure of the store.
    open spec fn dependable(&self) -> bool {
        false
    }

    /// All persisted jobs. No two of them share an id.
    fn load_jobs(&self) -> (r: Result<Vec<CronJob>, CronError>)
        requires
            self.valid(),
        ensures
            self.dependable() ==> r.is_ok(),
            unique_ids(self.jobs()),
            match r {
                Ok(v) => crate::types::job_views(v@) == self.jobs(),
                Err(e) => e is StoreIo,
            },
    ;

    /// Inserts the job, or overwrites the job of the same id.
    fn save_job(&mut self, job: &CronJob) -> (r: Result<(), CronError>)
        requires
            old(self).valid(),
        ensures
            final(self).dependable() == old(self).dependable(),
            old(self).dependable() ==> r.is_ok(),
            final(self).valid(),
            forall|id: Seq<char>| #[trigger] final(self).runs_for(id) == old(self).runs_for(id),
            match r {
                Ok(_) => final(self).jobs() == upsert(old(self).jobs(), job@),
                Err(e) => e is StoreIo && final(self).jobs() == old(self).jobs(),
            },
    ;

    /// Overwrites the job of the same id; there has to be one.
    fn update_job(&mut self, job: &CronJob) -> (r: Result<(), CronError>)
        requires
            old(self).valid(),
        ensures
            final(self).dependable() == old(self).dependable(),
            old(self).dependable() ==> r.is_ok() == has_job(old(self).jobs(), job@.id),
            old(self).dependable() && r.is_err() ==> r->Err_0 is NotFound,
            final(self).valid(),
            forall|id: Seq<char>| #[trigger] final(self).runs_for(id) == old(self).runs_for(id),
            !has_job(old(self).jobs(), job@.id) ==> r.is_err(),
            match r {
                Ok(_) => has_job(old(self).jobs(), job@.id) && final(self).jobs() == upsert(
                    old(self).jobs(),
                    job@,
                ),
                Err(e) => {
                    &&& final(self).jobs() == old(self).jobs()
                    &&& match e {
                        CronError::NotFound(id) => id@ == job@.id && !has_job(
                            old(self).jobs(),
                            job@.id,
                        ),
                        CronError::StoreIo(_) => true,
                        CronError::Validation(_) => false,
                    }
                },
            },
    ;

    /// Deletes the job with the id `id`; there has to be one. Its run history stays.
    fn delete_job(&mut self, id: &str) -> (r: Result<(), CronError>)
        requires
            old(self).valid(),
        ensures
            final(self).dependable() == old(self).dependable(),
            old(self).dependable() ==> r.is_ok() == has_job(old(self).jobs(), id@),
            old(self).dependable() && r.is_err() ==> r->Err_0 is NotFound,
            final(self).valid(),
            forall|other: Seq<char>|
                #[trigger] final(self).runs_for(other) == old(self).runs_for(other),
            !has_job(old(self).jobs(), id@) ==> r.is_err(),
            match r {
                Ok(_) => has_job(old(self).jobs(), id@) && final(self).jobs() == without(
                    old(self).jobs(),
                    id@,
                ),
                Err(e) => {
                    &&& final(self).jobs() == old(self).jobs()
                    &&& match e {
                        CronError::NotFound(missing) => missing@ == id@ && !has_job(
                            old(self).jobs(),
                            id@,
                        ),
                        CronError::StoreIo(_) => true,
                        CronError::Validation(_) => false,
                    }
                },
            },
    ;

    /// Adds a run to the history of the job `job_id`, whether or not that job exists.
    fn append_run(&mut self, job_id: &str, run: &CronRunRecord) -> (r: Result<(), CronError>)
        requires
            old(self).valid(),
        ensures
            final(self).dependable() == old(self).dependable(),
            old(self).dependable() ==> r.is_ok(),
            final(self).valid(),
            final(self).jobs() == old(self).jobs(),
            forall|other: Seq<char>|
                other != job_id@ ==> #[trigger] final(self).runs_for(other) == old(self).runs_for(
                    other,
                ),
            match r {
                Ok(_) => final(self).runs_for(job_id@) == with_run(
                    old(self).runs_for(job_id@),
                    filed(run@, job_id@),
                ),
                Err(e) => e is StoreIo && final(self).runs_for(job_id@) == old(self).runs_for(
                    job_id@,
                ),
            },
    ;

    /// The most recent `limit` runs of the job `job_id`, oldest first. The history that
    /// they are taken from is in the order of the start times and holds runs of this job
    /// only.
    fn get_runs(&self, job_id: &str, limit: usize) -> (r: Result<Vec<CronRunRecord>, CronError>)
        requires
            self.valid(),
        ensures
            self.dependable() ==> r.is_ok(),
            chronological(self.runs_for(job_id@)),
            all_of_job(self.runs_for(job_id@), job_id@),
            match r {
                Ok(v) => crate::types::run_views(v@) == latest(
                    self.runs_for(job_id@),
                    limit as int,
                ),
                Err(e) => e is StoreIo,
            },
    ;
}

} // verus!
