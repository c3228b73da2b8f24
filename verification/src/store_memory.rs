//! The store that lives in memory, for the lifetime of the process.
//!
//! The same value is the document that a file-based store rewrites as a whole on every
//! mutation.

use vstd::prelude::*;
use crate::store::{
    all_of_job, chronological, filed, has_job, index_of, latest, lemma_index_of, lemma_slot_for,
    lemma_upsert, lemma_with_run, lemma_without, slot_for, unique_ids, with_run, without,
    CronStore,
};
use crate::types::{
    clone_text, job_views, run_views, CronError, CronJob, CronRunRecord, JobView, RunView,
};

verus! {

/// The run history of one job, oldest first.
#[derive(Debug, PartialEq, Eq)]
pub struct JobHistory {
    pub job_id: String,
    pub runs: Vec<CronRunRecord>,
}

/// Jobs and run histories, held in memory.
#[derive(Debug, PartialEq, Eq)]
pub struct MemoryStore {
    pub jobs: Vec<CronJob>,
    pub histories: Vec<JobHistory>,
}

/// Some history in `histories` is that of the job `id`.
pub open spec fn has_history(histories: Seq<JobHistory>, id: Seq<char>) -> bool {
    exists|i: int| 0 <= i < histories.len() && (#[trigger] histories[i]).job_id@ == id
}

/// The place of the history of the job `id`, if there is one.
pub open spec fn history_index(histories: Seq<JobHistory>, id: Seq<char>) -> int {
    choose|i: int| 0 <= i < histories.len() && (#[trigger] histories[i]).job_id@ == id
}

/// No two histories are of the same job.
pub open spec fn unique_histories(histories: Seq<JobHistory>) -> bool {
    forall|i: int, j: int|
        0 <= i < j < histories.len() ==> (#[trigger] histories[i]).job_id@ != (
        #[trigger] histories[j]).job_id@
}

/// The runs that `histories` holds for the job `id`.
pub open spec fn history_of(histories: Seq<JobHistory>, id: Seq<char>) -> Seq<RunView> {
    if has_history(histories, id) {
        run_views(histories[history_index(histories, id)].runs@)
    } else {
        Seq::empty()
    }
}

proof fn lemma_history_index(histories: Seq<JobHistory>, i: int)
    requires
        unique_histories(histories),
        0 <= i < histories.len(),
    ensures
        has_history(histories, histories[i].job_id@),
        history_index(histories, histories[i].job_id@) == i,
        history_of(histories, histories[i].job_id@) == run_views(histories[i].runs@),
{
    let k = history_index(histories, histories[i].job_id@);
    if k < i {
        assert(histories[k].job_id@ != histories[i].job_id@);
    } else if i < k {
        assert(histories[i].job_id@ != histories[k].job_id@);
    }
}

/// What a change of the history at place `k` does to the histories of the other jobs:
/// nothing.
proof fn lemma_other_histories(before: Seq<JobHistory>, after: Seq<JobHistory>, k: int)
    requires
        unique_histories(before),
        unique_histories(after),
        0 <= k < after.len(),
        before.len() == after.len() || (before.len() + 1 == after.len() && k == before.len()),
        forall|i: int| 0 <= i < before.len() && i != k ==> #[trigger] after[i] == before[i],
        k < before.len() ==> after[k].job_id@ == before[k].job_id@,
    ensures
        forall|other: Seq<char>|
            other != after[k].job_id@ ==> #[trigger] history_of(after, other) == history_of(
                before,
                other,
            ),
{
    assert forall|other: Seq<char>| other != after[k].job_id@ implies #[trigger] history_of(
        after,
        other,
    ) == history_of(before, other) by {
        if has_history(before, other) {
            let i = history_index(before, other);
            assert(after[i] == before[i]);
            lemma_history_index(before, i);
            lemma_history_index(after, i);
        } else if has_history(after, other) {
            let i = history_index(after, other);
            assert(before[i].job_id@ == other);
        }
    }
}

/// In valid histories, the history of every job is in the order of the start times and
/// holds runs of that job only.
proof fn lemma_history_of(histories: Seq<JobHistory>, id: Seq<char>)
    requires
        forall|i: int|
            0 <= i < histories.len() ==> chronological(run_views((#[trigger] histories[i]).runs@)),
        forall|i: int|
            0 <= i < histories.len() ==> all_of_job(
                run_views((#[trigger] histories[i]).runs@),
                histories[i].job_id@,
            ),
    ensures
        chronological(history_of(histories, id)),
        all_of_job(history_of(histories, id), id),
{
    if has_history(histories, id) {
        let i = history_index(histories, id);
        assert(chronological(run_views(histories[i].runs@)));
        assert(all_of_job(run_views(histories[i].runs@), histories[i].job_id@));
    }
}

impl MemoryStore {
    /// A store without jobs and without runs.
    pub fn new() -> (r: MemoryStore)
        ensures
            r.valid(),
            r.jobs() == Seq::<JobView>::empty(),
            forall|id: Seq<char>| #[trigger] r.runs_for(id) == Seq::<RunView>::empty(),
    {
        let r = MemoryStore { jobs: Vec::new(), histories: Vec::new() };
        proof {
            assert(job_views(r.jobs@) =~= Seq::<JobView>::empty());
        }
        r
    }

    /// Whether the store is valid. A store that was put together from parts, such as a
    /// document read from a file, has to pass this before it is used.
    pub fn is_valid(&self) -> (r: bool)
        ensures
            r == self.valid(),
    {
        let mut i: usize = 0;
        while i < self.jobs.len()
            invariant
                i <= self.jobs@.len(),
                forall|a: int, b: int|
                    0 <= a < b < self.jobs@.len() && a < i ==> (#[trigger] job_views(
                        self.jobs@,
                    )[a]).id != (#[trigger] job_views(self.jobs@)[b]).id,
            decreases self.jobs@.len() - i,
        {
            let mut j: usize = i + 1;
            while j < self.jobs.len()
                invariant
                    i < j <= self.jobs@.len(),
                    forall|b: int|
                        i < b < j ==> job_views(self.jobs@)[i as int].id != (#[trigger] job_views(
                            self.jobs@,
                        )[b]).id,
                decreases self.jobs@.len() - j,
            {
                if self.jobs[i].id == self.jobs[j].id {
                    proof {
                        assert(job_views(self.jobs@)[i as int].id == job_views(
                            self.jobs@,
                        )[j as int].id);
                    }
                    return false;
                }
                j = j + 1;
            }
            i = i + 1;
        }
        let mut i: usize = 0;
        while i < self.histories.len()
            invariant
                i <= self.histories@.len(),
                unique_ids(job_views(self.jobs@)),
                forall|a: int, b: int|
                    0 <= a < b < self.histories@.len() && a < i ==> (
                    #[trigger] self.histories@[a]).job_id@ != (
                    #[trigger] self.histories@[b]).job_id@,
                forall|a: int|
                    0 <= a < i ==> chronological(run_views((#[trigger] self.histories@[a]).runs@)),
                forall|a: int|
                    0 <= a < i ==> all_of_job(
                        run_views((#[trigger] self.histories@[a]).runs@),
                        self.histories@[a].job_id@,
                    ),
            decreases self.histories@.len() - i,
        {
            let mut j: usize = i + 1;
            while j < self.histories.len()
                invariant
                    i < j <= self.histories@.len(),
                    forall|b: int|
                        i < b < j ==> self.histories@[i as int].job_id@ != (
                        #[trigger] self.histories@[b]).job_id@,
                decreases self.histories@.len() - j,
            {
                if self.histories[i].job_id == self.histories[j].job_id {
                    return false;
                }
                j = j + 1;
            }
            let history = &self.histories[i];
            let ghost views = run_views(history.runs@);
            let mut k: usize = 0;
            while k < history.runs.len()
                invariant
                    k <= history.runs@.len(),
                    i < self.histories@.len(),
                    *history == self.histories@[i as int],
                    views == run_views(history.runs@),
                    forall|a: int, b: int|
                        0 <= a <= b < k ==> (#[trigger] views[a]).started_at_ms <= (
                        #[trigger] views[b]).started_at_ms,
                    forall|a: int| 0 <= a < k ==> (#[trigger] views[a]).job_id == history.job_id@,
                decreases history.runs@.len() - k,
            {
                if history.runs[k].job_id != history.job_id {
                    proof {
                        assert(views[k as int].job_id != history.job_id@);
                        assert(!all_of_job(
                            run_views(self.histories@[i as int].runs@),
                            self.histories@[i as int].job_id@,
                        ));
                    }
                    return false;
                }
                if k > 0 && history.runs[k - 1].started_at_ms > history.runs[k].started_at_ms {
                    proof {
                        assert(views[k - 1].started_at_ms > views[k as int].started_at_ms);
                        assert(!chronological(run_views(self.histories@[i as int].runs@)));
                    }
                    return false;
                }
                proof {
                    assert forall|a: int, b: int| 0 <= a <= b < k + 1 implies (
                    #[trigger] views[a]).started_at_ms <= (#[trigger] views[b]).started_at_ms by {
                        if b == k && a < k {
                            assert(views[a].started_at_ms <= views[k - 1].started_at_ms);
                        }
                    }
                }
                k = k + 1;
            }
            i = i + 1;
        }
        true
    }

    /// A copy of the store.
    pub fn copy(&self) -> (r: MemoryStore)
        requires
            self.valid(),
        ensures
            r.valid(),
            r.jobs() == self.jobs(),
            forall|id: Seq<char>| #[trigger] r.runs_for(id) == self.runs_for(id),
    {
        let mut jobs: Vec<CronJob> = Vec::new();
        let mut i: usize = 0;
        while i < self.jobs.len()
            invariant
                i <= self.jobs@.len(),
                jobs@.len() == i,
                forall|j: int| 0 <= j < i ==> (#[trigger] jobs@[j])@ == self.jobs@[j]@,
            decreases self.jobs@.len() - i,
        {
            jobs.push(self.jobs[i].clone());
            i = i + 1;
        }
        let mut histories: Vec<JobHistory> = Vec::new();
        let mut h: usize = 0;
        while h < self.histories.len()
            invariant
                h <= self.histories@.len(),
                histories@.len() == h,
                forall|j: int|
                    0 <= j < h ==> (#[trigger] histories@[j]).job_id@ == self.histories@[j].job_id@
                        && run_views(histories@[j].runs@) == run_views(self.histories@[j].runs@),
            decreases self.histories@.len() - h,
        {
            let from = &self.histories[h];
            let mut runs: Vec<CronRunRecord> = Vec::new();
            let mut k: usize = 0;
            while k < from.runs.len()
                invariant
                    k <= from.runs@.len(),
                    runs@.len() == k,
                    forall|j: int| 0 <= j < k ==> (#[trigger] runs@[j])@ == from.runs@[j]@,
                decreases from.runs@.len() - k,
            {
                runs.push(from.runs[k].clone());
                k = k + 1;
            }
            proof {
                assert(run_views(runs@) =~= run_views(from.runs@));
            }
            histories.push(JobHistory { job_id: from.job_id.clone(), runs });
            h = h + 1;
        }
        let r = MemoryStore { jobs, histories };
        proof {
            assert(job_views(r.jobs@) =~= job_views(self.jobs@));
            assert forall|a: int, b: int| 0 <= a < b < r.histories@.len() implies (
            #[trigger] r.histories@[a]).job_id@ != (#[trigger] r.histories@[b]).job_id@ by {
                assert(self.histories@[a].job_id@ != self.histories@[b].job_id@);
            }
            assert forall|a: int| 0 <= a < r.histories@.len() implies chronological(
                run_views((#[trigger] r.histories@[a]).runs@),
            ) && all_of_job(run_views(r.histories@[a].runs@), r.histories@[a].job_id@) by {
                assert(chronological(run_views(self.histories@[a].runs@)));
                assert(all_of_job(
                    run_views(self.histories@[a].runs@),
                    self.histories@[a].job_id@,
                ));
            }
            assert forall|id: Seq<char>| #[trigger]
                history_of(r.histories@, id) == history_of(self.histories@, id) by {
                if has_history(self.histories@, id) {
                    let a = history_index(self.histories@, id);
                    assert(r.histories@[a].job_id@ == id);
                    lemma_history_index(self.histories@, a);
                    lemma_history_index(r.histories@, a);
                } else if has_history(r.histories@, id) {
                    let a = history_index(r.histories@, id);
                    assert(self.histories@[a].job_id@ == id);
                }
            }
        }
        r
    }

    /// The place of the job with the id `id`.
    fn job_place(&self, id: &String) -> (r: Option<usize>)
        requires
            unique_ids(job_views(self.jobs@)),
        ensures
            match r {
                Some(i) => i < self.jobs@.len() && self.jobs@[i as int]@.id == id@ && has_job(
                    job_views(self.jobs@),
                    id@,
                ) && index_of(job_views(self.jobs@), id@) == i,
                None => !has_job(job_views(self.jobs@), id@),
            },
    {
        let mut i: usize = 0;
        while i < self.jobs.len()
            invariant
                i <= self.jobs@.len(),
                unique_ids(job_views(self.jobs@)),
                forall|j: int| 0 <= j < i ==> (#[trigger] job_views(self.jobs@)[j]).id != id@,
            decreases self.jobs@.len() - i,
        {
            if self.jobs[i].id == *id {
                proof {
                    lemma_index_of(job_views(self.jobs@), i as int);
                }
                return Some(i);
            }
            i = i + 1;
        }
        None
    }

    /// The place of the history of the job `id`.
    fn history_place(&self, id: &String) -> (r: Option<usize>)
        requires
            unique_histories(self.histories@),
        ensures
            match r {
                Some(i) => i < self.histories@.len() && self.histories@[i as int].job_id@ == id@
                    && has_history(self.histories@, id@) && history_index(self.histories@, id@)
                    == i,
                None => !has_history(self.histories@, id@),
            },
    {
        let mut i: usize = 0;
        while i < self.histories.len()
            invariant
                i <= self.histories@.len(),
                unique_histories(self.histories@),
                forall|j: int| 0 <= j < i ==> (#[trigger] self.histories@[j]).job_id@ != id@,
            decreases self.histories@.len() - i,
        {
            if self.histories[i].job_id == *id {
                proof {
                    lemma_history_index(self.histories@, i as int);
                }
                return Some(i);
            }
            i = i + 1;
        }
        None
    }
}

/// A copy of `run` under the job id `job_id`.
fn file_run(run: &CronRunRecord, job_id: &str) -> (r: CronRunRecord)
    ensures
        r@ == filed(run@, job_id@),
{
    CronRunRecord {
        job_id: job_id.to_owned(),
        started_at_ms: run.started_at_ms,
        finished_at_ms: run.finished_at_ms,
        status: run.status,
        error: clone_text(&run.error),
        duration_ms: run.duration_ms,
        output: clone_text(&run.output),
    }
}

/// Puts `run` into `runs` behind the last run that starts no later.
fn insert_run(runs: &mut Vec<CronRunRecord>, run: CronRunRecord)
    requires
        chronological(run_views(old(runs)@)),
    ensures
        run_views(final(runs)@) == with_run(run_views(old(runs)@), run@),
{
    let ghost before = run_views(runs@);
    let mut k: usize = runs.len();
    proof {
        assert(before.subrange(0, k as int) =~= before);
    }
    while k > 0 && runs[k - 1].started_at_ms > run.started_at_ms
        invariant
            k <= runs@.len(),
            run_views(runs@) == before,
            slot_for(before, run.started_at_ms) == slot_for(
                before.subrange(0, k as int),
                run.started_at_ms,
            ),
        decreases k,
    {
        proof {
            let part = before.subrange(0, k as int);
            assert(part.last() == before[k - 1]);
            assert(part.drop_last() =~= before.subrange(0, k - 1));
        }
        k = k - 1;
    }
    proof {
        let part = before.subrange(0, k as int);
        if k > 0 {
            assert(part.last() == before[k - 1]);
        }
        assert(slot_for(part, run.started_at_ms) == k);
    }
    runs.insert(k, run);
    proof {
        assert(run_views(runs@) =~= before.insert(k as int, run@));
    }
}

impl CronStore for MemoryStore {
    open spec fn valid(&self) -> bool {
        &&& unique_ids(job_views(self.jobs@))
        &&& unique_histories(self.histories@)
        &&& forall|i: int|
            0 <= i < self.histories@.len() ==> chronological(
                run_views((#[trigger] self.histories@[i]).runs@),
            )
        &&& forall|i: int|
            0 <= i < self.histories@.len() ==> all_of_job(
                run_views((#[trigger] self.histories@[i]).runs@),
                self.histories@[i].job_id@,
            )
    }

    open spec fn jobs(&self) -> Seq<JobView> {
        job_views(self.jobs@)
    }

    open spec fn runs_for(&self, job_id: Seq<char>) -> Seq<RunView> {
        history_of(self.histories@, job_id)
    }

    open spec fn dependable(&self) -> bool {
        true
    }

    fn load_jobs(&self) -> (r: Result<Vec<CronJob>, CronError>)
        ensures
            r.is_ok(),
    {
        let mut out: Vec<CronJob> = Vec::new();
        let mut i: usize = 0;
        while i < self.jobs.len()
            invariant
                i <= self.jobs@.len(),
                out@.len() == i,
                job_views(out@) == job_views(self.jobs@).subrange(0, i as int),
            decreases self.jobs@.len() - i,
        {
            let ghost so_far = out@;
            let job = self.jobs[i].clone();
            out.push(job);
            proof {
                assert forall|j: int| 0 <= j < i implies #[trigger] job_views(out@)[j]
                    == job_views(self.jobs@)[j] by {
                    assert(job_views(so_far)[j] == job_views(self.jobs@).subrange(0, i as int)[j]);
                }
                assert(job_views(out@) =~= job_views(self.jobs@).subrange(0, i + 1));
            }
            i = i + 1;
        }
        proof {
            assert(job_views(out@) =~= job_views(self.jobs@));
        }
        Ok(out)
    }

    fn save_job(&mut self, job: &CronJob) -> (r: Result<(), CronError>)
        ensures
            r.is_ok(),
    {
        let ghost before = job_views(self.jobs@);
        proof {
            lemma_upsert(before, job@);
        }
        match self.job_place(&job.id) {
            Some(i) => {
                self.jobs.set(i, job.clone());
                proof {
                    assert(job_views(self.jobs@) =~= before.update(i as int, job@));
                }
            },
            None => {
                self.jobs.push(job.clone());
                proof {
                    assert(job_views(self.jobs@) =~= before.push(job@));
                }
            },
        }
        Ok(())
    }

    fn update_job(&mut self, job: &CronJob) -> (r: Result<(), CronError>)
        ensures
            r.is_ok() == has_job(old(self).jobs(), job@.id),
            r matches Err(e) ==> e is NotFound,
    {
        let ghost before = job_views(self.jobs@);
        proof {
            lemma_upsert(before, job@);
        }
        match self.job_place(&job.id) {
            Some(i) => {
                self.jobs.set(i, job.clone());
                proof {
                    assert(job_views(self.jobs@) =~= before.update(i as int, job@));
                }
                Ok(())
            },
            None => Err(CronError::NotFound(job.id.clone())),
        }
    }

    fn delete_job(&mut self, id: &str) -> (r: Result<(), CronError>)
        ensures
            r.is_ok() == has_job(old(self).jobs(), id@),
            r matches Err(e) ==> e is NotFound,
    {
        let ghost before = job_views(self.jobs@);
        proof {
            lemma_without(before, id@);
        }
        let key = id.to_owned();
        match self.job_place(&key) {
            Some(i) => {
                let _ = self.jobs.remove(i);
                proof {
                    assert(job_views(self.jobs@) =~= before.remove(i as int));
                }
                Ok(())
            },
            None => Err(CronError::NotFound(key)),
        }
    }

    fn append_run(&mut self, job_id: &str, run: &CronRunRecord) -> (r: Result<(), CronError>)
        ensures
            r.is_ok(),
    {
        let ghost before = self.histories@;
        let key = job_id.to_owned();
        let place = match self.history_place(&key) {
            Some(i) => i,
            None => {
                self.histories.push(JobHistory { job_id: key, runs: Vec::new() });
                proof {
                    assert(run_views(Seq::<CronRunRecord>::empty()) =~= Seq::<RunView>::empty());
                }
                self.histories.len() - 1
            },
        };
        let ghost middle = self.histories@;
        proof {
            assert(unique_histories(middle));
            lemma_history_index(middle, place as int);
            assert(history_of(middle, job_id@) == history_of(before, job_id@)) by {
                if has_history(before, job_id@) {
                    lemma_history_index(before, place as int);
                } else {
                    assert(run_views(middle[place as int].runs@) =~= Seq::<RunView>::empty());
                }
            }
            lemma_with_run(history_of(before, job_id@), filed(run@, job_id@));
        }
        let mut history = self.histories.remove(place);
        insert_run(&mut history.runs, file_run(run, job_id));
        self.histories.insert(place, history);
        proof {
            let after = self.histories@;
            assert(after.len() == middle.len());
            assert forall|i: int| 0 <= i < after.len() && i != place implies #[trigger] after[i]
                == middle[i] by {}
            assert(after[place as int].job_id@ == job_id@);
            assert(unique_histories(after)) by {
                assert forall|i: int, j: int| 0 <= i < j < after.len() implies (
                #[trigger] after[i]).job_id@ != (#[trigger] after[j]).job_id@ by {
                    assert(middle[i].job_id@ != middle[j].job_id@);
                }
            }
            lemma_history_index(after, place as int);
            let stored = run_views(after[place as int].runs@);
            assert(all_of_job(stored, job_id@)) by {
                let old_runs = history_of(before, job_id@);
                let k = slot_for(old_runs, run.started_at_ms);
                lemma_slot_for(old_runs, run.started_at_ms);
                assert(all_of_job(old_runs, job_id@)) by {
                    assert(all_of_job(
                        run_views(middle[place as int].runs@),
                        middle[place as int].job_id@,
                    ));
                }
                assert forall|i: int| 0 <= i < stored.len() implies (#[trigger] stored[i]).job_id
                    == job_id@ by {
                    if i < k {
                        assert(stored[i] == old_runs[i]);
                    } else if i > k {
                        assert(stored[i] == old_runs[i - 1]);
                    }
                }
            }
            lemma_other_histories(middle, after, place as int);
            if has_history(before, job_id@) {
                assert(middle == before);
            } else {
                lemma_other_histories(before, middle, place as int);
            }
            assert forall|i: int| 0 <= i < after.len() implies chronological(
                run_views((#[trigger] after[i]).runs@),
            ) && all_of_job(run_views(after[i].runs@), after[i].job_id@) by {
                if i != place {
                    assert(after[i] == middle[i]);
                    if i < before.len() {
                        assert(middle[i] == before[i]);
                    }
                }
            }
        }
        Ok(())
    }

    fn get_runs(&self, job_id: &str, limit: usize) -> (r: Result<Vec<CronRunRecord>, CronError>)
        ensures
            r.is_ok(),
    {
        proof {
            lemma_history_of(self.histories@, job_id@);
        }
        let key = job_id.to_owned();
        let mut out: Vec<CronRunRecord> = Vec::new();
        match self.history_place(&key) {
            Some(h) => {
                let runs = &self.histories[h].runs;
                let ghost all = run_views(runs@);
                let start: usize = if limit >= runs.len() {
                    0
                } else {
                    runs.len() - limit
                };
                let mut i: usize = start;
                while i < runs.len()
                    invariant
                        start <= i <= runs@.len(),
                        all == run_views(runs@),
                        out@.len() == i - start,
                        run_views(out@) == all.subrange(start as int, i as int),
                    decreases runs@.len() - i,
                {
                    let ghost so_far = out@;
                    let run = runs[i].clone();
                    out.push(run);
                    proof {
                        assert forall|j: int| 0 <= j < i - start implies #[trigger] run_views(
                            out@,
                        )[j] == all[start + j] by {
                            assert(run_views(so_far)[j] == all.subrange(start as int, i as int)[j]);
                        }
                        assert(run_views(out@) =~= all.subrange(start as int, i + 1));
                    }
                    i = i + 1;
                }
                proof {
                    assert(run_views(out@) =~= latest(all, limit as int));
                }
            },
            None => {
                proof {
                    assert(run_views(out@) =~= latest(Seq::<RunView>::empty(), limit as int));
                }
            },
        }
        Ok(out)
    }
}

} // verus!
