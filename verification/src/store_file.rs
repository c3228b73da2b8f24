//! The file-based store: a single document that holds all jobs and all run histories
//! and is rewritten as a whole on every mutation.
//!
//! The store keeps the document in memory and hands every new version of it to a sink,
//! which writes it. A version that the sink fails to write is dropped: the store is
//! then as it was before the mutation. One process owns the file.
//!
//! What the store holds, in the words of the store interface, is the document in
//! memory. The file is the sink's; of a sink nothing is known here but what it answers.

use vstd::prelude::*;
use crate::store::{filed, has_job, upsert, with_run, without, CronStore};
use crate::store_memory::MemoryStore;
use crate::types::{CronError, CronJob, CronRunRecord, JobView, RunView};

verus! {

/// Where the document of a file store is written.
pub trait Persist {
    /// `r` is an answer that the sink may give when it is handed `doc`. A sink that does
    /// not say what it answers may answer anything.
    open spec fn answers(&self, doc: MemoryStore, r: Result<(), String>) -> bool {
        true
    }

    /// Writes `doc` in place of what was written before, in one step: after a failure
    /// the earlier document is still there. Fails with the reason.
    fn persist(&mut self, doc: &MemoryStore) -> (r: Result<(), String>)
        ensures
            old(self).answers(*doc, r),
    ;
}

/// Jobs and run histories in a document that a sink writes.
pub struct FileStore<P: Persist> {
    pub doc: MemoryStore,
    pub sink: P,
}

/// What becomes of a store with the document `before` when the sink has answered to the
/// document `next`: if it was written, the operation succeeds and `next` is the document
/// of the store; if not, the operation fails with the sink's reason as a failure of the
/// store, and the document is as before.
pub open spec fn written_as(
    before: MemoryStore,
    next: MemoryStore,
    answer: Result<(), String>,
    r: Result<(), CronError>,
    after: MemoryStore,
) -> bool {
    match answer {
        Ok(_) => r.is_ok() && after == next,
        Err(reason) => r == Err::<(), CronError>(CronError::StoreIo(reason)) && after == before,
    }
}

/// The valid document `next` was handed to the sink of the store `before`, and the
/// result `r` and the document of the store `after` are as the sink's answer makes them.
pub open spec fn handed<P: Persist>(
    before: FileStore<P>,
    after: FileStore<P>,
    next: MemoryStore,
    r: Result<(), CronError>,
) -> bool {
    next.valid() && exists|answer: Result<(), String>|
        #[trigger] before.sink.answers(next, answer) && written_as(
            before.doc,
            next,
            answer,
            r,
            after.doc,
        )
}

/// The mutation of the store `before` went through a document that holds the jobs
/// `jobs` and the histories of `before`, but for the history of the job `changed`, which
/// is `runs`.
pub open spec fn mutated<P: Persist>(
    before: FileStore<P>,
    after: FileStore<P>,
    jobs: Seq<JobView>,
    changed: Seq<char>,
    runs: Seq<RunView>,
    r: Result<(), CronError>,
) -> bool {
    exists|next: MemoryStore|
        {
            &&& #[trigger] handed(before, after, next, r)
            &&& next.jobs() == jobs
            &&& next.runs_for(changed) == runs
            &&& forall|other: Seq<char>|
                other != changed ==> #[trigger] next.runs_for(other) == before.doc.runs_for(
                    other,
                )
        }
}

impl<P: Persist> FileStore<P> {
    /// A store that starts from the document `doc`, as it was read from the file, and
    /// writes to `sink`. A document that is not valid is refused.
    pub fn open(doc: MemoryStore, sink: P) -> (r: Option<Self>)
        ensures
            match r {
                Some(store) => doc.valid() && store.valid() && store.doc == doc && store.sink
                    == sink,
                None => !doc.valid(),
            },
    {
        if doc.is_valid() {
            Some(FileStore { doc, sink })
        } else {
            None
        }
    }

    /// Takes in what the sink answered when it was handed the document `next`: a
    /// document that was written becomes the document of the store, and one that was not
    /// is dropped, with the sink's reason as the failure of the store.
    pub fn written(&mut self, next: MemoryStore, answer: Result<(), String>) -> (r: Result<
        (),
        CronError,
    >)
        requires
            next.valid(),
        ensures
            written_as(old(self).doc, next, answer, r, final(self).doc),
            final(self).sink == old(self).sink,
            match answer {
                Ok(_) => r.is_ok() && final(self).doc == next,
                Err(reason) => r == Err::<(), CronError>(CronError::StoreIo(reason)) && final(self).doc == old(self).doc,
            },
    {
        match answer {
            Ok(_) => {
                self.doc = next;
                Ok(())
            },
            Err(reason) => Err(CronError::StoreIo(reason)),
        }
    }

    /// Hands the document `next` to the sink and takes in what the sink answers.
    fn commit(&mut self, next: MemoryStore) -> (r: Result<(), CronError>)
        requires
            next.valid(),
        ensures
            handed(*old(self), *final(self), next, r),
    {
        let answer = self.sink.persist(&next);
        proof {
            assert(old(self).sink.answers(next, answer));
        }
        self.written(next, answer)
    }
}

impl<P: Persist> CronStore for FileStore<P> {
    open spec fn valid(&self) -> bool {
        self.doc.valid()
    }

    open spec fn jobs(&self) -> Seq<JobView> {
        self.doc.jobs()
    }

    open spec fn runs_for(&self, job_id: Seq<char>) -> Seq<RunView> {
        self.doc.runs_for(job_id)
    }

    /// The jobs of the document; the sink is not asked.
    fn load_jobs(&self) -> (r: Result<Vec<CronJob>, CronError>)
        ensures
            r.is_ok(),
    {
        self.doc.load_jobs()
    }

    /// Hands the sink the document with `job` saved in it.
    fn save_job(&mut self, job: &CronJob) -> (r: Result<(), CronError>)
        ensures
            mutated(
                *old(self),
                *final(self),
                upsert(old(self).jobs(), job@),
                job@.id,
                old(self).runs_for(job@.id),
                r,
            ),
    {
        let mut next = self.doc.copy();
        let _ = next.save_job(job);
        let r = self.commit(next);
        proof {
            assert(handed(*old(self), *self, next, r));
        }
        r
    }

    /// Fails with `NotFound`, and without asking the sink, if there is no job of that id;
    /// else hands the sink the document with `job` in the place of that job.
    fn update_job(&mut self, job: &CronJob) -> (r: Result<(), CronError>)
        ensures
            if has_job(old(self).jobs(), job@.id) {
                mutated(
                    *old(self),
                    *final(self),
                    upsert(old(self).jobs(), job@),
                    job@.id,
                    old(self).runs_for(job@.id),
                    r,
                )
            } else {
                (r matches Err(CronError::NotFound(m)) && m@ == job@.id) && final(self).doc == old(self).doc && final(self).sink == old(self).sink
            },
    {
        let mut next = self.doc.copy();
        match next.update_job(job) {
            Ok(_) => {
                let r = self.commit(next);
                proof {
                    assert(handed(*old(self), *self, next, r));
                }
                r
            },
            Err(e) => Err(e),
        }
    }

    /// Fails with `NotFound`, and without asking the sink, if there is no job of that id;
    /// else hands the sink the document without that job.
    fn delete_job(&mut self, id: &str) -> (r: Result<(), CronError>)
        ensures
            if has_job(old(self).jobs(), id@) {
                mutated(
                    *old(self),
                    *final(self),
                    without(old(self).jobs(), id@),
                    id@,
                    old(self).runs_for(id@),
                    r,
                )
            } else {
                (r matches Err(CronError::NotFound(m)) && m@ == id@) && final(self).doc == old(self).doc && final(self).sink == old(self).sink
            },
    {
        let mut next = self.doc.copy();
        match next.delete_job(id) {
            Ok(_) => {
                let r = self.commit(next);
                proof {
                    assert(handed(*old(self), *self, next, r));
                }
                r
            },
            Err(e) => Err(e),
        }
    }

    /// Hands the sink the document with `run` added to the history of the job `job_id`.
    fn append_run(&mut self, job_id: &str, run: &CronRunRecord) -> (r: Result<(), CronError>)
        ensures
            mutated(
                *old(self),
                *final(self),
                old(self).jobs(),
                job_id@,
                with_run(old(self).runs_for(job_id@), filed(run@, job_id@)),
                r,
            ),
    {
        let mut next = self.doc.copy();
        let _ = next.append_run(job_id, run);
        let r = self.commit(next);
        proof {
            assert(handed(*old(self), *self, next, r));
        }
        r
    }

    /// The latest runs in the document; the sink is not asked.
    fn get_runs(&self, job_id: &str, limit: usize) -> (r: Result<Vec<CronRunRecord>, CronError>)
        ensures
            r.is_ok(),
    {
        self.doc.get_runs(job_id, limit)
    }
}

} // verus!
