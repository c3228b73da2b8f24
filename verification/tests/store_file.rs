use std::cell::RefCell;
use std::rc::Rc;

use cron_engine::service::{CronService, Executor, RunReport};
use cron_engine::store::CronStore;
use cron_engine::store_file::{FileStore, Persist};
use cron_engine::store_memory::{JobHistory, MemoryStore};
use cron_engine::types::{
    CronError, CronJob, CronJobCreate, CronJobState, CronPayload, CronRunRecord, CronSchedule,
    RunOutcome, RunStatus, SessionTarget,
};

/// A sink that keeps what it was given, and can be told to fail.
struct Disk {
    written: Rc<RefCell<Vec<MemoryStore>>>,
    broken: Rc<RefCell<bool>>,
}

impl Persist for Disk {
    fn persist(&mut self, doc: &MemoryStore) -> Result<(), String> {
        if *self.broken.borrow() {
            return Err("disk full".into());
        }
        self.written.borrow_mut().push(doc.copy());
        Ok(())
    }
}

struct Handles {
    written: Rc<RefCell<Vec<MemoryStore>>>,
    broken: Rc<RefCell<bool>>,
}

fn store() -> (FileStore<Disk>, Handles) {
    store_from(MemoryStore::new()).unwrap()
}

fn store_from(doc: MemoryStore) -> Option<(FileStore<Disk>, Handles)> {
    let written = Rc::new(RefCell::new(Vec::new()));
    let broken = Rc::new(RefCell::new(false));
    let disk = Disk { written: Rc::clone(&written), broken: Rc::clone(&broken) };
    FileStore::open(doc, disk).map(|s| (s, Handles { written, broken }))
}

fn make_job(id: &str) -> CronJob {
    CronJob {
        id: id.into(),
        name: format!("job-{id}"),
        enabled: true,
        delete_after_run: false,
        schedule: CronSchedule::At { at_ms: 1000 },
        payload: CronPayload::SystemEvent { text: "hi".into() },
        session_target: SessionTarget::Main,
        state: CronJobState::default(),
        created_at_ms: 1000,
        updated_at_ms: 1000,
    }
}

fn make_run(job_id: &str, started: u64) -> CronRunRecord {
    CronRunRecord {
        job_id: job_id.into(),
        started_at_ms: started,
        finished_at_ms: started + 500,
        status: RunStatus::Succeeded,
        error: None,
        duration_ms: 500,
        output: None,
    }
}

#[test]
fn file_roundtrip() {
    let (mut store, _) = store();
    store.save_job(&make_job("1")).unwrap();
    store.save_job(&make_job("2")).unwrap();
    let jobs = store.load_jobs().unwrap();
    assert_eq!(jobs.len(), 2);
    assert!(jobs.contains(&make_job("1")));
    assert!(jobs.contains(&make_job("2")));
}

#[test]
fn file_upsert() {
    let (mut store, _) = store();
    store.save_job(&make_job("1")).unwrap();
    let mut job = make_job("1");
    job.name = "updated".into();
    store.save_job(&job).unwrap();
    let jobs = store.load_jobs().unwrap();
    assert_eq!(jobs.len(), 1);
    assert_eq!(jobs[0].name, "updated");
}

#[test]
fn file_delete_and_update_of_unknown_jobs_fail() {
    let (mut store, disk) = store();
    assert_eq!(store.delete_job("nope"), Err(CronError::NotFound("nope".into())));
    assert_eq!(store.update_job(&make_job("1")), Err(CronError::NotFound("1".into())));
    // Nothing was written for what did not happen.
    assert!(disk.written.borrow().is_empty());
    store.save_job(&make_job("1")).unwrap();
    let mut job = make_job("1");
    job.name = "patched".into();
    store.update_job(&job).unwrap();
    assert_eq!(store.load_jobs().unwrap()[0].name, "patched");
    store.delete_job("1").unwrap();
    assert!(store.load_jobs().unwrap().is_empty());
}

#[test]
fn file_runs() {
    let (mut store, _) = store();
    for started in [1000, 2000, 3000, 4000, 5000] {
        store.append_run("jobX", &make_run("jobX", started)).unwrap();
    }
    let runs = store.get_runs("jobX", 3).unwrap();
    let starts: Vec<u64> = runs.iter().map(|r| r.started_at_ms).collect();
    assert_eq!(starts, vec![3000, 4000, 5000]);
    assert!(store.get_runs("none", 10).unwrap().is_empty());
}

#[test]
fn every_mutation_writes_the_whole_document() {
    let (mut store, disk) = store();
    store.save_job(&make_job("1")).unwrap();
    store.save_job(&make_job("2")).unwrap();
    store.append_run("1", &make_run("1", 5)).unwrap();
    store.delete_job("2").unwrap();
    let written = disk.written.borrow();
    assert_eq!(written.len(), 4);
    assert_eq!(written[1].jobs.len(), 2);
    assert_eq!(written[3].jobs, vec![make_job("1")]);
    assert_eq!(written[3].histories.len(), 1);
    assert_eq!(written[3], store.doc);
    // Reading does not write.
    store.load_jobs().unwrap();
    store.get_runs("1", 5).unwrap();
    assert_eq!(written.len(), 4);
}

#[test]
fn a_failed_write_leaves_the_store_as_it_was() {
    let (mut store, disk) = store();
    store.save_job(&make_job("1")).unwrap();
    store.append_run("1", &make_run("1", 5)).unwrap();
    *disk.broken.borrow_mut() = true;

    assert_eq!(store.save_job(&make_job("2")), Err(CronError::StoreIo("disk full".into())));
    let mut job = make_job("1");
    job.name = "patched".into();
    assert_eq!(store.update_job(&job), Err(CronError::StoreIo("disk full".into())));
    assert_eq!(store.delete_job("1"), Err(CronError::StoreIo("disk full".into())));
    assert_eq!(
        store.append_run("1", &make_run("1", 9)),
        Err(CronError::StoreIo("disk full".into()))
    );
    // Unknown jobs are still reported as such.
    assert_eq!(store.delete_job("nope"), Err(CronError::NotFound("nope".into())));

    assert_eq!(store.load_jobs().unwrap(), vec![make_job("1")]);
    assert_eq!(store.get_runs("1", 10).unwrap().len(), 1);

    *disk.broken.borrow_mut() = false;
    store.save_job(&make_job("2")).unwrap();
    assert_eq!(store.load_jobs().unwrap().len(), 2);
}

#[test]
fn documents_that_are_not_valid_are_refused() {
    let twice = MemoryStore { jobs: vec![make_job("1"), make_job("1")], histories: Vec::new() };
    assert!(!twice.is_valid());
    assert!(store_from(twice).is_none());

    let unordered = MemoryStore {
        jobs: Vec::new(),
        histories: vec![JobHistory {
            job_id: "1".into(),
            runs: vec![make_run("1", 2000), make_run("1", 1000)],
        }],
    };
    assert!(!unordered.is_valid());
    assert!(store_from(unordered).is_none());

    let misfiled = MemoryStore {
        jobs: Vec::new(),
        histories: vec![JobHistory { job_id: "1".into(), runs: vec![make_run("2", 1000)] }],
    };
    assert!(!misfiled.is_valid());

    let two_histories = MemoryStore {
        jobs: Vec::new(),
        histories: vec![
            JobHistory { job_id: "1".into(), runs: Vec::new() },
            JobHistory { job_id: "1".into(), runs: Vec::new() },
        ],
    };
    assert!(!two_histories.is_valid());

    let fine = MemoryStore {
        jobs: vec![make_job("1"), make_job("2")],
        histories: vec![
            JobHistory {
                job_id: "1".into(),
                runs: vec![make_run("1", 1000), make_run("1", 1000), make_run("1", 3000)],
            },
            JobHistory { job_id: "gone".into(), runs: vec![make_run("gone", 7)] },
        ],
    };
    assert!(fine.is_valid());
    assert_eq!(fine.copy(), fine);
    let (store, _) = store_from(fine).unwrap();
    assert_eq!(store.get_runs("1", 2).unwrap().len(), 2);
    assert!(MemoryStore::new().is_valid());
}

#[test]
fn a_store_failure_during_a_run_still_ends_the_run() {
    struct Succeeds;
    impl Executor for Succeeds {
        fn execute(&self, _job: &CronJob) -> RunReport {
            RunReport { outcome: RunOutcome::Succeeded { output: None }, finished_at_ms: 0 }
        }
    }
    let (store, disk) = store();
    let mut svc = CronService::new(store);
    let request = CronJobCreate {
        name: "a".into(),
        schedule: CronSchedule::Cron { expr: "* * * * *".into() },
        payload: CronPayload::SystemEvent { text: "hi".into() },
        session_target: None,
        enabled: None,
        delete_after_run: None,
    };
    svc.add(request, "j".into(), 0).unwrap();

    *disk.broken.borrow_mut() = true;
    assert!(matches!(svc.run("j", true, 100, &Succeeds), Err(CronError::StoreIo(_))));
    assert!(matches!(svc.tick(60_000, &Succeeds), Ok(t) if t.store_errors == 1 && t.ran == 0));
    assert_eq!(svc.status().unwrap().running_jobs, 0);
    assert!(svc.runs("j", 20).unwrap().is_empty());

    // The job was not lost: it runs at the next tick.
    *disk.broken.borrow_mut() = false;
    assert!(matches!(svc.tick(60_000, &Succeeds), Ok(t) if t.ran == 1));
    assert_eq!(svc.runs("j", 20).unwrap().len(), 1);
}

#[test]
fn the_answer_of_the_sink_decides() {
    let (mut store, disk) = store();
    let mut next = store.doc.copy();
    next.save_job(&make_job("1")).unwrap();

    // Not written: dropped, with the sink's reason.
    let r = store.written(next.copy(), Err("no space".into()));
    assert_eq!(r, Err(CronError::StoreIo("no space".into())));
    assert!(store.load_jobs().unwrap().is_empty());

    // Written: it is the document of the store.
    assert_eq!(store.written(next.copy(), Ok(())), Ok(()));
    assert_eq!(store.load_jobs().unwrap(), vec![make_job("1")]);
    assert_eq!(store.doc, next);
    // Taking in an answer asks the sink nothing.
    assert!(disk.written.borrow().is_empty());
}

#[test]
fn unknown_jobs_are_not_found_whatever_the_sink_would_say() {
    for broken in [false, true] {
        let (mut store, disk) = store();
        store.save_job(&make_job("1")).unwrap();
        *disk.broken.borrow_mut() = broken;
        assert_eq!(store.update_job(&make_job("2")), Err(CronError::NotFound("2".into())));
        assert_eq!(store.delete_job("2"), Err(CronError::NotFound("2".into())));
        assert_eq!(disk.written.borrow().len(), 1);
    }
}
