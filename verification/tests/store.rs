use cron_engine::store::CronStore;
use cron_engine::store_memory::MemoryStore;
use cron_engine::types::{
    CronError, CronJob, CronJobState, CronPayload, CronRunRecord, CronSchedule, RunStatus,
    SessionTarget,
};

fn make_job(id: &str) -> CronJob {
    CronJob {
        id: id.into(),
        name: format!("job-{id}"),
        enabled: true,
        delete_after_run: false,
        schedule: CronSchedule::At { at_ms: 1000 },
        payload: CronPayload::SystemEvent { text: "hi".into() },
        session_target: SessionTarget::Main,
        state: CronJobState::default(),
        created_at_ms: 1000,
        updated_at_ms: 1000,
    }
}

fn make_run(job_id: &str, started: u64) -> CronRunRecord {
    CronRunRecord {
        job_id: job_id.into(),
        started_at_ms: started,
        finished_at_ms: started + 500,
        status: RunStatus::Succeeded,
        error: None,
        duration_ms: 500,
        output: None,
    }
}

fn starts(runs: &[CronRunRecord]) -> Vec<u64> {
    runs.iter().map(|r| r.started_at_ms).collect()
}

#[test]
fn memory_roundtrip() {
    let mut store = MemoryStore::new();
    store.save_job(&make_job("1")).unwrap();
    store.save_job(&make_job("2")).unwrap();

    let jobs = store.load_jobs().unwrap();
    assert_eq!(jobs.len(), 2);
    assert!(jobs.contains(&make_job("1")));
    assert!(jobs.contains(&make_job("2")));
}

#[test]
fn memory_upsert() {
    let mut store = MemoryStore::new();
    store.save_job(&make_job("1")).unwrap();

    let mut job = make_job("1");
    job.name = "updated".into();
    store.save_job(&job).unwrap();

    let jobs = store.load_jobs().unwrap();
    assert_eq!(jobs.len(), 1);
    assert_eq!(jobs[0].name, "updated");
}

#[test]
fn memory_upsert_keeps_the_place() {
    let mut store = MemoryStore::new();
    store.save_job(&make_job("a")).unwrap();
    store.save_job(&make_job("b")).unwrap();
    store.save_job(&make_job("c")).unwrap();
    let mut job = make_job("b");
    job.enabled = false;
    store.save_job(&job).unwrap();
    let ids: Vec<String> = store.load_jobs().unwrap().into_iter().map(|j| j.id).collect();
    assert_eq!(ids, vec!["a", "b", "c"]);
    assert!(!store.load_jobs().unwrap()[1].enabled);
}

#[test]
fn memory_delete() {
    let mut store = MemoryStore::new();
    store.save_job(&make_job("1")).unwrap();
    store.delete_job("1").unwrap();
    assert!(store.load_jobs().unwrap().is_empty());
}

#[test]
fn memory_delete_not_found() {
    let mut store = MemoryStore::new();
    assert_eq!(store.delete_job("nope"), Err(CronError::NotFound("nope".into())));
    store.save_job(&make_job("1")).unwrap();
    assert_eq!(store.delete_job("nope"), Err(CronError::NotFound("nope".into())));
    assert_eq!(store.load_jobs().unwrap().len(), 1);
}

#[test]
fn memory_update() {
    let mut store = MemoryStore::new();
    store.save_job(&make_job("1")).unwrap();

    let mut job = make_job("1");
    job.name = "patched".into();
    store.update_job(&job).unwrap();

    let jobs = store.load_jobs().unwrap();
    assert_eq!(jobs[0].name, "patched");
}

#[test]
fn memory_update_not_found() {
    let mut store = MemoryStore::new();
    assert_eq!(store.update_job(&make_job("1")), Err(CronError::NotFound("1".into())));
    assert!(store.load_jobs().unwrap().is_empty());
}

#[test]
fn memory_runs() {
    let mut store = MemoryStore::new();
    store.save_job(&make_job("j1")).unwrap();

    for i in 0..5 {
        store.append_run("j1", &make_run("j1", i * 1000)).unwrap();
    }

    let runs = store.get_runs("j1", 3).unwrap();
    assert_eq!(runs.len(), 3);
    // The last 3, in chronological order.
    assert_eq!(runs[0].started_at_ms, 2000);
    assert_eq!(runs[2].started_at_ms, 4000);
}

#[test]
fn memory_runs_empty() {
    let store = MemoryStore::new();
    let runs = store.get_runs("none", 10).unwrap();
    assert!(runs.is_empty());
}

#[test]
fn latest_three_of_five_runs() {
    let mut store = MemoryStore::new();
    for started in [1000, 2000, 3000, 4000, 5000] {
        store.append_run("jobX", &make_run("jobX", started)).unwrap();
    }
    assert_eq!(starts(&store.get_runs("jobX", 3).unwrap()), vec![3000, 4000, 5000]);
    assert_eq!(
        starts(&store.get_runs("jobX", 10).unwrap()),
        vec![1000, 2000, 3000, 4000, 5000]
    );
    assert_eq!(starts(&store.get_runs("jobX", 5).unwrap()), vec![1000, 2000, 3000, 4000, 5000]);
    assert_eq!(starts(&store.get_runs("jobX", 1).unwrap()), vec![5000]);
    assert!(store.get_runs("jobX", 0).unwrap().is_empty());
}

#[test]
fn runs_are_kept_in_the_order_of_their_start_times() {
    let mut store = MemoryStore::new();
    for started in [3000, 1000, 2000, 3000, 500] {
        store.append_run("j", &make_run("j", started)).unwrap();
    }
    assert_eq!(starts(&store.get_runs("j", 10).unwrap()), vec![500, 1000, 2000, 3000, 3000]);
    assert_eq!(starts(&store.get_runs("j", 2).unwrap()), vec![3000, 3000]);
}

#[test]
fn runs_with_the_same_start_time_stay_in_the_order_of_their_arrival() {
    let mut store = MemoryStore::new();
    let mut first = make_run("j", 1000);
    first.output = Some("first".into());
    let mut second = make_run("j", 1000);
    second.output = Some("second".into());
    store.append_run("j", &first).unwrap();
    store.append_run("j", &second).unwrap();
    let runs = store.get_runs("j", 10).unwrap();
    assert_eq!(runs[0].output.as_deref(), Some("first"));
    assert_eq!(runs[1].output.as_deref(), Some("second"));
}

#[test]
fn histories_of_different_jobs_are_apart() {
    let mut store = MemoryStore::new();
    store.append_run("a", &make_run("a", 1)).unwrap();
    store.append_run("b", &make_run("b", 2)).unwrap();
    store.append_run("a", &make_run("a", 3)).unwrap();
    assert_eq!(starts(&store.get_runs("a", 10).unwrap()), vec![1, 3]);
    assert_eq!(starts(&store.get_runs("b", 10).unwrap()), vec![2]);
}

#[test]
fn a_run_is_filed_under_the_id_it_was_appended_for() {
    let mut store = MemoryStore::new();
    store.append_run("a", &make_run("other", 1)).unwrap();
    let runs = store.get_runs("a", 10).unwrap();
    assert_eq!(runs.len(), 1);
    assert_eq!(runs[0].job_id, "a");
    assert!(store.get_runs("other", 10).unwrap().is_empty());
}

#[test]
fn history_outlives_the_job() {
    let mut store = MemoryStore::new();
    store.save_job(&make_job("1")).unwrap();
    store.append_run("1", &make_run("1", 10)).unwrap();
    store.delete_job("1").unwrap();
    assert_eq!(store.get_runs("1", 10).unwrap().len(), 1);
    store.append_run("1", &make_run("1", 20)).unwrap();
    assert_eq!(starts(&store.get_runs("1", 10).unwrap()), vec![10, 20]);
}
