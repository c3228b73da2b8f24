use std::cell::Cell;

use cron_engine::service::{CronService, Executor, RunReport, RunResult, RunStart};
use cron_engine::store_memory::MemoryStore;
use cron_engine::types::{
    CronError, CronJob, CronJobCreate, CronJobPatch, CronPayload, CronSchedule, RunOutcome,
    RunStatus, SessionTarget,
};

const MINUTE: u64 = 60_000;

/// An executor that always succeeds, takes 250 ms, and counts its calls.
struct Succeeds {
    calls: Cell<u32>,
    now: u64,
}

impl Executor for Succeeds {
    fn execute(&self, job: &CronJob) -> RunReport {
        self.calls.set(self.calls.get() + 1);
        RunReport {
            outcome: RunOutcome::Succeeded { output: Some(format!("ran {}", job.name)) },
            finished_at_ms: self.now + 250,
        }
    }
}

struct Fails;

impl Executor for Fails {
    fn execute(&self, _job: &CronJob) -> RunReport {
        RunReport {
            outcome: RunOutcome::Failed { error: "timed out".into(), output: None },
            finished_at_ms: 0,
        }
    }
}

fn service() -> CronService<MemoryStore> {
    CronService::new(MemoryStore::new())
}

fn create(name: &str, schedule: CronSchedule) -> CronJobCreate {
    CronJobCreate {
        name: name.into(),
        schedule,
        payload: CronPayload::SystemEvent { text: "hi".into() },
        session_target: None,
        enabled: None,
        delete_after_run: None,
    }
}

fn cron(expr: &str) -> CronSchedule {
    CronSchedule::Cron { expr: expr.into() }
}

fn empty_patch() -> CronJobPatch {
    CronJobPatch {
        name: None,
        enabled: None,
        delete_after_run: None,
        schedule: None,
        payload: None,
        session_target: None,
    }
}

#[test]
fn add_fills_in_the_defaults() {
    let mut svc = service();
    let job = svc.add(create("a", cron("*/5 * * * *")), "id-1".into(), 7 * MINUTE).unwrap();
    assert_eq!(job.id, "id-1");
    assert_eq!(job.name, "a");
    assert!(job.enabled);
    assert!(!job.delete_after_run);
    assert_eq!(job.session_target, SessionTarget::Main);
    assert_eq!(job.created_at_ms, 7 * MINUTE);
    assert_eq!(job.updated_at_ms, 7 * MINUTE);
    assert_eq!(job.state.last_fired_ms, None);
    assert_eq!(job.state.next_fire_ms, Some(10 * MINUTE));
    assert_eq!(job.state.consecutive_failures, 0);
    assert_eq!(svc.list().unwrap(), vec![job]);
}

#[test]
fn add_keeps_what_the_request_names() {
    let mut svc = service();
    let mut request = create("a", CronSchedule::At { at_ms: 5000 });
    request.enabled = Some(false);
    request.delete_after_run = Some(true);
    request.session_target = Some(SessionTarget::Named("ops".into()));
    let job = svc.add(request, "x".into(), 1000).unwrap();
    assert!(!job.enabled);
    assert!(job.delete_after_run);
    assert_eq!(job.session_target, SessionTarget::Named("ops".into()));
    assert_eq!(job.state.next_fire_ms, Some(5000));
}

#[test]
fn add_with_invalid_cron_expression_persists_nothing() {
    let mut svc = service();
    let r = svc.add(create("bad", cron("99 * * * *")), "id-1".into(), 0);
    assert!(matches!(r, Err(CronError::Validation(_))));
    assert!(svc.list().unwrap().is_empty());
}

#[test]
fn add_with_empty_payload_is_refused() {
    let mut svc = service();
    let mut request = create("a", cron("* * * * *"));
    request.payload = CronPayload::AgentTurn { message: String::new() };
    assert!(matches!(svc.add(request, "id".into(), 0), Err(CronError::Validation(_))));
    assert!(svc.list().unwrap().is_empty());
}

#[test]
fn add_with_an_id_in_use_is_refused() {
    let mut svc = service();
    svc.add(create("a", cron("* * * * *")), "id".into(), 0).unwrap();
    let r = svc.add(create("b", cron("* * * * *")), "id".into(), 0);
    assert!(matches!(r, Err(CronError::Validation(_))));
    let jobs = svc.list().unwrap();
    assert_eq!(jobs.len(), 1);
    assert_eq!(jobs[0].name, "a");
}

#[test]
fn update_changes_only_what_the_patch_brings() {
    let mut svc = service();
    let before = svc.add(create("a", cron("* * * * *")), "id".into(), 1000).unwrap();
    let mut patch = empty_patch();
    patch.name = Some("renamed".into());
    let after = svc.update("id", patch, 2000).unwrap();
    assert_eq!(after.name, "renamed");
    assert_eq!(after.updated_at_ms, 2000);
    assert_eq!(after.created_at_ms, 1000);
    assert_eq!(after.id, before.id);
    assert_eq!(after.enabled, before.enabled);
    assert_eq!(after.schedule, before.schedule);
    assert_eq!(after.payload, before.payload);
    assert_eq!(after.state, before.state);
    assert_eq!(svc.list().unwrap(), vec![after]);
}

#[test]
fn update_with_a_new_schedule_recomputes_the_next_fire_time() {
    let mut svc = service();
    svc.add(create("a", cron("* * * * *")), "id".into(), 0).unwrap();
    let mut patch = empty_patch();
    patch.schedule = Some(cron("30 * * * *"));
    let after = svc.update("id", patch, 10).unwrap();
    assert_eq!(after.state.next_fire_ms, Some(30 * MINUTE));
}

#[test]
fn update_never_sets_the_update_time_before_the_creation_time() {
    let mut svc = service();
    svc.add(create("a", cron("* * * * *")), "id".into(), 5000).unwrap();
    let after = svc.update("id", empty_patch(), 100).unwrap();
    assert_eq!(after.updated_at_ms, 5000);
}

#[test]
fn update_of_an_unknown_job_fails() {
    let mut svc = service();
    assert_eq!(svc.update("nope", empty_patch(), 0), Err(CronError::NotFound("nope".into())));
}

#[test]
fn update_with_an_invalid_schedule_changes_nothing() {
    let mut svc = service();
    let before = svc.add(create("a", cron("* * * * *")), "id".into(), 0).unwrap();
    let mut patch = empty_patch();
    patch.name = Some("renamed".into());
    patch.schedule = Some(cron("61 * * * *"));
    assert!(matches!(svc.update("id", patch, 10), Err(CronError::Validation(_))));
    assert_eq!(svc.list().unwrap(), vec![before]);
}

#[test]
fn remove_of_an_unknown_job_fails() {
    let mut svc = service();
    assert_eq!(svc.remove("nope"), Err(CronError::NotFound("nope".into())));
    svc.add(create("a", cron("* * * * *")), "id".into(), 0).unwrap();
    svc.remove("id").unwrap();
    assert!(svc.list().unwrap().is_empty());
    assert_eq!(svc.remove("id"), Err(CronError::NotFound("id".into())));
}

#[test]
fn tick_at_minute_boundary_runs_the_job_once() {
    let mut svc = service();
    svc.add(create("every minute", cron("* * * * *")), "j".into(), 30_000).unwrap();
    let executor = Succeeds { calls: Cell::new(0), now: MINUTE };

    // Before the minute boundary nothing is due.
    let early = svc.tick(MINUTE - 1, &executor).unwrap();
    assert_eq!(early.ran, 0);
    assert_eq!(executor.calls.get(), 0);

    let report = svc.tick(MINUTE, &executor).unwrap();
    assert_eq!(report.ran, 1);
    assert_eq!(report.skipped + report.passed + report.store_errors, 0);
    assert_eq!(executor.calls.get(), 1);

    let runs = svc.runs("j", 20).unwrap();
    assert_eq!(runs.len(), 1);
    assert_eq!(runs[0].status, RunStatus::Succeeded);
    assert_eq!(runs[0].job_id, "j");
    assert_eq!(runs[0].started_at_ms, MINUTE);
    assert_eq!(runs[0].finished_at_ms, MINUTE + 250);
    assert_eq!(runs[0].duration_ms, 250);
    assert_eq!(runs[0].error, None);
    assert_eq!(runs[0].output.as_deref(), Some("ran every minute"));

    // The same tick again finds nothing due.
    let again = svc.tick(MINUTE, &executor).unwrap();
    assert_eq!(again.ran, 0);
    assert_eq!(executor.calls.get(), 1);
    assert_eq!(svc.runs("j", 20).unwrap().len(), 1);

    let job = &svc.list().unwrap()[0];
    assert_eq!(job.state.last_fired_ms, Some(MINUTE));
    assert_eq!(job.state.next_fire_ms, Some(2 * MINUTE));
}

#[test]
fn disabled_jobs_are_not_fired_but_can_be_forced() {
    let mut svc = service();
    let mut request = create("a", cron("* * * * *"));
    request.enabled = Some(false);
    svc.add(request, "j".into(), 0).unwrap();
    let executor = Succeeds { calls: Cell::new(0), now: 5 * MINUTE };
    assert_eq!(svc.tick(5 * MINUTE, &executor).unwrap().ran, 0);
    assert_eq!(svc.run("j", false, 5 * MINUTE, &executor).unwrap(), RunResult::NotDue);
    assert!(svc.runs("j", 20).unwrap().is_empty());
    assert!(matches!(svc.run("j", true, 5 * MINUTE, &executor).unwrap(), RunResult::Ran(_)));
    assert_eq!(executor.calls.get(), 1);
    assert_eq!(svc.runs("j", 20).unwrap().len(), 1);
}

#[test]
fn run_of_an_unknown_job_fails() {
    let mut svc = service();
    let executor = Succeeds { calls: Cell::new(0), now: 0 };
    assert_eq!(svc.run("nope", true, 0, &executor), Err(CronError::NotFound("nope".into())));
    assert_eq!(executor.calls.get(), 0);
}

#[test]
fn a_failed_run_is_recorded_and_is_no_error() {
    let mut svc = service();
    svc.add(create("a", cron("* * * * *")), "j".into(), 0).unwrap();
    let result = svc.run("j", true, 1000, &Fails).unwrap();
    match result {
        RunResult::Ran(record) => {
            assert_eq!(record.status, RunStatus::Failed);
            assert_eq!(record.error.as_deref(), Some("timed out"));
            // Reported to end before it started: counts as ending at its start.
            assert_eq!(record.started_at_ms, 1000);
            assert_eq!(record.finished_at_ms, 1000);
            assert_eq!(record.duration_ms, 0);
        }
        other => panic!("{other:?}"),
    }
    svc.run("j", true, 2000, &Fails).unwrap();
    let job = &svc.list().unwrap()[0];
    assert_eq!(job.state.consecutive_failures, 2);
    let status = svc.status().unwrap();
    assert_eq!(status.last_error.as_deref(), Some("timed out"));

    let executor = Succeeds { calls: Cell::new(0), now: 3000 };
    svc.run("j", true, 3000, &executor).unwrap();
    assert_eq!(svc.list().unwrap()[0].state.consecutive_failures, 0);
    assert_eq!(svc.status().unwrap().last_error.as_deref(), Some("timed out"));
}

#[test]
fn one_shot_job_is_gone_after_its_run() {
    for fails in [false, true] {
        let mut svc = service();
        let mut request = create("once", CronSchedule::At { at_ms: 1000 });
        request.delete_after_run = Some(true);
        svc.add(request, "j".into(), 0).unwrap();
        svc.add(create("other", cron("0 0 1 1 *")), "k".into(), 0).unwrap();
        let executor = Succeeds { calls: Cell::new(0), now: 1000 };
        let report = if fails {
            svc.tick(1000, &Fails).unwrap()
        } else {
            svc.tick(1000, &executor).unwrap()
        };
        assert_eq!(report.ran, 1);
        let jobs = svc.list().unwrap();
        assert_eq!(jobs.len(), 1);
        assert_eq!(jobs[0].id, "k");
        // The history outlives the job.
        assert_eq!(svc.runs("j", 20).unwrap().len(), 1);
    }
}

#[test]
fn one_shot_job_that_is_kept_does_not_fire_twice() {
    let mut svc = service();
    svc.add(create("once", CronSchedule::At { at_ms: 1000 }), "j".into(), 0).unwrap();
    let executor = Succeeds { calls: Cell::new(0), now: 1000 };
    assert_eq!(svc.tick(999, &executor).unwrap().ran, 0);
    assert_eq!(svc.tick(1000, &executor).unwrap().ran, 1);
    assert_eq!(svc.tick(1001, &executor).unwrap().ran, 0);
    assert_eq!(svc.tick(100_000, &executor).unwrap().ran, 0);
    assert_eq!(executor.calls.get(), 1);
    assert_eq!(svc.list().unwrap()[0].state.next_fire_ms, None);
}

#[test]
fn second_start_of_a_running_job_is_skipped() {
    let mut svc = service();
    svc.add(create("a", cron("* * * * *")), "j".into(), 0).unwrap();
    svc.add(create("b", cron("* * * * *")), "k".into(), 0).unwrap();

    let first = svc.begin_run("j", true, 1000).unwrap();
    assert!(matches!(first, RunStart::Started(_)));
    // Two more attempts while the first is in flight.
    for now in [1100, 1200] {
        match svc.begin_run("j", true, now).unwrap() {
            RunStart::Skipped(record) => {
                assert_eq!(record.status, RunStatus::Skipped);
                assert_eq!(record.job_id, "j");
                assert_eq!(record.started_at_ms, now);
                assert_eq!(record.duration_ms, 0);
                assert!(record.error.is_some());
            }
            other => panic!("{other:?}"),
        }
    }
    // Another job does not contend.
    assert!(matches!(svc.begin_run("k", true, 1300).unwrap(), RunStart::Started(_)));
    assert_eq!(svc.status().unwrap().running_jobs, 2);

    let record = svc
        .finish_run("j", 1000, 1500, RunOutcome::Succeeded { output: None })
        .unwrap();
    assert_eq!(record.status, RunStatus::Succeeded);
    assert_eq!(record.duration_ms, 500);
    assert_eq!(svc.status().unwrap().running_jobs, 1);

    let runs = svc.runs("j", 20).unwrap();
    let statuses: Vec<RunStatus> = runs.iter().map(|r| r.status).collect();
    assert_eq!(statuses, vec![RunStatus::Succeeded, RunStatus::Skipped, RunStatus::Skipped]);
    assert_eq!(runs.iter().filter(|r| r.status != RunStatus::Skipped).count(), 1);

    // Once the run has ended, the job can start again.
    assert!(matches!(svc.begin_run("j", true, 2000).unwrap(), RunStart::Started(_)));
}

#[test]
fn status_counts_jobs_and_finds_the_earliest_fire_time() {
    let mut svc = service();
    let empty = svc.status().unwrap();
    assert_eq!((empty.enabled_jobs, empty.disabled_jobs, empty.running_jobs), (0, 0, 0));
    assert!(empty.next_fires_ms.is_empty());
    assert_eq!(empty.last_error, None);

    svc.add(create("a", CronSchedule::At { at_ms: 9000 }), "a".into(), 0).unwrap();
    svc.add(create("b", CronSchedule::At { at_ms: 4000 }), "b".into(), 0).unwrap();
    let mut off = create("c", CronSchedule::At { at_ms: 1000 });
    off.enabled = Some(false);
    svc.add(off, "c".into(), 0).unwrap();
    svc.add(create("d", CronSchedule::At { at_ms: 1 }), "d".into(), 5).unwrap();

    let status = svc.status().unwrap();
    assert_eq!(status.enabled_jobs, 3);
    assert_eq!(status.disabled_jobs, 1);
    // The disabled job and the job without a fire time to come do not count.
    assert_eq!(status.next_fires_ms, vec![4000, 9000]);

    svc.add(create("e", CronSchedule::At { at_ms: 9000 }), "e".into(), 0).unwrap();
    svc.add(create("f", CronSchedule::At { at_ms: 100 }), "f".into(), 0).unwrap();
    svc.add(create("g", CronSchedule::At { at_ms: 5000 }), "g".into(), 0).unwrap();
    svc.add(create("h", CronSchedule::At { at_ms: 20_000 }), "h".into(), 0).unwrap();
    let status = svc.status().unwrap();
    assert_eq!(status.enabled_jobs, 7);
    assert_eq!(status.next_fires_ms, vec![100, 4000, 5000]);
}

#[test]
fn interval_job_is_due_at_once_and_then_one_interval_after_each_run() {
    let mut svc = service();
    let job = svc.add(create("i", CronSchedule::Every { every_ms: 1000 }), "i".into(), 500).unwrap();
    assert_eq!(job.state.next_fire_ms, Some(500));
    assert_eq!(svc.due_jobs(499).unwrap(), Vec::<String>::new());
    assert_eq!(svc.due_jobs(500).unwrap(), vec!["i".to_string()]);
    let executor = Succeeds { calls: Cell::new(0), now: 700 };
    assert_eq!(svc.tick(700, &executor).unwrap().ran, 1);
    assert_eq!(svc.list().unwrap()[0].state.next_fire_ms, Some(1700));
    assert_eq!(svc.tick(1699, &executor).unwrap().ran, 0);
    assert_eq!(svc.tick(1700, &executor).unwrap().ran, 1);
}

#[test]
fn due_jobs_come_in_the_order_of_the_list() {
    let mut svc = service();
    svc.add(create("a", CronSchedule::At { at_ms: 300 }), "a".into(), 0).unwrap();
    svc.add(create("b", CronSchedule::At { at_ms: 900 }), "b".into(), 0).unwrap();
    svc.add(create("c", CronSchedule::At { at_ms: 100 }), "c".into(), 0).unwrap();
    assert_eq!(svc.due_jobs(50).unwrap(), Vec::<String>::new());
    assert_eq!(svc.due_jobs(300).unwrap(), vec!["a".to_string(), "c".to_string()]);
    assert_eq!(svc.due_jobs(1000).unwrap().len(), 3);
}

#[test]
fn the_update_time_never_goes_back() {
    let mut svc = service();
    svc.add(create("a", cron("* * * * *")), "id".into(), 1000).unwrap();
    assert_eq!(svc.update("id", empty_patch(), 3000).unwrap().updated_at_ms, 3000);
    // The clock is behind the last update.
    assert_eq!(svc.update("id", empty_patch(), 2000).unwrap().updated_at_ms, 3000);
    assert_eq!(svc.update("id", empty_patch(), 3000).unwrap().updated_at_ms, 3000);
    assert_eq!(svc.update("id", empty_patch(), 3001).unwrap().updated_at_ms, 3001);
    assert_eq!(svc.list().unwrap()[0].created_at_ms, 1000);
}

#[test]
fn a_tick_attempts_every_due_job_once() {
    let mut svc = service();
    svc.add(create("a", CronSchedule::At { at_ms: 100 }), "a".into(), 0).unwrap();
    svc.add(create("b", CronSchedule::At { at_ms: 200 }), "b".into(), 0).unwrap();
    svc.add(create("c", CronSchedule::At { at_ms: 900 }), "c".into(), 0).unwrap();
    // A run of b is in flight when the tick comes.
    assert!(matches!(svc.begin_run("b", true, 150).unwrap(), RunStart::Started(_)));

    let executor = Succeeds { calls: Cell::new(0), now: 500 };
    let report = svc.tick(500, &executor).unwrap();
    assert_eq!((report.ran, report.skipped, report.passed, report.store_errors), (1, 1, 0, 0));
    assert_eq!(executor.calls.get(), 1);

    let a = svc.runs("a", 20).unwrap();
    assert_eq!(a.len(), 1);
    assert_eq!(a[0].status, RunStatus::Succeeded);
    assert_eq!(a[0].started_at_ms, 500);
    assert_eq!(a[0].error, None);
    let b = svc.runs("b", 20).unwrap();
    assert_eq!(b.len(), 1);
    assert_eq!(b[0].status, RunStatus::Skipped);
    assert_eq!(b[0].started_at_ms, 500);
    // The job that was not due is untouched.
    assert!(svc.runs("c", 20).unwrap().is_empty());
    assert_eq!(svc.list().unwrap()[2].state.last_fired_ms, None);
    assert_eq!(svc.status().unwrap().running_jobs, 1);
}

#[test]
fn many_forced_runs_while_one_is_in_flight() {
    let mut svc = service();
    svc.add(create("a", cron("* * * * *")), "j".into(), 0).unwrap();
    assert!(matches!(svc.begin_run("j", true, 1000).unwrap(), RunStart::Started(_)));
    let executor = Succeeds { calls: Cell::new(0), now: 0 };
    for k in 1..=5u64 {
        let r = svc.run("j", true, 1000 + k, &executor).unwrap();
        assert!(matches!(r, RunResult::Skipped(_)));
    }
    // The collaborator was not invoked by any of the later calls.
    assert_eq!(executor.calls.get(), 0);
    svc.finish_run("j", 1000, 2000, RunOutcome::Succeeded { output: None }).unwrap();
    let runs = svc.runs("j", 20).unwrap();
    assert_eq!(runs.len(), 6);
    assert_eq!(runs.iter().filter(|r| r.status != RunStatus::Skipped).count(), 1);
    assert_eq!(runs.iter().filter(|r| r.status == RunStatus::Skipped).count(), 5);
}
