//! The relational store: two tables, jobs keyed by id with the job as a serialized
//! document, and runs as an append-only table indexed by job and start time.
//!
//! Here are the statements, the shape of a row of the runs table, and what is decided
//! between the database and the store interface. Talking to the database is the
//! caller's part.

use vstd::prelude::*;
use crate::text::same_text;
use crate::types::{clone_text, CronError, CronRunRecord, RunStatus, RunView};

verus! {

/// The statement that creates the jobs table.
pub fn create_jobs_table() -> (r: &'static str)
    ensures
        r@ == "CREATE TABLE IF NOT EXISTS cron_jobs (
                id TEXT PRIMARY KEY,
                data TEXT NOT NULL
            )"@,
{
    "CREATE TABLE IF NOT EXISTS cron_jobs (
                id TEXT PRIMARY KEY,
                data TEXT NOT NULL
            )"
}

/// The statement that creates the runs table. A run refers to its job by id only: runs
/// can be appended for a job that is not there, and they stay when their job is deleted.
pub fn create_runs_table() -> (r: &'static str)
    ensures
        r@ == "CREATE TABLE IF NOT EXISTS cron_runs (
                id INTEGER PRIMARY KEY AUTOINCREMENT,
                job_id TEXT NOT NULL,
                started_at_ms INTEGER NOT NULL,
                finished_at_ms INTEGER NOT NULL,
                status TEXT NOT NULL,
                error TEXT,
                duration_ms INTEGER NOT NULL,
                output TEXT
            )"@,
{
    "CREATE TABLE IF NOT EXISTS cron_runs (
                id INTEGER PRIMARY KEY AUTOINCREMENT,
                job_id TEXT NOT NULL,
                started_at_ms INTEGER NOT NULL,
                finished_at_ms INTEGER NOT NULL,
                status TEXT NOT NULL,
                error TEXT,
                duration_ms INTEGER NOT NULL,
                output TEXT
            )"
}

/// The statement that creates the index on the runs of a job by start time.
pub fn create_runs_index() -> (r: &'static str)
    ensures
        r@
            == "CREATE INDEX IF NOT EXISTS idx_cron_runs_job_id ON cron_runs(job_id, started_at_ms DESC)"@,
{
    "CREATE INDEX IF NOT EXISTS idx_cron_runs_job_id ON cron_runs(job_id, started_at_ms DESC)"
}

/// The query that counts the jobs that share their id with an earlier job; with the
/// jobs table as it is created here there is none.
pub fn count_shared_ids() -> (r: &'static str)
    ensures
        r@ == "SELECT COUNT(*) - COUNT(DISTINCT id) AS twice FROM cron_jobs"@,
{
    "SELECT COUNT(*) - COUNT(DISTINCT id) AS twice FROM cron_jobs"
}

/// The query for all jobs, in the order in which they were first saved.
pub fn select_jobs() -> (r: &'static str)
    ensures
        r@ == "SELECT data FROM cron_jobs ORDER BY rowid"@,
{
    "SELECT data FROM cron_jobs ORDER BY rowid"
}

/// The statement that saves a job: it inserts the job, or overwrites the job of the same
/// id in its place.
pub fn upsert_job() -> (r: &'static str)
    ensures
        r@ == "INSERT INTO cron_jobs (id, data) VALUES (?, ?)
             ON CONFLICT(id) DO UPDATE SET data = excluded.data"@,
{
    "INSERT INTO cron_jobs (id, data) VALUES (?, ?)
             ON CONFLICT(id) DO UPDATE SET data = excluded.data"
}

/// The statement that overwrites the job of an id; it changes no row if there is none.
pub fn update_job() -> (r: &'static str)
    ensures
        r@ == "UPDATE cron_jobs SET data = ? WHERE id = ?"@,
{
    "UPDATE cron_jobs SET data = ? WHERE id = ?"
}

/// The statement that deletes the job of an id; it changes no row if there is none.
pub fn delete_job() -> (r: &'static str)
    ensures
        r@ == "DELETE FROM cron_jobs WHERE id = ?"@,
{
    "DELETE FROM cron_jobs WHERE id = ?"
}

/// The statement that appends a run, with the columns in the order of a row.
pub fn insert_run() -> (r: &'static str)
    ensures
        r@ == "INSERT INTO cron_runs (job_id, started_at_ms, finished_at_ms, status, error, duration_ms, output)
             VALUES (?, ?, ?, ?, ?, ?, ?)"@,
{
    "INSERT INTO cron_runs (job_id, started_at_ms, finished_at_ms, status, error, duration_ms, output)
             VALUES (?, ?, ?, ?, ?, ?, ?)"
}

/// The query for the most recent runs of a job, newest first; among runs with the same
/// start time the one that was appended last comes first.
pub fn select_runs() -> (r: &'static str)
    ensures
        r@ == "SELECT job_id, started_at_ms, finished_at_ms, status, error, duration_ms, output
             FROM cron_runs
             WHERE job_id = ?
             ORDER BY started_at_ms DESC, id DESC
             LIMIT ?"@,
{
    "SELECT job_id, started_at_ms, finished_at_ms, status, error, duration_ms, output
             FROM cron_runs
             WHERE job_id = ?
             ORDER BY started_at_ms DESC, id DESC
             LIMIT ?"
}

/// A row of the runs table.
#[derive(Debug, PartialEq, Eq)]
pub struct RunRow {
    pub job_id: String,
    pub started_at_ms: i64,
    pub finished_at_ms: i64,
    pub status: String,
    pub error: Option<String>,
    pub duration_ms: i64,
    pub output: Option<String>,
}

/// How a status is written in the status column.
pub open spec fn status_text(status: RunStatus) -> Seq<char> {
    match status {
        RunStatus::Succeeded => "\"ok\""@,
        RunStatus::Failed => "\"failed\""@,
        RunStatus::Skipped => "\"skipped\""@,
    }
}

/// The status that a text of the status column stands for.
pub open spec fn status_of(text: Seq<char>) -> Option<RunStatus> {
    if text == status_text(RunStatus::Succeeded) {
        Some(RunStatus::Succeeded)
    } else if text == status_text(RunStatus::Failed) {
        Some(RunStatus::Failed)
    } else if text == status_text(RunStatus::Skipped) {
        Some(RunStatus::Skipped)
    } else {
        None
    }
}

/// A row that stands for a run record: its status is known and none of its numbers is
/// negative.
pub open spec fn row_valid(row: RunRow) -> bool {
    &&& status_of(row.status@).is_some()
    &&& row.started_at_ms >= 0
    &&& row.finished_at_ms >= 0
    &&& row.duration_ms >= 0
}

/// The run record that a valid row stands for.
pub open spec fn row_run(row: RunRow) -> RunView {
    RunView {
        job_id: row.job_id@,
        started_at_ms: row.started_at_ms as u64,
        finished_at_ms: row.finished_at_ms as u64,
        status: status_of(row.status@).unwrap(),
        error: crate::types::text_view(row.error),
        duration_ms: row.duration_ms as u64,
        output: crate::types::text_view(row.output),
    }
}

/// A run record whose numbers fit into a row.
pub open spec fn fits_row(run: RunView) -> bool {
    &&& run.started_at_ms <= i64::MAX
    &&& run.finished_at_ms <= i64::MAX
    &&& run.duration_ms <= i64::MAX
}

/// Every status is read back from its text.
pub proof fn lemma_status_round_trip(status: RunStatus)
    ensures
        status_of(status_text(status)) == Some(status),
{
    reveal_strlit("\"ok\"");
    reveal_strlit("\"failed\"");
    reveal_strlit("\"skipped\"");
    assert("\"ok\""@.len() == 4);
    assert("\"failed\""@.len() == 8);
    assert("\"skipped\""@.len() == 9);
}

/// The text of a status for the status column.
pub fn status_column(status: RunStatus) -> (r: &'static str)
    ensures
        r@ == status_text(status),
{
    match status {
        RunStatus::Succeeded => "\"ok\"",
        RunStatus::Failed => "\"failed\"",
        RunStatus::Skipped => "\"skipped\"",
    }
}

/// The status that a text of the status column stands for.
pub fn parse_status(text: &str) -> (r: Option<RunStatus>)
    ensures
        r == status_of(text@),
{
    if same_text(text, "\"ok\"") {
        Some(RunStatus::Succeeded)
    } else if same_text(text, "\"failed\"") {
        Some(RunStatus::Failed)
    } else if same_text(text, "\"skipped\"") {
        Some(RunStatus::Skipped)
    } else {
        None
    }
}

/// The row that files `run` under the job `job_id`. Fails, as a failure of the store,
/// if and only if a number of the record does not fit into a row.
pub fn run_to_row(job_id: &str, run: &CronRunRecord) -> (r: Result<RunRow, CronError>)
    ensures
        match r {
            Ok(row) => fits_row(run@) && row_valid(row) && row_run(row) == crate::store::filed(
                run@,
                job_id@,
            ),
            Err(e) => !fits_row(run@) && e is StoreIo,
        },
{
    if run.started_at_ms > i64::MAX as u64 || run.finished_at_ms > i64::MAX as u64
        || run.duration_ms > i64::MAX as u64 {
        return Err(CronError::StoreIo("time out of range".to_owned()));
    }
    proof {
        lemma_status_round_trip(run.status);
    }
    Ok(
        RunRow {
            job_id: job_id.to_owned(),
            started_at_ms: run.started_at_ms as i64,
            finished_at_ms: run.finished_at_ms as i64,
            status: status_column(run.status).to_owned(),
            error: clone_text(&run.error),
            duration_ms: run.duration_ms as i64,
            output: clone_text(&run.output),
        },
    )
}

/// The run record that `row` stands for. Fails, as a failure of the store, if and only
/// if the row is not valid.
pub fn row_to_run(row: &RunRow) -> (r: Result<CronRunRecord, CronError>)
    ensures
        match r {
            Ok(run) => row_valid(*row) && run@ == row_run(*row),
            Err(e) => !row_valid(*row) && e is StoreIo,
        },
{
    let status = match parse_status(row.status.as_str()) {
        Some(s) => s,
        None => {
            return Err(CronError::StoreIo("unknown run status".to_owned()));
        },
    };
    if row.started_at_ms < 0 || row.finished_at_ms < 0 || row.duration_ms < 0 {
        return Err(CronError::StoreIo("negative time".to_owned()));
    }
    Ok(
        CronRunRecord {
            job_id: row.job_id.clone(),
            started_at_ms: row.started_at_ms as u64,
            finished_at_ms: row.finished_at_ms as u64,
            status,
            error: clone_text(&row.error),
            duration_ms: row.duration_ms as u64,
            output: clone_text(&row.output),
        },
    )
}

/// The run records for the rows that the query for the most recent runs returned: the
/// rows come newest first, the records go out oldest first. Fails if and only if a row
/// is not valid.
pub fn runs_from_rows(rows: &Vec<RunRow>) -> (r: Result<Vec<CronRunRecord>, CronError>)
    ensures
        match r {
            Ok(runs) => {
                &&& runs@.len() == rows@.len()
                &&& forall|i: int| 0 <= i < rows@.len() ==> row_valid(#[trigger] rows@[i])
                &&& forall|i: int|
                    0 <= i < runs@.len() ==> (#[trigger] runs@[i])@ == row_run(
                        rows@[rows@.len() - 1 - i],
                    )
            },
            Err(e) => e is StoreIo && exists|i: int|
                0 <= i < rows@.len() && !row_valid(#[trigger] rows@[i]),
        },
{
    let n = rows.len();
    let mut runs: Vec<CronRunRecord> = Vec::new();
    let mut k: usize = n;
    while k > 0
        invariant
            n == rows@.len(),
            k <= n,
            runs@.len() == n - k,
            forall|i: int| k <= i < n ==> row_valid(#[trigger] rows@[i]),
            forall|i: int| 0 <= i < runs@.len() ==> (#[trigger] runs@[i])@ == row_run(
                rows@[n - 1 - i],
            ),
        decreases k,
    {
        k = k - 1;
        let run = row_to_run(&rows[k])?;
        runs.push(run);
    }
    Ok(runs)
}

/// What an update or a delete of a job amounts to, by the number of rows that it
/// changed: with no row changed there was no such job.
pub fn check_affected(rows_affected: u64, id: &str) -> (r: Result<(), CronError>)
    ensures
        match r {
            Ok(_) => rows_affected > 0,
            Err(e) => rows_affected == 0 && (e matches CronError::NotFound(missing) && missing@
                == id@),
        },
{
    if rows_affected == 0 {
        Err(CronError::NotFound(id.to_owned()))
    } else {
        Ok(())
    }
}

} // verus!
