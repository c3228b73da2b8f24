//! The schedule evaluator: when a schedule fires next after a given time.

use vstd::prelude::*;
use vstd::utf8::encode_utf8;
use crate::expr::{CronExpr, CronExprView};
use crate::parse::parse_spec;
use crate::types::{CronError, CronJob, CronSchedule, JobView, ScheduleView};

verus! {

/// What the text of a cron expression says, if it is well formed.
pub open spec fn expr_of(text: Seq<char>) -> Option<CronExprView> {
    parse_spec(encode_utf8(text))
}

/// A schedule that can be stored: an interval is not zero, and a cron expression is well
/// formed.
pub open spec fn schedule_valid(s: ScheduleView) -> bool {
    match s {
        ScheduleView::At { .. } => true,
        ScheduleView::Every { every_ms } => every_ms > 0,
        ScheduleView::Cron { expr } => expr_of(expr).is_some(),
    }
}

/// A schedule that fires more than once.
pub open spec fn is_recurring(s: ScheduleView) -> bool {
    !(s is At)
}

/// `r` is the next fire time of `s` after `after`.
///
/// A one-shot schedule fires at its time if that is still ahead. An interval fires one
/// interval after `after`. A cron expression fires at the first matching minute after
/// `after`, if there is one; a malformed one never fires.
pub open spec fn fires_next(s: ScheduleView, after: u64, r: Option<u64>) -> bool {
    match s {
        ScheduleView::At { at_ms } => r == (if after < at_ms {
            Some(at_ms)
        } else {
            None
        }),
        ScheduleView::Every { every_ms } => r == (if after + every_ms <= u64::MAX {
            Some((after + every_ms) as u64)
        } else {
            None
        }),
        ScheduleView::Cron { expr } => match expr_of(expr) {
            Some(e) => match r {
                Some(t) => e.first_fire_after(after as int, t as int),
                None => forall|u: int| after < u <= u64::MAX ==> !e.fires_at(u),
            },
            None => r.is_none(),
        },
    }
}

/// `r` is the next fire time of `job` after `after`. An interval job that has never fired
/// is due at `after` itself, or at its creation if that is later.
pub open spec fn job_fires_next(job: JobView, after: u64, r: Option<u64>) -> bool {
    if job.schedule is Every && job.state.last_fired_ms.is_none() {
        r == Some(
            if after >= job.created_at_ms {
                after
            } else {
                job.created_at_ms
            },
        )
    } else {
        fires_next(job.schedule, after, r)
    }
}

/// The time from which a job's next fire time is computed: its last fire time, or its
/// creation time if it has not fired yet.
pub open spec fn reference_time(job: JobView) -> u64 {
    match job.state.last_fired_ms {
        Some(t) => t,
        None => job.created_at_ms,
    }
}

/// The job is enabled and its next fire time has come.
pub open spec fn is_due(job: JobView, now_ms: u64) -> bool {
    job.enabled && exists|t: u64| t <= now_ms && job_fires_next(job, reference_time(job), Some(t))
}

/// A schedule has one next fire time after any given time.
pub proof fn lemma_next_fire_unique(s: ScheduleView, after: u64, r1: Option<u64>, r2: Option<u64>)
    requires
        fires_next(s, after, r1),
        fires_next(s, after, r2),
    ensures
        r1 == r2,
{
    if let ScheduleView::Cron { expr } = s {
        if let Some(e) = expr_of(expr) {
            match (r1, r2) {
                (Some(a), Some(b)) => {
                    if a < b {
                        assert(e.fires_at(a as int));
                    } else if b < a {
                        assert(e.fires_at(b as int));
                    }
                },
                (Some(a), None) => {
                    assert(e.fires_at(a as int));
                },
                (None, Some(b)) => {
                    assert(e.fires_at(b as int));
                },
                (None, None) => {},
            }
        }
    }
}

/// The next fire time of a recurring schedule never moves back when the reference time
/// moves forward.
pub proof fn lemma_next_fire_monotone(s: ScheduleView, t1: u64, t2: u64, a: u64, b: u64)
    requires
        is_recurring(s),
        t1 < t2,
        fires_next(s, t1, Some(a)),
        fires_next(s, t2, Some(b)),
    ensures
        a <= b,
{
    if let ScheduleView::Cron { expr } = s {
        let e = expr_of(expr).unwrap();
        if b < a {
            assert(e.fires_at(b as int));
        }
    }
}

/// A one-shot schedule fires at its time for every reference time before it, and never
/// for a reference time at or after it.
pub proof fn lemma_at_fires_once(at_ms: u64, after: u64, r: Option<u64>)
    requires
        fires_next(ScheduleView::At { at_ms }, after, r),
    ensures
        after < at_ms ==> r == Some(at_ms),
        after >= at_ms ==> r.is_none(),
{
}

/// A job whose cached next fire time is up to date is due exactly when it is enabled and
/// that time has come.
pub proof fn lemma_due_by_cached_time(job: JobView, now_ms: u64)
    requires
        job_fires_next(job, reference_time(job), job.state.next_fire_ms),
    ensures
        is_due(job, now_ms) == (job.enabled && (job.state.next_fire_ms matches Some(t) && t
            <= now_ms)),
{
    let from = reference_time(job);
    assert forall|t: u64| job_fires_next(job, from, Some(t)) implies job.state.next_fire_ms
        == Some(t) by {
        if !(job.schedule is Every && job.state.last_fired_ms.is_none()) {
            lemma_next_fire_unique(job.schedule, from, job.state.next_fire_ms, Some(t));
        }
    }
    if let Some(t) = job.state.next_fire_ms {
        if job.enabled && t <= now_ms {
            assert(job_fires_next(job, from, Some(t)));
        }
    }
}

/// No duplicate fires: a job with a valid schedule that has fired, and whose cached next
/// fire time is up to date, fires next at a later time and is not due again before that.
pub proof fn lemma_no_duplicate_fire(job: JobView, fired: u64, now_ms: u64)
    requires
        schedule_valid(job.schedule),
        job.state.last_fired_ms == Some(fired),
        job_fires_next(job, fired, job.state.next_fire_ms),
    ensures
        job.state.next_fire_ms matches Some(t) ==> t > fired,
        now_ms <= fired ==> !is_due(job, now_ms),
{
    lemma_due_by_cached_time(job, now_ms);
}

/// The text `* * * * *` is written in the bytes that the grammar reads.
proof fn lemma_every_minute_bytes()
    ensures
        encode_utf8("* * * * *"@) == crate::parse::every_minute_text(),
{
    let text = "* * * * *"@;
    reveal_strlit("* * * * *");
    assert(text.len() == 9);
    assert(vstd::utf8::is_ascii_chars(text));
    vstd::utf8::is_ascii_chars_encode_utf8(text);
    let bytes = encode_utf8(text);
    assert(bytes.len() == 9);
    assert(bytes[0] == text[0] as u8);
    assert(bytes[1] == text[1] as u8);
    assert(bytes[2] == text[2] as u8);
    assert(bytes[3] == text[3] as u8);
    assert(bytes[4] == text[4] as u8);
    assert(bytes[5] == text[5] as u8);
    assert(bytes[6] == text[6] as u8);
    assert(bytes[7] == text[7] as u8);
    assert(bytes[8] == text[8] as u8);
    assert(bytes =~= crate::parse::every_minute_text());
}

/// The schedule `* * * * *` fires at the start of every minute: its next fire time after
/// any time is the start of the next minute, as long as that is a time at all.
pub proof fn lemma_every_minute_schedule(after: u64)
    requires
        (after / 60_000 + 1) * 60_000 <= u64::MAX,
    ensures
        expr_of("* * * * *"@) matches Some(e) && e.every_minute(),
        fires_next(
            ScheduleView::Cron { expr: "* * * * *"@ },
            after,
            Some(((after / 60_000 + 1) * 60_000) as u64),
        ),
{
    let text = "* * * * *"@;
    lemma_every_minute_bytes();
    crate::parse::lemma_every_minute_text();
    let e = expr_of(text).unwrap();
    crate::expr::lemma_every_minute(e, after as int);
}

/// An enabled job with the schedule `* * * * *` is due as soon as the start of a minute
/// has come after the time from which its next fire time is computed.
pub proof fn lemma_every_minute_job_is_due(job: JobView, now_ms: u64)
    requires
        job.enabled,
        job.schedule == (ScheduleView::Cron { expr: "* * * * *"@ }),
        (reference_time(job) / 60_000 + 1) * 60_000 <= now_ms,
    ensures
        is_due(job, now_ms),
{
    let from = reference_time(job);
    lemma_every_minute_schedule(from);
    let t = ((from / 60_000 + 1) * 60_000) as u64;
    assert(job_fires_next(job, from, Some(t)));
}

/// The next fire time of `schedule` after `after`.
pub fn next_fire(schedule: &CronSchedule, after: u64) -> (r: Option<u64>)
    ensures
        fires_next(schedule@, after, r),
{
    match schedule {
        CronSchedule::At { at_ms } => {
            if after < *at_ms {
                Some(*at_ms)
            } else {
                None
            }
        },
        CronSchedule::Every { every_ms } => after.checked_add(*every_ms),
        CronSchedule::Cron { expr } => {
            match CronExpr::parse(expr.as_str()) {
                Some(e) => e.next_after(after),
                None => None,
            }
        },
    }
}

/// Checks that a schedule can be stored.
pub fn validate_schedule(schedule: &CronSchedule) -> (r: Result<(), CronError>)
    ensures
        r.is_ok() == schedule_valid(schedule@),
        r matches Err(e) ==> e is Validation,
{
    match schedule {
        CronSchedule::At { .. } => Ok(()),
        CronSchedule::Every { every_ms } => {
            if *every_ms > 0 {
                Ok(())
            } else {
                Err(CronError::Validation("interval must not be zero".to_string()))
            }
        },
        CronSchedule::Cron { expr } => {
            match CronExpr::parse(expr.as_str()) {
                Some(_) => Ok(()),
                None => Err(CronError::Validation("malformed cron expression".to_string())),
            }
        },
    }
}

/// The next fire time of `job` after `after`.
pub fn next_fire_of_job(job: &CronJob, after: u64) -> (r: Option<u64>)
    ensures
        job_fires_next(job@, after, r),
{
    let first_interval = match &job.schedule {
        CronSchedule::Every { .. } => job.state.last_fired_ms.is_none(),
        _ => false,
    };
    if first_interval {
        if after >= job.created_at_ms {
            Some(after)
        } else {
            Some(job.created_at_ms)
        }
    } else {
        next_fire(&job.schedule, after)
    }
}

/// Whether the scheduler has to run `job` at `now_ms`.
pub fn due(job: &CronJob, now_ms: u64) -> (r: bool)
    ensures
        r == is_due(job@, now_ms),
{
    if !job.enabled {
        return false;
    }
    let from: u64 = match job.state.last_fired_ms {
        Some(t) => t,
        None => job.created_at_ms,
    };
    let next = next_fire_of_job(job, from);
    proof {
        assert forall|t: u64| job_fires_next(job@, from, Some(t)) implies next == Some(t) by {
            if !(job.schedule is Every && job.state.last_fired_ms.is_none()) {
                lemma_next_fire_unique(job.schedule@, from, next, Some(t));
            }
        }
    }
    match next {
        Some(t) => {
            proof {
                if t <= now_ms {
                    assert(job_fires_next(job@, reference_time(job@), Some(t)));
                }
            }
            t <= now_ms
        },
        None => false,
    }
}

} // verus!
