//! The snapshot of the service: how many jobs there are, which fire times come next, and
//! what went wrong last.

use vstd::prelude::*;
use crate::types::{job_views, CronJob, JobView};

verus! {

/// How many of the next fire times a snapshot shows.
pub const NEXT_FIRES_SHOWN: usize = 3;

/// A snapshot of the service.
#[derive(Debug, PartialEq, Eq)]
pub struct CronStatus {
    pub enabled_jobs: usize,
    pub disabled_jobs: usize,
    /// How many jobs have a run in flight.
    pub running_jobs: usize,
    /// The earliest cached next fire times of enabled jobs, earliest first, three at most.
    pub next_fires_ms: Vec<u64>,
    /// The error text of the last failed run, if any run has failed.
    pub last_error: Option<String>,
}

/// How many of `jobs` are enabled.
pub open spec fn enabled_count(jobs: Seq<JobView>) -> nat
    decreases jobs.len(),
{
    if jobs.len() == 0 {
        0
    } else {
        enabled_count(jobs.drop_last()) + if jobs.last().enabled {
            1nat
        } else {
            0nat
        }
    }
}

/// The cached next fire time of a job, if the job is enabled and has one.
pub open spec fn fire_of(job: JobView) -> Option<u64> {
    if job.enabled {
        job.state.next_fire_ms
    } else {
        None
    }
}

/// The times do not go down.
pub open spec fn ascending(times: Seq<u64>) -> bool {
    forall|i: int, j: int| 0 <= i <= j < times.len() ==> times[i] <= times[j]
}

/// Where the time `t` goes among `times`: behind the last time that is not later.
pub open spec fn place_for(times: Seq<u64>, t: u64) -> int
    decreases times.len(),
{
    if times.len() == 0 {
        0
    } else if times.last() <= t {
        times.len() as int
    } else {
        place_for(times.drop_last(), t)
    }
}

/// `times` with `t` in its place, and without the latest time if that makes more than
/// three.
pub open spec fn noted(times: Seq<u64>, t: u64) -> Seq<u64> {
    let longer = times.insert(place_for(times, t), t);
    if longer.len() > 3 {
        longer.drop_last()
    } else {
        longer
    }
}

/// The fire times that a snapshot of `jobs` shows: going through the jobs, each fire
/// time is noted.
pub open spec fn next_fires(jobs: Seq<JobView>) -> Seq<u64>
    decreases jobs.len(),
{
    if jobs.len() == 0 {
        Seq::empty()
    } else {
        match fire_of(jobs.last()) {
            Some(t) => noted(next_fires(jobs.drop_last()), t),
            None => next_fires(jobs.drop_last()),
        }
    }
}

/// The place of a time lies behind the times that are not later and before those that
/// are.
proof fn lemma_place_for(times: Seq<u64>, t: u64)
    requires
        ascending(times),
    ensures
        0 <= place_for(times, t) <= times.len(),
        forall|i: int| 0 <= i < place_for(times, t) ==> times[i] <= t,
        forall|i: int| place_for(times, t) <= i < times.len() ==> times[i] > t,
    decreases times.len(),
{
    if times.len() > 0 {
        if times.last() <= t {
            assert forall|i: int| 0 <= i < times.len() implies times[i] <= t by {
                assert(times[i] <= times[times.len() - 1]);
            }
        } else {
            let front = times.drop_last();
            assert forall|i: int, j: int| 0 <= i <= j < front.len() implies front[i]
                <= front[j] by {
                assert(times[i] <= times[j]);
            }
            lemma_place_for(front, t);
            assert forall|i: int| 0 <= i < place_for(times, t) implies times[i] <= t by {
                assert(front[i] <= t);
            }
            assert forall|i: int| place_for(times, t) <= i < times.len() implies times[i]
                > t by {
                if i < front.len() {
                    assert(front[i] > t);
                }
            }
        }
    }
}

/// Noting a time keeps the times ascending and three at most. The noted times are among
/// the earlier ones and the new one, and what is left out is not earlier than any of
/// them.
proof fn lemma_noted(times: Seq<u64>, t: u64)
    requires
        ascending(times),
        times.len() <= 3,
    ensures
        ascending(noted(times, t)),
        noted(times, t).len() <= 3,
        noted(times, t).len() >= times.len(),
        forall|i: int|
            0 <= i < noted(times, t).len() ==> times.contains(#[trigger] noted(times, t)[i])
                || noted(times, t)[i] == t,
        forall|x: u64|
            times.contains(x) || x == t ==> #[trigger] noted(times, t).contains(x) || (noted(
                times,
                t,
            ).len() == 3 && noted(times, t)[2] <= x),
        times.len() == 3 ==> noted(times, t).len() == 3 && noted(times, t)[2] <= times[2],
{
    lemma_place_for(times, t);
    let at = place_for(times, t);
    let longer = times.insert(at, t);
    let shown = noted(times, t);
    assert forall|i: int, j: int| 0 <= i <= j < longer.len() implies longer[i] <= longer[j] by {
        let a = if i < at {
            i
        } else {
            i - 1
        };
        let b = if j < at {
            j
        } else {
            j - 1
        };
        if i != at && j != at {
            assert(times[a] <= times[b]);
        }
    }
    assert forall|i: int| 0 <= i < shown.len() implies times.contains(#[trigger] shown[i])
        || shown[i] == t by {
        if i < at {
            assert(times[i] == shown[i]);
        } else if i > at {
            assert(times[i - 1] == shown[i]);
        }
    }
    if times.len() == 3 {
        assert(longer[2] <= longer[3]);
        assert(times[2] == if at == 3 {
            longer[2]
        } else {
            longer[3]
        });
    }
    assert forall|x: u64| times.contains(x) || x == t implies #[trigger] shown.contains(x) || (
    shown.len() == 3 && shown[2] <= x) by {
        let k = if x == t {
            at
        } else {
            let i = choose|i: int| 0 <= i < times.len() && times[i] == x;
            if i < at {
                i
            } else {
                i + 1
            }
        };
        assert(longer[k] == x);
        if k < shown.len() {
            assert(shown[k] == x);
        } else {
            assert(longer[2] <= longer[k]);
        }
    }
}

/// What a snapshot shows of the fire times: three at most, earliest first, each the
/// cached next fire time of an enabled job; and no enabled job fires earlier than the
/// last time shown unless its time is shown.
pub proof fn lemma_next_fires(jobs: Seq<JobView>)
    ensures
        ascending(next_fires(jobs)),
        next_fires(jobs).len() <= 3,
        forall|i: int|
            0 <= i < next_fires(jobs).len() ==> exists|j: int|
                0 <= j < jobs.len() && fire_of(#[trigger] jobs[j]) == Some(
                    #[trigger] next_fires(jobs)[i],
                ),
        forall|j: int|
            0 <= j < jobs.len() ==> (fire_of(#[trigger] jobs[j]) matches Some(t) ==> next_fires(
                jobs,
            ).contains(t) || (next_fires(jobs).len() == 3 && next_fires(jobs)[2] <= t)),
    decreases jobs.len(),
{
    if jobs.len() > 0 {
        let front = jobs.drop_last();
        let before = next_fires(front);
        let shown = next_fires(jobs);
        lemma_next_fires(front);
        match fire_of(jobs.last()) {
            Some(t) => {
                lemma_noted(before, t);
                assert forall|i: int| 0 <= i < shown.len() implies exists|j: int|
                    0 <= j < jobs.len() && fire_of(#[trigger] jobs[j]) == Some(
                        #[trigger] shown[i],
                    ) by {
                    if shown[i] == t {
                        assert(fire_of(jobs[jobs.len() - 1]) == Some(shown[i]));
                    } else {
                        let k = choose|k: int| 0 <= k < before.len() && before[k] == shown[i];
                        let j = choose|j: int|
                            0 <= j < front.len() && fire_of(#[trigger] front[j]) == Some(
                                before[k],
                            );
                        assert(fire_of(jobs[j]) == Some(shown[i]));
                    }
                }
                assert forall|j: int| 0 <= j < jobs.len() implies (fire_of(
                    #[trigger] jobs[j],
                ) matches Some(x) ==> shown.contains(x) || (shown.len() == 3 && shown[2]
                    <= x)) by {
                    if let Some(x) = fire_of(jobs[j]) {
                        if j < front.len() {
                            assert(fire_of(front[j]) == Some(x));
                            if !before.contains(x) {
                                assert(before.len() == 3 && before[2] <= x);
                            }
                        }
                        assert(shown.contains(x) || (shown.len() == 3 && shown[2] <= x));
                    }
                }
            },
            None => {
                assert(shown == before);
                assert forall|i: int| 0 <= i < shown.len() implies exists|j: int|
                    0 <= j < jobs.len() && fire_of(#[trigger] jobs[j]) == Some(
                        #[trigger] shown[i],
                    ) by {
                    let j = choose|j: int|
                        0 <= j < front.len() && fire_of(#[trigger] front[j]) == Some(shown[i]);
                    assert(fire_of(jobs[j]) == Some(shown[i]));
                }
                assert forall|j: int| 0 <= j < jobs.len() implies (fire_of(
                    #[trigger] jobs[j],
                ) matches Some(x) ==> shown.contains(x) || (shown.len() == 3 && shown[2]
                    <= x)) by {
                    if let Some(x) = fire_of(jobs[j]) {
                        assert(j < front.len());
                        assert(fire_of(front[j]) == Some(x));
                        assert(before.contains(x) || (before.len() == 3 && before[2] <= x));
                    }
                }
            },
        }
    }
}

/// Notes the time `t` among the times shown.
fn note(times: &mut Vec<u64>, t: u64)
    requires
        ascending(old(times)@),
        old(times)@.len() <= 3,
    ensures
        final(times)@ == noted(old(times)@, t),
        ascending(final(times)@),
        final(times)@.len() <= 3,
{
    let ghost before = times@;
    proof {
        lemma_noted(before, t);
        assert(before.subrange(0, before.len() as int) =~= before);
    }
    let mut k: usize = times.len();
    while k > 0 && times[k - 1] > t
        invariant
            k <= times@.len(),
            times@ == before,
            place_for(before, t) == place_for(before.subrange(0, k as int), t),
        decreases k,
    {
        proof {
            let part = before.subrange(0, k as int);
            assert(part.last() == before[k - 1]);
            assert(part.drop_last() =~= before.subrange(0, k - 1));
        }
        k = k - 1;
    }
    proof {
        let part = before.subrange(0, k as int);
        if k > 0 {
            assert(part.last() == before[k - 1]);
        }
        assert(place_for(part, t) == k);
    }
    times.insert(k, t);
    if times.len() > NEXT_FIRES_SHOWN {
        let _ = times.pop();
        proof {
            assert(times@ =~= before.insert(k as int, t).drop_last());
        }
    }
}

/// Counts the enabled and the disabled jobs of `jobs` and notes their next fire times.
pub fn summarise(jobs: &Vec<CronJob>) -> (r: (usize, usize, Vec<u64>))
    ensures
        r.0 == enabled_count(job_views(jobs@)),
        r.0 + r.1 == jobs@.len(),
        r.2@ == next_fires(job_views(jobs@)),
{
    let ghost views = job_views(jobs@);
    let mut enabled: usize = 0;
    let mut disabled: usize = 0;
    let mut shown: Vec<u64> = Vec::new();
    let mut i: usize = 0;
    while i < jobs.len()
        invariant
            i <= jobs@.len(),
            views == job_views(jobs@),
            enabled == enabled_count(views.subrange(0, i as int)),
            enabled + disabled == i,
            shown@ == next_fires(views.subrange(0, i as int)),
            ascending(shown@),
            shown@.len() <= 3,
        decreases jobs@.len() - i,
    {
        proof {
            let part = views.subrange(0, i + 1);
            assert(part.drop_last() =~= views.subrange(0, i as int));
            assert(part.last() == jobs@[i as int]@);
        }
        if jobs[i].enabled {
            enabled = enabled + 1;
            match jobs[i].state.next_fire_ms {
                Some(t) => {
                    note(&mut shown, t);
                },
                None => {},
            }
        } else {
            disabled = disabled + 1;
        }
        i = i + 1;
    }
    proof {
        assert(views.subrange(0, i as int) =~= views);
    }
    (enabled, disabled, shown)
}

} // verus!
