//! Five-field cron expressions: what they match, and when they fire next.
//!
//! All times are UTC. An expression fires at the start of every minute whose
//! minute, hour, month and day match. When both the day-of-month field and
//! the day-of-week field are restricted (neither is `*`), a day matches if
//! either of them matches; otherwise it has to match both.

use vstd::prelude::*;
use crate::calendar::{
    civil_from_days, date_of_day, lemma_calendar_cycle, weekday, weekday_of_day, DAYS_PER_CYCLE,
    MAX_DAY,
};
use crate::field::FieldSet;

verus! {

pub const MS_PER_MINUTE: u64 = 60_000;

pub const MS_PER_DAY: u64 = 86_400_000;

pub const MINUTES_PER_DAY: u64 = 1_440;

/// The last minute that starts at a millisecond timestamp of 64 bits.
pub const MAX_MINUTE: u64 = 307_445_734_561_825;


/// A parsed cron expression.
#[derive(Clone, Copy, Debug, PartialEq, Eq)]
pub struct CronExpr {
    pub minutes: FieldSet,
    pub hours: FieldSet,
    pub days: FieldSet,
    pub months: FieldSet,
    pub weekdays: FieldSet,
    /// The day-of-month field was something else than `*`.
    pub day_restricted: bool,
    /// The day-of-week field was something else than `*`.
    pub weekday_restricted: bool,
}

/// What a cron expression says: the values that each field admits.
pub struct CronExprView {
    pub minutes: Set<int>,
    pub hours: Set<int>,
    pub days: Set<int>,
    pub months: Set<int>,
    pub weekdays: Set<int>,
    pub day_restricted: bool,
    pub weekday_restricted: bool,
}

/// `values` is not empty and holds nothing outside `lo..=hi`.
pub open spec fn is_field(values: Set<int>, lo: int, hi: int) -> bool {
    &&& exists|v: int| values.contains(v)
    &&& forall|v: int| values.contains(v) ==> lo <= v <= hi
}

/// `values` holds all of `lo..=hi`.
pub open spec fn covers(values: Set<int>, lo: int, hi: int) -> bool {
    forall|v: int| lo <= v <= hi ==> values.contains(v)
}

impl CronExprView {
    /// Every field names at least one value and none outside its range, and a field that
    /// is not restricted names its whole range.
    pub open spec fn well_formed(self) -> bool {
        &&& is_field(self.minutes, 0, 59)
        &&& is_field(self.hours, 0, 23)
        &&& is_field(self.days, 1, 31)
        &&& is_field(self.months, 1, 12)
        &&& is_field(self.weekdays, 0, 6)
        &&& !self.day_restricted ==> covers(self.days, 1, 31)
        &&& !self.weekday_restricted ==> covers(self.weekdays, 0, 6)
    }

    /// Day `n` since 1970-01-01 is a day on which the expression fires.
    pub open spec fn day_matches(self, n: int) -> bool {
        let date = date_of_day(n);
        let by_date = self.days.contains(date.day);
        let by_weekday = self.weekdays.contains(weekday_of_day(n));
        &&& self.months.contains(date.month)
        &&& if self.day_restricted && self.weekday_restricted {
            by_date || by_weekday
        } else {
            by_date && by_weekday
        }
    }

    /// The minute and the hour of minute `k` since the epoch, or since any midnight, are ones
    /// at which the expression fires.
    pub open spec fn time_matches(self, k: int) -> bool {
        self.minutes.contains(k % 60) && self.hours.contains((k / 60) % 24)
    }

    /// The expression fires at the start of minute `k` since the epoch.
    pub open spec fn minute_matches(self, k: int) -> bool {
        self.time_matches(k) && self.day_matches(k / 1440)
    }

    /// The expression fires at the millisecond timestamp `t`.
    pub open spec fn fires_at(self, t: int) -> bool {
        t % 60_000 == 0 && self.minute_matches(t / 60_000)
    }

    /// `t` is the first fire time after `after`.
    pub open spec fn first_fire_after(self, after: int, t: int) -> bool {
        &&& after < t
        &&& self.fires_at(t)
        &&& forall|u: int| after < u < t ==> !self.fires_at(u)
    }
}

impl CronExprView {
    /// Every field names the whole of its range: the expression asks for every minute.
    pub open spec fn every_minute(self) -> bool {
        &&& covers(self.minutes, 0, 59)
        &&& covers(self.hours, 0, 23)
        &&& covers(self.days, 1, 31)
        &&& covers(self.months, 1, 12)
        &&& covers(self.weekdays, 0, 6)
    }
}

/// An expression that asks for every minute fires at the start of every minute, so that
/// its first fire time after any time is the start of the next minute.
pub proof fn lemma_every_minute(e: CronExprView, after: int)
    requires
        e.every_minute(),
        0 <= after,
    ensures
        forall|t: int| 0 <= t && t % 60_000 == 0 ==> #[trigger] e.fires_at(t),
        e.first_fire_after(after, (after / 60_000 + 1) * 60_000),
{
    assert forall|t: int| 0 <= t && t % 60_000 == 0 implies #[trigger] e.fires_at(t) by {
        let k = t / 60_000;
        let n = k / 1440;
        crate::calendar::lemma_every_day_has_a_date(n);
        let date = date_of_day(n);
        assert(1 <= date.day <= 31);
        assert(0 <= weekday_of_day(n) <= 6);
        assert(0 <= k % 60 <= 59);
        assert(0 <= (k / 60) % 24 <= 23);
    }
    let next = (after / 60_000 + 1) * 60_000;
    assert(next % 60_000 == 0);
    assert(e.fires_at(next));
    assert forall|u: int| after < u < next implies !e.fires_at(u) by {
        if u % 60_000 == 0 {
            assert(u / 60_000 > after / 60_000);
        }
    }
}

/// Whether the expression fires on a day does not change when the day moves by whole
/// cycles of 400 years.
proof fn lemma_day_cycles(e: CronExprView, n: int, cycles: int)
    requires
        n >= 0,
        cycles >= 0,
    ensures
        e.day_matches(n + cycles * 146_097) == e.day_matches(n),
    decreases cycles,
{
    if cycles > 0 {
        lemma_day_cycles(e, n, cycles - 1);
        lemma_calendar_cycle(n + (cycles - 1) * 146_097);
    }
}

/// If the expression fires at some minute from `first` on, it fires at one that is not
/// later and lies before the end of the day `day0 + 146097`.
proof fn lemma_fires_within_cycle(e: CronExprView, first: int, day0: int, k: int)
    requires
        0 <= day0,
        first <= (day0 + 1) * 1440,
        first <= k,
        e.minute_matches(k),
    ensures
        exists|j: int| first <= j <= k && j < (day0 + 146_097 + 1) * 1440 && e.minute_matches(j),
{
    if k < (day0 + 146_097 + 1) * 1440 {
        assert(e.minute_matches(k));
    } else {
        let n = k / 1440;
        let cycles = (n - day0 - 1) / 146_097;
        let base = n - cycles * 146_097;
        let j = base * 1440 + (k - n * 1440);
        lemma_day_cycles(e, base, cycles);
        lemma_time_of_day(e, n, k);
        lemma_time_of_day(e, base, j);
        assert(e.minute_matches(j));
    }
}

/// Within day `n`, whether the time of minute `k` matches depends on its distance from
/// midnight alone.
proof fn lemma_time_of_day(e: CronExprView, n: int, k: int)
    requires
        0 <= n,
        n * 1440 <= k < (n + 1) * 1440,
    ensures
        k / 1440 == n,
        e.time_matches(k) == e.time_matches(k - n * 1440),
{
    let w = k - n * 1440;
    assert(k % 60 == w % 60);
    assert((k / 60) % 24 == (w / 60) % 24);
}

impl View for CronExpr {
    type V = CronExprView;

    open spec fn view(&self) -> CronExprView {
        CronExprView {
            minutes: self.minutes@,
            hours: self.hours@,
            days: self.days@,
            months: self.months@,
            weekdays: self.weekdays@,
            day_restricted: self.day_restricted,
            weekday_restricted: self.weekday_restricted,
        }
    }
}

impl CronExpr {
    /// Whether the expression fires on day `n`.
    pub fn matches_day(&self, n: u64) -> (r: bool)
        requires
            n <= MAX_DAY,
        ensures
            r == self@.day_matches(n as int),
    {
        let date = civil_from_days(n);
        let by_date = self.days.has(date.day as u64);
        let by_weekday = self.weekdays.has(weekday(n) as u64);
        self.months.has(date.month as u64) && if self.day_restricted && self.weekday_restricted {
            by_date || by_weekday
        } else {
            by_date && by_weekday
        }
    }

    /// The first minute of a day, counted from midnight and not before `from`, whose minute
    /// and hour the expression admits.
    pub fn first_minute_of_day(&self, from: u64) -> (r: Option<u64>)
        ensures
            match r {
                Some(m) => {
                    &&& from <= m < 1440
                    &&& self@.time_matches(m as int)
                    &&& forall|j: int| from <= j < m ==> !self@.time_matches(j)
                },
                None => forall|j: int| from <= j < 1440 ==> !self@.time_matches(j),
            },
    {
        let mut m: u64 = from;
        while m < MINUTES_PER_DAY
            invariant
                from <= m,
                forall|j: int| from <= j < m ==> !self@.time_matches(j),
            decreases MINUTES_PER_DAY - m,
        {
            if self.hours.has(m / 60) && self.minutes.has(m % 60) {
                return Some(m);
            }
            m = m + 1;
        }
        None
    }

    /// The first time after `after` at which the expression fires, if there is one.
    ///
    /// The search goes day by day through one cycle of the calendar. An expression that
    /// names a date that does not exist, such as the 31st of February, never fires.
    pub fn next_after(&self, after: u64) -> (r: Option<u64>)
        ensures
            match r {
                Some(t) => self@.first_fire_after(after as int, t as int),
                None => forall|u: int| after < u <= u64::MAX ==> !self@.fires_at(u),
            },
    {
        let day0: u64 = after / MS_PER_DAY;
        let first: u64 = after / MS_PER_MINUTE + 1;
        let mut from: u64 = first - day0 * MINUTES_PER_DAY;
        let mut i: u64 = 0;
        while i <= DAYS_PER_CYCLE
            invariant
                day0 == after / MS_PER_DAY,
                first == after / MS_PER_MINUTE + 1,
                i <= DAYS_PER_CYCLE + 1,
                from <= 1440,
                i > 0 ==> from == 0,
                i == 0 ==> first == day0 * 1440 + from,
                forall|k: int| first <= k < (day0 + i) * 1440 + from ==> !self@.minute_matches(k),
            decreases DAYS_PER_CYCLE + 1 - i,
        {
            let n: u64 = day0 + i;
            if n > MAX_DAY {
                proof {
                    assert forall|u: int| after < u <= u64::MAX implies !self@.fires_at(u) by {
                        if u % 60_000 == 0 {
                            let k = u / 60_000;
                            assert(first <= k);
                            assert(k < (day0 + i) * 1440 + from);
                        }
                    }
                }
                return None;
            }
            if self.matches_day(n) {
                match self.first_minute_of_day(from) {
                    Some(m) => {
                        let k: u64 = n * MINUTES_PER_DAY + m;
                        if k > MAX_MINUTE {
                            proof {
                                assert forall|u: int|
                                    after < u <= u64::MAX implies !self@.fires_at(u) by {
                                    if u % 60_000 == 0 {
                                        let j = u / 60_000;
                                        assert(first <= j);
                                        assert(j < k);
                                        if j >= n * 1440 + from {
                                            assert(j / 1440 == n);
                                            lemma_time_of_day(self@, n as int, j);
                                        }
                                    }
                                }
                            }
                            return None;
                        }
                        let t: u64 = k * MS_PER_MINUTE;
                        proof {
                            lemma_time_of_day(self@, n as int, k as int);
                            assert(t as int / 60_000 == k);
                            assert(self@.fires_at(t as int));
                            assert forall|u: int| after < u < t implies !self@.fires_at(u) by {
                                if u % 60_000 == 0 {
                                    let j = u / 60_000;
                                    assert(first <= j);
                                    assert(j < k);
                                    if j >= n * 1440 + from {
                                        assert(j / 1440 == n);
                                        lemma_time_of_day(self@, n as int, j);
                                    }
                                }
                            }
                        }
                        return Some(t);
                    },
                    None => {
                        proof {
                            assert forall|j: int|
                                n * 1440 + from <= j < (n + 1) * 1440 implies !self@.minute_matches(
                                j,
                            ) by {
                                lemma_time_of_day(self@, n as int, j);
                            }
                        }
                    },
                }
            } else {
                proof {
                    assert forall|j: int|
                        n * 1440 + from <= j < (n + 1) * 1440 implies !self@.minute_matches(
                        j,
                    ) by {
                        assert(j / 1440 == n);
                    }
                }
            }
            from = 0;
            i = i + 1;
        }
        proof {
            assert forall|u: int| after < u <= u64::MAX implies !self@.fires_at(u) by {
                if u % 60_000 == 0 && self@.minute_matches(u / 60_000) {
                    let k = u / 60_000;
                    assert(first <= k);
                    lemma_fires_within_cycle(self@, first as int, day0 as int, k);
                }
            }
        }
        None
    }
}

} // verus!
