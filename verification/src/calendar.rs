//! The proleptic Gregorian calendar in UTC, counted in whole days since
//! 1970-01-01 (day 0, a Thursday).

use vstd::prelude::*;

verus! {

/// Largest day number that any millisecond timestamp of 64 bits falls on.
pub const MAX_DAY: u64 = 213_503_982_334;

/// A year that no such timestamp reaches.
pub const MAX_YEAR: u64 = 600_000_000;

/// A leap year has 366 days: every fourth year, except centuries not divisible by 400.
pub open spec fn is_leap_year(y: int) -> bool {
    y % 4 == 0 && (y % 100 != 0 || y % 400 == 0)
}

/// Number of days of year `y`.
pub open spec fn year_length(y: int) -> int {
    if is_leap_year(y) {
        366
    } else {
        365
    }
}

/// Number of days of month `m` (1 = January) in year `y`.
pub open spec fn month_length(y: int, m: int) -> int {
    if m == 2 {
        if is_leap_year(y) {
            29
        } else {
            28
        }
    } else if m == 4 || m == 6 || m == 9 || m == 11 {
        30
    } else {
        31
    }
}

/// Days between 1970-01-01 and January 1st of year `y`.
pub open spec fn days_before_year(y: int) -> int
    decreases y,
{
    if y <= 1970 {
        0
    } else {
        days_before_year(y - 1) + year_length(y - 1)
    }
}

/// Days between January 1st of year `y` and the first day of month `m` of that year.
pub open spec fn days_before_month(y: int, m: int) -> int
    decreases m,
{
    if m <= 1 {
        0
    } else {
        days_before_month(y, m - 1) + month_length(y, m - 1)
    }
}

/// A calendar date.
#[derive(Clone, Copy, Debug, PartialEq, Eq)]
pub struct CivilDate {
    pub year: u64,
    pub month: u8,
    pub day: u8,
}

/// A calendar date as three numbers.
pub struct Date {
    pub year: int,
    pub month: int,
    pub day: int,
}

impl View for CivilDate {
    type V = Date;

    open spec fn view(&self) -> Date {
        Date { year: self.year as int, month: self.month as int, day: self.day as int }
    }
}

impl Date {
    /// The date exists in the calendar and is not before 1970.
    pub open spec fn is_valid(self) -> bool {
        &&& self.year >= 1970
        &&& 1 <= self.month <= 12
        &&& 1 <= self.day <= month_length(self.year, self.month)
    }

    /// Days between 1970-01-01 and this date.
    pub open spec fn day_number(self) -> int {
        days_before_year(self.year) + days_before_month(self.year, self.month) + self.day - 1
    }
}

/// The date that lies `n` days after 1970-01-01.
pub open spec fn date_of_day(n: int) -> Date {
    choose|d: Date| d.is_valid() && d.day_number() == n
}

/// The number of days in 400 years, after which the calendar repeats: dates and days of
/// the week alike.
pub const DAYS_PER_CYCLE: u64 = 146_097;

/// Day of the week of day `n`, 0 for Sunday up to 6 for Saturday.
pub open spec fn weekday_of_day(n: int) -> int {
    (n + 4) % 7
}

/// The days before a year, counted without going through the years one by one: 365 for
/// every year since 1970, and one more for every leap year among them.
pub proof fn lemma_days_before_year_closed(y: int)
    requires
        y >= 1970,
    ensures
        days_before_year(y) == 365 * (y - 1970) + (y - 1969) / 4 - (y - 1901) / 100 + (y - 1601)
            / 400,
    decreases y,
{
    if y > 1970 {
        lemma_days_before_year_closed(y - 1);
    }
}

/// Later years start later, by at least 365 days for every year in between.
pub proof fn lemma_days_before_year_monotone(a: int, b: int)
    requires
        1970 <= a <= b,
    ensures
        days_before_year(a) + 365 * (b - a) <= days_before_year(b),
    decreases b - a,
{
    if a < b {
        lemma_days_before_year_monotone(a, b - 1);
    }
}

/// Within a year the months follow one another without gaps, and together they fill it.
pub proof fn lemma_month_offsets(y: int)
    ensures
        days_before_month(y, 1) == 0,
        days_before_month(y, 13) == year_length(y),
        forall|m: int|
            1 <= m <= 12 ==> #[trigger] days_before_month(y, m + 1) == days_before_month(y, m)
                + month_length(y, m),
        forall|a: int, b: int|
            1 <= a <= b <= 13 ==> #[trigger] days_before_month(y, a)
                <= #[trigger] days_before_month(y, b),
{
    reveal_with_fuel(days_before_month, 14);
}

/// A valid date lies inside its year and inside its month.
pub proof fn lemma_day_number_bounds(d: Date)
    requires
        d.is_valid(),
    ensures
        days_before_year(d.year) <= d.day_number() < days_before_year(d.year + 1),
        days_before_year(d.year) + days_before_month(d.year, d.month) <= d.day_number()
            < days_before_year(d.year) + days_before_month(d.year, d.month + 1),
{
    lemma_month_offsets(d.year);
    assert(days_before_month(d.year, d.month + 1) <= days_before_month(d.year, 13));
}

/// No two valid dates share a day number.
pub proof fn lemma_day_number_unique(a: Date, b: Date)
    requires
        a.is_valid(),
        b.is_valid(),
        a.day_number() == b.day_number(),
    ensures
        a == b,
{
    lemma_day_number_bounds(a);
    lemma_day_number_bounds(b);
    if a.year < b.year {
        lemma_days_before_year_monotone(a.year + 1, b.year);
    } else if b.year < a.year {
        lemma_days_before_year_monotone(b.year + 1, a.year);
    } else {
        lemma_month_offsets(a.year);
        if a.month < b.month {
            assert(days_before_month(a.year, a.month + 1) <= days_before_month(a.year, b.month));
        } else if b.month < a.month {
            assert(days_before_month(a.year, b.month + 1) <= days_before_month(a.year, a.month));
        }
    }
}

/// Every valid date is the date of its own day number.
pub proof fn lemma_date_of_day_number(d: Date)
    requires
        d.is_valid(),
    ensures
        date_of_day(d.day_number()) == d,
{
    let c = date_of_day(d.day_number());
    lemma_day_number_unique(c, d);
}

/// Every day from 1970-01-01 on has a date.
pub proof fn lemma_every_day_has_a_date(n: int)
    requires
        n >= 0,
    ensures
        date_of_day(n).is_valid(),
        date_of_day(n).day_number() == n,
    decreases n,
{
    if n == 0 {
        let first = Date { year: 1970, month: 1, day: 1 };
        assert(first.is_valid() && first.day_number() == 0);
    } else {
        lemma_every_day_has_a_date(n - 1);
        let d = date_of_day(n - 1);
        lemma_month_offsets(d.year);
        lemma_month_offsets(d.year + 1);
        let next = if d.day < month_length(d.year, d.month) {
            Date { day: d.day + 1, ..d }
        } else if d.month < 12 {
            Date { year: d.year, month: d.month + 1, day: 1 }
        } else {
            Date { year: d.year + 1, month: 1, day: 1 }
        };
        assert(next.is_valid() && next.day_number() == n);
    }
}

/// Four hundred years have 146097 days.
pub proof fn lemma_year_cycle(y: int)
    requires
        y >= 1970,
    ensures
        days_before_year(y + 400) == days_before_year(y) + 146_097,
{
    lemma_days_before_year_closed(y);
    lemma_days_before_year_closed(y + 400);
}

/// The months of a year are as long as those of the year 400 years later.
pub proof fn lemma_month_cycle(y: int, m: int)
    ensures
        month_length(y + 400, m) == month_length(y, m),
        days_before_month(y + 400, m) == days_before_month(y, m),
    decreases m,
{
    if m > 1 {
        lemma_month_cycle(y, m - 1);
    }
}

/// The calendar repeats after 400 years: the day that lies 146097 days after day `n` has
/// the same month, the same day of the month and the same day of the week.
pub proof fn lemma_calendar_cycle(n: int)
    requires
        n >= 0,
    ensures
        date_of_day(n + 146_097) == (Date { year: date_of_day(n).year + 400, ..date_of_day(n) }),
        weekday_of_day(n + 146_097) == weekday_of_day(n),
{
    lemma_every_day_has_a_date(n);
    let d = date_of_day(n);
    let later = Date { year: d.year + 400, ..d };
    lemma_year_cycle(d.year);
    lemma_month_cycle(d.year, d.month);
    assert(later.is_valid());
    assert(later.day_number() == n + 146_097);
    lemma_date_of_day_number(later);
}

/// Whether `y` is a leap year.
pub fn leap_year(y: u64) -> (r: bool)
    ensures
        r == is_leap_year(y as int),
{
    y % 4 == 0 && (y % 100 != 0 || y % 400 == 0)
}

/// Days from 1970-01-01 to January 1st of `y`, in constant time.
pub fn year_start(y: u64) -> (r: u64)
    requires
        1970 <= y <= MAX_YEAR,
    ensures
        r == days_before_year(y as int),
{
    proof {
        lemma_days_before_year_closed(y as int);
    }
    365 * (y - 1970) + (y - 1969) / 4 + (y - 1601) / 400 - (y - 1901) / 100
}

/// Days from January 1st of `y` to the first day of month `m`; `m` may be 13 for the year's end.
pub fn month_start(y: u64, m: u8) -> (r: u64)
    requires
        1 <= m <= 13,
    ensures
        r == days_before_month(y as int, m as int),
{
    proof {
        reveal_with_fuel(days_before_month, 14);
    }
    let leap: u64 = if leap_year(y) {
        1
    } else {
        0
    };
    match m {
        1 => 0,
        2 => 31,
        3 => 59 + leap,
        4 => 90 + leap,
        5 => 120 + leap,
        6 => 151 + leap,
        7 => 181 + leap,
        8 => 212 + leap,
        9 => 243 + leap,
        10 => 273 + leap,
        11 => 304 + leap,
        12 => 334 + leap,
        _ => 365 + leap,
    }
}

/// The calendar date of day `n`, for the days that millisecond timestamps of 64 bits
/// fall on.
pub fn civil_from_days(n: u64) -> (r: CivilDate)
    requires
        n <= MAX_DAY,
    ensures
        r@.is_valid(),
        r@.day_number() == n,
        r@ == date_of_day(n as int),
{
    let mut y: u64 = 1970 + n * 400 / 146097;
    while year_start(y) > n
        invariant
            1970 <= y <= MAX_YEAR,
        decreases y,
    {
        y = y - 1;
    }
    proof {
        lemma_days_before_year_monotone(1970, y as int);
    }
    while year_start(y + 1) <= n
        invariant
            1970 <= y < MAX_YEAR,
            n <= MAX_DAY,
            days_before_year(y as int) <= n,
        decreases n - days_before_year(y as int),
    {
        proof {
            lemma_days_before_year_monotone(1970, y + 1);
        }
        y = y + 1;
    }
    let rest: u64 = n - year_start(y);
    proof {
        lemma_month_offsets(y as int);
    }
    let mut m: u8 = 1;
    while m < 12 && month_start(y, m + 1) <= rest
        invariant
            1 <= m <= 12,
            days_before_month(y as int, m as int) <= rest,
        decreases 12 - m,
    {
        m = m + 1;
    }
    let day: u64 = rest - month_start(y, m) + 1;
    let r = CivilDate { year: y, month: m, day: day as u8 };
    proof {
        lemma_date_of_day_number(r@);
    }
    r
}

/// Day of the week of day `n`: 0 for Sunday up to 6 for Saturday.
pub fn weekday(n: u64) -> (r: u8)
    ensures
        r == weekday_of_day(n as int),
{
    ((n % 7 + 4) % 7) as u8
}

} // verus!
