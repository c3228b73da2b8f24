use cron_engine::calendar::{civil_from_days, weekday, CivilDate};
use cron_engine::expr::CronExpr;
use cron_engine::schedule::{next_fire, validate_schedule};
use cron_engine::types::{CronError, CronSchedule};

const DAY: u64 = 86_400_000;
const HOUR: u64 = 3_600_000;
const MINUTE: u64 = 60_000;
/// 2024-01-01T00:00:00Z
const Y2024: u64 = 1_704_067_200_000;

fn cron(expr: &str) -> CronSchedule {
    CronSchedule::Cron { expr: expr.to_string() }
}

#[test]
fn civil_dates_of_known_days() {
    assert_eq!(civil_from_days(0), CivilDate { year: 1970, month: 1, day: 1 });
    assert_eq!(civil_from_days(59), CivilDate { year: 1970, month: 3, day: 1 });
    assert_eq!(civil_from_days(789), CivilDate { year: 1972, month: 2, day: 29 });
    assert_eq!(civil_from_days(11_016), CivilDate { year: 2000, month: 2, day: 29 });
    assert_eq!(civil_from_days(19_723), CivilDate { year: 2024, month: 1, day: 1 });
    assert_eq!(civil_from_days(19_782), CivilDate { year: 2024, month: 2, day: 29 });
    assert_eq!(civil_from_days(20_088), CivilDate { year: 2024, month: 12, day: 31 });
    assert_eq!(civil_from_days(47_541), CivilDate { year: 2100, month: 3, day: 1 });
}

#[test]
fn weekdays_of_known_days() {
    // 1970-01-01 was a Thursday, 2024-01-01 a Monday.
    assert_eq!(weekday(0), 4);
    assert_eq!(weekday(3), 0);
    assert_eq!(weekday(19_723), 1);
}

#[test]
fn at_fires_exactly_once() {
    let s = CronSchedule::At { at_ms: 1000 };
    assert_eq!(next_fire(&s, 0), Some(1000));
    assert_eq!(next_fire(&s, 999), Some(1000));
    assert_eq!(next_fire(&s, 1000), None);
    assert_eq!(next_fire(&s, 5000), None);
}

#[test]
fn interval_adds_to_reference_time() {
    let s = CronSchedule::Every { every_ms: 30_000 };
    assert_eq!(next_fire(&s, 0), Some(30_000));
    assert_eq!(next_fire(&s, 12_345), Some(42_345));
    assert_eq!(next_fire(&s, u64::MAX), None);
}

#[test]
fn every_minute_fires_at_next_minute_start() {
    let s = cron("* * * * *");
    assert_eq!(next_fire(&s, 0), Some(MINUTE));
    assert_eq!(next_fire(&s, 1), Some(MINUTE));
    assert_eq!(next_fire(&s, MINUTE - 1), Some(MINUTE));
    assert_eq!(next_fire(&s, MINUTE), Some(2 * MINUTE));
    assert_eq!(next_fire(&s, Y2024 + 30_500), Some(Y2024 + MINUTE));
}

#[test]
fn steps_ranges_and_lists() {
    assert_eq!(next_fire(&cron("*/5 * * * *"), 7 * MINUTE), Some(10 * MINUTE));
    assert_eq!(next_fire(&cron("10-20/5 * * * *"), 15 * MINUTE), Some(20 * MINUTE));
    assert_eq!(next_fire(&cron("10-20/5 * * * *"), 20 * MINUTE), Some(HOUR + 10 * MINUTE));
    assert_eq!(next_fire(&cron("1,31 * * * *"), 2 * MINUTE), Some(31 * MINUTE));
    assert_eq!(next_fire(&cron("5/20 * * * *"), 26 * MINUTE), Some(45 * MINUTE));
    assert_eq!(next_fire(&cron("30 9 * * *"), Y2024), Some(Y2024 + 9 * HOUR + 30 * MINUTE));
    assert_eq!(
        next_fire(&cron("30 9 * * *"), Y2024 + 9 * HOUR + 30 * MINUTE),
        Some(Y2024 + DAY + 9 * HOUR + 30 * MINUTE)
    );
}

#[test]
fn rolls_over_months_and_years() {
    assert_eq!(next_fire(&cron("0 0 1 1 *"), 0), Some(365 * DAY));
    // From 2024-12-31T23:59 to 2025-01-01T00:00.
    assert_eq!(
        next_fire(&cron("0 0 1 * *"), Y2024 + 365 * DAY + 23 * HOUR + 59 * MINUTE),
        Some(Y2024 + 366 * DAY)
    );
    // From 2024-01-31 to 2024-02-01.
    assert_eq!(next_fire(&cron("0 0 1 * *"), Y2024 + 30 * DAY), Some(Y2024 + 31 * DAY));
}

#[test]
fn leap_days() {
    assert_eq!(next_fire(&cron("0 0 29 2 *"), 0), Some(789 * DAY));
    // After 2024-03-01 the next 29th of February is in 2028.
    assert_eq!(
        next_fire(&cron("0 0 29 2 *"), 1_709_251_200_000),
        Some(1_835_395_200_000)
    );
    // After 2096-02-29 the next one is in 2104: 2100 is no leap year.
    let leap_2096 = 46_080 * DAY;
    assert_eq!(civil_from_days(46_080), CivilDate { year: 2096, month: 2, day: 29 });
    assert_eq!(next_fire(&cron("0 0 29 2 *"), leap_2096), Some(leap_2096 + 2921 * DAY));
}

#[test]
fn a_date_that_never_comes() {
    assert!(validate_schedule(&cron("0 0 31 2 *")).is_ok());
    assert_eq!(next_fire(&cron("0 0 31 2 *"), Y2024), None);
}

#[test]
fn days_of_week() {
    // The first Monday after 1970-01-01 is the 5th.
    assert_eq!(next_fire(&cron("0 12 * * 1"), 0), Some(4 * DAY + 12 * HOUR));
    // 7 is Sunday, as 0 is.
    assert_eq!(next_fire(&cron("0 0 * * 7"), 0), Some(3 * DAY));
    assert_eq!(next_fire(&cron("0 0 * * 0"), 0), Some(3 * DAY));
    assert_eq!(next_fire(&cron("0 0 * * 5-7"), 0), Some(DAY));
}

#[test]
fn day_of_month_and_day_of_week_are_alternatives_when_both_are_given() {
    // The 13th or a Friday: 1970-01-02 is a Friday.
    assert_eq!(next_fire(&cron("0 0 13 * 5"), 0), Some(DAY));
    // After that Friday, the next Friday (the 9th) comes before the 13th.
    assert_eq!(next_fire(&cron("0 0 13 * 5"), DAY), Some(8 * DAY));
    // After the 9th, the 13th (a Tuesday) comes before Friday the 16th.
    assert_eq!(next_fire(&cron("0 0 13 * 5"), 8 * DAY), Some(12 * DAY));
    // With only the weekday given, the date does not matter.
    assert_eq!(next_fire(&cron("0 0 * * 5"), 8 * DAY), Some(15 * DAY));
    // With only the date given, the weekday does not matter.
    assert_eq!(next_fire(&cron("0 0 13 * *"), 0), Some(12 * DAY));
}

#[test]
fn malformed_expressions_are_rejected() {
    for bad in [
        "99 * * * *",
        "* 24 * * *",
        "* * 0 * *",
        "* * 32 * *",
        "* * * 13 *",
        "* * * 0 *",
        "* * * * 8",
        "* * * *",
        "* * * * * *",
        "",
        "a * * * *",
        "1- * * * *",
        "-1 * * * *",
        "1,,2 * * * *",
        "1, * * * *",
        "*/0 * * * *",
        "*/ * * * *",
        "5-1 * * * *",
        "100 * * * *",
        "1/2/3 * * * *",
        "** * * * *",
    ] {
        assert!(CronExpr::parse(bad).is_none(), "accepted {bad:?}");
        match validate_schedule(&cron(bad)) {
            Err(CronError::Validation(_)) => {}
            other => panic!("{bad:?} gave {other:?}"),
        }
        assert_eq!(next_fire(&cron(bad), 0), None);
    }
}

#[test]
fn blanks_between_fields() {
    assert!(CronExpr::parse("  0\t12  * * 1 ").is_some());
    assert_eq!(next_fire(&cron("  0\t12  * * 1 "), 0), Some(4 * DAY + 12 * HOUR));
}

#[test]
fn zero_interval_is_rejected() {
    assert!(matches!(
        validate_schedule(&CronSchedule::Every { every_ms: 0 }),
        Err(CronError::Validation(_))
    ));
    assert!(validate_schedule(&CronSchedule::Every { every_ms: 1 }).is_ok());
    assert!(validate_schedule(&CronSchedule::At { at_ms: 0 }).is_ok());
}

#[test]
fn next_fire_is_monotone_on_samples() {
    let schedules = [cron("*/7 3-5 * * *"), cron("0 0 29 2 *"), cron("15 10 13 * 5")];
    for s in schedules.iter() {
        let mut previous = 0;
        let mut t = Y2024;
        while t < Y2024 + 40 * DAY {
            let next = next_fire(s, t).unwrap();
            assert!(next > t);
            assert!(next >= previous);
            previous = next;
            t += 7 * HOUR + 13 * MINUTE;
        }
    }
}

#[test]
fn near_the_end_of_time() {
    assert_eq!(next_fire(&cron("* * * * *"), u64::MAX), None);
    assert_eq!(next_fire(&cron("* * * * *"), u64::MAX - 1), None);
    let last_minute = u64::MAX / MINUTE * MINUTE;
    assert_eq!(next_fire(&cron("* * * * *"), last_minute - 1), Some(last_minute));
    assert_eq!(next_fire(&cron("* * * * *"), last_minute), None);
}
