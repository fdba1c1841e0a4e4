use kittzo::domain::calendar::{CalendarDate, Timestamp, MAX_UNIX_SECONDS, MIN_UNIX_SECONDS};
use kittzo::domain::money::Money;
use kittzo::domain::payment::PaymentSource;
use kittzo::domain::payment_schedule::payment_schedule_job::PaymentScheduleJobConfig;
use kittzo::domain::payment_schedule::{PaymentSchedule, PaymentScheduleStatus, Recurrence};
use kittzo::domain::version::Version;

fn date(y: i32, m: u8, d: u8) -> CalendarDate {
    CalendarDate::new(y, m, d).unwrap()
}

// 2026-01-10T12:00:00Z
const JAN_10_2026_NOON: i128 = 1_768_046_400_000_000_000;

fn usd(amount: &str) -> Money {
    Money::from_parts("USD", amount).unwrap()
}

#[test]
fn next_occurrence_stays_in_month_when_due_day_has_not_passed() {
    let recurrence = Recurrence::Monthly { day_of_month: 20 };
    assert_eq!(recurrence.next_occurrence(date(2026, 1, 15), None), date(2026, 1, 20));
}

#[test]
fn next_occurrence_rolls_to_next_month_once_due_day_has_passed() {
    let recurrence = Recurrence::Monthly { day_of_month: 5 };
    assert_eq!(recurrence.next_occurrence(date(2026, 1, 15), None), date(2026, 2, 5));
}

#[test]
fn next_occurrence_clamps_to_last_day_of_a_short_month() {
    let recurrence = Recurrence::Monthly { day_of_month: 31 };
    // Jan 31 -> not yet passed on Jan 1, so due date is Jan 31.
    assert_eq!(recurrence.next_occurrence(date(2026, 1, 1), None), date(2026, 1, 31));
    // From Jan 31, the next occurrence clamps into February (2026 isn't leap).
    assert_eq!(
        recurrence.next_occurrence(date(2026, 1, 1), Some(date(2026, 1, 31))),
        date(2026, 2, 28)
    );
}

#[test]
fn next_occurrence_advances_past_the_cursor_even_in_december() {
    let recurrence = Recurrence::Monthly { day_of_month: 10 };
    assert_eq!(
        recurrence.next_occurrence(date(2026, 1, 1), Some(date(2026, 12, 10))),
        date(2027, 1, 10)
    );
}

#[test]
fn next_occurrence_clamps_to_the_29th_in_a_leap_year() {
    let recurrence = Recurrence::Monthly { day_of_month: 30 };
    assert_eq!(
        recurrence.next_occurrence(date(2024, 1, 1), Some(date(2024, 1, 30))),
        date(2024, 2, 29)
    );
    assert_eq!(
        recurrence.next_occurrence(date(2100, 1, 1), Some(date(2100, 1, 30))),
        date(2100, 2, 28)
    );
}

#[test]
fn next_occurrence_is_strictly_after_the_start_on_the_due_day_itself() {
    let recurrence = Recurrence::Monthly { day_of_month: 15 };
    assert_eq!(recurrence.next_occurrence(date(2026, 1, 15), None), date(2026, 2, 15));
}

#[test]
fn a_cursor_before_the_start_is_ignored() {
    let recurrence = Recurrence::Monthly { day_of_month: 10 };
    assert_eq!(
        recurrence.next_occurrence(date(2026, 3, 20), Some(date(2026, 1, 10))),
        date(2026, 4, 10)
    );
}

#[test]
fn occurrences_run_out_at_the_end_of_the_supported_years() {
    let recurrence = Recurrence::Monthly { day_of_month: 10 };
    assert!(recurrence.has_occurrence_after_exec(&date(9999, 12, 9)));
    assert!(!recurrence.has_occurrence_after_exec(&date(9999, 12, 10)));
    assert!(!Recurrence::Monthly { day_of_month: 0 }.has_occurrence_after_exec(&date(2026, 1, 1)));
}

#[test]
fn calendar_dates_are_validated() {
    assert_eq!(CalendarDate::new(2019, 2, 29), None);
    assert_eq!(
        CalendarDate::new(2020, 2, 29),
        Some(CalendarDate { year: 2020, month: 2, day: 29 })
    );
    assert_eq!(CalendarDate::new(2026, 13, 1), None);
    assert_eq!(CalendarDate::new(2026, 4, 31), None);
    assert_eq!(CalendarDate::new(10000, 1, 1), None);
    assert!(date(2026, 1, 31).is_before(&date(2026, 2, 1)));
    assert!(!date(2026, 2, 1).is_before(&date(2026, 2, 1)));
}

#[test]
fn utc_date_of_an_instant() {
    let ts = Timestamp { unix_nanos: JAN_10_2026_NOON };
    assert_eq!(ts.utc_date(), date(2026, 1, 10));
    assert_eq!(Timestamp { unix_nanos: 0 }.utc_date(), date(1970, 1, 1));
    assert_eq!(Timestamp { unix_nanos: -1 }.utc_date(), date(1969, 12, 31));
}

#[test]
fn a_new_schedule_is_idle_and_not_immediately_due() {
    let schedule =
        PaymentSchedule::new(usd("10.99"), Recurrence::Monthly { day_of_month: 1 }).unwrap();
    let today = schedule.created_at.utc_date();
    assert_eq!(schedule.status, PaymentScheduleStatus::Idle);
    assert_eq!(schedule.version, Version::from_u32(1));
    assert!(today.is_before(&schedule.next_due_at));
    assert!(schedule.due_payment(&today).is_none());
}

#[test]
fn a_schedule_with_day_zero_cannot_be_created() {
    assert!(PaymentSchedule::new(usd("1.00"), Recurrence::Monthly { day_of_month: 0 }).is_none());
}

#[test]
fn new_at_is_first_due_after_the_creation_day() {
    let now = Timestamp { unix_nanos: JAN_10_2026_NOON };
    let schedule = PaymentSchedule::new_at(
        42,
        now,
        date(2026, 1, 10),
        usd("5.00"),
        Recurrence::Monthly { day_of_month: 10 },
    );
    assert_eq!(schedule.id, 42);
    assert_eq!(schedule.next_due_at, date(2026, 2, 10));
    assert_eq!(schedule.created_at, now);
    assert_eq!(schedule.updated_at, now);
}

#[test]
fn catch_up_produces_every_missed_occurrence_then_stops() {
    let now = Timestamp { unix_nanos: JAN_10_2026_NOON };
    let mut schedule = PaymentSchedule::new_at(
        1,
        now,
        date(2026, 1, 10),
        usd("10.99"),
        Recurrence::Monthly { day_of_month: 1 },
    );
    // backdated: the daemon was down, three occurrences are owed by 2026-03-15.
    schedule.next_due_at = date(2026, 1, 1);
    let today = date(2026, 3, 15);
    let mut produced = Vec::new();
    while let Some(cmd) = schedule.due_payment(&today) {
        assert!(cmd.auto_ack);
        assert_eq!(cmd.total, usd("10.99"));
        match cmd.source {
            PaymentSource::Schedule { schedule_id, occurrence_date } => {
                assert_eq!(schedule_id, 1);
                produced.push(occurrence_date);
            }
            PaymentSource::Manual => panic!("expected a scheduled payment"),
        }
        if !schedule.record_payment_result(true) {
            break;
        }
    }
    assert_eq!(produced, vec![date(2026, 1, 1), date(2026, 2, 1), date(2026, 3, 1)]);
    assert_eq!(schedule.next_due_at, date(2026, 4, 1));
}

#[test]
fn a_failed_payment_stops_the_catch_up_without_advancing() {
    let now = Timestamp { unix_nanos: JAN_10_2026_NOON };
    let mut schedule = PaymentSchedule::new_at(
        1,
        now,
        date(2026, 1, 10),
        usd("10.99"),
        Recurrence::Monthly { day_of_month: 1 },
    );
    schedule.next_due_at = date(2026, 1, 1);
    let before = schedule.clone();
    assert!(!schedule.record_payment_result(false));
    assert_eq!(schedule, before);
}

#[test]
fn finishing_a_run_releases_the_claim() {
    let now = Timestamp { unix_nanos: JAN_10_2026_NOON };
    let mut schedule = PaymentSchedule::new_at(
        1,
        now,
        date(2026, 1, 10),
        usd("10.99"),
        Recurrence::Monthly { day_of_month: 1 },
    );
    schedule.status = PaymentScheduleStatus::Processing;
    let later = Timestamp { unix_nanos: JAN_10_2026_NOON + 1_000 };
    schedule.finish_processing(later);
    assert_eq!(schedule.status, PaymentScheduleStatus::Idle);
    assert_eq!(schedule.updated_at, later);
    assert_eq!(schedule.created_at, now);
}

#[test]
fn advance_due_date_moves_to_the_next_month() {
    let now = Timestamp { unix_nanos: JAN_10_2026_NOON };
    let mut schedule = PaymentSchedule::new_at(
        1,
        now,
        date(2026, 1, 10),
        usd("1.00"),
        Recurrence::Monthly { day_of_month: 31 },
    );
    assert_eq!(schedule.next_due_at, date(2026, 1, 31));
    schedule.advance_due_date();
    assert_eq!(schedule.next_due_at, date(2026, 2, 28));
    schedule.advance_due_date();
    assert_eq!(schedule.next_due_at, date(2026, 3, 31));
}

#[test]
fn job_config_defaults() {
    let config = PaymentScheduleJobConfig::default();
    assert_eq!(config.poll_interval_secs, 1800);
    assert_eq!(config.retry_after_secs, 1200);
    assert_eq!(config.poll_interval(), std::time::Duration::from_secs(1800));
    assert_eq!(config.retry_after(), time::SignedDuration::seconds(1200));
}

#[test]
fn new_on_gives_a_fresh_idle_schedule_first_due_after_today() {
    let now = Timestamp { unix_nanos: JAN_10_2026_NOON };
    let recurrence = Recurrence::Monthly { day_of_month: 10 };
    let schedule = PaymentSchedule::new_on(7, now, date(2026, 1, 10), usd("10.99"), recurrence)
        .unwrap();
    assert_eq!(schedule.id, 7);
    assert_eq!(schedule.version, Version::first());
    assert_eq!(schedule.created_at, now);
    assert_eq!(schedule.updated_at, now);
    assert_eq!(schedule.total, usd("10.99"));
    assert_eq!(schedule.recurrence, recurrence);
    assert_eq!(schedule.status, PaymentScheduleStatus::Idle);
    assert_eq!(schedule.next_due_at, date(2026, 2, 10));
}

#[test]
fn new_on_refuses_a_recurrence_with_no_day_left() {
    let now = Timestamp { unix_nanos: JAN_10_2026_NOON };
    let zero = Recurrence::Monthly { day_of_month: 0 };
    assert!(PaymentSchedule::new_on(1, now, date(2026, 1, 10), usd("1.00"), zero).is_none());
    let last = Recurrence::Monthly { day_of_month: 31 };
    assert!(PaymentSchedule::new_on(1, now, date(9999, 12, 31), usd("1.00"), last).is_none());
    assert!(PaymentSchedule::new_on(1, now, date(9999, 12, 30), usd("1.00"), last).is_some());
}

#[test]
fn utc_date_at_the_ends_of_the_supported_range() {
    let first = Timestamp { unix_nanos: MIN_UNIX_SECONDS * 1_000_000_000 };
    assert_eq!(first.utc_date(), date(-9999, 1, 1));
    let last = Timestamp { unix_nanos: MAX_UNIX_SECONDS * 1_000_000_000 + 999_999_999 };
    assert_eq!(last.utc_date(), date(9999, 12, 31));
    let leap_day = Timestamp { unix_nanos: 951_782_400_000_000_000 };
    assert_eq!(leap_day.utc_date(), date(2000, 2, 29));
}

#[test]
fn a_recorded_day_is_not_owed_again_on_the_same_day() {
    let now = Timestamp { unix_nanos: JAN_10_2026_NOON };
    let mut schedule = PaymentSchedule::new_at(
        3,
        now,
        date(2026, 1, 10),
        usd("10.99"),
        Recurrence::Monthly { day_of_month: 1 },
    );
    assert_eq!(schedule.next_due_at, date(2026, 2, 1));
    let today = date(2026, 2, 15);
    let owed = schedule.due_payment(&today).unwrap();
    assert_eq!(
        owed.source,
        PaymentSource::Schedule { schedule_id: 3, occurrence_date: date(2026, 2, 1) }
    );
    assert!(schedule.record_payment_result(true));
    assert_eq!(schedule.next_due_at, date(2026, 3, 1));
    assert!(schedule.due_payment(&today).is_none());
    schedule.finish_processing(now);
    assert!(schedule.due_payment(&today).is_none());
}
