use vstd::prelude::*;

use crate::domain::calendar::{
    date_from_calendar_checked, days_in_month, lemma_month_lengths, month_length, utc_day, CalendarDate, Timestamp,
    MAX_YEAR, MIN_YEAR,
};
use crate::domain::id::new_random_id;
use crate::domain::money::Money;
use crate::domain::version::Version;

pub mod payment_schedule_job;

verus! {

/// How often a payment schedule falls due.
#[derive(Clone, Copy, PartialEq, Eq, Debug, Structural)]
pub enum Recurrence {
    /// Once a month, on `day_of_month`; in a month that has fewer days, on its last day.
    Monthly { day_of_month: u8 },
}

/// The smaller of two integers.
pub open spec fn min_int(a: int, b: int) -> int {
    if a <= b {
        a
    } else {
        b
    }
}

impl Recurrence {
    pub open spec fn day_of_month_of(self) -> int {
        match self {
            Recurrence::Monthly { day_of_month } => day_of_month as int,
        }
    }

    /// `date` is a day on which this recurrence falls due: its day of month, clamped to the
    /// last day of the month.
    pub open spec fn falls_on(self, date: CalendarDate) -> bool {
        date.day as int == min_int(
            self.day_of_month_of(),
            days_in_month(date.year as int, date.month as int),
        )
    }

    /// The day the search starts after: `cursor` when it is later than `start`, else `start`.
    pub open spec fn search_from(start: CalendarDate, cursor: Option<CalendarDate>) -> CalendarDate {
        match cursor {
            Some(c) => if start.precedes(c) {
                c
            } else {
                start
            },
            None => start,
        }
    }

    /// A due day strictly after `from` exists within the supported years: the day of month
    /// is at least 1, and `from` is not on or after the last due day of December of the
    /// last supported year.
    pub open spec fn has_occurrence_after(self, from: CalendarDate) -> bool {
        &&& self.day_of_month_of() >= 1
        &&& (from.year < MAX_YEAR || from.month < 12 || (from.day as int) < min_int(
            self.day_of_month_of(),
            31,
        ))
    }

    /// Whether a due day strictly after `from` exists within the supported years.
    pub fn has_occurrence_after_exec(&self, from: &CalendarDate) -> (r: bool)
        ensures
            r == self.has_occurrence_after(*from),
    {
        match self {
            Recurrence::Monthly { day_of_month } => {
                let dom = *day_of_month;
                let december_due = if dom <= 31 {
                    dom
                } else {
                    31
                };
                dom >= 1 && (from.year < MAX_YEAR || from.month < 12 || from.day < december_due)
            },
        }
    }

    /// `d` is the earliest due day strictly after `from`.
    pub open spec fn is_first_occurrence_after(self, from: CalendarDate, d: CalendarDate) -> bool {
        &&& d.wf()
        &&& self.falls_on(d)
        &&& from.precedes(d)
        &&& forall|e: CalendarDate|
            e.wf() && self.falls_on(e) && from.precedes(e) ==> !#[trigger] e.precedes(d)
    }

    /// The next date this recurrence is due: the first due day strictly after `cursor` when
    /// `cursor` is later than `start`, and otherwise the first due day strictly after `start`.
    pub fn next_occurrence(&self, start: CalendarDate, cursor: Option<CalendarDate>) -> (r:
        CalendarDate)
        requires
            start.wf(),
            cursor matches Some(c) ==> c.wf(),
            self.has_occurrence_after(Self::search_from(start, cursor)),
        ensures
            self.is_first_occurrence_after(Self::search_from(start, cursor), r),
    {
        match self {
            Recurrence::Monthly { day_of_month } => {
                let from = match cursor {
                    Some(c) => if start.is_before(&c) {
                        c
                    } else {
                        start
                    },
                    None => start,
                };
                let this_month = monthly_date_in(from.year, from.month, *day_of_month);
                if from.is_before(&this_month) {
                    this_month
                } else {
                    let (year, month) = next_month(from.year, from.month);
                    monthly_date_in(year, month, *day_of_month)
                }
            },
        }
    }
}

/// A monthly recurrence with a day of month of at least 1 has a due day after any day before
/// the last supported year: there is always a later month to fall in.
pub proof fn lemma_occurrence_after_before_last_year(recurrence: Recurrence, from: CalendarDate)
    requires
        recurrence.day_of_month_of() >= 1,
        from.year < MAX_YEAR,
    ensures
        recurrence.has_occurrence_after(from),
{
}

/// `has_occurrence_after` misses no due day: whenever some real day strictly after `from` is a
/// due day of the recurrence, a due day after `from` is reported to exist.
pub proof fn lemma_occurrence_after_whenever_one_exists(
    recurrence: Recurrence,
    from: CalendarDate,
    due: CalendarDate,
)
    requires
        from.wf(),
        due.wf(),
        recurrence.falls_on(due),
        from.precedes(due),
    ensures
        recurrence.has_occurrence_after(from),
{
    lemma_month_lengths(due.year as int);
}

/// Before the last supported year, advancing a schedule whose day of month is at least 1
/// always moves its next due day strictly later, December rolling into the next January.
pub proof fn lemma_advance_moves_forward(schedule: PaymentSchedule, next: PaymentSchedule)
    requires
        schedule.next_due_at.wf(),
        schedule.recurrence.day_of_month_of() >= 1,
        Recurrence::search_from(utc_day(schedule.created_at), Some(schedule.next_due_at)).year
            < MAX_YEAR,
        schedule.advanced_to(next),
    ensures
        schedule.next_due_at.precedes(next.next_due_at),
{
    let from = Recurrence::search_from(utc_day(schedule.created_at), Some(schedule.next_due_at));
    lemma_occurrence_after_before_last_year(schedule.recurrence, from);
}

/// A payment that recurs: `total` is paid on every due day of `recurrence`; `next_due_at` is
/// the next one still to be paid.
#[derive(Clone, Debug, PartialEq)]
pub struct PaymentSchedule {
    pub id: u128,
    pub version: Version,
    pub created_at: Timestamp,
    pub updated_at: Timestamp,
    pub next_due_at: CalendarDate,
    pub total: Money,
    pub recurrence: Recurrence,
    pub status: PaymentScheduleStatus,
}

/// Whether a schedule is claimed by a processing run.
#[derive(Clone, Copy, Debug, PartialEq, Eq, Structural)]
pub enum PaymentScheduleStatus {
    Idle,
    Processing,
}

impl PaymentSchedule {
    /// The schedule is idle, at its first version, unchanged since `now`, pays `total` by
    /// `recurrence` and is first due on the first due day strictly after `today`.
    pub open spec fn is_fresh(
        self,
        id: u128,
        now: Timestamp,
        today: CalendarDate,
        total: Money,
        recurrence: Recurrence,
    ) -> bool {
        &&& self.id == id
        &&& self.version == Version(1)
        &&& self.created_at == now
        &&& self.updated_at == now
        &&& self.total == total
        &&& self.recurrence == recurrence
        &&& self.status == PaymentScheduleStatus::Idle
        &&& recurrence.is_first_occurrence_after(today, self.next_due_at)
    }

    /// A new schedule of `total` recurring by `recurrence`, with a fresh random identifier,
    /// created now and first due on the first due day strictly after today (UTC). `None` when
    /// the recurrence has no such day: a day of month of 0, or no due day left within the
    /// supported years.
    pub fn new(total: Money, recurrence: Recurrence) -> (r: Option<PaymentSchedule>)
        ensures
            r matches Some(s) ==> s.created_at.in_range() && s.is_fresh(
                s.id,
                s.created_at,
                utc_day(s.created_at),
                total,
                recurrence,
            ),
            r is None ==> exists|now: Timestamp|
                now.in_range() && !recurrence.has_occurrence_after(#[trigger] utc_day(now)),
    {
        let now = Timestamp::now();
        let today = now.utc_date();
        assert(today == utc_day(now));
        let id = new_random_id();
        PaymentSchedule::new_on(id, now, today, total, recurrence)
    }

    /// The schedule with identifier `id` created at `now`, on the day `today`, first due on
    /// the first due day strictly after `today`; `None` when the recurrence has no such day.
    pub fn new_on(
        id: u128,
        now: Timestamp,
        today: CalendarDate,
        total: Money,
        recurrence: Recurrence,
    ) -> (r: Option<PaymentSchedule>)
        requires
            today.wf(),
        ensures
            r is None <==> !recurrence.has_occurrence_after(today),
            r matches Some(s) ==> s.is_fresh(id, now, today, total, recurrence),
    {
        if !recurrence.has_occurrence_after_exec(&today) {
            return None;
        }
        Some(PaymentSchedule::new_at(id, now, today, total, recurrence))
    }

    /// The schedule with identifier `id` created at `now` on the day `today`.
    pub fn new_at(
        id: u128,
        now: Timestamp,
        today: CalendarDate,
        total: Money,
        recurrence: Recurrence,
    ) -> (r: PaymentSchedule)
        requires
            today.wf(),
            recurrence.has_occurrence_after(today),
        ensures
            r.is_fresh(id, now, today, total, recurrence),
    {
        let next_due_at = recurrence.next_occurrence(today, None);
        PaymentSchedule {
            id,
            version: Version::first(),
            created_at: now,
            updated_at: now,
            next_due_at,
            total,
            recurrence,
            status: PaymentScheduleStatus::Idle,
        }
    }

    /// Moves `next_due_at` to the next due day: the first one strictly after the current
    /// `next_due_at`, or strictly after the day the schedule was created (UTC) when that is
    /// later. Left unchanged when no such due day exists within the supported years.
    pub fn advance_due_date(&mut self)
        requires
            old(self).created_at.in_range(),
            old(self).next_due_at.wf(),
        ensures
            ({
                let from = Recurrence::search_from(utc_day(old(self).created_at), Some(old(self).next_due_at));
                &&& old(self).recurrence.has_occurrence_after(from) ==> *final(self) == (PaymentSchedule {
                    next_due_at: final(self).next_due_at,
                    ..*old(self)
                }) && old(self).recurrence.is_first_occurrence_after(from, final(self).next_due_at)
                &&& !old(self).recurrence.has_occurrence_after(from) ==> *final(self) == *old(self)
            }),
    {
        let created_on = self.created_at.utc_date();
        let from = if created_on.is_before(&self.next_due_at) {
            self.next_due_at
        } else {
            created_on
        };
        if self.recurrence.has_occurrence_after_exec(&from) {
            self.next_due_at = self.recurrence.next_occurrence(created_on, Some(self.next_due_at));
        }
    }
}

/// The due day of a monthly recurrence in the given month: `day_of_month`, clamped to the
/// month's last day (31 in February gives the 28th, or the 29th in a leap year).
fn monthly_date_in(year: i32, month: u8, day_of_month: u8) -> (r: CalendarDate)
    requires
        MIN_YEAR <= year <= MAX_YEAR,
        1 <= month <= 12,
        day_of_month >= 1,
    ensures
        r.wf(),
        r.year == year,
        r.month == month,
        r.day as int == min_int(day_of_month as int, days_in_month(year as int, month as int)),
{
    let length = month_length(year, month);
    let day = if day_of_month <= length {
        day_of_month
    } else {
        length
    };
    date_from_calendar_checked(year, month, day)
}

/// The month after `month` of `year`, moving into January of the next year after December.
fn next_month(year: i32, month: u8) -> (r: (i32, u8))
    requires
        year < MAX_YEAR || month < 12,
        1 <= month <= 12,
    ensures
        month < 12 ==> r == (year, (month + 1) as u8),
        month == 12 ==> r == ((year + 1) as i32, 1u8),
{
    if month == 12 {
        (year + 1, 1)
    } else {
        (year, month + 1)
    }
}

} // verus!
