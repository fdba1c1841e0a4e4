use vstd::prelude::*;

verus! {

/// The earliest year a calendar date may carry.
pub const MIN_YEAR: i32 = -9999;

/// The latest year a calendar date may carry.
pub const MAX_YEAR: i32 = 9999;

/// Seconds from the Unix epoch to -9999-01-01T00:00:00Z, the earliest representable instant.
pub const MIN_UNIX_SECONDS: i128 = -377_705_116_800;

/// Seconds from the Unix epoch to 9999-12-31T23:59:59Z, the last whole second representable.
pub const MAX_UNIX_SECONDS: i128 = 253_402_300_799;

/// Leap years of the proleptic Gregorian calendar (astronomical year numbering).
pub open spec fn is_leap_year(year: int) -> bool {
    year % 4 == 0 && (year % 100 != 0 || year % 400 == 0)
}

/// Number of days of `month` (1 = January) in `year`.
pub open spec fn days_in_month(year: int, month: int) -> int {
    if month == 2 {
        if is_leap_year(year) {
            29
        } else {
            28
        }
    } else if month == 4 || month == 6 || month == 9 || month == 11 {
        30
    } else {
        31
    }
}

/// A day of the proleptic Gregorian calendar; `month` counts from 1 = January.
#[derive(Clone, Copy, PartialEq, Eq, Debug, Structural)]
pub struct CalendarDate {
    pub year: i32,
    pub month: u8,
    pub day: u8,
}

impl CalendarDate {
    /// The date names a real day in the supported year range.
    pub open spec fn wf(self) -> bool {
        &&& MIN_YEAR <= self.year <= MAX_YEAR
        &&& 1 <= self.month <= 12
        &&& 1 <= self.day <= days_in_month(self.year as int, self.month as int)
    }

    /// Chronological order: `self` is a strictly earlier day than `other`.
    pub open spec fn precedes(self, other: CalendarDate) -> bool {
        ||| self.year < other.year
        ||| (self.year == other.year && self.month < other.month)
        ||| (self.year == other.year && self.month == other.month && self.day < other.day)
    }

    /// The date with these components, if it is a real day in the supported range.
    pub fn new(year: i32, month: u8, day: u8) -> (r: Option<CalendarDate>)
        ensures
            r is Some <==> (CalendarDate { year, month, day }).wf(),
            r matches Some(d) ==> d == (CalendarDate { year, month, day }),
    {
        date_from_calendar(year, month, day)
    }

    /// Whether `self` is a strictly earlier day than `other`.
    pub fn is_before(&self, other: &CalendarDate) -> (r: bool)
        ensures
            r == self.precedes(*other),
    {
        self.year < other.year || (self.year == other.year && self.month < other.month) || (
        self.year == other.year && self.month == other.month && self.day < other.day)
    }
}

/// An instant, as nanoseconds since the Unix epoch (UTC).
#[derive(Clone, Copy, PartialEq, Eq, Debug, Structural)]
pub struct Timestamp {
    pub unix_nanos: i128,
}

impl Timestamp {
    /// The instant lies between -9999-01-01 and the end of 9999-12-31 (UTC).
    pub open spec fn in_range(self) -> bool {
        MIN_UNIX_SECONDS * 1_000_000_000 <= self.unix_nanos <= MAX_UNIX_SECONDS * 1_000_000_000
            + 999_999_999
    }

    /// The current instant.
    pub fn now() -> (r: Timestamp)
        ensures
            r.in_range(),
    {
        now_utc()
    }

    /// The calendar day on which this instant falls in UTC.
    pub fn utc_date(&self) -> (r: CalendarDate)
        requires
            self.in_range(),
        ensures
            r.wf(),
            r == utc_day(*self),
    {
        let r = utc_date_of(*self);
        proof {
            assert(r.wf() && days_since_epoch(r) == self.unix_nanos as int / NANOS_PER_DAY as int);
            lemma_same_days_same_date(r, utc_day(*self));
        }
        r
    }
}

/// Nanoseconds in a day; a UTC day has no leap seconds in Unix time.
pub const NANOS_PER_DAY: i128 = 86_400_000_000_000;

/// Days from 0001-01-01 to January 1st of `year` (negative for earlier years): 365 a year,
/// plus one for each leap year in between.
pub open spec fn days_before_year(year: int) -> int {
    let y = year - 1;
    365 * y + y / 4 - y / 100 + y / 400
}

/// Days of `year` before the first day of `month`.
pub open spec fn days_before_month(year: int, month: int) -> int
    decreases month,
{
    if month <= 1 {
        0
    } else {
        days_before_month(year, month - 1) + days_in_month(year, month - 1)
    }
}

/// Days from 0001-01-01 to 1970-01-01, the Unix epoch.
pub open spec fn epoch_day() -> int {
    719_162
}

/// Days from the Unix epoch, 1970-01-01, to `date` (negative for earlier dates).
pub open spec fn days_since_epoch(date: CalendarDate) -> int {
    days_before_year(date.year as int) + days_before_month(date.year as int, date.month as int)
        + date.day - 1 - epoch_day()
}

/// The UTC calendar day of the instant `ts`: the real day that is as many whole days after
/// the epoch as `ts` is (rounding down, so an instant before the epoch falls on the day that
/// contains it).
pub open spec fn utc_day(ts: Timestamp) -> CalendarDate {
    choose|d: CalendarDate|
        d.wf() && #[trigger] days_since_epoch(d) == ts.unix_nanos as int / NANOS_PER_DAY as int
}

/// Counting by `k`, `y` starts a new multiple exactly when `k` divides it.
proof fn lemma_div_step(y: int, k: int)
    requires
        k > 0,
    ensures
        y / k - (y - 1) / k == (if y % k == 0 {
            1int
        } else {
            0int
        }),
{
    let q = y / k;
    let r = y % k;
    vstd::arithmetic::div_mod::lemma_fundamental_div_mod(y, k);
    assert(k * q == q * k) by (nonlinear_arith);
    if r == 0 {
        assert((q - 1) * k == q * k - k) by (nonlinear_arith);
        vstd::arithmetic::div_mod::lemma_fundamental_div_mod_converse(y - 1, k, q - 1, k - 1);
    } else {
        vstd::arithmetic::div_mod::lemma_fundamental_div_mod_converse(y - 1, k, q, r - 1);
    }
}

/// `k * m` divides `y` only if `k` does.
proof fn lemma_divides_factor(y: int, k: int, m: int)
    requires
        k > 0,
        m > 0,
        y % (k * m) == 0,
    ensures
        y % k == 0,
{
    assert(k * m > 0) by (nonlinear_arith)
        requires
            k > 0,
            m > 0,
    ;
    vstd::arithmetic::div_mod::lemma_fundamental_div_mod(y, k * m);
    let q = y / (k * m);
    assert(y == (q * m) * k + 0) by (nonlinear_arith)
        requires
            y == (k * m) * q + y % (k * m),
            y % (k * m) == 0,
    ;
    vstd::arithmetic::div_mod::lemma_fundamental_div_mod_converse(y, k, q * m, 0);
}

/// A year has 365 days, or 366 in a leap year, and the next year starts after them.
pub proof fn lemma_year_length(year: int)
    ensures
        days_before_year(year + 1) - days_before_year(year) == days_before_month(year, 13),
        days_before_month(year, 13) == (if is_leap_year(year) {
            366int
        } else {
            365int
        }),
{
    reveal_with_fuel(days_before_month, 13);
    lemma_div_step(year, 4);
    lemma_div_step(year, 100);
    lemma_div_step(year, 400);
    if year % 400 == 0 {
        lemma_divides_factor(year, 100, 4);
    }
    if year % 100 == 0 {
        lemma_divides_factor(year, 4, 25);
    }
}

/// Within a year, a month ends no later than a later month begins.
proof fn lemma_month_before(year: int, m1: int, m2: int)
    requires
        1 <= m1 < m2 <= 13,
    ensures
        days_before_month(year, m1) + days_in_month(year, m1) <= days_before_month(year, m2),
    decreases m2,
{
    if m2 > m1 + 1 {
        lemma_month_before(year, m1, m2 - 1);
    }
}

/// A year ends no later than a later year begins.
proof fn lemma_year_before(y1: int, y2: int)
    requires
        y1 < y2,
    ensures
        days_before_year(y1) + days_before_month(y1, 13) <= days_before_year(y2),
    decreases y2 - y1,
{
    lemma_year_length(y1);
    if y2 > y1 + 1 {
        lemma_year_before(y1 + 1, y2);
        lemma_year_length(y1 + 1);
    }
}

/// An earlier real day is fewer days from the epoch.
pub proof fn lemma_precedes_fewer_days(d1: CalendarDate, d2: CalendarDate)
    requires
        d1.wf(),
        d2.wf(),
        d1.precedes(d2),
    ensures
        days_since_epoch(d1) < days_since_epoch(d2),
{
    let (y1, m1) = (d1.year as int, d1.month as int);
    let (y2, m2) = (d2.year as int, d2.month as int);
    if y1 == y2 && m1 == m2 {
    } else if y1 == y2 {
        lemma_month_before(y1, m1, m2);
    } else {
        lemma_month_before(y1, m1, 13);
        lemma_year_before(y1, y2);
        assert(days_before_month(y2, m2) >= 0) by {
            if m2 > 1 {
                lemma_month_before(y2, 1, m2);
            }
        }
    }
}

/// Two real days the same number of days from the epoch are the same day.
pub proof fn lemma_same_days_same_date(d1: CalendarDate, d2: CalendarDate)
    requires
        d1.wf(),
        d2.wf(),
        days_since_epoch(d1) == days_since_epoch(d2),
    ensures
        d1 == d2,
{
    if d1.precedes(d2) {
        lemma_precedes_fewer_days(d1, d2);
    } else if d2.precedes(d1) {
        lemma_precedes_fewer_days(d2, d1);
    }
}

/// Each month has its fixed length: 31 days in January, March, May, July, August, October and
/// December, 30 in April, June, September and November, and 28 in February, 29 in a leap year.
pub proof fn lemma_month_lengths(year: int)
    ensures
        days_in_month(year, 1) == 31,
        days_in_month(year, 2) == (if is_leap_year(year) {
            29int
        } else {
            28int
        }),
        days_in_month(year, 3) == 31,
        days_in_month(year, 4) == 30,
        days_in_month(year, 5) == 31,
        days_in_month(year, 6) == 30,
        days_in_month(year, 7) == 31,
        days_in_month(year, 8) == 31,
        days_in_month(year, 9) == 30,
        days_in_month(year, 10) == 31,
        days_in_month(year, 11) == 30,
        days_in_month(year, 12) == 31,
{
}

/// A year is a leap year when 4 divides it, except the years 100 divides and 400 does not:
/// 2000 and 2024 are leap years, 1900 and 2023 are not, and any 400 consecutive years hold
/// exactly 146097 days.
pub proof fn lemma_leap_years(year: int)
    ensures
        is_leap_year(2000),
        is_leap_year(2024),
        !is_leap_year(1900),
        !is_leap_year(2023),
        days_before_year(year + 400) - days_before_year(year) == 146097,
{
    let y = year - 1;
    vstd::arithmetic::div_mod::lemma_fundamental_div_mod(y, 4);
    vstd::arithmetic::div_mod::lemma_fundamental_div_mod_converse(y + 400, 4, y / 4 + 100, y % 4);
    vstd::arithmetic::div_mod::lemma_fundamental_div_mod(y, 100);
    vstd::arithmetic::div_mod::lemma_fundamental_div_mod_converse(
        y + 400,
        100,
        y / 100 + 4,
        y % 100,
    );
    vstd::arithmetic::div_mod::lemma_fundamental_div_mod(y, 400);
    vstd::arithmetic::div_mod::lemma_fundamental_div_mod_converse(y + 400, 400, y / 400 + 1, y % 400);
}

/// The day count starts at the Unix epoch: 1970-01-01 is day 0, the days before it count
/// down from -1, and each later day is one more than the day before it.
pub proof fn lemma_epoch_anchor(date: CalendarDate)
    requires
        date.wf(),
    ensures
        days_since_epoch(CalendarDate { year: 1970, month: 1, day: 1 }) == 0,
        days_since_epoch(CalendarDate { year: 1969, month: 12, day: 31 }) == -1,
        days_since_epoch(CalendarDate { year: 1970, month: 8, day: 1 }) == 212,
        date.day < days_in_month(date.year as int, date.month as int) ==> days_since_epoch(
            CalendarDate { day: (date.day + 1) as u8, ..date },
        ) == days_since_epoch(date) + 1,
        date.day == days_in_month(date.year as int, date.month as int) && date.month < 12
            ==> days_since_epoch(
            CalendarDate { month: (date.month + 1) as u8, day: 1, ..date },
        ) == days_since_epoch(date) + 1,
        date.day == 31 && date.month == 12 && date.year < MAX_YEAR ==> days_since_epoch(
            CalendarDate { year: (date.year + 1) as i32, month: 1, day: 1 },
        ) == days_since_epoch(date) + 1,
{
    reveal_with_fuel(days_before_month, 13);
    lemma_year_length(date.year as int);
}

/// The number of days of `month` in `year`, by the leap-year rule of the proleptic Gregorian
/// calendar.
pub(crate) fn month_length(year: i32, month: u8) -> (r: u8)
    requires
        MIN_YEAR <= year <= MAX_YEAR,
        1 <= month <= 12,
    ensures
        r as int == days_in_month(year as int, month as int),
{
    if month == 2 {
        // shifted by a multiple of 400 so that the remainders below are of a positive number
        let shifted: u32 = (year + 10000) as u32;
        assert(is_leap_year(year as int) == (shifted % 4 == 0 && (shifted % 100 != 0 || shifted
            % 400 == 0)));
        if shifted % 4 == 0 && (shifted % 100 != 0 || shifted % 400 == 0) {
            29
        } else {
            28
        }
    } else if month == 4 || month == 6 || month == 9 || month == 11 {
        30
    } else {
        31
    }
}

/// The date with these components, if it is a real day in the supported year range.
fn date_from_calendar(year: i32, month: u8, day: u8) -> (r: Option<CalendarDate>)
    ensures
        r is Some <==> (CalendarDate { year, month, day }).wf(),
        r matches Some(d) ==> d == (CalendarDate { year, month, day }),
{
    if year < MIN_YEAR || year > MAX_YEAR || month < 1 || month > 12 || day < 1 {
        return None;
    }
    if day > month_length(year, month) {
        return None;
    }
    Some(CalendarDate { year, month, day })
}

/// The date with these components, which the caller knows to be a real day.
pub(crate) fn date_from_calendar_checked(year: i32, month: u8, day: u8) -> (r: CalendarDate)
    requires
        (CalendarDate { year, month, day }).wf(),
    ensures
        r == (CalendarDate { year, month, day }),
{
    CalendarDate { year, month, day }
}

/// `time::OffsetDateTime::now_utc`: the current instant; `time` only represents instants in
/// its supported range. Which instant comes back is the clock's.
#[verifier::external_body]
fn now_utc() -> (r: Timestamp)
    ensures
        r.in_range(),
{
    Timestamp { unix_nanos: time::OffsetDateTime::now_utc().unix_timestamp_nanos() }
}

/// `time::OffsetDateTime::from_unix_timestamp_nanos` followed by `date`: the UTC calendar day
/// of an in-range instant, a valid date of the proleptic Gregorian calendar that lies as many
/// whole days after 1970-01-01 as the instant does (rounded down).
#[verifier::external_body]
fn utc_date_of(ts: Timestamp) -> (r: CalendarDate)
    requires
        ts.in_range(),
    ensures
        r.wf(),
        days_since_epoch(r) == ts.unix_nanos as int / NANOS_PER_DAY as int,
{
    let d = time::OffsetDateTime::from_unix_timestamp_nanos(ts.unix_nanos).expect(
        "instant within the supported range",
    ).date();
    CalendarDate { year: d.year(), month: d.month() as u8, day: d.day() }
}

} // verus!
