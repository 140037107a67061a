//! Calendar points `(year, day-of-year, hour)` and the leap-year aware
//! arithmetic that steps between them.

use vstd::prelude::*;

verus! {

/// Number of hours in a day.
pub const HOURS_PER_DAY: u8 = 24;

/// Whether `year` is a leap year in the proleptic Gregorian calendar.
pub open spec fn leap_year(year: int) -> bool {
    year % 4 == 0 && (year % 100 != 0 || year % 400 == 0)
}

/// Length of `year` in days.
pub open spec fn year_length(year: int) -> int {
    if leap_year(year) { 366 } else { 365 }
}

/// Length of `month` (1 = January) of `year` in days.
pub open spec fn month_length(month: int, year: int) -> int {
    if month == 2 {
        if leap_year(year) { 29 } else { 28 }
    } else if month == 4 || month == 6 || month == 9 || month == 11 {
        30
    } else {
        31
    }
}

/// Days from 1970-01-01 to January 1st of `year` (negative before 1970).
pub open spec fn days_before_year(year: int) -> int
    decreases (if year >= 1970 { year - 1970 } else { 1970 - year }),
{
    if year > 1970 {
        days_before_year(year - 1) + year_length(year - 1)
    } else if year < 1970 {
        days_before_year(year + 1) - year_length(year)
    } else {
        0
    }
}

/// Days of `year` before the first day of `month` (1 = January).
pub open spec fn days_before_month(month: int, year: int) -> int
    decreases month,
{
    if month <= 1 {
        0
    } else {
        days_before_month(month - 1, year) + month_length(month - 1, year)
    }
}

/// The month (1 = January) that holds day `day` of `year`, searching from
/// `month` on.
pub open spec fn month_from(year: int, day: int, month: int) -> int
    decreases 12 - month,
{
    if month >= 12 || day <= days_before_month(month + 1, year) {
        month
    } else {
        month_from(year, day, month + 1)
    }
}

/// The month (1 = January) that holds day `day` of `year`.
pub open spec fn month_of(year: int, day: int) -> int {
    month_from(year, day, 1)
}

/// Whether `(year, day, hour)` names an hour that exists.
pub open spec fn point_exists(year: int, day: int, hour: int) -> bool {
    1 <= day <= year_length(year) && 0 <= hour < 24
}

/// Hours from 1970-01-01 00:00 UTC to the start of the given hour.
pub open spec fn hours_since_epoch(year: int, day: int, hour: int) -> int {
    (days_before_year(year) + day - 1) * 24 + hour
}

/// Returns whether `year` is a leap year.
pub fn is_leap_year(year: u32) -> (r: bool)
    ensures
        r == leap_year(year as int),
{
    (year % 4 == 0) && (year % 100 != 0 || year % 400 == 0)
}

/// Returns the number of days in `month` of `year`; months are one based
/// (January is 1, December is 12).
pub fn days_in_month(month: u8, year: u32) -> (r: u8)
    requires
        1 <= month <= 12,
    ensures
        r as int == month_length(month as int, year as int),
{
    match month {
        2 => {
            if is_leap_year(year) {
                29
            } else {
                28
            }
        },
        4 | 6 | 9 | 11 => 30,
        _ => 31,
    }
}

/// Returns the number of days in `year`.
pub fn days_in_year(year: u16) -> (r: u16)
    ensures
        r as int == year_length(year as int),
{
    if is_leap_year(year as u32) {
        366
    } else {
        365
    }
}

/// A calendar point: one hour of one day of one year, in UTC.
#[derive(Clone, Copy, Debug, PartialEq, Eq, Structural)]
pub struct SimpleDate {
    /// Four digit year (e.g. 2020)
    pub year: u16,
    /// Day of year, one based (the first day is 1)
    pub day: u16,
    /// Hour of day, zero based, 24 hour (the first hour is 0 and the last is 23)
    pub hour: u8,
}

impl SimpleDate {
    /// Whether the point names an hour that exists.
    pub open spec fn wf(&self) -> bool {
        point_exists(self.year as int, self.day as int, self.hour as int)
    }

    /// Hours from 1970-01-01 00:00 UTC to this point.
    pub open spec fn hour_number(&self) -> int {
        hours_since_epoch(self.year as int, self.day as int, self.hour as int)
    }

    /// The last hour that a point can name (the year is a `u16`).
    pub open spec fn is_last(&self) -> bool {
        self.year == u16::MAX && self.day as int == year_length(u16::MAX as int) && self.hour == 23
    }

    /// The first hour that a point can name.
    pub open spec fn is_first(&self) -> bool {
        self.year == 0 && self.day == 1 && self.hour == 0
    }

    /// Builds a point from its year, one based day of year and zero based hour.
    pub fn new(year: u16, day: u16, hour: u8) -> (r: SimpleDate)
        ensures
            r.year == year,
            r.day == day,
            r.hour == hour,
    {
        SimpleDate { year, day, hour }
    }

    /// The point as a `(year, day, hour)` triple.
    pub fn to_tuple(&self) -> (r: (u16, u16, u8))
        ensures
            r == (self.year, self.day, self.hour),
    {
        (self.year, self.day, self.hour)
    }

    /// Whether the point names an hour that exists.
    pub fn is_valid(&self) -> (r: bool)
        ensures
            r == self.wf(),
    {
        1 <= self.day && self.day <= days_in_year(self.year) && self.hour < HOURS_PER_DAY
    }

    /// The point whose hour holds the UTC unix timestamp `ts`; `None` where
    /// its year does not fit a `u16`.
    pub fn from_timestamp(ts: i64) -> (r: Option<SimpleDate>)
        ensures
            match r {
                Some(d) => d.wf() && d.hour_number() * 3600 <= ts < d.hour_number() * 3600 + 3600,
                None => !(earliest_hour() * 3600 <= ts < (latest_hour() + 1) * 3600),
            },
    {
        utc_point(ts)
    }

    /// The month (1 = January) of this point.
    pub fn month(&self) -> (r: u8)
        requires
            self.wf(),
        ensures
            r as int == month_of(self.year as int, self.day as int),
            1 <= r <= 12,
    {
        month_number(self.year, self.day)
    }

    /// The day of month (one based) of this point.
    pub fn day_of_month(&self) -> (r: u8)
        requires
            self.wf(),
        ensures
            r as int == self.day - days_before_month(month_of(self.year as int, self.day as int), self.year as int),
            1 <= r <= 31,
    {
        let m = month_number(self.year, self.day);
        let first = first_day_of_month(m, self.year);
        proof {
            lemma_days_before_month_bounds(m as int + 1, self.year as int);
            lemma_days_before_month_bounds(m as int, self.year as int);
        }
        (self.day - first + 1) as u8
    }

    /// The UTC unix timestamp of the start of this hour.
    pub fn timestamp(&self) -> (r: i64)
        requires
            self.wf(),
        ensures
            r as int == self.hour_number() * 3600,
    {
        match utc_timestamp(self.year, self.day, self.hour) {
            Some(t) => t,
            None => {
                proof {
                    assert(false);
                }
                0
            },
        }
    }
}

/// The first hour that a `SimpleDate` can name, counted from the epoch.
pub open spec fn earliest_hour() -> int {
    hours_since_epoch(0, 1, 0)
}

/// The last hour that a `SimpleDate` can name, counted from the epoch.
pub open spec fn latest_hour() -> int {
    hours_since_epoch(u16::MAX as int, year_length(u16::MAX as int), 23)
}

/// Relies on chrono's `DateTime::from_timestamp` with `Datelike::year`,
/// `Datelike::ordinal` and `Timelike::hour`: the UTC calendar point whose hour
/// holds the instant `ts`; `None` where the instant's year is outside what a
/// `u16` holds (chrono itself reaches further).
#[verifier::external_body]
fn utc_point(ts: i64) -> (r: Option<SimpleDate>)
    ensures
        match r {
            Some(d) => d.wf() && d.hour_number() * 3600 <= ts < d.hour_number() * 3600 + 3600,
            None => !(earliest_hour() * 3600 <= ts < (latest_hour() + 1) * 3600),
        },
{
    let instant = chrono::DateTime::from_timestamp(ts, 0)?;
    let year = u16::try_from(chrono::Datelike::year(&instant)).ok()?;
    let day = chrono::Datelike::ordinal(&instant) as u16;
    let hour = chrono::Timelike::hour(&instant) as u8;
    Some(SimpleDate { year, day, hour })
}

/// Relies on chrono's `NaiveDate::from_yo_opt`, `NaiveDate::and_hms_opt` and
/// `DateTime::<Utc>::timestamp`: the unix timestamp of the start of an hour,
/// and `None` where the day of year does not exist in that year or the hour is
/// past 23.
#[verifier::external_body]
fn utc_timestamp(year: u16, day: u16, hour: u8) -> (r: Option<i64>)
    ensures
        match r {
            Some(t) => point_exists(year as int, day as int, hour as int) && t as int
                == hours_since_epoch(year as int, day as int, hour as int) * 3600,
            None => !point_exists(year as int, day as int, hour as int),
        },
{
    let date = chrono::NaiveDate::from_yo_opt(year as i32, day as u32)?;
    let time = date.and_hms_opt(hour as u32, 0, 0)?;
    Some(time.and_utc().timestamp())
}


/// Stepping a point in time by an hour, a day or a month.
pub trait Utils: Sized {
    /// Whether the value names a point that exists.
    spec fn valid(&self) -> bool;

    /// Hours from the epoch to the value.
    spec fn hours(&self) -> int;

    /// Whether the hour after the value can be held.
    spec fn has_next_hour(&self) -> bool;

    /// Whether the hour before the value can be held.
    spec fn has_previous_hour(&self) -> bool;

    /// Whether the same hour of the next day can be held.
    spec fn has_next_day(&self) -> bool;

    /// Whether the same hour of the previous day can be held.
    spec fn has_previous_day(&self) -> bool;

    /// Whether the first day of the next month can be held.
    spec fn has_next_month(&self) -> bool;

    /// Whether the first day of the previous month can be held.
    spec fn has_previous_month(&self) -> bool;

    /// Hours from the epoch to the first day of the next month, at the same hour.
    spec fn next_month_hours(&self) -> int;

    /// Hours from the epoch to the first day of the previous month, at the same hour.
    spec fn previous_month_hours(&self) -> int;

    /// The hour before this one.
    fn minus_one_hour(&self) -> (r: Self)
        requires
            self.valid(),
            self.has_previous_hour(),
        ensures
            r.valid(),
            r.hours() == self.hours() - 1;

    /// The hour after this one.
    fn plus_one_hour(&self) -> (r: Self)
        requires
            self.valid(),
            self.has_next_hour(),
        ensures
            r.valid(),
            r.hours() == self.hours() + 1;

    /// The same hour of the previous day.
    fn minus_one_day(&self) -> (r: Self)
        requires
            self.valid(),
            self.has_previous_day(),
        ensures
            r.valid(),
            r.hours() == self.hours() - 24;

    /// The same hour of the next day.
    fn plus_one_day(&self) -> (r: Self)
        requires
            self.valid(),
            self.has_next_day(),
        ensures
            r.valid(),
            r.hours() == self.hours() + 24;

    /// Moves to the first day of the next month, keeping the hour.
    fn plus_one_month(&self) -> (r: Self)
        requires
            self.valid(),
            self.has_next_month(),
        ensures
            r.valid(),
            r.hours() == self.next_month_hours();

    /// Moves to the first day of the previous month, keeping the hour.
    fn minus_one_month(&self) -> (r: Self)
        requires
            self.valid(),
            self.has_previous_month(),
        ensures
            r.valid(),
            r.hours() == self.previous_month_hours();
}

/// Hours from the epoch to `hour` on the first day of `month` of `year`.
pub open spec fn first_of_month_hours(year: int, month: int, hour: int) -> int {
    hours_since_epoch(year, days_before_month(month, year) + 1, hour)
}

impl Utils for SimpleDate {
    open spec fn valid(&self) -> bool {
        self.wf()
    }

    open spec fn hours(&self) -> int {
        self.hour_number()
    }

    open spec fn has_next_hour(&self) -> bool {
        !self.is_last()
    }

    open spec fn has_previous_hour(&self) -> bool {
        !self.is_first()
    }

    open spec fn has_next_day(&self) -> bool {
        !(self.year == u16::MAX && self.day as int == year_length(u16::MAX as int))
    }

    open spec fn has_previous_day(&self) -> bool {
        !(self.year == 0 && self.day == 1)
    }

    open spec fn has_next_month(&self) -> bool {
        !(self.year == u16::MAX && month_of(self.year as int, self.day as int) == 12)
    }

    open spec fn has_previous_month(&self) -> bool {
        !(self.year == 0 && month_of(self.year as int, self.day as int) == 1)
    }

    open spec fn next_month_hours(&self) -> int {
        let m = month_of(self.year as int, self.day as int);
        if m < 12 {
            first_of_month_hours(self.year as int, m + 1, self.hour as int)
        } else {
            first_of_month_hours(self.year + 1, 1, self.hour as int)
        }
    }

    open spec fn previous_month_hours(&self) -> int {
        let m = month_of(self.year as int, self.day as int);
        if m > 1 {
            first_of_month_hours(self.year as int, m - 1, self.hour as int)
        } else {
            first_of_month_hours(self.year - 1, 12, self.hour as int)
        }
    }

    fn minus_one_hour(&self) -> (r: SimpleDate) {
        if self.hour > 0 {
            SimpleDate { year: self.year, day: self.day, hour: self.hour - 1 }
        } else {
            let d = self.minus_one_day();
            SimpleDate { year: d.year, day: d.day, hour: 23 }
        }
    }

    fn plus_one_hour(&self) -> (r: SimpleDate) {
        if self.hour < 23 {
            SimpleDate { year: self.year, day: self.day, hour: self.hour + 1 }
        } else {
            let d = self.plus_one_day();
            SimpleDate { year: d.year, day: d.day, hour: 0 }
        }
    }

    fn minus_one_day(&self) -> (r: SimpleDate) {
        if self.day > 1 {
            SimpleDate { year: self.year, day: self.day - 1, hour: self.hour }
        } else {
            let year = self.year - 1;
            proof {
                lemma_days_before_next_year(year as int);
            }
            SimpleDate { year, day: days_in_year(year), hour: self.hour }
        }
    }

    fn plus_one_day(&self) -> (r: SimpleDate) {
        if self.day < days_in_year(self.year) {
            SimpleDate { year: self.year, day: self.day + 1, hour: self.hour }
        } else {
            proof {
                lemma_days_before_next_year(self.year as int);
            }
            SimpleDate { year: self.year + 1, day: 1, hour: self.hour }
        }
    }

    fn plus_one_month(&self) -> (r: SimpleDate) {
        let m = month_number(self.year, self.day);
        if m < 12 {
            let day = first_day_of_month(m + 1, self.year);
            SimpleDate { year: self.year, day, hour: self.hour }
        } else {
            SimpleDate { year: self.year + 1, day: 1, hour: self.hour }
        }
    }

    fn minus_one_month(&self) -> (r: SimpleDate) {
        let m = month_number(self.year, self.day);
        if m > 1 {
            let day = first_day_of_month(m - 1, self.year);
            SimpleDate { year: self.year, day, hour: self.hour }
        } else {
            let day = first_day_of_month(12, self.year - 1);
            SimpleDate { year: self.year - 1, day, hour: self.hour }
        }
    }
}

/// January 1st of the next year comes right after the last day of `year`.
pub proof fn lemma_days_before_next_year(year: int)
    ensures
        days_before_year(year + 1) == days_before_year(year) + year_length(year),
    decreases (if year >= 1970 { year - 1970 } else { 1970 - year }),
{
    if year >= 1970 {
    } else {
        assert(year + 1 <= 1970);
    }
}

/// Later years start later.
pub proof fn lemma_days_before_year_monotonic(a: int, b: int)
    requires
        a <= b,
    ensures
        days_before_year(a) <= days_before_year(b),
    decreases b - a,
{
    if a < b {
        lemma_days_before_year_monotonic(a, b - 1);
        lemma_days_before_next_year(b - 1);
    }
}

/// No point that exists comes after the last one that a `SimpleDate` can hold.
pub proof fn lemma_last_point_is_latest(d: SimpleDate, last: SimpleDate)
    requires
        d.wf(),
        last.is_last(),
    ensures
        d.hour_number() <= last.hour_number(),
{
    if d.year < u16::MAX {
        lemma_days_before_next_year(d.year as int);
        lemma_days_before_year_monotonic(d.year + 1, u16::MAX as int);
    }
}

/// The months before `month` hold between `month - 1` times 28 and
/// `month - 1` times 31 days, and all twelve make up the year.
pub proof fn lemma_days_before_month_bounds(month: int, year: int)
    requires
        1 <= month <= 13,
    ensures
        28 * (month - 1) <= days_before_month(month, year) <= 31 * (month - 1),
        month == 13 ==> days_before_month(month, year) == year_length(year),
    decreases month,
{
    if month > 1 {
        lemma_days_before_month_bounds(month - 1, year);
    }
    if month == 13 {
        reveal_with_fuel(days_before_month, 13);
    }
}

/// Later months start later in the year.
pub proof fn lemma_days_before_month_monotonic(a: int, b: int, year: int)
    requires
        1 <= a <= b,
    ensures
        days_before_month(a, year) <= days_before_month(b, year),
    decreases b - a,
{
    if a < b {
        lemma_days_before_month_monotonic(a, b - 1, year);
    }
}

/// The month (1 = January) that holds day `day` of `year`.
pub(crate) fn month_number(year: u16, day: u16) -> (r: u8)
    requires
        1 <= day as int <= year_length(year as int),
    ensures
        r as int == month_of(year as int, day as int),
        1 <= r <= 12,
        days_before_month(r as int, year as int) < day as int <= days_before_month(r as int + 1, year as int),
{
    let mut m: u8 = 1;
    let mut before: u16 = 0;
    while m < 12 && day > before + days_in_month(m, year as u32) as u16
        invariant
            1 <= m <= 12,
            before as int == days_before_month(m as int, year as int),
            day as int > before,
            day as int <= year_length(year as int),
            month_from(year as int, day as int, m as int) == month_of(year as int, day as int),
        decreases 12 - m,
    {
        proof {
            lemma_days_before_month_bounds(m as int + 1, year as int);
        }
        before = before + days_in_month(m, year as u32) as u16;
        m = m + 1;
    }
    proof {
        lemma_days_before_month_bounds(m as int + 1, year as int);
        lemma_days_before_month_bounds(13, year as int);
    }
    m
}

/// The day of year of the first day of `month` (1 = January) of `year`.
pub(crate) fn first_day_of_month(month: u8, year: u16) -> (r: u16)
    requires
        1 <= month <= 12,
    ensures
        r as int == days_before_month(month as int, year as int) + 1,
        1 <= r as int <= year_length(year as int),
{
    let mut m: u8 = 1;
    let mut before: u16 = 0;
    while m < month
        invariant
            1 <= m <= month <= 12,
            before as int == days_before_month(m as int, year as int),
        decreases month - m,
    {
        proof {
            lemma_days_before_month_bounds(m as int + 1, year as int);
        }
        before = before + days_in_month(m, year as u32) as u16;
        m = m + 1;
    }
    proof {
        lemma_days_before_month_bounds(month as int, year as int);
        lemma_days_before_month_bounds(13, year as int);
    }
    before + 1
}

} // verus!
