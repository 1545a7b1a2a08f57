use chrono::{Datelike, NaiveDate, Timelike, Utc};
use vstd::prelude::*;

verus! {

/// The earliest year a date can carry.
pub const MIN_YEAR: i32 = -262143;

/// The latest year a date can carry.
pub const MAX_YEAR: i32 = 262142;

/// How many seconds a day has.
pub const SECONDS_PER_DAY: u32 = 86400;

/// How many nanoseconds a second has.
pub const NANOS_PER_SECOND: u32 = 1_000_000_000;

/// Whether `year` has a 29th of February in the proleptic Gregorian calendar,
/// where the year before year 1 is year 0.
pub open spec fn is_leap_year(year: int) -> bool {
    year % 4 == 0 && (year % 100 != 0 || year % 400 == 0)
}

/// How many days the month has in that year.
pub open spec fn days_in_month(year: int, month: int) -> int {
    if month == 2 {
        if is_leap_year(year) {
            29
        } else {
            28
        }
    } else if month == 4 || month == 6 || month == 9 || month == 11 {
        30
    } else {
        31
    }
}

/// A calendar date as three numbers.
pub ghost struct DateView {
    pub year: int,
    pub month: int,
    pub day: int,
}

impl DateView {
    /// The day exists in the calendar and its year is in range.
    pub open spec fn is_valid(self) -> bool {
        &&& MIN_YEAR <= self.year <= MAX_YEAR
        &&& 1 <= self.month <= 12
        &&& 1 <= self.day <= days_in_month(self.year, self.month)
    }

    /// `self` is the same day as `other` or an earlier one.
    pub open spec fn not_after(self, other: DateView) -> bool {
        self.year < other.year || (self.year == other.year && (self.month < other.month || (
        self.month == other.month && self.day <= other.day)))
    }
}

/// A day of the proleptic Gregorian calendar.
#[derive(Debug, Clone, Copy, PartialEq, Eq, Structural)]
pub struct Date {
    year: i32,
    month: u32,
    day: u32,
}

impl View for Date {
    type V = DateView;

    closed spec fn view(&self) -> DateView {
        DateView { year: self.year as int, month: self.month as int, day: self.day as int }
    }
}

impl DeepView for Date {
    type V = DateView;

    open spec fn deep_view(&self) -> DateView {
        self@
    }
}

/// What `NaiveDate::parse_from_str` with the format `%Y-%m-%d` makes of a text:
/// the date it reads, or `None` where it refuses the text.
pub uninterp spec fn parsed_date(text: Seq<char>) -> Option<DateView>;

/// What `NaiveDate::format` with the format `%Y-%m-%d` writes for a date.
pub uninterp spec fn formatted_date(date: DateView) -> Seq<char>;

/// Calls `chrono::NaiveDate::parse_from_str(text, "%Y-%m-%d")`. Believed of it:
/// the outcome depends on the text alone, and a date that comes out exists in
/// the calendar, as every `NaiveDate` does.
#[verifier::external_body]
pub(crate) fn parse_iso_date(text: &str) -> (r: Result<Date, chrono::ParseError>)
    ensures
        r is Ok <==> parsed_date(text@) is Some,
        r matches Ok(date) ==> parsed_date(text@) == Some(date@) && date@.is_valid(),
{
    match NaiveDate::parse_from_str(text, "%Y-%m-%d") {
        Ok(d) => Ok(Date { year: d.year(), month: d.month(), day: d.day() }),
        Err(e) => Err(e),
    }
}

/// Calls `chrono::NaiveDate::format` with `%Y-%m-%d` on the date, which it
/// hands over through `NaiveDate::from_ymd_opt`, and collects what is
/// written. Believed of it: the text depends on the date alone, and `chrono`
/// takes every date that is valid here.
#[verifier::external_body]
fn format_iso_date(date: &Date) -> (text: String)
    requires
        date@.is_valid(),
    ensures
        text@ == formatted_date(date@),
{
    NaiveDate::from_ymd_opt(date.year, date.month, date.day).unwrap().format("%Y-%m-%d").to_string()
}

impl Date {
    #[verifier::type_invariant]
    spec fn well_formed(self) -> bool {
        self@.is_valid()
    }

    /// The date with these numbers, if the calendar has it.
    pub fn from_ymd(year: i32, month: u32, day: u32) -> (r: Option<Date>)
        ensures
            r is Some <==> (DateView { year: year as int, month: month as int, day: day as int }).is_valid(),
            r matches Some(date) ==> date@ == (DateView {
                year: year as int,
                month: month as int,
                day: day as int,
            }),
    {
        if year < MIN_YEAR || year > MAX_YEAR || month < 1 || month > 12 || day < 1 {
            return None;
        }
        // Shifted by a multiple of 400, the year is positive and keeps its leap rule.
        let shifted: u32 = (year + 400_000) as u32;
        let leap = shifted % 4 == 0 && (shifted % 100 != 0 || shifted % 400 == 0);
        let last: u32 = if month == 2 {
            if leap {
                29
            } else {
                28
            }
        } else if month == 4 || month == 6 || month == 9 || month == 11 {
            30
        } else {
            31
        };
        if day > last {
            return None;
        }
        Some(Date { year, month, day })
    }

    /// The year, where the year before year 1 is year 0.
    pub fn year(&self) -> (year: i32)
        ensures
            year == self@.year,
            self@.is_valid(),
    {
        proof {
            use_type_invariant(self);
        }
        self.year
    }

    /// The month, from 1 to 12.
    pub fn month(&self) -> (month: u32)
        ensures
            month == self@.month,
            self@.is_valid(),
    {
        proof {
            use_type_invariant(self);
        }
        self.month
    }

    /// The day of the month, from 1.
    pub fn day(&self) -> (day: u32)
        ensures
            day == self@.day,
            self@.is_valid(),
    {
        proof {
            use_type_invariant(self);
        }
        self.day
    }

    /// Whether this day is `other` or comes before it.
    pub fn not_after(&self, other: &Date) -> (r: bool)
        ensures
            r == self@.not_after(other@),
    {
        self.year < other.year || (self.year == other.year && (self.month < other.month || (
        self.month == other.month && self.day <= other.day)))
    }

    /// The date as `chrono` writes it with `%Y-%m-%d`, such as `2025-01-31`.
    pub fn to_iso_string(&self) -> (text: String)
        ensures
            text@ == formatted_date(self@),
    {
        proof {
            use_type_invariant(self);
        }
        format_iso_date(self)
    }
}

/// A moment in UTC as numbers: the day, the seconds since its midnight, and
/// the nanoseconds since that second began.
pub ghost struct DateTimeView {
    pub date: DateView,
    pub second_of_day: int,
    pub nanosecond: int,
}

impl DateTimeView {
    /// The numbers name a moment: a day that exists, a second of that day, and
    /// a nanosecond count under one second, or under two in the last second
    /// of a minute, where a leap second is written so.
    pub open spec fn is_valid(self) -> bool {
        &&& self.date.is_valid()
        &&& 0 <= self.second_of_day < SECONDS_PER_DAY
        &&& 0 <= self.nanosecond < 2 * NANOS_PER_SECOND
        &&& (self.nanosecond >= NANOS_PER_SECOND ==> self.second_of_day % 60 == 59)
    }

    /// `self` is the same moment as `other` or an earlier one.
    pub open spec fn not_after(self, other: DateTimeView) -> bool {
        if self.date != other.date {
            self.date.not_after(other.date)
        } else if self.second_of_day != other.second_of_day {
            self.second_of_day < other.second_of_day
        } else {
            self.nanosecond <= other.nanosecond
        }
    }

    /// The first moment of `date`.
    pub open spec fn midnight(date: DateView) -> DateTimeView {
        DateTimeView { date, second_of_day: 0, nanosecond: 0 }
    }
}

/// A moment in UTC.
#[derive(Debug, Clone, Copy, PartialEq, Eq, Structural)]
pub struct UtcDateTime {
    date: Date,
    second_of_day: u32,
    nanosecond: u32,
}

impl View for UtcDateTime {
    type V = DateTimeView;

    closed spec fn view(&self) -> DateTimeView {
        DateTimeView {
            date: self.date@,
            second_of_day: self.second_of_day as int,
            nanosecond: self.nanosecond as int,
        }
    }
}

impl DeepView for UtcDateTime {
    type V = DateTimeView;

    open spec fn deep_view(&self) -> DateTimeView {
        self@
    }
}

/// Calls `chrono::Utc::now()` and reads the date and time of day off the result.
/// Believed of it: what comes back is a moment that exists. Nothing is said
/// of which moment. `chrono` panics where the system clock stands before
/// 1970 or beyond the years it can hold.
#[verifier::external_body]
pub(crate) fn utc_now() -> (now: UtcDateTime)
    ensures
        now@.is_valid(),
{
    let now = Utc::now();
    UtcDateTime {
        date: Date { year: now.year(), month: now.month(), day: now.day() },
        second_of_day: now.num_seconds_from_midnight(),
        nanosecond: now.nanosecond(),
    }
}

impl UtcDateTime {
    #[verifier::type_invariant]
    spec fn well_formed(self) -> bool {
        self@.is_valid()
    }

    /// The moment `second_of_day` seconds and `nanosecond` nanoseconds into `date`,
    /// if the day has it.
    pub fn new(date: Date, second_of_day: u32, nanosecond: u32) -> (r: Option<UtcDateTime>)
        ensures
            r is Some <==> (DateTimeView {
                date: date@,
                second_of_day: second_of_day as int,
                nanosecond: nanosecond as int,
            }).is_valid(),
            r matches Some(moment) ==> moment@ == (DateTimeView {
                date: date@,
                second_of_day: second_of_day as int,
                nanosecond: nanosecond as int,
            }),
    {
        proof {
            use_type_invariant(date);
        }
        if second_of_day >= SECONDS_PER_DAY || nanosecond >= 2 * NANOS_PER_SECOND || (nanosecond
            >= NANOS_PER_SECOND && second_of_day % 60 != 59) {
            return None;
        }
        Some(UtcDateTime { date, second_of_day, nanosecond })
    }

    /// The first moment of `date`.
    pub fn at_midnight(date: Date) -> (moment: UtcDateTime)
        ensures
            moment@ == DateTimeView::midnight(date@),
    {
        proof {
            use_type_invariant(date);
        }
        UtcDateTime { date, second_of_day: 0, nanosecond: 0 }
    }

    /// The day the moment falls on.
    pub fn date(&self) -> (date: Date)
        ensures
            date@ == self@.date,
    {
        self.date
    }

    /// The whole seconds since the day began.
    pub fn second_of_day(&self) -> (seconds: u32)
        ensures
            seconds == self@.second_of_day,
            self@.is_valid(),
    {
        proof {
            use_type_invariant(self);
        }
        self.second_of_day
    }

    /// The nanoseconds since the second began: a thousand million or more
    /// within a leap second.
    pub fn nanosecond(&self) -> (nanos: u32)
        ensures
            nanos == self@.nanosecond,
            self@.is_valid(),
    {
        proof {
            use_type_invariant(self);
        }
        self.nanosecond
    }

    /// Whether this moment is `other` or comes before it.
    pub fn not_after(&self, other: &UtcDateTime) -> (r: bool)
        ensures
            r == self@.not_after(other@),
    {
        if self.date != other.date {
            self.date.not_after(&other.date)
        } else if self.second_of_day != other.second_of_day {
            self.second_of_day < other.second_of_day
        } else {
            self.nanosecond <= other.nanosecond
        }
    }
}

} // verus!
