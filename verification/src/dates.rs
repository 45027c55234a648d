//! Calendar dates and times of day, as plain values.
//!
//! Paths and metadata both yield dates in the proleptic Gregorian calendar
//! with four-digit years; a capture timestamp adds a time of day.

use vstd::prelude::*;

verus! {

/// A calendar date with a four-digit year (`0..=9999`).
#[derive(Clone, Copy, Debug, PartialEq, Eq, Structural)]
pub struct Date {
    pub year: i32,
    pub month: u32,
    pub day: u32,
}

/// A time of day, seconds precision.
#[derive(Clone, Copy, Debug, PartialEq, Eq, Structural)]
pub struct Time {
    pub hour: u32,
    pub minute: u32,
    pub second: u32,
}

/// A calendar date together with a time of day.
#[derive(Clone, Copy, Debug, PartialEq, Eq, Structural)]
pub struct DateTime {
    pub date: Date,
    pub time: Time,
}

pub open spec fn is_leap_year(year: int) -> bool {
    year % 4 == 0 && (year % 100 != 0 || year % 400 == 0)
}

/// Number of days of `month` (`1..=12`) in `year`; months outside that
/// range are given the defensive value 31.
pub open spec fn days_in_month(year: int, month: int) -> int {
    if month == 2 {
        if is_leap_year(year) {
            29
        } else {
            28
        }
    } else if month == 4 || month == 6 || month == 9 || month == 11 {
        30
    } else {
        31
    }
}

/// A real calendar date: four-digit year, month `1..=12`, day within the month.
pub open spec fn valid_ymd(year: int, month: int, day: int) -> bool {
    &&& 0 <= year <= 9999
    &&& 1 <= month <= 12
    &&& 1 <= day <= days_in_month(year, month)
}

impl Date {
    pub open spec fn valid(self) -> bool {
        valid_ymd(self.year as int, self.month as int, self.day as int)
    }

    /// Checked constructor: `Some` exactly for real calendar dates.
    pub fn new(year: i32, month: u32, day: u32) -> (r: Option<Date>)
        ensures
            valid_ymd(year as int, month as int, day as int) ==> r == Some(
                Date { year, month, day },
            ),
            !valid_ymd(year as int, month as int, day as int) ==> r is None,
    {
        if 0 <= year && year <= 9999 && 1 <= month && month <= 12 && 1 <= day && day
            <= month_length(year, month) {
            Some(Date { year, month, day })
        } else {
            None
        }
    }
}

impl Time {
    pub open spec fn valid(self) -> bool {
        self.hour < 24 && self.minute < 60 && self.second < 60
    }

    /// Checked constructor: `Some` exactly for times of a day.
    pub fn new(hour: u32, minute: u32, second: u32) -> (r: Option<Time>)
        ensures
            hour < 24 && minute < 60 && second < 60 ==> r == Some(Time { hour, minute, second }),
            !(hour < 24 && minute < 60 && second < 60) ==> r is None,
    {
        if hour < 24 && minute < 60 && second < 60 {
            Some(Time { hour, minute, second })
        } else {
            None
        }
    }
}

impl DateTime {
    pub open spec fn valid(self) -> bool {
        self.date.valid() && self.time.valid()
    }

    /// Checked constructor: `Some` exactly for a real date with a real time of day.
    pub fn new(year: i32, month: u32, day: u32, hour: u32, minute: u32, second: u32) -> (r: Option<
        DateTime,
    >)
        ensures
            r is Some <==> (valid_ymd(year as int, month as int, day as int) && hour < 24 && minute
                < 60 && second < 60),
            r is Some ==> r == Some(
                DateTime {
                    date: Date { year, month, day },
                    time: Time { hour, minute, second },
                },
            ),
    {
        match (Date::new(year, month, day), Time::new(hour, minute, second)) {
            (Some(date), Some(time)) => Some(DateTime { date, time }),
            _ => None,
        }
    }
}

/// Number of days of `month` in `year`.
pub fn month_length(year: i32, month: u32) -> (r: u32)
    requires
        0 <= year,
        1 <= month <= 12,
    ensures
        r as int == days_in_month(year as int, month as int),
{
    if month == 2 {
        if year % 4 == 0 && (year % 100 != 0 || year % 400 == 0) {
            29
        } else {
            28
        }
    } else if month == 4 || month == 6 || month == 9 || month == 11 {
        30
    } else {
        31
    }
}

} // verus!
