//! Calendar dates, held as plain year, month and day values.

use vstd::prelude::*;

verus! {

/// A calendar date: year, month and day, with no time component.
#[derive(Clone, Copy, Debug, PartialEq, Eq, Structural)]
pub struct Date {
    pub year: i32,
    pub month: u8,
    pub day: u8,
}

/// Whether `y` is a leap year of the proleptic Gregorian calendar.
pub open spec fn is_leap_year(y: int) -> bool {
    (y % 4 == 0 && y % 100 != 0) || y % 400 == 0
}

/// The number of days of month `m` in year `y`.
pub open spec fn days_in_month(y: int, m: int) -> int {
    if m == 2 {
        if is_leap_year(y) {
            29
        } else {
            28
        }
    } else if m == 4 || m == 6 || m == 9 || m == 11 {
        30
    } else {
        31
    }
}

/// Whether year `y`, month `m` and day `d` name a day of the calendar.
pub open spec fn valid_date(y: int, m: int, d: int) -> bool {
    1 <= m <= 12 && 1 <= d <= days_in_month(y, m)
}

impl Date {
    /// The date of the given year, month and day, or `None` when the three
    /// numbers name no calendar day.
    pub fn from_ymd(year: i32, month: u8, day: u8) -> (r: Option<Date>)
        ensures
            match r {
                Some(d) => valid_date(year as int, month as int, day as int) && d == (Date {
                    year,
                    month,
                    day,
                }),
                None => !valid_date(year as int, month as int, day as int),
            },
    {
        let leap = (year % 4 == 0 && year % 100 != 0) || year % 400 == 0;
        let dim: u8 = if month == 2 {
            if leap {
                29
            } else {
                28
            }
        } else if month == 4 || month == 6 || month == 9 || month == 11 {
            30
        } else {
            31
        };
        if 1 <= month && month <= 12 && 1 <= day && day <= dim {
            Some(Date { year, month, day })
        } else {
            None
        }
    }
}

} // verus!
