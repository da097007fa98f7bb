//! The values that flow through the pipeline: the records handed in by the
//! caller and the resources handed back.
use vstd::prelude::*;

verus! {

/// Whether `year` of the proleptic Gregorian calendar has a 29th of February.
pub open spec fn is_leap_year(year: int) -> bool {
    (year % 4 == 0 && year % 100 != 0) || year % 400 == 0
}

/// Number of days of `month` (1 to 12) in `year`.
pub open spec fn days_in_month(year: int, month: int) -> int {
    if month == 2 {
        if is_leap_year(year) { 29 } else { 28 }
    } else if month == 4 || month == 6 || month == 9 || month == 11 {
        30
    } else {
        31
    }
}

/// A calendar day, held as year, month (1 to 12) and day of the month.
#[derive(Clone, Copy, Debug, PartialEq, Eq, Structural)]
pub struct Date {
    pub year: i32,
    pub month: u32,
    pub day: u32,
}

/// Shifting a year by this many years keeps its place in the 400-year cycle
/// and makes every `i32` year positive.
const YEAR_SHIFT: i64 = 2_400_000_000;

fn leap_year(year: i32) -> (r: bool)
    ensures
        r == is_leap_year(year as int),
{
    let shifted: u64 = (year as i64 + YEAR_SHIFT) as u64;
    proof {
        let y = year as int;
        assert((y + 2_400_000_000) % 4 == y % 4) by {
            vstd::arithmetic::div_mod::lemma_mod_multiples_vanish(600_000_000, y, 4);
        };
        assert((y + 2_400_000_000) % 100 == y % 100) by {
            vstd::arithmetic::div_mod::lemma_mod_multiples_vanish(24_000_000, y, 100);
        };
        assert((y + 2_400_000_000) % 400 == y % 400) by {
            vstd::arithmetic::div_mod::lemma_mod_multiples_vanish(6_000_000, y, 400);
        };
    }
    (shifted % 4 == 0 && shifted % 100 != 0) || shifted % 400 == 0
}

impl Date {
    /// A date names a day that the calendar has.
    pub open spec fn valid(self) -> bool {
        1 <= self.month <= 12 && 1 <= self.day <= days_in_month(self.year as int, self.month as int)
    }

    /// The date of `day` in `month` of `year`, if the calendar has it.
    pub fn new(year: i32, month: u32, day: u32) -> (r: Option<Date>)
        ensures
            r == (if (Date { year, month, day }).valid() {
                Some(Date { year, month, day })
            } else {
                None
            }),
    {
        if month < 1 || month > 12 || day < 1 {
            return None;
        }
        let last: u32 = if month == 2 {
            if leap_year(year) { 29 } else { 28 }
        } else if month == 4 || month == 6 || month == 9 || month == 11 {
            30
        } else {
            31
        };
        if day <= last {
            Some(Date { year, month, day })
        } else {
            None
        }
    }
}

/// A page to fetch: where it is and the day it is filed under.
#[derive(Clone, Debug, PartialEq, Eq)]
pub struct Record {
    pub timestamp: Date,
    pub url: String,
}

/// What a fetched page became: the address it was finally served from, its
/// title and description (empty where the page has none), and the day of the
/// record it came from.
#[derive(Clone, Debug, PartialEq, Eq)]
pub struct Resource {
    pub url: String,
    pub title: String,
    pub description: String,
    pub timestamp: Date,
}

} // verus!
