//! Calendar dates and the daily puzzle index: the number of days elapsed
//! since the first puzzle's date.

use vstd::prelude::*;
use vstd::arithmetic::div_mod::{lemma_fundamental_div_mod, lemma_mod_division_less_than_divisor};

verus! {

/// A Gregorian calendar date, held as plain values.
#[derive(Clone, Copy, Debug, PartialEq, Eq, Structural)]
pub struct Date {
    pub year: u16,
    pub month: u8,
    pub day: u8,
}

impl Date {
    /// The library's calendar range: years 1970 through 9999, month and
    /// day in their calendar ranges.
    pub open spec fn wf(self) -> bool {
        &&& 1970 <= self.year <= 9999
        &&& 1 <= self.month <= 12
        &&& 1 <= self.day <= 31
    }

    /// Builds a date after validating the ranges.
    pub fn new(year: u16, month: u8, day: u8) -> (d: Option<Date>)
        ensures
            d is Some <==> (1970 <= year <= 9999 && 1 <= month <= 12 && 1 <= day <= 31),
            d matches Some(date) ==> date.wf() && date == (Date { year, month, day }),
    {
        if 1970 <= year && year <= 9999 && 1 <= month && month <= 12 && 1 <= day && day <= 31 {
            Some(Date { year, month, day })
        } else {
            None
        }
    }
}

/// The day count of a date in a proleptic Gregorian reckoning that starts
/// years in March: years contribute full 400-year eras plus the leap-day
/// pattern of the years of the era; months contribute through the
/// five-month cycle of 153 days; days count from zero.
pub open spec fn rata_spec(y: int, m: int, d: int) -> int {
    let yy = if m <= 2 {
        y - 1
    } else {
        y
    };
    let era = yy / 400;
    let yoe = yy - era * 400;
    let mp = (m + 9) % 12;
    let doy = (153 * mp + 2) / 5 + d - 1;
    let doe = yoe * 365 + yoe / 4 - yoe / 100 + doy;
    era * 146097 + doe
}

/// The date of the first daily puzzle.
pub open spec fn first_day_spec() -> int {
    rata_spec(2021, 6, 19)
}

/// The puzzle index of a date: days elapsed since the first puzzle's
/// date, or nothing for dates before it.
pub open spec fn day_index_spec(date: Date) -> int {
    rata_spec(date.year as int, date.month as int, date.day as int) - first_day_spec()
}

/// Computes the day count of a date.
pub fn rata_die(date: &Date) -> (r: u64)
    requires
        date.wf(),
    ensures
        r as int == rata_spec(date.year as int, date.month as int, date.day as int),
{
    let y: u64 = date.year as u64;
    let m: u64 = date.month as u64;
    let d: u64 = date.day as u64;
    let yy: u64 = if m <= 2 {
        y - 1
    } else {
        y
    };
    proof {
        lemma_fundamental_div_mod(yy as int, 400);
        lemma_mod_division_less_than_divisor(yy as int, 400);
        lemma_fundamental_div_mod((m + 9) as int, 12);
        lemma_mod_division_less_than_divisor((m + 9) as int, 12);
    }
    let era: u64 = yy / 400;
    let yoe: u64 = yy - era * 400;
    let mp: u64 = (m + 9) % 12;
    let doy: u64 = (153 * mp + 2) / 5 + d - 1;
    let doe: u64 = yoe * 365 + yoe / 4 - yoe / 100 + doy;
    era * 146097 + doe
}

/// The puzzle index of a date, where one exists.
pub fn get_day(date: &Date) -> (r: Option<u64>)
    requires
        date.wf(),
    ensures
        r is Some <==> day_index_spec(*date) >= 0,
        r matches Some(day) ==> day as int == day_index_spec(*date),
{
    let first = Date { year: 2021, month: 6, day: 19 };
    let r = rata_die(date);
    let e = rata_die(&first);
    if r >= e {
        Some(r - e)
    } else {
        None
    }
}

} // verus!
