//! Due timestamps, held as plain calendar fields with a UTC offset.

use vstd::prelude::*;
use crate::digits::{two_digits, push2};

verus! {

/// A due timestamp: proleptic Gregorian calendar fields, sub-second
/// nanoseconds, and a UTC offset written as a sign, hours and minutes.
#[derive(Clone, Copy, PartialEq, Eq, Structural, Debug)]
pub struct DueDate {
    pub year: u16,
    pub month: u8,
    pub day: u8,
    pub hour: u8,
    pub minute: u8,
    pub second: u8,
    pub nanos: u32,
    pub off_neg: bool,
    pub off_hour: u8,
    pub off_minute: u8,
}

/// Leap years of the proleptic Gregorian calendar.
pub open spec fn is_leap_year(y: int) -> bool {
    y % 4 == 0 && (y % 100 != 0 || y % 400 == 0)
}

/// Number of days of month `m` in year `y`.
pub open spec fn days_in_month(y: int, m: int) -> int {
    if m == 2 {
        if is_leap_year(y) {
            29
        } else {
            28
        }
    } else if m == 4 || m == 6 || m == 9 || m == 11 {
        30
    } else {
        31
    }
}

/// Days of the months before month `m` in a common year.
pub open spec fn days_before_month(m: int) -> int {
    if m == 1 {
        0
    } else if m == 2 {
        31
    } else if m == 3 {
        59
    } else if m == 4 {
        90
    } else if m == 5 {
        120
    } else if m == 6 {
        151
    } else if m == 7 {
        181
    } else if m == 8 {
        212
    } else if m == 9 {
        243
    } else if m == 10 {
        273
    } else if m == 11 {
        304
    } else {
        334
    }
}

/// Leap years among the years `0, 1, ..., y - 1`.
pub open spec fn leap_days_before(y: int) -> int {
    (y + 3) / 4 - (y + 99) / 100 + (y + 399) / 400
}

/// Days from the calendar day 0000-01-01 to the day `y`-`m`-`d`.
pub open spec fn day_number(y: int, m: int, d: int) -> int {
    365 * y + leap_days_before(y) + days_before_month(m) + (if m > 2 && is_leap_year(y) {
        1int
    } else {
        0int
    }) + (d - 1)
}

impl DueDate {
    /// Field ranges under which the timestamp names a real calendar point
    /// that the line format can carry.
    pub open spec fn valid(self) -> bool {
        &&& self.year <= 9999
        &&& 1 <= self.month <= 12
        &&& 1 <= self.day <= days_in_month(self.year as int, self.month as int)
        &&& self.hour <= 23
        &&& self.minute <= 59
        &&& self.second <= 59
        &&& self.nanos <= 999_999_999
        &&& self.off_hour <= 23
        &&& self.off_minute <= 59
    }

    /// The UTC offset in signed seconds.
    pub open spec fn offset_seconds(self) -> int {
        if self.off_neg {
            -(self.off_hour * 3600 + self.off_minute * 60)
        } else {
            self.off_hour * 3600 + self.off_minute * 60
        }
    }

    /// Whole seconds of the instant the timestamp names, measured from the
    /// calendar day 0000-01-01 in UTC; the sub-second part stands apart in
    /// `nanos`. Two timestamps written with different offsets can name the
    /// same instant.
    pub open spec fn instant_seconds(self) -> int {
        day_number(self.year as int, self.month as int, self.day as int) * 86400 + self.hour * 3600
            + self.minute * 60 + self.second - self.offset_seconds()
    }
}

/// Instant order: `a` at or before `b`.
pub open spec fn instant_le(a: DueDate, b: DueDate) -> bool {
    a.instant_seconds() < b.instant_seconds() || (a.instant_seconds() == b.instant_seconds()
        && a.nanos <= b.nanos)
}

/// Instant order, strict: `a` strictly before `b`.
pub open spec fn instant_lt(a: DueDate, b: DueDate) -> bool {
    instant_le(a, b) && !(a.instant_seconds() == b.instant_seconds() && a.nanos == b.nanos)
}

/// Executable check of `days_in_month`.
pub fn days_in_month_x(y: u16, m: u8) -> (r: u8)
    requires
        1 <= m <= 12,
    ensures
        r == days_in_month(y as int, m as int),
{
    if m == 2 {
        if (y % 4 == 0 && y % 100 != 0) || y % 400 == 0 {
            29
        } else {
            28
        }
    } else if m == 4 || m == 6 || m == 9 || m == 11 {
        30
    } else {
        31
    }
}

impl DueDate {
    /// Executable check of `valid`.
    pub fn valid_x(&self) -> (r: bool)
        ensures
            r == self.valid(),
    {
        self.year <= 9999 && 1 <= self.month && self.month <= 12 && self.hour <= 23
            && self.minute <= 59 && self.second <= 59 && self.nanos <= 999_999_999
            && self.off_hour <= 23 && self.off_minute <= 59 && 1 <= self.day && self.day
            <= days_in_month_x(self.year, self.month)
    }

    /// Executable `instant_seconds`.
    pub fn instant_seconds_x(&self) -> (r: i64)
        requires
            self.valid(),
        ensures
            r == self.instant_seconds(),
    {
        let y: i64 = self.year as i64;
        let days: i64 = 365 * y + (y + 3) / 4 - (y + 99) / 100 + (y + 399) / 400
            + days_before_month_x(self.month) as i64 + (if self.month > 2 && ((self.year % 4 == 0
            && self.year % 100 != 0) || self.year % 400 == 0) {
            1
        } else {
            0
        }) + self.day as i64 - 1;
        let off: i64 = if self.off_neg {
            -(self.off_hour as i64 * 3600 + self.off_minute as i64 * 60)
        } else {
            self.off_hour as i64 * 3600 + self.off_minute as i64 * 60
        };
        days * 86400 + self.hour as i64 * 3600 + self.minute as i64 * 60 + self.second as i64 - off
    }
}

/// Executable `days_before_month`.
pub fn days_before_month_x(m: u8) -> (r: u16)
    requires
        1 <= m <= 12,
    ensures
        r == days_before_month(m as int),
{
    match m {
        1 => 0,
        2 => 31,
        3 => 59,
        4 => 90,
        5 => 120,
        6 => 151,
        7 => 181,
        8 => 212,
        9 => 243,
        10 => 273,
        11 => 304,
        _ => 334,
    }
}

/// Executable `instant_le`.
pub fn instant_le_x(a: &DueDate, b: &DueDate) -> (r: bool)
    requires
        a.valid(),
        b.valid(),
    ensures
        r == instant_le(*a, *b),
{
    let sa: i64 = a.instant_seconds_x();
    let sb: i64 = b.instant_seconds_x();
    sa < sb || (sa == sb && a.nanos <= b.nanos)
}

/// Executable `instant_lt`.
pub fn instant_lt_x(a: &DueDate, b: &DueDate) -> (r: bool)
    requires
        a.valid(),
        b.valid(),
    ensures
        r == instant_lt(*a, *b),
{
    let sa: i64 = a.instant_seconds_x();
    let sb: i64 = b.instant_seconds_x();
    sa < sb || (sa == sb && a.nanos < b.nanos)
}

/// The hour of a twelve-hour clock face.
pub open spec fn hour12(h: int) -> int {
    if h % 12 == 0 {
        12
    } else {
        h % 12
    }
}

/// The display form of a due timestamp: `MM/DD/YY HH:MM` on a twelve-hour
/// clock, followed by `AM` or `PM`.
pub open spec fn display_form(d: DueDate) -> Seq<char> {
    two_digits(d.month as int) + seq!['/'] + two_digits(d.day as int) + seq!['/'] + two_digits(
        d.year as int % 100,
    ) + seq![' '] + two_digits(hour12(d.hour as int)) + seq![':'] + two_digits(d.minute as int) + (
    if d.hour < 12 {
        seq!['A', 'M']
    } else {
        seq!['P', 'M']
    })
}

impl DueDate {
    /// Renders `display_form` for a table cell.
    pub fn display(&self) -> (r: String)
        requires
            self.valid(),
        ensures
            r@ == display_form(*self),
    {
        let mut s = String::new();
        push2(&mut s, self.month);
        s.append("/");
        push2(&mut s, self.day);
        s.append("/");
        push2(&mut s, (self.year % 100) as u8);
        s.append(" ");
        push2(&mut s, if self.hour % 12 == 0 { 12 } else { self.hour % 12 });
        s.append(":");
        push2(&mut s, self.minute);
        s.append(if self.hour < 12 { "AM" } else { "PM" });
        proof {
            reveal_strlit("/");
            reveal_strlit(" ");
            reveal_strlit(":");
            reveal_strlit("AM");
            reveal_strlit("PM");
            assert(s@ =~= display_form(*self));
        }
        s
    }
}

} // verus!
