//! Natural-language due dates and the current time, from the outside date
//! crates, reduced to plain field values and range-checked here.

use vstd::prelude::*;
use chrono::Datelike;
use chrono::Timelike;
use crate::date::{days_in_month, DueDate};
use crate::digits::is_digit;

verus! {

/// Seven decimal digits stand in `s` starting at `i`.
pub open spec fn seven_digits_at(s: Seq<char>, i: int) -> bool {
    forall|k: int| i <= k < i + 7 ==> is_digit(#[trigger] s[k])
}

/// No run of seven or more decimal digits anywhere in `s`. Counts in a due
/// expression are then below a million, which keeps every date the outside
/// parser can build within chrono's representable range.
pub open spec fn digit_runs_short(s: Seq<char>) -> bool {
    forall|i: int| 0 <= i && i + 7 <= s.len() ==> !#[trigger] seven_digits_at(s, i)
}

/// An ASCII character.
pub open spec fn is_ascii_char(c: char) -> bool {
    (c as u32) < 128
}

/// Every character of `s` is ASCII.
pub open spec fn all_ascii(s: Seq<char>) -> bool {
    forall|i: int| 0 <= i < s.len() ==> is_ascii_char(#[trigger] s[i])
}

/// Every dot in `s` is the last character or directly followed by a
/// decimal digit.
pub open spec fn dots_before_digits(s: Seq<char>) -> bool {
    forall|i: int|
        0 <= i < s.len() && #[trigger] s[i] == '.' ==> (i + 1 == s.len() || is_digit(s[i + 1]))
}

/// A due expression the outside date parser is known not to panic on:
/// ASCII throughout, every dot closing the string or opening a digit run,
/// and no run of seven or more digits. See `parse_due_raw` for what each
/// part bars.
pub open spec fn due_arg_safe(s: Seq<char>) -> bool {
    all_ascii(s) && dots_before_digits(s) && digit_runs_short(s)
}

/// Scans for a character beyond ASCII or a dot followed by a non-digit.
fn ascii_and_dots_x(s: &str) -> (r: bool)
    ensures
        r == (all_ascii(s@) && dots_before_digits(s@)),
{
    let n = s.unicode_len();
    let mut k: usize = 0;
    while k < n
        invariant
            k <= n == s@.len(),
            n <= usize::MAX,
            forall|j: int| 0 <= j < k ==> is_ascii_char(#[trigger] s@[j]),
            forall|j: int|
                0 <= j < k && #[trigger] s@[j] == '.' ==> (j + 1 == n || is_digit(s@[j + 1])),
        decreases n - k,
    {
        let c = s.get_char(k);
        if c as u32 >= 128 {
            return false;
        }
        if c == '.' && k + 1 < n {
            let c2 = s.get_char(k + 1);
            if !('0' <= c2 && c2 <= '9') {
                return false;
            }
        }
        k += 1;
    }
    true
}

/// Scans for a run of seven or more decimal digits.
fn digit_runs_short_x(s: &str) -> (r: bool)
    ensures
        r == digit_runs_short(s@),
{
    let n = s.unicode_len();
    let mut run: usize = 0;
    let mut k: usize = 0;
    while k < n
        invariant
            k <= n == s@.len(),
            n <= usize::MAX,
            run <= 6,
            run <= k,
            forall|j: int| k - run <= j < k ==> is_digit(#[trigger] s@[j]),
            run < k ==> !is_digit(s@[k - run - 1]),
            forall|i: int| 0 <= i && i + 7 <= k ==> !#[trigger] seven_digits_at(s@, i),
        decreases n - k,
    {
        let c = s.get_char(k);
        if '0' <= c && c <= '9' {
            if run == 6 {
                proof {
                    assert(seven_digits_at(s@, k - 6));
                }
                return false;
            }
            run += 1;
        } else {
            run = 0;
        }
        proof {
            assert forall|i: int| 0 <= i && i + 7 <= k + 1 implies !#[trigger] seven_digits_at(
                s@,
                i,
            ) by {
                if i + 7 == k + 1 {
                    assert(!is_digit(s@[k - run]));
                }
            }
        }
        k += 1;
    }
    true
}

/// Raw field values handed back by the clock and the date parser, before
/// any range checking by this crate.
pub struct DueParts {
    pub year: i64,
    pub month: u8,
    pub day: u8,
    pub hour: u8,
    pub minute: u8,
    pub second: u8,
    pub nanos: u32,
    pub offset_secs: i32,
}

/// The field ranges the outside accessors document: month 1 to 12, day 1 to
/// 31, hour to 23, minute and second to 59, sub-second nanoseconds below two
/// seconds (a leap second raises them past one), and an offset strictly
/// within one day.
pub open spec fn parts_ranged(p: DueParts) -> bool {
    &&& 1 <= p.month <= 12
    &&& 1 <= p.day <= 31
    &&& p.hour <= 23
    &&& p.minute <= 59
    &&& p.second <= 59
    &&& p.nanos < 2_000_000_000
    &&& -86_400 < p.offset_secs < 86_400
}

/// Relies on chrono_english::parse_date_string with the US dialect,
/// resolved against chrono::Local::now(), and on chrono's Datelike and
/// Timelike accessors and FixedOffset::local_minus_utc, whose documented
/// ranges the ensures states. The result depends on the current time, so
/// nothing more is promised of the value.
///
/// The requires bars the inputs the outside parser panics on. Long digit
/// runs: it unwraps the checked date shift of a relative expression, which
/// leaves chrono's range for counts such as a billion days; six digits
/// keep every count below a million, and with it every shift, offset,
/// month product and microsecond scale it computes, in range. A dot
/// followed by anything but a digit: the scanner hands that character back
/// as the head of the fractional second, whose float parse is unwrapped.
/// Characters beyond ASCII: unit and month names are sliced by bytes, and
/// a multi-byte character straddling the cut panics; ASCII also keeps the
/// fractional second to plain digits, which the float parse takes.
#[verifier::external_body]
fn parse_due_raw(s: &str) -> (r: Option<DueParts>)
    requires
        due_arg_safe(s@),
    ensures
        r matches Some(p) ==> parts_ranged(p),
{
    match chrono_english::parse_date_string(s, chrono::Local::now(), chrono_english::Dialect::Us) {
        Ok(d) => Some(DueParts {
            year: d.year() as i64,
            month: d.month() as u8,
            day: d.day() as u8,
            hour: d.hour() as u8,
            minute: d.minute() as u8,
            second: d.second() as u8,
            nanos: d.timestamp_subsec_nanos(),
            offset_secs: d.offset().local_minus_utc(),
        }),
        Err(_) => None,
    }
}

/// Relies on chrono::Local::now and the same accessors as `parse_due_raw`,
/// with the same documented ranges; the value is the clock's.
#[verifier::external_body]
fn now_raw() -> (r: DueParts)
    ensures
        parts_ranged(r),
{
    let d = chrono::Local::now();
    DueParts {
        year: d.year() as i64,
        month: d.month() as u8,
        day: d.day() as u8,
        hour: d.hour() as u8,
        minute: d.minute() as u8,
        second: d.second() as u8,
        nanos: d.timestamp_subsec_nanos(),
        offset_secs: d.offset().local_minus_utc(),
    }
}

/// Raw parts that name a point the line format can carry: a four-digit
/// year, a real calendar day, no leap second, and the offset ranges of the
/// written form.
pub open spec fn parts_encodable(p: DueParts) -> bool {
    &&& 0 <= p.year <= 9999
    &&& 1 <= p.month <= 12
    &&& 1 <= p.day <= days_in_month(p.year as int, p.month as int)
    &&& p.hour <= 23
    &&& p.minute <= 59
    &&& p.second <= 59
    &&& p.nanos <= 999_999_999
    &&& -86_400 < p.offset_secs < 86_400
}

/// The timestamp encodable parts map to; the offset splits into sign,
/// hours and minutes, sub-minute offset seconds dropping as the written
/// form `+HH:MM` has no place for them.
pub open spec fn date_of_parts(p: DueParts) -> DueDate {
    let a: int = if p.offset_secs < 0 {
        -(p.offset_secs as int)
    } else {
        p.offset_secs as int
    };
    DueDate {
        year: p.year as u16,
        month: p.month,
        day: p.day,
        hour: p.hour,
        minute: p.minute,
        second: p.second,
        nanos: p.nanos,
        off_neg: p.offset_secs < 0,
        off_hour: (a / 3600) as u8,
        off_minute: ((a % 3600) / 60) as u8,
    }
}

/// Checks raw parts against the calendar and the ranges of the line
/// format, and shapes them into a due timestamp.
pub fn due_from_parts(p: &DueParts) -> (r: Option<DueDate>)
    ensures
        r == (if parts_encodable(*p) {
            Some(date_of_parts(*p))
        } else {
            None::<DueDate>
        }),
        r matches Some(d) ==> d.valid(),
{
    if !(0 <= p.year && p.year <= 9999 && 1 <= p.month && p.month <= 12 && p.hour <= 23
        && p.minute <= 59 && p.second <= 59 && p.nanos <= 999_999_999 && -86_400 < p.offset_secs
        && p.offset_secs < 86_400) {
        return None;
    }
    if !(1 <= p.day && p.day <= crate::date::days_in_month_x(p.year as u16, p.month)) {
        return None;
    }
    let a: i32 = if p.offset_secs < 0 {
        -p.offset_secs
    } else {
        p.offset_secs
    };
    Some(
        DueDate {
            year: p.year as u16,
            month: p.month,
            day: p.day,
            hour: p.hour,
            minute: p.minute,
            second: p.second,
            nanos: p.nanos,
            off_neg: p.offset_secs < 0,
            off_hour: (a / 3600) as u8,
            off_minute: ((a % 3600) / 60) as u8,
        },
    )
}

/// Parses a natural-language due expression, resolved against the current
/// local time. An expression outside the safe class — beyond ASCII, a dot
/// before a non-digit, or a run of seven or more digits — is refused
/// here, before the outside parser sees it (see `parse_due_raw`). Past
/// that, the result depends on the clock, so only this much is promised:
/// whatever comes back is a valid timestamp.
pub fn parse_due(s: &str) -> (r: Option<DueDate>)
    ensures
        r matches Some(d) ==> d.valid(),
        !due_arg_safe(s@) ==> r is None,
{
    if !ascii_and_dots_x(s) {
        return None;
    }
    if !digit_runs_short_x(s) {
        return None;
    }
    match parse_due_raw(s) {
        Some(p) => due_from_parts(&p),
        None => None,
    }
}

/// The current local time as a due timestamp, when its fields fit the line
/// format.
pub fn now_due() -> (r: Option<DueDate>)
    ensures
        r matches Some(d) ==> d.valid(),
{
    let p = now_raw();
    due_from_parts(&p)
}

} // verus!
