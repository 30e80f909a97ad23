//! The command handlers' decisions: validating a priority argument and
//! building a new item from command-line input.

use vstd::prelude::*;
use vstd::string::StringExecFns;
use crate::codec::spec_encode;
use crate::date::DueDate;
use crate::digits::{all_digits, digit_val};
use crate::item::TodoItem;
use crate::nldate::parse_due;

verus! {

/// Value of a digit string read left to right.
pub open spec fn digits_value(s: Seq<char>) -> int
    decreases s.len(),
{
    if s.len() == 0 {
        0
    } else {
        digits_value(s.drop_last()) * 10 + digit_val(s.last())
    }
}

/// A digit string's value is never negative.
proof fn lemma_digits_value_nonneg(s: Seq<char>)
    requires
        all_digits(s, 0, s.len() as int),
    ensures
        digits_value(s) >= 0,
    decreases s.len(),
{
    if s.len() > 0 {
        lemma_digits_value_nonneg(s.drop_last());
    }
}

/// The strings an integer parse accepts: an optional sign, then one or
/// more decimal digits.
pub open spec fn int_literal(s: Seq<char>) -> bool {
    if s.len() == 0 {
        false
    } else if s[0] == '+' || s[0] == '-' {
        s.len() >= 2 && all_digits(s, 1, s.len() as int)
    } else {
        all_digits(s, 0, s.len() as int)
    }
}

/// The signed value of an integer literal.
pub open spec fn literal_value(s: Seq<char>) -> int {
    if s[0] == '-' {
        -digits_value(s.skip(1))
    } else if s[0] == '+' {
        digits_value(s.skip(1))
    } else {
        digits_value(s)
    }
}

/// The literal parses as a signed byte: sign-and-digits shape, value in
/// the byte range.
pub open spec fn parses_as_i8(s: Seq<char>) -> bool {
    int_literal(s) && -128 <= literal_value(s) <= 127
}

/// A valid priority argument: parses as a signed byte between 0 and 9.
pub open spec fn priority_arg_ok(s: Seq<char>) -> bool {
    parses_as_i8(s) && 0 <= literal_value(s) <= 9
}

/// The report for an argument that is no integer at all (or overflows).
pub open spec fn not_int_msg() -> Seq<char> {
    "Priority needs to be an integer within the bounds 0 and 9. Input was not an integer."@
}

/// The report for an integer outside the priority range.
pub open spec fn bounds_msg() -> Seq<char> {
    "Priority needs to be an integer within the bounds 0 and 9. Input was outside bounds."@
}

/// Parses a priority argument: the digit it names, or the report that the
/// priority validator gives for it.
pub fn parse_priority_arg(s: &str) -> (r: Result<i8, String>)
    ensures
        r matches Ok(p) ==> priority_arg_ok(s@) && 0 <= p <= 9 && p as int == literal_value(s@),
        priority_arg_ok(s@) ==> r is Ok,
        r matches Err(m) ==> !priority_arg_ok(s@) && m@ == (if !parses_as_i8(s@) {
            not_int_msg()
        } else {
            bounds_msg()
        }),
{
    let n = s.unicode_len();
    if n == 0 {
        return Err(String::from_str(
            "Priority needs to be an integer within the bounds 0 and 9. Input was not an integer.",
        ));
    }
    let c0 = s.get_char(0);
    let neg = c0 == '-';
    let start: usize = if c0 == '-' || c0 == '+' {
        1
    } else {
        0
    };
    if n == start {
        return Err(String::from_str(
            "Priority needs to be an integer within the bounds 0 and 9. Input was not an integer.",
        ));
    }
    let mut acc: u32 = 0;
    let mut k = start;
    while k < n
        invariant
            start <= k <= n == s@.len(),
            n <= usize::MAX,
            start == 0 || start == 1,
            (start == 1) == (s@[0] == '-' || s@[0] == '+'),
            neg == (s@[0] == '-'),
            start < n,
            all_digits(s@, start as int, k as int),
            digits_value(s@.subrange(start as int, k as int)) >= 0,
            acc <= 1000,
            digits_value(s@.subrange(start as int, k as int)) <= 999 ==> acc == digits_value(
                s@.subrange(start as int, k as int),
            ),
            digits_value(s@.subrange(start as int, k as int)) > 999 ==> acc == 1000,
        decreases n - k,
    {
        let c = s.get_char(k);
        if !('0' <= c && c <= '9') {
            assert(!all_digits(s@, start as int, n as int));
            return Err(String::from_str(
                "Priority needs to be an integer within the bounds 0 and 9. Input was not an integer.",
            ));
        }
        let d: u32 = c as u32 - 48;
        proof {
            assert(s@.subrange(start as int, k + 1).drop_last() =~= s@.subrange(
                start as int,
                k as int,
            ));
            assert(s@.subrange(start as int, k + 1).last() == s@[k as int]);
        }
        acc = if acc * 10 + d > 999 {
            1000
        } else {
            acc * 10 + d
        };
        k += 1;
    }
    let ghost digits = s@.subrange(start as int, n as int);
    proof {
        if start == 1 {
            assert(digits =~= s@.skip(1));
        } else {
            assert(digits =~= s@);
        }
        assert(int_literal(s@));
    }
    if neg {
        if acc > 128 {
            return Err(String::from_str(
                "Priority needs to be an integer within the bounds 0 and 9. Input was not an integer.",
            ));
        }
        if acc == 0 {
            Ok(0)
        } else {
            Err(String::from_str(
                "Priority needs to be an integer within the bounds 0 and 9. Input was outside bounds.",
            ))
        }
    } else {
        if acc > 127 {
            return Err(String::from_str(
                "Priority needs to be an integer within the bounds 0 and 9. Input was not an integer.",
            ));
        }
        if acc > 9 {
            Err(String::from_str(
                "Priority needs to be an integer within the bounds 0 and 9. Input was outside bounds.",
            ))
        } else {
            Ok(acc as i8)
        }
    }
}

/// Validates a priority argument: accepted exactly when it names an
/// integer between 0 and 9, with the specific report otherwise.
pub fn is_priority(val: String) -> (r: Result<(), String>)
    ensures
        r is Ok <==> priority_arg_ok(val@),
        r matches Err(m) ==> m@ == (if !parses_as_i8(val@) {
            not_int_msg()
        } else {
            bounds_msg()
        }),
{
    match parse_priority_arg(val.as_str()) {
        Ok(_) => Ok(()),
        Err(m) => Err(m),
    }
}

/// Why a new item was not built: a bad priority argument, or a due
/// expression the date parser did not take; each with its report.
pub enum NewItemError {
    Priority(String),
    Due(String),
}

/// The report for a due expression the date parser did not take.
pub open spec fn due_msg() -> Seq<char> {
    "Unable to parse due date. Please try again."@
}

/// Builds a new item from command-line input and encodes its stored line.
/// The priority argument must name an integer between 0 and 9; the due
/// expression is resolved against the current local time, so whether it
/// parses is the clock's and the date parser's to decide. Nothing is
/// written here; the caller appends the returned line to the store.
pub fn new_item(text: String, priority: Option<String>, due: Option<String>) -> (r: Result<
    (TodoItem, String),
    NewItemError,
>)
    ensures
        r matches Ok(pair) ==> {
            &&& pair.0@.inv()
            &&& pair.0@.text == text@
            &&& match priority {
                Some(ps) => priority_arg_ok(ps@) && (pair.0@.priority matches Some(pv) && pv as int
                    == literal_value(ps@)),
                None => pair.0@.priority is None,
            }
            &&& (due is None ==> pair.0@.due is None)
            &&& (due is Some ==> (pair.0@.due matches Some(d) && d.valid()))
            &&& pair.1@ == spec_encode(pair.0@)
        },
        r matches Err(e) ==> match e {
            NewItemError::Priority(m) => priority matches Some(ps) && !priority_arg_ok(ps@) && m@
                == (if !parses_as_i8(ps@) {
                not_int_msg()
            } else {
                bounds_msg()
            }),
            NewItemError::Due(m) => due is Some && m@ == due_msg() && (priority matches Some(ps)
                ==> priority_arg_ok(ps@)),
        },
        (match priority {
            Some(ps) => priority_arg_ok(ps@),
            None => true,
        }) && due is None ==> r is Ok,
        (match priority {
            Some(ps) => priority_arg_ok(ps@),
            None => true,
        }) && (match due {
            Some(ds) => !crate::nldate::due_arg_safe(ds@),
            None => false,
        }) ==> (r matches Err(e) && match e {
            NewItemError::Due(m) => m@ == due_msg(),
            NewItemError::Priority(_) => false,
        }),
{
    let pri: Option<i8> = match &priority {
        Some(ps) => match parse_priority_arg(ps.as_str()) {
            Ok(p) => Some(p),
            Err(m) => {
                return Err(NewItemError::Priority(m));
            },
        },
        None => None,
    };
    let due_date: Option<DueDate> = match &due {
        Some(ds) => match parse_due(ds.as_str()) {
            Some(d) => Some(d),
            None => {
                return Err(
                    NewItemError::Due(String::from_str("Unable to parse due date. Please try again.")),
                );
            },
        },
        None => None,
    };
    let it = TodoItem { priority: pri, item: text, due: due_date };
    let line = it.encode();
    Ok((it, line))
}

} // verus!
