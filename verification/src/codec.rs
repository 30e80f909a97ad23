//! The line codec: one item per line, in the form `[PRIORITY]{DUE} TEXT`.
//!
//! The priority is empty or one decimal digit. The due part is empty or a
//! timestamp `YYYY-MM-DD HH:MM:SS.fffffffff +HH:MM` with nine fractional
//! digits and a colon-separated UTC offset. The text runs to the end of the
//! line and is restricted by the read grammar to word characters — ASCII
//! letters, digits, `_` and `|`, and every character beyond ASCII — and
//! blanks; ASCII punctuation stays out. The encoder writes any text
//! unchanged; only a text within the read grammar survives the round trip,
//! a constraint of the format itself.

use vstd::prelude::*;
use crate::date::{DueDate, days_in_month};
use crate::digits::{
    all_digits,
    digit_char,
    digit_val,
    four_digits,
    is_digit,
    nine_digits,
    two_digits,
    val2,
    val4,
    val9,
    digit_str,
    push2,
    push4,
    push9,
    lemma_two_digits_val,
    lemma_four_digits_val,
    lemma_nine_digits_val,
};
use crate::item::{ItemModel, TodoItem};

verus! {

/// Characters the read grammar accepts in the text part: ASCII word
/// characters and blanks, and every character beyond ASCII — the grammar
/// does not tell a word character from a symbol there.
pub open spec fn is_text_char(c: char) -> bool {
    ||| ('0' <= c && c <= '9')
    ||| ('A' <= c && c <= 'Z')
    ||| ('a' <= c && c <= 'z')
    ||| c == '_'
    ||| c == '|'
    ||| c == ' '
    ||| c == '\t'
    ||| c as u32 >= 128
}

/// Every character of `s` is accepted in the text part.
pub open spec fn text_ok(s: Seq<char>) -> bool {
    forall|i: int| 0 <= i < s.len() ==> is_text_char(#[trigger] s[i])
}

/// The written form of a due timestamp, 36 characters.
pub open spec fn ts_form(d: DueDate) -> Seq<char> {
    four_digits(d.year as int) + seq!['-'] + two_digits(d.month as int) + seq!['-'] + two_digits(
        d.day as int,
    ) + seq![' '] + two_digits(d.hour as int) + seq![':'] + two_digits(d.minute as int) + seq![':']
        + two_digits(d.second as int) + seq!['.'] + nine_digits(d.nanos as int) + seq![' '] + seq![
        if d.off_neg {
            '-'
        } else {
            '+'
        },
    ] + two_digits(d.off_hour as int) + seq![':'] + two_digits(d.off_minute as int)
}

/// The timestamp shape the read grammar matches: digits and separators in
/// fixed positions. The character between seconds and fraction and the
/// offset sign are matched loosely, as the grammar has them; `ts_valid`
/// tightens both.
pub open spec fn ts_shape(ts: Seq<char>) -> bool {
    &&& ts.len() == 36
    &&& all_digits(ts, 0, 4)
    &&& ts[4] == '-'
    &&& all_digits(ts, 5, 7)
    &&& ts[7] == '-'
    &&& all_digits(ts, 8, 10)
    &&& ts[10] == ' '
    &&& all_digits(ts, 11, 13)
    &&& ts[13] == ':'
    &&& all_digits(ts, 14, 16)
    &&& ts[16] == ':'
    &&& all_digits(ts, 17, 19)
    &&& all_digits(ts, 20, 29)
    &&& ts[29] == ' '
    &&& (ts[30] == '+' || ts[30] == '-' || ts[30] == '|')
    &&& all_digits(ts, 31, 33)
    &&& ts[33] == ':'
    &&& all_digits(ts, 34, 36)
}

/// The timestamp a matched shape denotes.
pub open spec fn ts_fields(ts: Seq<char>) -> DueDate {
    DueDate {
        year: val4(ts, 0) as u16,
        month: val2(ts, 5) as u8,
        day: val2(ts, 8) as u8,
        hour: val2(ts, 11) as u8,
        minute: val2(ts, 14) as u8,
        second: val2(ts, 17) as u8,
        nanos: val9(ts, 20) as u32,
        off_neg: ts[30] == '-',
        off_hour: val2(ts, 31) as u8,
        off_minute: val2(ts, 34) as u8,
    }
}

/// A matched shape that also names a real calendar point: literal dot and
/// sign, and fields in range. A shape that fails this is kept as a line but
/// its due field is dropped.
pub open spec fn ts_valid(ts: Seq<char>) -> bool {
    &&& ts[19] == '.'
    &&& (ts[30] == '+' || ts[30] == '-')
    &&& ts_fields(ts).valid()
}

/// The encoded line of an item model.
pub open spec fn spec_encode(m: ItemModel) -> Seq<char> {
    seq!['['] + (match m.priority {
        Some(p) => seq![digit_char(p as int)],
        None => Seq::<char>::empty(),
    }) + seq![']', '{'] + (match m.due {
        Some(d) => ts_form(d),
        None => Seq::<char>::empty(),
    }) + seq!['}', ' '] + m.text
}

/// Reads the priority part at the head of `s`: the value and the number of
/// characters consumed, or nothing when the shape does not match.
pub open spec fn parse_priority(s: Seq<char>) -> Option<(Option<i8>, int)> {
    if s.len() >= 2 && s[0] == '[' && s[1] == ']' {
        Some((None::<i8>, 2int))
    } else if s.len() >= 3 && s[0] == '[' && is_digit(s[1]) && s[2] == ']' {
        Some((Some(digit_val(s[1]) as i8), 3int))
    } else {
        None
    }
}

/// Reads the due part of `s` starting at `i`: the value and the number of
/// characters consumed, or nothing when the shape does not match. A shaped
/// timestamp that is not `ts_valid` consumes its characters but yields no
/// due value, the lenient read the format calls for.
pub open spec fn parse_due(s: Seq<char>, i: int) -> Option<(Option<DueDate>, int)> {
    if s.len() >= i + 2 && s[i] == '{' && s[i + 1] == '}' {
        Some((None::<DueDate>, 2int))
    } else if s.len() >= i + 38 && s[i] == '{' && ts_shape(s.subrange(i + 1, i + 37)) && s[i + 37]
        == '}' {
        let ts = s.subrange(i + 1, i + 37);
        Some(
            (
                if ts_valid(ts) {
                    Some(ts_fields(ts))
                } else {
                    None::<DueDate>
                },
                38int,
            ),
        )
    } else {
        None
    }
}

/// Decodes one stored line. The whole line must match the grammar
/// `[PRIORITY]{DUE} TEXT`; a line that does not is skipped by the loader.
pub open spec fn spec_decode(s: Seq<char>) -> Option<ItemModel> {
    match parse_priority(s) {
        None => None,
        Some((pri, n1)) => match parse_due(s, n1) {
            None => None,
            Some((due, n2)) => {
                if s.len() >= n1 + n2 + 1 && s[n1 + n2] == ' ' && text_ok(s.skip(n1 + n2 + 1)) {
                    Some(ItemModel { priority: pri, due, text: s.skip(n1 + n2 + 1) })
                } else {
                    None
                }
            },
        },
    }
}

/// Appends the written form of a due timestamp.
fn push_ts(s: &mut String, d: &DueDate)
    requires
        d.valid(),
    ensures
        final(s)@ == old(s)@ + ts_form(*d),
{
    let ghost s0 = s@;
    push4(s, d.year);
    s.append("-");
    push2(s, d.month);
    s.append("-");
    push2(s, d.day);
    s.append(" ");
    push2(s, d.hour);
    s.append(":");
    push2(s, d.minute);
    s.append(":");
    push2(s, d.second);
    s.append(".");
    push9(s, d.nanos);
    s.append(" ");
    s.append(if d.off_neg { "-" } else { "+" });
    push2(s, d.off_hour);
    s.append(":");
    push2(s, d.off_minute);
    proof {
        reveal_strlit("-");
        reveal_strlit(" ");
        reveal_strlit(":");
        reveal_strlit(".");
        reveal_strlit("+");
        assert(s@ =~= s0 + ts_form(*d));
    }
}

impl TodoItem {
    /// Encodes this item as one stored line, without the terminator.
    pub fn encode(&self) -> (r: String)
        requires
            self@.inv(),
        ensures
            r@ == spec_encode(self@),
    {
        let mut s = String::new();
        s.append("[");
        if let Some(p) = self.priority {
            s.append(digit_str(p as u8));
        }
        s.append("]{");
        if let Some(d) = &self.due {
            push_ts(&mut s, d);
        }
        s.append("} ");
        s.append(self.item.as_str());
        proof {
            reveal_strlit("[");
            reveal_strlit("]{");
            reveal_strlit("} ");
            assert(s@ =~= spec_encode(self@));
        }
        s
    }
}

/// The written form of a valid timestamp matches the read shape, is valid,
/// and reads back to the same fields.
#[verifier::rlimit(60)]
pub proof fn lemma_ts_form(d: DueDate)
    requires
        d.valid(),
    ensures
        ts_form(d).len() == 36,
        ts_shape(ts_form(d)),
        ts_valid(ts_form(d)),
        ts_fields(ts_form(d)) == d,
{
    let ts = ts_form(d);
    lemma_four_digits_val(d.year as int);
    lemma_two_digits_val(d.month as int);
    lemma_two_digits_val(d.day as int);
    lemma_two_digits_val(d.hour as int);
    lemma_two_digits_val(d.minute as int);
    lemma_two_digits_val(d.second as int);
    lemma_nine_digits_val(d.nanos as int);
    lemma_two_digits_val(d.off_hour as int);
    lemma_two_digits_val(d.off_minute as int);
    assert forall|k: int| 0 <= k < 4 implies is_digit(#[trigger] ts[k]) by {
        assert(ts[k] == four_digits(d.year as int)[k]);
    }
    assert forall|k: int| 5 <= k < 7 implies is_digit(#[trigger] ts[k]) by {
        assert(ts[k] == two_digits(d.month as int)[k - 5]);
    }
    assert forall|k: int| 8 <= k < 10 implies is_digit(#[trigger] ts[k]) by {
        assert(ts[k] == two_digits(d.day as int)[k - 8]);
    }
    assert forall|k: int| 11 <= k < 13 implies is_digit(#[trigger] ts[k]) by {
        assert(ts[k] == two_digits(d.hour as int)[k - 11]);
    }
    assert forall|k: int| 14 <= k < 16 implies is_digit(#[trigger] ts[k]) by {
        assert(ts[k] == two_digits(d.minute as int)[k - 14]);
    }
    assert forall|k: int| 17 <= k < 19 implies is_digit(#[trigger] ts[k]) by {
        assert(ts[k] == two_digits(d.second as int)[k - 17]);
    }
    assert forall|k: int| 20 <= k < 29 implies is_digit(#[trigger] ts[k]) by {
        assert(ts[k] == nine_digits(d.nanos as int)[k - 20]);
    }
    assert forall|k: int| 31 <= k < 33 implies is_digit(#[trigger] ts[k]) by {
        assert(ts[k] == two_digits(d.off_hour as int)[k - 31]);
    }
    assert forall|k: int| 34 <= k < 36 implies is_digit(#[trigger] ts[k]) by {
        assert(ts[k] == two_digits(d.off_minute as int)[k - 34]);
    }
    assert(val4(ts, 0) == val4(four_digits(d.year as int), 0));
    assert(val2(ts, 5) == val2(two_digits(d.month as int), 0));
    assert(val2(ts, 8) == val2(two_digits(d.day as int), 0));
    assert(val2(ts, 11) == val2(two_digits(d.hour as int), 0));
    assert(val2(ts, 14) == val2(two_digits(d.minute as int), 0));
    assert(val2(ts, 17) == val2(two_digits(d.second as int), 0));
    assert(val9(ts, 20) == val9(nine_digits(d.nanos as int), 0));
    assert(val2(ts, 31) == val2(two_digits(d.off_hour as int), 0));
    assert(val2(ts, 34) == val2(two_digits(d.off_minute as int), 0));
}

/// The round-trip law: a well-formed item whose text lies within the read
/// grammar decodes from its own encoding unchanged.
#[verifier::rlimit(60)]
pub proof fn lemma_round_trip(m: ItemModel)
    requires
        m.inv(),
        text_ok(m.text),
    ensures
        spec_decode(spec_encode(m)) == Some(m),
{
    let s = spec_encode(m);
    let n1: int = match m.priority {
        Some(p) => 3,
        None => 2,
    };
    if let Some(p) = m.priority {
        crate::digits::lemma_digit_char(p as int);
        assert(s[1] == digit_char(p as int));
        assert(parse_priority(s) == Some((Some(p), 3int)));
    } else {
        assert(parse_priority(s) == Some((None::<i8>, 2int)));
    }
    let n2: int = match m.due {
        Some(d) => 38,
        None => 2,
    };
    if let Some(d) = m.due {
        lemma_ts_form(d);
        let ts = ts_form(d);
        assert(s[n1] == '{');
        assert(s[n1 + 37] == '}');
        assert(s.subrange(n1 + 1, n1 + 37) =~= ts);
        assert(s[n1 + 1] == ts[0]);
        assert(is_digit(ts[0]));
        assert(parse_due(s, n1) == Some((Some(d), 38int)));
    } else {
        assert(s[n1] == '{');
        assert(s[n1 + 1] == '}');
        assert(parse_due(s, n1) == Some((None::<DueDate>, 2int)));
    }
    assert(s[n1 + n2] == ' ');
    assert(s.skip(n1 + n2 + 1) =~= m.text);
    assert(spec_decode(s) == Some(m));
}

/// Executable check of `is_digit`.
fn is_digit_x(c: char) -> (r: bool)
    ensures
        r == is_digit(c),
{
    '0' <= c && c <= '9'
}

/// Executable check of `is_text_char`.
fn is_text_char_x(c: char) -> (r: bool)
    ensures
        r == is_text_char(c),
{
    ('0' <= c && c <= '9') || ('A' <= c && c <= 'Z') || ('a' <= c && c <= 'z') || c == '_' || c
        == '|' || c == ' ' || c == '\t' || c as u32 >= 128
}

/// Executable `digit_val`.
fn digit_val_x(c: char) -> (r: u8)
    requires
        is_digit(c),
    ensures
        r as int == digit_val(c),
        r <= 9,
{
    (c as u32 - 48) as u8
}

/// True when the characters of `line` in `[from, to)` are all digits.
fn check_digits(line: &str, from: usize, to: usize) -> (r: bool)
    requires
        from <= to <= line@.len(),
    ensures
        r == all_digits(line@, from as int, to as int),
{
    let mut k = from;
    while k < to
        invariant
            from <= k <= to <= line@.len(),
            all_digits(line@, from as int, k as int),
        decreases to - k,
    {
        if !is_digit_x(line.get_char(k)) {
            return false;
        }
        k += 1;
    }
    true
}

/// A window of the 36-character timestamp holds digits exactly when the
/// same window of the surrounding line does.
proof fn lemma_digits_window(s: Seq<char>, base: int, a: int, b: int)
    requires
        0 <= base,
        base + 36 <= s.len(),
        0 <= a <= b <= 36,
    ensures
        all_digits(s.subrange(base, base + 36), a, b) == all_digits(s, base + a, base + b),
{
    let ts = s.subrange(base, base + 36);
    if all_digits(s, base + a, base + b) {
        assert forall|k: int| a <= k < b implies is_digit(#[trigger] ts[k]) by {
            assert(ts[k] == s[base + k]);
            assert(is_digit(s[base + k]));
        }
    }
    if all_digits(ts, a, b) {
        assert forall|j: int| base + a <= j < base + b implies is_digit(#[trigger] s[j]) by {
            assert(ts[j - base] == s[j]);
            assert(is_digit(ts[j - base]));
        }
    }
}

/// Reads two digit characters of `line` starting at `i`.
fn read2(line: &str, i: usize) -> (r: u8)
    requires
        line@.len() <= usize::MAX,
        i + 2 <= line@.len(),
        all_digits(line@, i as int, i as int + 2),
    ensures
        r as int == val2(line@, i as int),
        r <= 99,
{
    digit_val_x(line.get_char(i)) * 10 + digit_val_x(line.get_char(i + 1))
}

/// Reads four digit characters of `line` starting at `i`.
fn read4(line: &str, i: usize) -> (r: u16)
    requires
        line@.len() <= usize::MAX,
        i + 4 <= line@.len(),
        all_digits(line@, i as int, i as int + 4),
    ensures
        r as int == val4(line@, i as int),
        r <= 9999,
{
    digit_val_x(line.get_char(i)) as u16 * 1000 + digit_val_x(line.get_char(i + 1)) as u16 * 100
        + digit_val_x(line.get_char(i + 2)) as u16 * 10 + digit_val_x(line.get_char(i + 3)) as u16
}

/// Reads nine digit characters of `line` starting at `i`.
fn read9(line: &str, i: usize) -> (r: u32)
    requires
        line@.len() <= usize::MAX,
        i + 9 <= line@.len(),
        all_digits(line@, i as int, i as int + 9),
    ensures
        r as int == val9(line@, i as int),
        r <= 999_999_999,
{
    digit_val_x(line.get_char(i)) as u32 * 100_000_000 + digit_val_x(line.get_char(i + 1)) as u32
        * 10_000_000 + digit_val_x(line.get_char(i + 2)) as u32 * 1_000_000 + digit_val_x(
        line.get_char(i + 3),
    ) as u32 * 100_000 + digit_val_x(line.get_char(i + 4)) as u32 * 10_000 + digit_val_x(
        line.get_char(i + 5),
    ) as u32 * 1000 + digit_val_x(line.get_char(i + 6)) as u32 * 100 + digit_val_x(
        line.get_char(i + 7),
    ) as u32 * 10 + digit_val_x(line.get_char(i + 8)) as u32
}

impl TodoItem {
    /// Decodes one stored line, or nothing when the line does not match the
    /// grammar. A matched line whose due timestamp names no real calendar
    /// point keeps its text and priority and drops the due field.
    pub fn decode(line: &str) -> (r: Option<TodoItem>)
        ensures
            match r {
                Some(it) => spec_decode(line@) == Some(it@),
                None => spec_decode(line@) is None,
            },
    {
        let n = line.unicode_len();
        if n < 2 || line.get_char(0) != '[' {
            return None;
        }
        let c1 = line.get_char(1);
        let pri: Option<i8>;
        let p: usize;
        if c1 == ']' {
            pri = None;
            p = 2;
        } else if is_digit_x(c1) && n >= 3 && line.get_char(2) == ']' {
            pri = Some(digit_val_x(c1) as i8);
            p = 3;
        } else {
            return None;
        }
        assert(parse_priority(line@) == Some((pri, p as int)));
        if n < p + 2 || line.get_char(p) != '{' {
            return None;
        }
        let due: Option<DueDate>;
        let q: usize;
        if line.get_char(p + 1) == '}' {
            due = None;
            q = 2;
        } else {
            if n < p + 38 {
                return None;
            }
            let shape_ok = check_digits(line, p + 1, p + 5) && line.get_char(p + 5) == '-'
                && check_digits(line, p + 6, p + 8) && line.get_char(p + 8) == '-' && check_digits(
                line,
                p + 9,
                p + 11,
            ) && line.get_char(p + 11) == ' ' && check_digits(line, p + 12, p + 14)
                && line.get_char(p + 14) == ':' && check_digits(line, p + 15, p + 17)
                && line.get_char(p + 17) == ':' && check_digits(line, p + 18, p + 20)
                && check_digits(line, p + 21, p + 30) && line.get_char(p + 30) == ' ';
            let sign = line.get_char(p + 31);
            let shape_ok = shape_ok && (sign == '+' || sign == '-' || sign == '|') && check_digits(
                line,
                p + 32,
                p + 34,
            ) && line.get_char(p + 34) == ':' && check_digits(line, p + 35, p + 37)
                && line.get_char(p + 37) == '}';
            let ghost ts = line@.subrange(p + 1, p + 37);
            proof {
                lemma_digits_window(line@, p + 1, 0, 4);
                lemma_digits_window(line@, p + 1, 5, 7);
                lemma_digits_window(line@, p + 1, 8, 10);
                lemma_digits_window(line@, p + 1, 11, 13);
                lemma_digits_window(line@, p + 1, 14, 16);
                lemma_digits_window(line@, p + 1, 17, 19);
                lemma_digits_window(line@, p + 1, 20, 29);
                lemma_digits_window(line@, p + 1, 31, 33);
                lemma_digits_window(line@, p + 1, 34, 36);
                assert(ts[4] == line@[p + 5]);
                assert(ts[7] == line@[p + 8]);
                assert(ts[10] == line@[p + 11]);
                assert(ts[13] == line@[p + 14]);
                assert(ts[16] == line@[p + 17]);
                assert(ts[29] == line@[p + 30]);
                assert(ts[30] == line@[p + 31]);
                assert(ts[33] == line@[p + 34]);
                assert(ts[19] == line@[p + 20]);
                assert(shape_ok == (ts_shape(ts) && line@[p + 37] == '}'));
            }
            if !shape_ok {
                return None;
            }
            let dd = DueDate {
                year: read4(line, p + 1),
                month: read2(line, p + 6),
                day: read2(line, p + 9),
                hour: read2(line, p + 12),
                minute: read2(line, p + 15),
                second: read2(line, p + 18),
                nanos: read9(line, p + 21),
                off_neg: sign == '-',
                off_hour: read2(line, p + 32),
                off_minute: read2(line, p + 35),
            };
            assert(dd == ts_fields(ts));
            let dot = line.get_char(p + 20);
            due = if dot == '.' && (sign == '+' || sign == '-') && dd.valid_x() {
                Some(dd)
            } else {
                None
            };
            assert(due == (if ts_valid(ts) {
                Some(ts_fields(ts))
            } else {
                None::<DueDate>
            }));
            q = 38;
        }
        assert(parse_due(line@, p as int) == Some((due, q as int)));
        let t = p + q;
        if n < t + 1 || line.get_char(t) != ' ' {
            return None;
        }
        let ghost tt = line@.skip(t + 1 as int);
        let mut k = t + 1;
        while k < n
            invariant
                t + 1 <= k <= n == line@.len(),
                n <= usize::MAX,
                t == p + q,
                tt == line@.skip(t + 1 as int),
                parse_priority(line@) == Some((pri, p as int)),
                parse_due(line@, p as int) == Some((due, q as int)),
                line@[t as int] == ' ',
                forall|j: int| t + 1 <= j < k ==> is_text_char(#[trigger] line@[j]),
            decreases n - k,
        {
            if !is_text_char_x(line.get_char(k)) {
                proof {
                    assert(tt[k - (t + 1)] == line@[k as int]);
                    assert(!text_ok(tt));
                }
                return None;
            }
            k += 1;
        }
        proof {
            assert forall|i: int| 0 <= i < tt.len() implies is_text_char(#[trigger] tt[i]) by {
                assert(tt[i] == line@[t + 1 + i]);
            }
        }
        let text = line.substring_char(t + 1, n);
        let it = TodoItem { priority: pri, item: String::from_str(text), due };
        proof {
            assert(it@.text =~= line@.skip(t + 1 as int));
        }
        Some(it)
    }
}

/// The models of the stored lines that decode, in store order; lines that
/// do not match the grammar are passed over.
pub open spec fn decode_all(lines: Seq<Seq<char>>) -> Seq<ItemModel>
    decreases lines.len(),
{
    if lines.len() == 0 {
        Seq::<ItemModel>::empty()
    } else {
        decode_all(lines.drop_last()) + (match spec_decode(lines.last()) {
            Some(m) => seq![m],
            None => Seq::<ItemModel>::empty(),
        })
    }
}

/// The models of a sequence of items.
pub open spec fn models(s: Seq<TodoItem>) -> Seq<ItemModel> {
    s.map_values(|it: TodoItem| it@)
}

/// A store whose lines all decode loses none of them.
pub proof fn lemma_all_lines_decode(lines: Seq<Seq<char>>)
    requires
        forall|j: int| 0 <= j < lines.len() ==> spec_decode(#[trigger] lines[j]) is Some,
    ensures
        decode_all(lines).len() == lines.len(),
    decreases lines.len(),
{
    if lines.len() > 0 {
        lemma_all_lines_decode(lines.drop_last());
    }
}

/// Corruption tolerance: one line that does not decode, among others that
/// all do, costs exactly that one line; the rest of the store is kept.
pub proof fn lemma_malformed_line_tolerated(lines: Seq<Seq<char>>, bad: int)
    requires
        0 <= bad < lines.len(),
        spec_decode(lines[bad]) is None,
        forall|j: int| 0 <= j < lines.len() && j != bad ==> spec_decode(#[trigger] lines[j])
            is Some,
    ensures
        decode_all(lines).len() == lines.len() - 1,
    decreases lines.len(),
{
    let pre = lines.drop_last();
    if bad == lines.len() - 1 {
        lemma_all_lines_decode(pre);
    } else {
        lemma_malformed_line_tolerated(pre, bad);
    }
}

/// Everything the decoder yields is well formed: a decoded priority is one
/// digit, a decoded due timestamp names a real calendar point.
pub proof fn lemma_decode_all_inv(lines: Seq<Seq<char>>)
    ensures
        forall|i: int|
            0 <= i < decode_all(lines).len() ==> (#[trigger] decode_all(lines)[i]).inv(),
    decreases lines.len(),
{
    if lines.len() > 0 {
        lemma_decode_all_inv(lines.drop_last());
        match spec_decode(lines.last()) {
            Some(m) => {
                assert(m.inv());
                assert(decode_all(lines) == decode_all(lines.drop_last()) + seq![m]);
            },
            None => {
                assert(decode_all(lines) == decode_all(lines.drop_last())
                    + Seq::<ItemModel>::empty());
            },
        }
    }
}

impl TodoItem {
    /// Decodes every stored line that matches the grammar, in store order;
    /// the loader never fails on a malformed line.
    pub fn load_items(lines: &Vec<String>) -> (r: Vec<TodoItem>)
        ensures
            models(r@) == decode_all(lines.deep_view()),
    {
        let ghost lv = lines.deep_view();
        let mut out: Vec<TodoItem> = Vec::new();
        let mut i: usize = 0;
        while i < lines.len()
            invariant
                i <= lines.len(),
                lv == lines.deep_view(),
                models(out@) == decode_all(lv.take(i as int)),
            decreases lines.len() - i,
        {
            let ghost out0 = out@;
            if let Some(it) = TodoItem::decode(lines[i].as_str()) {
                out.push(it);
            }
            proof {
                assert(lv.take(i + 1).drop_last() =~= lv.take(i as int));
                assert(lv.take(i + 1).last() == lines@[i as int]@);
                if spec_decode(lines@[i as int]@) is Some {
                    assert(models(out@) =~= models(out0) + seq![out@.last()@]);
                } else {
                    assert(out@ == out0);
                }
                assert(models(out@) =~= decode_all(lv.take(i + 1)));
            }
            i += 1;
        }
        proof {
            assert(lv.take(lines@.len() as int) =~= lv);
        }
        out
    }
}

} // verus!
