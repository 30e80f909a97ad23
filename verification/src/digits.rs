//! Decimal digits as characters: the base of the line codec.

use vstd::prelude::*;

verus! {

/// The ten decimal digit characters.
pub open spec fn is_digit(c: char) -> bool {
    '0' <= c && c <= '9'
}

/// Numeric value of a digit character.
pub open spec fn digit_val(c: char) -> int {
    c as int - '0' as int
}

/// The digit character with value `d` (meaningful for `0 <= d <= 9`).
pub open spec fn digit_char(d: int) -> char {
    ('0' as int + d) as char
}

pub proof fn lemma_digit_char(d: int)
    requires
        0 <= d <= 9,
    ensures
        is_digit(digit_char(d)),
        digit_val(digit_char(d)) == d,
{
    assert('0' as int == 48);
    assert(digit_char(d) as int == 48 + d);
}

/// The digit character standing at decimal weight `w` in `n`.
pub open spec fn dig(n: int, w: int) -> char {
    digit_char((n / w) % 10)
}

/// `n` written with exactly two decimal digits.
pub open spec fn two_digits(n: int) -> Seq<char> {
    seq![dig(n, 10), dig(n, 1)]
}

/// `n` written with exactly four decimal digits.
pub open spec fn four_digits(n: int) -> Seq<char> {
    seq![dig(n, 1000), dig(n, 100), dig(n, 10), dig(n, 1)]
}

/// `n` written with exactly nine decimal digits.
pub open spec fn nine_digits(n: int) -> Seq<char> {
    seq![
        dig(n, 100_000_000),
        dig(n, 10_000_000),
        dig(n, 1_000_000),
        dig(n, 100_000),
        dig(n, 10_000),
        dig(n, 1000),
        dig(n, 100),
        dig(n, 10),
        dig(n, 1),
    ]
}

/// Every character of `s` in `[from, to)` is a decimal digit.
pub open spec fn all_digits(s: Seq<char>, from: int, to: int) -> bool {
    forall|k: int| from <= k < to ==> is_digit(#[trigger] s[k])
}

/// Value of the two digit characters of `s` starting at `i`.
pub open spec fn val2(s: Seq<char>, i: int) -> int {
    digit_val(s[i]) * 10 + digit_val(s[i + 1])
}

/// Value of the four digit characters of `s` starting at `i`.
pub open spec fn val4(s: Seq<char>, i: int) -> int {
    digit_val(s[i]) * 1000 + digit_val(s[i + 1]) * 100 + digit_val(s[i + 2]) * 10 + digit_val(
        s[i + 3],
    )
}

/// Value of the nine digit characters of `s` starting at `i`.
pub open spec fn val9(s: Seq<char>, i: int) -> int {
    digit_val(s[i]) * 100_000_000 + digit_val(s[i + 1]) * 10_000_000 + digit_val(s[i + 2])
        * 1_000_000 + digit_val(s[i + 3]) * 100_000 + digit_val(s[i + 4]) * 10_000 + digit_val(
        s[i + 5],
    ) * 1000 + digit_val(s[i + 6]) * 100 + digit_val(s[i + 7]) * 10 + digit_val(s[i + 8])
}

/// Each digit written by `dig` is a digit character carrying the expected
/// place value.
pub proof fn lemma_dig(n: int, w: int)
    requires
        n >= 0,
        w >= 1,
    ensures
        is_digit(dig(n, w)),
        digit_val(dig(n, w)) == (n / w) % 10,
{
    lemma_digit_char((n / w) % 10);
}

/// Reading back the two digit characters of `n` yields `n`.
pub proof fn lemma_two_digits_val(n: int)
    requires
        0 <= n < 100,
    ensures
        all_digits(two_digits(n), 0, 2),
        val2(two_digits(n), 0) == n,
{
    lemma_dig(n, 10);
    lemma_dig(n, 1);
}

/// The place-value identity behind reading digits back: the digit of `n` at
/// weight `w`, multiplied by `w`, is the difference of two truncations.
proof fn lemma_place(n: int, w: int)
    requires
        n >= 0,
        w >= 1,
    ensures
        ((n / w) % 10) * w == (n / w) * w - (n / (w * 10)) * (w * 10),
{
    vstd::arithmetic::div_mod::lemma_div_denominator(n, w, 10);
    vstd::arithmetic::div_mod::lemma_fundamental_div_mod(n / w, 10);
    let q = n / w;
    let q10 = n / (w * 10);
    let r = q % 10;
    assert(r * w == q * w - q10 * (w * 10)) by (nonlinear_arith)
        requires
            q == 10 * q10 + r,
    ;
}

/// Reading back the four digit characters of `n` yields `n`.
pub proof fn lemma_four_digits_val(n: int)
    requires
        0 <= n < 10000,
    ensures
        all_digits(four_digits(n), 0, 4),
        val4(four_digits(n), 0) == n,
{
    lemma_dig(n, 1000);
    lemma_dig(n, 100);
    lemma_dig(n, 10);
    lemma_dig(n, 1);
    lemma_place(n, 1000);
    lemma_place(n, 100);
    lemma_place(n, 10);
    lemma_place(n, 1);
    assert(n / 10000 == 0);
    assert(n / 1 == n);
}

/// Reading back the nine digit characters of `n` yields `n`.
pub proof fn lemma_nine_digits_val(n: int)
    requires
        0 <= n < 1_000_000_000,
    ensures
        all_digits(nine_digits(n), 0, 9),
        val9(nine_digits(n), 0) == n,
{
    lemma_dig(n, 100_000_000);
    lemma_dig(n, 10_000_000);
    lemma_dig(n, 1_000_000);
    lemma_dig(n, 100_000);
    lemma_dig(n, 10_000);
    lemma_dig(n, 1000);
    lemma_dig(n, 100);
    lemma_dig(n, 10);
    lemma_dig(n, 1);
    lemma_place(n, 100_000_000);
    lemma_place(n, 10_000_000);
    lemma_place(n, 1_000_000);
    lemma_place(n, 100_000);
    lemma_place(n, 10_000);
    lemma_place(n, 1000);
    lemma_place(n, 100);
    lemma_place(n, 10);
    lemma_place(n, 1);
    assert(n / 1_000_000_000 == 0);
    assert(n / 1 == n);
}

/// The digit character `c` as an executable value.
pub fn digit_str(d: u8) -> (r: &'static str)
    requires
        d <= 9,
    ensures
        r@ =~= seq![digit_char(d as int)],
        r@ == seq![digit_char(d as int)],
{
    proof {
        reveal_strlit("0");
        reveal_strlit("1");
        reveal_strlit("2");
        reveal_strlit("3");
        reveal_strlit("4");
        reveal_strlit("5");
        reveal_strlit("6");
        reveal_strlit("7");
        reveal_strlit("8");
        reveal_strlit("9");
    }
    match d {
        0 => "0",
        1 => "1",
        2 => "2",
        3 => "3",
        4 => "4",
        5 => "5",
        6 => "6",
        7 => "7",
        8 => "8",
        _ => "9",
    }
}

/// Appends `n` as exactly two decimal digits.
pub fn push2(s: &mut String, n: u8)
    requires
        n <= 99,
    ensures
        final(s)@ == old(s)@ + two_digits(n as int),
{
    let ghost s0 = s@;
    s.append(digit_str(n / 10));
    s.append(digit_str(n % 10));
    proof {
        assert(s@ =~= s0 + two_digits(n as int));
    }
}

/// Appends `n` as exactly four decimal digits.
pub fn push4(s: &mut String, n: u16)
    requires
        n <= 9999,
    ensures
        final(s)@ == old(s)@ + four_digits(n as int),
{
    let ghost s0 = s@;
    s.append(digit_str((n / 1000) as u8));
    s.append(digit_str((n / 100 % 10) as u8));
    s.append(digit_str((n / 10 % 10) as u8));
    s.append(digit_str((n % 10) as u8));
    proof {
        assert(s@ =~= s0 + four_digits(n as int));
    }
}

/// Appends `n` as exactly nine decimal digits.
pub fn push9(s: &mut String, n: u32)
    requires
        n <= 999_999_999,
    ensures
        final(s)@ == old(s)@ + nine_digits(n as int),
{
    let ghost s0 = s@;
    s.append(digit_str((n / 100_000_000) as u8));
    s.append(digit_str((n / 10_000_000 % 10) as u8));
    s.append(digit_str((n / 1_000_000 % 10) as u8));
    s.append(digit_str((n / 100_000 % 10) as u8));
    s.append(digit_str((n / 10_000 % 10) as u8));
    s.append(digit_str((n / 1000 % 10) as u8));
    s.append(digit_str((n / 100 % 10) as u8));
    s.append(digit_str((n / 10 % 10) as u8));
    s.append(digit_str((n % 10) as u8));
    proof {
        assert(s@ =~= s0 + nine_digits(n as int));
    }
}

} // verus!
