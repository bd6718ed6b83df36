//! Decimal numbers in text: reading digits and fixed-point numbers, and
//! writing a number in decimal.
//!
//! A number with a fraction is held in millionths: it is read to six
//! decimal places, and further digits are dropped.

use vstd::prelude::*;

verus! {

/// How many millionths make one.
pub const MICROS_PER_UNIT: u64 = 1_000_000;

/// How many decimal places of a fraction are kept.
pub const FRACTION_DIGITS: usize = 6;

/// Whether `c` is one of the ten decimal digits.
pub open spec fn is_digit(c: char) -> bool {
    '0' <= c && c <= '9'
}

/// The value of the decimal digit `c`.
pub open spec fn digit_value(c: char) -> nat
    recommends
        is_digit(c),
{
    (c as int - '0' as int) as nat
}

/// The index of the first character at or after `from` that is no digit
/// (the length of `s` if there is none).
pub open spec fn digits_end(s: Seq<char>, from: int) -> int
    decreases s.len() - from,
{
    if 0 <= from < s.len() && is_digit(s[from]) {
        digits_end(s, from + 1)
    } else {
        from
    }
}

/// The number written by the digits `s[from..to)`.
pub open spec fn digits_value(s: Seq<char>, from: int, to: int) -> nat
    decreases to - from,
{
    if to <= from {
        0
    } else {
        digits_value(s, from, to - 1) * 10 + digit_value(s[to - 1])
    }
}

/// Ten to the power `n`.
pub open spec fn pow10(n: nat) -> nat
    decreases n,
{
    if n == 0 {
        1
    } else {
        10 * pow10((n - 1) as nat)
    }
}

/// The index just behind the number that starts at `from`: one or more
/// digits, then optionally a point followed by one or more digits. It is
/// `from` itself where no number starts there.
pub open spec fn number_end(s: Seq<char>, from: int) -> int {
    let whole_end = digits_end(s, from);
    if whole_end > from && whole_end + 1 < s.len() && s[whole_end] == '.' && is_digit(
        s[whole_end + 1],
    ) {
        digits_end(s, whole_end + 1)
    } else {
        whole_end
    }
}

/// The fraction written by the digits `s[from..to)` behind a point, in
/// millionths: the first six digits count, the rest are dropped.
pub open spec fn fraction_micros(s: Seq<char>, from: int, to: int) -> nat {
    let kept = if to - from > 6 {
        from + 6
    } else {
        to
    };
    digits_value(s, from, kept) * pow10((6 - (kept - from)) as nat)
}

/// The number that starts at `from`, in millionths.
pub open spec fn number_micros(s: Seq<char>, from: int) -> nat {
    let whole_end = digits_end(s, from);
    let end = number_end(s, from);
    let fraction = if end > whole_end {
        fraction_micros(s, whole_end + 1, end)
    } else {
        0
    };
    digits_value(s, from, whole_end) * 1_000_000 + fraction
}

/// `n` as a `u64`, where it fits.
pub open spec fn checked_u64(n: nat) -> Option<u64> {
    if n <= u64::MAX {
        Some(n as u64)
    } else {
        None
    }
}

/// `n`, or the largest `u64` where `n` is larger.
pub open spec fn saturated_u64(n: nat) -> u64 {
    if n <= u64::MAX {
        n as u64
    } else {
        u64::MAX
    }
}

/// Whether all of `s` is one run of digits, and not empty.
pub open spec fn is_unsigned(s: Seq<char>) -> bool {
    s.len() > 0 && digits_end(s, 0) == s.len()
}

/// Whether all of `s` is one number, with or without a fraction.
pub open spec fn is_decimal(s: Seq<char>) -> bool {
    s.len() > 0 && number_end(s, 0) == s.len()
}

/// What `s` is as an unsigned 32-bit integer: digits only, at least one,
/// and a value that fits.
pub open spec fn unsigned_32(s: Seq<char>) -> Option<u32> {
    if is_unsigned(s) && digits_value(s, 0, s.len() as int) <= u32::MAX {
        Some(digits_value(s, 0, s.len() as int) as u32)
    } else {
        None
    }
}

/// What `s` is as a number in millionths: a decimal number that fits.
pub open spec fn decimal_micros(s: Seq<char>) -> Option<u64> {
    if is_decimal(s) {
        checked_u64(number_micros(s, 0))
    } else {
        None
    }
}

/// The character of the digit `d`.
pub open spec fn digit_char(d: nat) -> char
    recommends
        d < 10,
{
    ('0' as int + d) as char
}

/// `n` written in decimal, without leading zeros.
pub open spec fn decimal_text(n: nat) -> Seq<char>
    decreases n,
{
    if n < 10 {
        seq![digit_char(n)]
    } else {
        decimal_text(n / 10).push(digit_char(n % 10))
    }
}

/// A run of digits ends inside the text, holds digits only, and is
/// followed by a character that is no digit, or by nothing.
pub proof fn lemma_digits_end_bounds(s: Seq<char>, from: int)
    requires
        0 <= from <= s.len(),
    ensures
        from <= digits_end(s, from) <= s.len(),
        forall|k: int| from <= k < digits_end(s, from) ==> is_digit(#[trigger] s[k]),
        digits_end(s, from) < s.len() ==> !is_digit(s[digits_end(s, from)]),
    decreases s.len() - from,
{
    if from < s.len() && is_digit(s[from]) {
        lemma_digits_end_bounds(s, from + 1);
    }
}

/// A run of digits ends at the same place from wherever inside it one starts.
pub proof fn lemma_digits_end_step(s: Seq<char>, from: int, k: int)
    requires
        0 <= from <= k <= s.len(),
        forall|j: int| from <= j < k ==> is_digit(#[trigger] s[j]),
    ensures
        digits_end(s, from) == digits_end(s, k),
    decreases k - from,
{
    if from < k {
        assert(is_digit(s[from]));
        lemma_digits_end_step(s, from + 1, k);
    }
}

/// Whether `c` is a decimal digit.
pub fn is_digit_char(c: char) -> (r: bool)
    ensures
        r == is_digit(c),
{
    c >= '0' && c <= '9'
}

/// The value of the digit `c`.
fn digit_of(c: char) -> (d: u64)
    requires
        is_digit(c),
    ensures
        d == digit_value(c),
        d < 10,
{
    (c as u32 - '0' as u32) as u64
}

/// Reads the run of digits that starts at `from`. Returns where it ends and
/// its value, or no value where that does not fit in 64 bits.
pub fn scan_digits(s: &Vec<char>, from: usize) -> (r: (usize, Option<u64>))
    ensures
        r.0 == digits_end(s@, from as int),
        from <= r.0,
        from <= s.len() ==> r.0 <= s.len(),
        r.1 == checked_u64(digits_value(s@, from as int, r.0 as int)),
{
    if from > s.len() {
        return (from, Some(0));
    }
    let mut i: usize = from;
    let mut value: Option<u64> = Some(0);
    while i < s.len() && is_digit_char(s[i])
        invariant
            from <= i <= s.len(),
            forall|j: int| from <= j < i ==> is_digit(#[trigger] s@[j]),
            value == checked_u64(digits_value(s@, from as int, i as int)),
        decreases s.len() - i,
    {
        let d: u64 = digit_of(s[i]);
        let ghost before = digits_value(s@, from as int, i as int);
        assert(digits_value(s@, from as int, i + 1) == before * 10 + d);
        value =
        match value {
            Some(v) => {
                if v > (u64::MAX - d) / 10 {
                    None
                } else {
                    Some(v * 10 + d)
                }
            },
            None => None,
        };
        i += 1;
    }
    proof {
        lemma_digits_end_step(s@, from as int, i as int);
    }
    (i, value)
}

/// Reads the digits behind a decimal point, from `from` on. Returns where
/// they end and the fraction they write, in millionths.
pub fn scan_fraction(s: &Vec<char>, from: usize) -> (r: (usize, u64))
    ensures
        r.0 == digits_end(s@, from as int),
        from <= r.0,
        from <= s.len() ==> r.0 <= s.len(),
        r.1 == fraction_micros(s@, from as int, r.0 as int),
        r.1 < 1_000_000,
{
    if from > s.len() {
        assert(digits_value(s@, from as int, from as int) * pow10(6) == 0) by {
            assert(digits_value(s@, from as int, from as int) == 0);
        }
        return (from, 0);
    }
    let mut i: usize = from;
    let mut kept: usize = 0;
    let mut value: u64 = 0;
    while i < s.len() && is_digit_char(s[i])
        invariant
            from <= i <= s.len(),
            forall|j: int| from <= j < i ==> is_digit(#[trigger] s@[j]),
            kept <= 6,
            kept == if i - from > 6 { 6 } else { i - from },
            value == digits_value(s@, from as int, from + kept),
            value < pow10(kept as nat),
            pow10(kept as nat) <= 1_000_000,
        decreases s.len() - i,
    {
        if kept < FRACTION_DIGITS {
            let d: u64 = digit_of(s[i]);
            proof {
                reveal_with_fuel(pow10, 8);
                assert(digits_value(s@, from as int, from + kept + 1) == value * 10 + d);
            }
            value = value * 10 + d;
            kept += 1;
        }
        i += 1;
    }
    proof {
        lemma_digits_end_step(s@, from as int, i as int);
    }
    let ghost digits = value;
    let mut scale: usize = kept;
    proof {
        reveal_with_fuel(pow10, 2);
        assert(digits * pow10(0) == digits);
    }
    while scale < FRACTION_DIGITS
        invariant
            kept <= scale <= 6,
            value == digits * pow10((scale - kept) as nat),
            value < pow10(scale as nat),
            pow10(scale as nat) <= 1_000_000,
        decreases 6 - scale,
    {
        proof {
            reveal_with_fuel(pow10, 8);
            assert(digits * pow10((scale + 1 - kept) as nat) == digits * (10 * pow10(
                (scale - kept) as nat,
            )));
            assert(digits * (10 * pow10((scale - kept) as nat)) == 10 * (digits * pow10(
                (scale - kept) as nat,
            ))) by (nonlinear_arith);
        }
        value = value * 10;
        scale += 1;
    }
    proof {
        reveal_with_fuel(pow10, 8);
    }
    (i, value)
}

/// Reads the number that starts at `from`: digits, then optionally a point
/// and more digits. Returns where it ends (`from` where no number starts)
/// and its value in millionths, or no value where that does not fit in 64
/// bits.
pub fn scan_number(s: &Vec<char>, from: usize) -> (r: (usize, Option<u64>))
    ensures
        r.0 == number_end(s@, from as int),
        from <= r.0,
        from <= s.len() ==> r.0 <= s.len(),
        r.1 == checked_u64(number_micros(s@, from as int)),
{
    let (whole_end, whole) = scan_digits(s, from);
    let mut end: usize = whole_end;
    let mut fraction: u64 = 0;
    if whole_end > from && whole_end < s.len() - 1 && s[whole_end] == '.' && is_digit_char(
        s[whole_end + 1],
    ) {
        let (fraction_end, micros) = scan_fraction(s, whole_end + 1);
        proof {
            lemma_digits_end_bounds(s@, whole_end + 2);
        }
        end = fraction_end;
        fraction = micros;
    }
    let value: Option<u64> = match whole {
        Some(w) => {
            if w > (u64::MAX - fraction) / MICROS_PER_UNIT {
                None
            } else {
                Some(w * MICROS_PER_UNIT + fraction)
            }
        },
        None => None,
    };
    (end, value)
}

/// Reads `s` as an unsigned 32-bit integer.
pub fn parse_u32(s: &Vec<char>) -> (value: Option<u32>)
    ensures
        value == unsigned_32(s@),
{
    let (end, digits) = scan_digits(s, 0);
    if s.len() == 0 || end != s.len() {
        return None;
    }
    match digits {
        Some(v) => {
            if v <= 0xffff_ffff {
                Some(v as u32)
            } else {
                None
            }
        },
        None => None,
    }
}

/// Reads `s` as a decimal number, in millionths.
pub fn parse_decimal(s: &Vec<char>) -> (value: Option<u64>)
    ensures
        value == decimal_micros(s@),
{
    let (end, micros) = scan_number(s, 0);
    if s.len() == 0 || end != s.len() {
        return None;
    }
    micros
}

/// The character of the digit `d`.
fn char_of_digit(d: u8) -> (c: char)
    requires
        d < 10,
    ensures
        c == digit_char(d as nat),
{
    (48u8 + d) as char
}

/// Appends `n` in decimal to `out`.
pub fn push_decimal(out: &mut Vec<char>, n: u64)
    ensures
        final(out)@ == old(out)@ + decimal_text(n as nat),
    decreases n,
{
    if n >= 10 {
        push_decimal(out, n / 10);
    }
    let ghost before = out@;
    out.push(char_of_digit((n % 10) as u8));
    proof {
        if n >= 10 {
            assert(before.push(digit_char((n % 10) as nat)) =~= old(out)@ + decimal_text(
                (n / 10) as nat,
            ).push(digit_char((n % 10) as nat)));
        } else {
            assert(before.push(digit_char(n as nat)) =~= old(out)@ + seq![digit_char(n as nat)]);
        }
    }
}

/// `n` written in decimal, without leading zeros.
pub fn decimal_chars(n: u64) -> (out: Vec<char>)
    ensures
        out@ == decimal_text(n as nat),
{
    let mut out: Vec<char> = Vec::new();
    push_decimal(&mut out, n);
    proof {
        assert(Seq::<char>::empty() + decimal_text(n as nat) =~= decimal_text(n as nat));
    }
    out
}

} // verus!
