//! The form of decimal numbers.

use vstd::prelude::*;
use crate::text::{chars_of, digit, eq_ignore_case, same_ignoring_case};

verus! {

/// The end of the run of digits from a position on.
pub open spec fn digits_end(s: Seq<char>, from: int) -> int
    decreases s.len() - from,
{
    if 0 <= from < s.len() && digit(s[from]) {
        digits_end(s, from + 1)
    } else {
        from
    }
}

/// The position after an optional sign.
pub open spec fn after_sign(s: Seq<char>, at: int) -> int {
    if 0 <= at < s.len() && (s[at] == '+' || s[at] == '-') {
        at + 1
    } else {
        at
    }
}

/// Digits with at most one point among them, and at least one digit; then
/// nothing, or an exponent.
pub open spec fn plain_number(s: Seq<char>, from: int) -> bool {
    let whole = digits_end(s, from);
    let point = whole < s.len() && s[whole] == '.';
    let end = if point {
        digits_end(s, whole + 1)
    } else {
        whole
    };
    let digits = (whole - from) + if point {
        end - whole - 1
    } else {
        0
    };
    &&& digits > 0
    &&& end == s.len() || {
        &&& end < s.len()
        &&& s[end] == 'e' || s[end] == 'E'
        &&& after_sign(s, end + 1) < s.len()
        &&& digits_end(s, after_sign(s, end + 1)) == s.len()
    }
}

/// A name for an infinite number or for none, in any case.
pub open spec fn named_number(s: Seq<char>) -> bool {
    same_ignoring_case(s, "inf"@) || same_ignoring_case(s, "infinity"@) || same_ignoring_case(
        s,
        "nan"@,
    )
}

/// The text is a floating-point number: an optional sign, then a name or a
/// decimal number.
pub open spec fn numeral(s: Seq<char>) -> bool {
    let start = after_sign(s, 0);
    named_number(s.skip(start)) || plain_number(s, start)
}

fn is_digit(c: char) -> (result: bool)
    ensures
        result == digit(c),
{
    '0' <= c && c <= '9'
}

fn find_digits_end(s: &Vec<char>, from: usize) -> (result: usize)
    requires
        from <= s@.len(),
    ensures
        result == digits_end(s@, from as int),
        from <= result <= s@.len(),
{
    let mut i: usize = from;
    while i < s.len() && is_digit(s[i])
        invariant
            from <= i <= s@.len(),
            digits_end(s@, from as int) == digits_end(s@, i as int),
        decreases s@.len() - i,
    {
        i = i + 1;
    }
    i
}

fn skip_sign(s: &Vec<char>, at: usize) -> (result: usize)
    requires
        at <= s@.len(),
    ensures
        result == after_sign(s@, at as int),
        at <= result <= s@.len(),
{
    if at < s.len() && (s[at] == '+' || s[at] == '-') {
        at + 1
    } else {
        at
    }
}

/// Whether a text is a floating-point number.
pub fn is_numeral(text: &str) -> (result: bool)
    ensures
        result == numeral(text@),
{
    let s = chars_of(text);
    let length: usize = s.len();
    let start: usize = skip_sign(&s, 0);
    let rest = text.substring_char(start, length);
    assert(rest@ =~= text@.skip(start as int));
    if eq_ignore_case(rest, "inf") || eq_ignore_case(rest, "infinity") || eq_ignore_case(
        rest,
        "nan",
    ) {
        return true;
    }
    let whole: usize = find_digits_end(&s, start);
    let point = whole < length && s[whole] == '.';
    let end: usize = if point {
        find_digits_end(&s, whole + 1)
    } else {
        whole
    };
    let digits: usize = if point {
        (whole - start) + (end - whole - 1)
    } else {
        whole - start
    };
    if digits == 0 {
        return false;
    }
    if end == length {
        return true;
    }
    if s[end] != 'e' && s[end] != 'E' {
        return false;
    }
    let exponent: usize = skip_sign(&s, end + 1);
    exponent < length && find_digits_end(&s, exponent) == length
}

proof fn all_digits_end(s: Seq<char>, from: int)
    requires
        0 <= from <= s.len(),
        forall|i: int| from <= i < s.len() ==> digit(#[trigger] s[i]),
    ensures
        digits_end(s, from) == s.len(),
    decreases s.len() - from,
{
    if from < s.len() {
        assert(digit(s[from]));
        all_digits_end(s, from + 1);
    }
}

/// Every run of digits is a number.
pub proof fn digits_are_a_number(s: Seq<char>)
    requires
        s.len() > 0,
        forall|i: int| 0 <= i < s.len() ==> digit(#[trigger] s[i]),
    ensures
        numeral(s),
{
    assert(digit(s[0]));
    all_digits_end(s, 0);
}

} // verus!
