//! Character-level text helpers shared by the style and filesystem parsers.

use vstd::prelude::*;
use vstd::string::*;

verus! {

/// Unicode `White_Space`, the property that `str::trim` and
/// `str::split_whitespace` go by.
pub open spec fn white(c: char) -> bool {
    let code = c as u32;
    ||| 9 <= code <= 13
    ||| code == 0x20
    ||| code == 0x85
    ||| code == 0xa0
    ||| code == 0x1680
    ||| 0x2000 <= code <= 0x200a
    ||| code == 0x2028
    ||| code == 0x2029
    ||| code == 0x202f
    ||| code == 0x205f
    ||| code == 0x3000
}

/// Whether `c` is Unicode white space.
pub fn is_whitespace(c: char) -> (result: bool)
    ensures
        result == white(c),
{
    let code: u32 = c as u32;
    (9 <= code && code <= 13) || code == 0x20 || code == 0x85 || code == 0xa0 || code == 0x1680 || (
    0x2000 <= code && code <= 0x200a) || code == 0x2028 || code == 0x2029 || code == 0x202f || code
        == 0x205f || code == 0x3000
}

/// `String::push` appends exactly the given character.
pub assume_specification[ String::push ](s: &mut String, c: char)
    ensures
        final(s)@ == old(s)@.push(c),
;

/// The characters of `s`, in order.
pub fn chars_of(s: &str) -> (result: Vec<char>)
    ensures
        result@ == s@,
{
    let mut out: Vec<char> = Vec::new();
    for c in iter: s.chars()
        invariant
            iter.seq() == s@,
            out@ == s@.take(iter.index() as int),
    {
        out.push(c);
    }
    assert(s@.take(s@.len() as int) =~= s@);
    out
}

/// The string made of the characters `cs[from..to]`.
pub fn string_of(cs: &Vec<char>, from: usize, to: usize) -> (result: String)
    requires
        from <= to <= cs@.len(),
    ensures
        result@ == cs@.subrange(from as int, to as int),
{
    let mut out = String::new();
    let mut i: usize = from;
    assert(out@ =~= cs@.subrange(from as int, from as int));
    while i < to
        invariant
            from <= i <= to <= cs@.len(),
            out@ == cs@.subrange(from as int, i as int),
        decreases to - i,
    {
        out.push(cs[i]);
        assert(cs@.subrange(from as int, i as int).push(cs@[i as int]) =~= cs@.subrange(
            from as int,
            i + 1,
        ));
        i = i + 1;
    }
    out
}

/// Whether two strings hold the same characters.
pub fn same(a: &str, b: &str) -> (result: bool)
    ensures
        result == (a@ == b@),
{
    a.to_owned() == b.to_owned()
}

/// `p` stands at position `at` of `s`.
pub open spec fn occurs_at(s: Seq<char>, p: Seq<char>, at: int) -> bool {
    &&& 0 <= at
    &&& at + p.len() <= s.len()
    &&& s.subrange(at, at + p.len()) == p
}

fn matches_at(s: &Vec<char>, p: &Vec<char>, at: usize) -> (result: bool)
    requires
        at <= s@.len(),
    ensures
        result == occurs_at(s@, p@, at as int),
{
    if s.len() - at < p.len() {
        return false;
    }
    let mut i: usize = 0;
    while i < p.len()
        invariant
            i <= p@.len(),
            at + p@.len() <= s.len(),
            forall|k: int| 0 <= k < i ==> s@[at + k] == p@[k],
        decreases p@.len() - i,
    {
        if s[at + i] != p[i] {
            assert(s@.subrange(at as int, at + p@.len())[i as int] != p@[i as int]);
            return false;
        }
        i = i + 1;
    }
    assert(s@.subrange(at as int, at + p@.len()) =~= p@);
    true
}

/// Whether `s` begins with `p`.
pub fn starts_with(s: &str, p: &str) -> (result: bool)
    ensures
        result == occurs_at(s@, p@, 0),
{
    matches_at(&chars_of(s), &chars_of(p), 0)
}

/// Whether `s` ends with `p`.
pub fn ends_with(s: &str, p: &str) -> (result: bool)
    ensures
        result == occurs_at(s@, p@, s@.len() - p@.len()),
{
    let cs = chars_of(s);
    let ps = chars_of(p);
    if cs.len() < ps.len() {
        return false;
    }
    matches_at(&cs, &ps, cs.len() - ps.len())
}

/// What follows the prefix `p`, when `s` begins with it.
pub fn strip_prefix<'a>(s: &'a str, p: &str) -> (result: Option<&'a str>)
    ensures
        result is Some <==> occurs_at(s@, p@, 0),
        result matches Some(rest) ==> rest@ == s@.subrange(p@.len() as int, s@.len() as int),
{
    if starts_with(s, p) {
        Some(s.substring_char(p.unicode_len(), s.unicode_len()))
    } else {
        None
    }
}

/// What precedes the suffix `p`, when `s` ends with it.
pub fn strip_suffix<'a>(s: &'a str, p: &str) -> (result: Option<&'a str>)
    ensures
        result is Some <==> occurs_at(s@, p@, s@.len() - p@.len()),
        result matches Some(rest) ==> rest@ == s@.subrange(0, s@.len() - p@.len()),
{
    if ends_with(s, p) {
        Some(s.substring_char(0, s.unicode_len() - p.unicode_len()))
    } else {
        None
    }
}

/// `s` without leading white space.
pub open spec fn trim_start(s: Seq<char>) -> Seq<char>
    decreases s.len(),
{
    if s.len() > 0 && white(s[0]) {
        trim_start(s.subrange(1, s.len() as int))
    } else {
        s
    }
}

/// `s` without trailing white space.
pub open spec fn trim_end(s: Seq<char>) -> Seq<char>
    decreases s.len(),
{
    if s.len() > 0 && white(s.last()) {
        trim_end(s.drop_last())
    } else {
        s
    }
}

/// `s` without the white space at both ends.
pub open spec fn trimmed(s: Seq<char>) -> Seq<char> {
    trim_end(trim_start(s))
}

/// Removes the white space at both ends.
pub fn trim<'a>(s: &'a str) -> (result: &'a str)
    ensures
        result@ == trimmed(s@),
{
    let cs = chars_of(s);
    let mut from: usize = 0;
    assert(s@.subrange(0, s@.len() as int) =~= s@);
    while from < cs.len() && is_whitespace(cs[from])
        invariant
            from <= cs@.len(),
            cs@ == s@,
            trim_start(s@) == trim_start(s@.subrange(from as int, s@.len() as int)),
        decreases cs@.len() - from,
    {
        assert(s@.subrange(from as int, s@.len() as int).subrange(1, s@.len() - from) =~= s@.subrange(
            from + 1,
            s@.len() as int,
        ));
        from = from + 1;
    }
    let mut to: usize = cs.len();
    let ghost head = s@.subrange(from as int, s@.len() as int);
    assert(trim_start(s@) == head);
    while to > from && is_whitespace(cs[to - 1])
        invariant
            from <= to <= cs@.len(),
            cs@ == s@,
            trim_end(head) == trim_end(s@.subrange(from as int, to as int)),
        decreases to,
    {
        assert(s@.subrange(from as int, to as int).drop_last() =~= s@.subrange(
            from as int,
            to - 1,
        ));
        to = to - 1;
    }
    s.substring_char(from, to)
}

/// The maximal runs of characters that are not white space, in order.
pub open spec fn words(s: Seq<char>) -> Seq<Seq<char>>
    decreases s.len(),
{
    if s.len() == 0 {
        Seq::empty()
    } else {
        let before = words(s.drop_last());
        if white(s.last()) {
            before
        } else if s.len() > 1 && !white(s[s.len() - 2]) {
            before.update(before.len() - 1, before.last().push(s.last()))
        } else {
            before.push(seq![s.last()])
        }
    }
}

/// The views of a list of strings.
pub open spec fn views(list: Seq<&str>) -> Seq<Seq<char>> {
    Seq::new(list.len(), |i: int| list[i]@)
}

/// Splits `s` at white space.
pub fn split_whitespace<'a>(s: &'a str) -> (result: Vec<&'a str>)
    ensures
        views(result@) == words(s@),
{
    let cs = chars_of(s);
    let mut out: Vec<&'a str> = Vec::new();
    let mut start: usize = 0;
    let mut open: bool = false;
    let mut i: usize = 0;
    assert(s@.take(0) =~= Seq::<char>::empty());
    while i < cs.len()
        invariant
            cs@ == s@,
            start <= i <= cs@.len(),
            open == (i > 0 && !white(s@[i - 1])),
            open ==> start < i,
            ({
                let done = words(s@.take(i as int));
                if open {
                    done == views(out@).push(s@.subrange(start as int, i as int))
                } else {
                    done == views(out@)
                }
            }),
        decreases cs@.len() - i,
    {
        let ghost before = s@.take(i as int);
        let ghost after = s@.take(i + 1);
        let ghost parts = views(out@);
        assert(after.drop_last() =~= before);
        assert(after.last() == s@[i as int]);
        if is_whitespace(cs[i]) {
            if open {
                let word = s.substring_char(start, i);
                out.push(word);
                assert(views(out@) =~= parts.push(word@));
            }
            open = false;
        } else {
            if !open {
                start = i;
                open = true;
                assert(seq![s@[i as int]] =~= s@.subrange(i as int, i + 1));
            } else {
                let ghost so_far = parts.push(s@.subrange(start as int, i as int));
                assert(s@.subrange(start as int, i as int).push(s@[i as int]) =~= s@.subrange(
                    start as int,
                    i + 1,
                ));
                assert(so_far.update(so_far.len() - 1, so_far.last().push(s@[i as int]))
                    =~= parts.push(s@.subrange(start as int, i + 1)));
            }
        }
        i = i + 1;
    }
    assert(s@.take(s@.len() as int) =~= s@);
    if open {
        let ghost parts = views(out@);
        let word = s.substring_char(start, i);
        out.push(word);
        assert(views(out@) =~= parts.push(word@));
    }
    out
}

/// ASCII lower case of one character; other characters stand as they are.
pub open spec fn lower(c: char) -> char {
    if 65 <= c as u32 <= 90 {
        ((c as u32 + 32) as u8) as char
    } else {
        c
    }
}

/// Equality of two strings up to ASCII case.
pub open spec fn same_ignoring_case(a: Seq<char>, b: Seq<char>) -> bool {
    &&& a.len() == b.len()
    &&& forall|i: int| 0 <= i < a.len() ==> lower(#[trigger] a[i]) == lower(b[i])
}

/// ASCII lower case of `c`.
pub fn to_lower(c: char) -> (result: char)
    ensures
        result == lower(c),
{
    let code: u32 = c as u32;
    if 65 <= code && code <= 90 {
        ((code + 32) as u8) as char
    } else {
        c
    }
}

/// Compares two strings up to ASCII case.
pub fn eq_ignore_case(a: &str, b: &str) -> (result: bool)
    ensures
        result == same_ignoring_case(a@, b@),
{
    let x = chars_of(a);
    let y = chars_of(b);
    if x.len() != y.len() {
        return false;
    }
    let mut i: usize = 0;
    while i < x.len()
        invariant
            x@ == a@,
            y@ == b@,
            x@.len() == y@.len(),
            i <= x@.len(),
            forall|k: int| 0 <= k < i ==> lower(#[trigger] a@[k]) == lower(b@[k]),
        decreases x@.len() - i,
    {
        if to_lower(x[i]) != to_lower(y[i]) {
            assert(lower(a@[i as int]) != lower(b@[i as int]));
            return false;
        }
        i = i + 1;
    }
    true
}

/// The pieces of the first `n` characters between separators.
pub open spec fn fields_of(s: Seq<char>, separator: char, n: int) -> Seq<Seq<char>>
    decreases n,
{
    if n <= 0 {
        seq![Seq::empty()]
    } else {
        let before = fields_of(s, separator, n - 1);
        if s[n - 1] == separator {
            before.push(Seq::empty())
        } else {
            before.update(before.len() - 1, before.last().push(s[n - 1]))
        }
    }
}

/// All pieces of a text between separators.
pub open spec fn fields(s: Seq<char>, separator: char) -> Seq<Seq<char>> {
    fields_of(s, separator, s.len() as int)
}

/// There is at least one piece.
pub proof fn fields_not_empty(s: Seq<char>, separator: char, n: int)
    ensures
        fields_of(s, separator, n).len() >= 1,
    decreases n,
{
    if n > 0 {
        fields_not_empty(s, separator, n - 1);
    }
}

/// Splits a text at every separator.
pub fn split_fields<'a>(value: &'a str, separator: char) -> (result: Vec<&'a str>)
    ensures
        views(result@) == fields(value@, separator),
        result@.len() >= 1,
{
    let cs = chars_of(value);
    let mut parts: Vec<&'a str> = Vec::new();
    let mut start: usize = 0;
    let mut i: usize = 0;
    assert(value@.subrange(0, 0) =~= Seq::<char>::empty());
    assert(views(parts@).push(value@.subrange(0, 0)) =~= seq![Seq::<char>::empty()]);
    while i < cs.len()
        invariant
            cs@ == value@,
            start <= i <= cs@.len(),
            fields_of(value@, separator, i as int) == views(parts@).push(
                value@.subrange(start as int, i as int),
            ),
        decreases cs@.len() - i,
    {
        let ghost before = views(parts@);
        let ghost tail = value@.subrange(start as int, i as int);
        if cs[i] == separator {
            let part = value.substring_char(start, i);
            parts.push(part);
            start = i + 1;
            assert(views(parts@) =~= before.push(tail));
            assert(value@.subrange(start as int, i + 1) =~= Seq::<char>::empty());
        } else {
            assert(tail.push(cs@[i as int]) =~= value@.subrange(start as int, i + 1));
            assert(before.push(tail).update(before.len() as int, tail.push(cs@[i as int]))
                =~= before.push(tail.push(cs@[i as int])));
        }
        i = i + 1;
    }
    let ghost before = views(parts@);
    let part = value.substring_char(start, i);
    parts.push(part);
    assert(views(parts@) =~= before.push(part@));
    parts
}

/// A decimal digit.
pub open spec fn digit(c: char) -> bool {
    48 <= c as u32 <= 57
}

/// Every character is a decimal digit.
pub open spec fn all_digits(s: Seq<char>) -> bool {
    forall|i: int| 0 <= i < s.len() ==> digit(#[trigger] s[i])
}

/// The number that a row of digits denotes.
pub open spec fn digits_value(s: Seq<char>) -> nat
    decreases s.len(),
{
    if s.len() == 0 {
        0
    } else {
        digits_value(s.drop_last()) * 10 + (s.last() as u32 - 48) as nat
    }
}

/// The number that a text denotes, with an optional plus sign.
pub open spec fn unsigned_value(s: Seq<char>) -> Option<nat> {
    let digits = if s.len() > 0 && s[0] == '+' {
        s.subrange(1, s.len() as int)
    } else {
        s
    };
    if digits.len() > 0 && all_digits(digits) {
        Some(digits_value(digits))
    } else {
        None
    }
}

/// The number that a text denotes, with an optional sign.
pub open spec fn signed_value(s: Seq<char>) -> Option<int> {
    if s.len() > 0 && s[0] == '-' {
        let digits = s.subrange(1, s.len() as int);
        if digits.len() > 0 && all_digits(digits) {
            Some(-(digits_value(digits) as int))
        } else {
            None
        }
    } else {
        match unsigned_value(s) {
            Some(n) => Some(n as int),
            None => None,
        }
    }
}

/// A number that fits below `limit`.
pub open spec fn at_most(value: Option<nat>, limit: int) -> Option<nat> {
    match value {
        Some(n) => if n <= limit {
            Some(n)
        } else {
            None
        },
        None => None,
    }
}

fn parse_digits(cs: &Vec<char>, from: usize) -> (result: Option<u64>)
    requires
        from <= cs@.len(),
    ensures
        ({
            let digits = cs@.subrange(from as int, cs@.len() as int);
            match result {
                Some(n) => digits.len() > 0 && all_digits(digits) && n == digits_value(digits),
                None => digits.len() == 0 || !all_digits(digits) || digits_value(digits) > u64::MAX,
            }
        }),
{
    let ghost digits = cs@.subrange(from as int, cs@.len() as int);
    if from == cs.len() {
        return None;
    }
    let mut acc: u128 = 0;
    let mut over: bool = false;
    let mut i: usize = from;
    assert(digits.take(0) =~= Seq::<char>::empty());
    while i < cs.len()
        invariant
            from <= i <= cs@.len(),
            digits == cs@.subrange(from as int, cs@.len() as int),
            forall|k: int| 0 <= k < i - from ==> digit(#[trigger] digits[k]),
            over ==> digits_value(digits.take(i - from)) > u64::MAX,
            !over ==> acc == digits_value(digits.take(i - from)) && acc <= u64::MAX,
        decreases cs@.len() - i,
    {
        let code: u32 = cs[i] as u32;
        if code < 48 || code > 57 {
            assert(!digit(digits[i - from]));
            return None;
        }
        proof {
            let after = digits.take(i - from + 1);
            assert(after.drop_last() =~= digits.take(i - from));
            assert(after.last() == cs@[i as int]);
        }
        if !over {
            acc = acc * 10 + (code - 48) as u128;
            if acc > 0xffff_ffff_ffff_ffff {
                over = true;
            }
        }
        i = i + 1;
    }
    assert(digits.take(digits.len() as int) =~= digits);
    if over {
        None
    } else {
        Some(acc as u64)
    }
}

/// Reads an unsigned number the way `str::parse` does.
pub fn parse_u64(value: &str) -> (result: Option<u64>)
    ensures
        match result {
            Some(n) => at_most(unsigned_value(value@), u64::MAX as int) == Some(n as nat),
            None => at_most(unsigned_value(value@), u64::MAX as int) is None,
        },
{
    let cs = chars_of(value);
    let from: usize = if cs.len() > 0 && cs[0] == '+' {
        1
    } else {
        0
    };
    assert(cs@.subrange(0, cs@.len() as int) =~= cs@);
    parse_digits(&cs, from)
}

/// Reads an unsigned 32-bit number the way `str::parse` does.
pub fn parse_u32(value: &str) -> (result: Option<u32>)
    ensures
        match result {
            Some(n) => at_most(unsigned_value(value@), u32::MAX as int) == Some(n as nat),
            None => at_most(unsigned_value(value@), u32::MAX as int) is None,
        },
{
    match parse_u64(value) {
        Some(n) => if n <= 0xffff_ffff {
            Some(n as u32)
        } else {
            None
        },
        None => None,
    }
}

/// A number within the range of 32-bit integers.
pub open spec fn within_i32(value: Option<int>) -> Option<int> {
    match value {
        Some(n) => if i32::MIN <= n <= i32::MAX {
            Some(n)
        } else {
            None
        },
        None => None,
    }
}

/// Reads a signed 32-bit number the way `str::parse` does.
pub fn parse_i32(value: &str) -> (result: Option<i32>)
    ensures
        match result {
            Some(n) => within_i32(signed_value(value@)) == Some(n as int),
            None => within_i32(signed_value(value@)) is None,
        },
{
    let cs = chars_of(value);
    if cs.len() > 0 && cs[0] == '-' {
        match parse_digits(&cs, 1) {
            Some(n) => if n <= 0x8000_0000 {
                Some((-(n as i64)) as i32)
            } else {
                None
            },
            None => None,
        }
    } else {
        match parse_u64(value) {
            Some(n) => if n <= 0x7fff_ffff {
                Some(n as i32)
            } else {
                None
            },
            None => None,
        }
    }
}

/// The digit character of a number below ten.
pub open spec fn digit_char(n: nat) -> char {
    ((48 + n) as u8) as char
}

/// The decimal digits of a number.
pub open spec fn decimal(n: nat) -> Seq<char>
    decreases n,
{
    if n < 10 {
        seq![digit_char(n)]
    } else {
        decimal(n / 10).push(digit_char(n % 10))
    }
}

/// Writes a number in decimal.
pub fn decimal_text(n: u64) -> (result: String)
    ensures
        result@ == decimal(n as nat),
    decreases n,
{
    let mut out = if n < 10 {
        String::new()
    } else {
        decimal_text(n / 10)
    };
    out.push((48 + (n % 10) as u8) as char);
    assert(n < 10 ==> out@ =~= seq![digit_char(n as nat)]);
    out
}

/// Reading a number that was written in decimal gives it back.
pub proof fn written_number_is_read_back(n: nat)
    ensures
        unsigned_value(decimal(n)) == Some(n),
        signed_value(decimal(n)) == Some(n as int),
    decreases n,
{
    decimal_digits(n);
    assert(digit(decimal(n)[0]));
    assert(decimal(n)[0] != '+');
    assert(decimal(n)[0] != '-');
}

proof fn decimal_digits(n: nat)
    ensures
        decimal(n).len() > 0,
        all_digits(decimal(n)),
        digits_value(decimal(n)) == n,
    decreases n,
{
    let s = decimal(n);
    if n < 10 {
        assert(s.drop_last() =~= Seq::<char>::empty());
        assert(s.last() == digit_char(n));
        assert(digits_value(s.drop_last()) == 0);
    } else {
        decimal_digits(n / 10);
        assert(s.drop_last() =~= decimal(n / 10));
        assert(s.last() == digit_char(n % 10));
    }
}

} // verus!
