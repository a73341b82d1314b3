//! How texts, words and numbers are read.

use vstd::prelude::*;
use vstd::string::*;
use crate::layout::numeral::{digits_end, numeral};
use crate::layout::{
    dimension_of, edges_of, first_number_of, inset_of, margin_of, margins_of, number_of, numbers_in,
    LengthView,
};
use crate::text::{
    digit, fields, fields_not_empty, fields_of, lower, occurs_at, same_ignoring_case, trim_end,
    trim_start, trimmed, white, words,
};

verus! {

/// Every character is white space.
pub open spec fn blank(s: Seq<char>) -> bool {
    forall|i: int| 0 <= i < s.len() ==> white(#[trigger] s[i])
}

/// No character is white space.
pub open spec fn solid(s: Seq<char>) -> bool {
    forall|i: int| 0 <= i < s.len() ==> !white(#[trigger] s[i])
}

/// The space and the line break are white space; letters, digits and marks are
/// not.
pub proof fn spaces_are_white(c: char)
    ensures
        white(' '),
        white('\n'),
        white('\t'),
        33 <= c as u32 <= 126 ==> !white(c),
{
}

/// Trimming takes the white space at both ends and nothing else.
pub proof fn trimming_takes_the_ends(a: Seq<char>, s: Seq<char>, b: Seq<char>)
    requires
        blank(a),
        blank(b),
        s.len() > 0 ==> !white(s[0]) && !white(s.last()),
    ensures
        trimmed(a + s + b) == s,
    decreases a.len() + b.len(),
{
    let all = a + s + b;
    if a.len() > 0 {
        let rest = a.subrange(1, a.len() as int);
        assert(all[0] == a[0]);
        assert(all.subrange(1, all.len() as int) =~= rest + s + b);
        assert forall|i: int| 0 <= i < rest.len() implies white(#[trigger] rest[i]) by {
            assert(rest[i] == a[i + 1]);
        }
        trimming_takes_the_ends(rest, s, b);
    } else if s.len() == 0 {
        assert(all =~= b);
        blank_is_trimmed(b);
        assert(trimmed(b) =~= s);
    } else {
        assert(all[0] == s[0]);
        assert(trim_start(all) == all);
        trim_end_takes(s, b);
        assert(all =~= s + b);
    }
}

proof fn blank_is_trimmed(b: Seq<char>)
    requires
        blank(b),
    ensures
        trim_start(b).len() == 0,
        trimmed(b).len() == 0,
    decreases b.len(),
{
    if b.len() > 0 {
        let rest = b.subrange(1, b.len() as int);
        assert forall|i: int| 0 <= i < rest.len() implies white(#[trigger] rest[i]) by {
            assert(rest[i] == b[i + 1]);
        }
        assert(white(b[0]));
        blank_is_trimmed(rest);
    }
}

proof fn trim_end_takes(s: Seq<char>, b: Seq<char>)
    requires
        blank(b),
        s.len() > 0,
        !white(s.last()),
    ensures
        trim_end(s + b) == s,
    decreases b.len(),
{
    let all = s + b;
    if b.len() == 0 {
        assert(all =~= s);
    } else {
        assert(all.last() == b.last());
        assert(white(b[b.len() - 1]));
        assert(all.drop_last() =~= s + b.drop_last());
        trim_end_takes(s, b.drop_last());
    }
}

proof fn words_start(s: Seq<char>)
    ensures
        words(s).len() == 0 <==> blank(s),
        s.len() > 0 && !white(s.last()) ==> words(s).len() > 0,
    decreases s.len(),
{
    if s.len() > 0 {
        words_start(s.drop_last());
        if white(s.last()) {
            if blank(s.drop_last()) {
                assert forall|i: int| 0 <= i < s.len() implies white(#[trigger] s[i]) by {
                    if i < s.len() - 1 {
                        assert(s.drop_last()[i] == s[i]);
                    }
                }
            }
            if blank(s) {
                assert forall|i: int| 0 <= i < s.drop_last().len() implies white(
                    #[trigger] s.drop_last()[i],
                ) by {
                    assert(s.drop_last()[i] == s[i]);
                }
            }
        } else {
            assert(!white(s[s.len() - 1]));
            if s.len() > 1 && !white(s[s.len() - 2]) {
                assert(s.drop_last().last() == s[s.len() - 2]);
            }
        }
    }
}

/// A text without white space is one word.
pub proof fn solid_texts_are_words(s: Seq<char>)
    requires
        s.len() > 0,
        solid(s),
    ensures
        words(s) == seq![s],
    decreases s.len(),
{
    if s.len() == 1 {
        assert(words(s.drop_last()) =~= Seq::<Seq<char>>::empty());
        assert(s =~= seq![s.last()]);
        assert(words(s) =~= seq![s]);
    } else {
        let front = s.drop_last();
        assert forall|i: int| 0 <= i < front.len() implies !white(#[trigger] front[i]) by {
            assert(front[i] == s[i]);
        }
        solid_texts_are_words(front);
        assert(front.push(s.last()) =~= s);
        assert(!white(s[s.len() - 1]) && !white(s[s.len() - 2]));
        assert(words(s) =~= seq![s]);
    }
}

/// White space separates words: the words of a text are those before the space,
/// then those behind it.
pub proof fn spaces_separate_words(a: Seq<char>, c: char, b: Seq<char>)
    requires
        white(c),
    ensures
        words(a + seq![c] + b) == words(a) + words(b),
    decreases b.len(),
{
    let all = a + seq![c] + b;
    if b.len() == 0 {
        assert(all.drop_last() =~= a);
        assert(all.last() == c);
        assert(words(b) =~= Seq::<Seq<char>>::empty());
        assert(words(a) + words(b) =~= words(a));
    } else {
        let front = b.drop_last();
        spaces_separate_words(a, c, front);
        assert(all.drop_last() =~= a + seq![c] + front);
        assert(all.last() == b.last());
        let before = words(a) + words(front);
        if white(b.last()) {
        } else if b.len() > 1 {
            assert(all[all.len() - 2] == b[b.len() - 2]);
            if !white(b[b.len() - 2]) {
                words_start(front);
                assert(front.last() == b[b.len() - 2]);
                let grown = words(front).last().push(b.last());
                assert(before.last() == words(front).last());
                assert(before.update(before.len() - 1, grown) =~= words(a) + words(front).update(
                    words(front).len() - 1,
                    grown,
                ));
            } else {
                assert(before.push(seq![b.last()]) =~= words(a) + words(front).push(seq![b.last()]));
            }
        } else {
            assert(all[all.len() - 2] == c);
            assert(words(front) =~= Seq::<Seq<char>>::empty());
            assert(before.push(seq![b.last()]) =~= words(a) + words(front).push(seq![b.last()]));
        }
    }
}

/// A separator ends a piece: the pieces of a text are those before it, then those
/// behind it, and a text without one is one piece.
pub proof fn separators_end_pieces(a: Seq<char>, separator: char, b: Seq<char>)
    ensures
        fields(a + seq![separator] + b, separator) == fields(a, separator) + fields(b, separator),
        (forall|i: int| 0 <= i < a.len() ==> a[i] != separator) ==> fields(a, separator) == seq![a],
    decreases b.len(), a.len(),
{
    let all = a + seq![separator] + b;
    let n = a.len() + 1;
    if b.len() == 0 {
        fields_of_prefix(all, a, separator, a.len() as int);
        assert(all[a.len() as int] == separator);
        let empty = Seq::<char>::empty();
        assert(fields(b, separator) =~= seq![empty]);
        assert(fields(a, separator).push(empty) =~= fields(a, separator) + fields(b, separator));
    } else {
        let front = b.drop_last();
        separators_end_pieces(a, separator, front);
        let shorter = a + seq![separator] + front;
        fields_of_prefix(all, shorter, separator, shorter.len() as int);
        fields_of_prefix(b, front, separator, front.len() as int);
        fields_not_empty(front, separator, front.len() as int);
        let before = fields(a, separator) + fields(front, separator);
        assert(all[all.len() - 1] == b.last());
        assert(b[b.len() - 1] == b.last());
        let empty = Seq::<char>::empty();
        if b.last() == separator {
            assert(before.push(empty) =~= fields(a, separator) + fields(front, separator).push(
                empty,
            ));
        } else {
            let grown = fields(front, separator).last().push(b.last());
            assert(before.last() == fields(front, separator).last());
            assert(before.update(before.len() - 1, grown) =~= fields(a, separator) + fields(
                front,
                separator,
            ).update(fields(front, separator).len() - 1, grown));
        }
    }
    if forall|i: int| 0 <= i < a.len() ==> a[i] != separator {
        whole_field(a, separator, a.len() as int);
        assert(a.take(a.len() as int) =~= a);
    }
}

proof fn fields_of_prefix(s: Seq<char>, t: Seq<char>, separator: char, n: int)
    requires
        n <= s.len(),
        n <= t.len(),
        forall|i: int| 0 <= i < n ==> s[i] == t[i],
    ensures
        fields_of(s, separator, n) == fields_of(t, separator, n),
    decreases n,
{
    if n > 0 {
        fields_of_prefix(s, t, separator, n - 1);
    }
}

proof fn whole_field(s: Seq<char>, separator: char, n: int)
    requires
        0 <= n <= s.len(),
        forall|i: int| 0 <= i < s.len() ==> s[i] != separator,
    ensures
        fields_of(s, separator, n) == seq![s.take(n)],
    decreases n,
{
    if n == 0 {
        assert(s.take(0) =~= Seq::<char>::empty());
    } else {
        whole_field(s, separator, n - 1);
        assert(s.take(n - 1).push(s[n - 1]) =~= s.take(n));
        assert(fields_of(s, separator, n) =~= seq![s.take(n)]);
    }
}

/// A decimal digit.
pub open spec fn figure(c: char) -> bool {
    48 <= c as u32 && c as u32 <= 57
}

/// Every character is a digit.
pub open spec fn digits_only(s: Seq<char>) -> bool {
    forall|i: int| 0 <= i < s.len() ==> figure(#[trigger] s[i])
}

proof fn digits_run(s: Seq<char>, from: int, to: int)
    requires
        0 <= from <= to <= s.len(),
        forall|i: int| from <= i < to ==> figure(#[trigger] s[i]),
        to == s.len() || !figure(s[to]),
    ensures
        digits_end(s, from) == to,
    decreases to - from,
{
    if from < to {
        assert(figure(s[from]));
        assert(digit(s[from]));
        digits_run(s, from + 1, to);
    } else if to < s.len() {
        assert(!digit(s[to]));
    }
}

/// Digits alone are a number, and so are digits around a point, with or without a
/// sign. A point alone and a sign alone are none, nor is the empty text.
pub proof fn decimal_texts_are_numbers(a: Seq<char>, b: Seq<char>)
    requires
        digits_only(a),
        digits_only(b),
        a.len() + b.len() > 0,
    ensures
        a.len() > 0 ==> numeral(a),
        numeral(a + seq!['.'] + b),
        a.len() > 0 ==> numeral(seq!['-'] + a),
        a.len() > 0 ==> numeral(seq!['+'] + a),
        !numeral(seq!['.']),
        !numeral(seq!['-']),
        !numeral(Seq::empty()),
{
    reveal_strlit("inf");
    reveal_strlit("infinity");
    reveal_strlit("nan");
    let point = a + seq!['.'] + b;
    if a.len() > 0 {
        assert(figure(a[0]));
        digits_run(a, 0, a.len() as int);
        let minus = seq!['-'] + a;
        let plus = seq!['+'] + a;
        assert forall|i: int| 1 <= i < minus.len() implies figure(#[trigger] minus[i]) by {
            assert(minus[i] == a[i - 1]);
        }
        assert forall|i: int| 1 <= i < plus.len() implies figure(#[trigger] plus[i]) by {
            assert(plus[i] == a[i - 1]);
        }
        digits_run(minus, 1, minus.len() as int);
        digits_run(plus, 1, plus.len() as int);
    }
    assert(point[0] != '+' && point[0] != '-') by {
        if a.len() > 0 {
            assert(point[0] == a[0]);
        } else {
            assert(point[0] == '.');
        }
    }
    assert forall|i: int| 0 <= i < a.len() implies figure(#[trigger] point[i]) by {
        assert(point[i] == a[i]);
    }
    assert(point[a.len() as int] == '.');
    digits_run(point, 0, a.len() as int);
    assert forall|i: int| a.len() + 1 <= i < point.len() implies figure(#[trigger] point[i]) by {
        assert(point[i] == b[i - a.len() - 1]);
    }
    digits_run(point, a.len() as int + 1, point.len() as int);
    let dot = seq!['.'];
    digits_run(dot, 0, 0);
    digits_run(dot, 1, 1);
    assert(dot.skip(0) =~= dot);
    assert(dot.len() == 1);
    let dash = seq!['-'];
    digits_run(dash, 1, 1);
    let none = Seq::<char>::empty();
    assert(none.skip(0) =~= none);
    assert(none.len() == 0 && "inf"@.len() == 3 && "infinity"@.len() == 8 && "nan"@.len() == 3);
    assert(dash.skip(1).len() == 0);
}

proof fn solid_is_trimmed(s: Seq<char>)
    requires
        solid(s),
    ensures
        trimmed(s) == s,
{
    let none = Seq::<char>::empty();
    if s.len() > 0 {
        assert(!white(s[0]) && !white(s[s.len() - 1]));
    }
    trimming_takes_the_ends(none, s, none);
    assert(none + s + none =~= s);
}

/// A number in pixels, or without a unit, is a length of so many pixels; behind a
/// number, a percent sign makes a share; `auto` is neither.
pub proof fn lengths_are_read(n: Seq<char>)
    requires
        n.len() > 0,
        numeral(n),
        solid(n),
        digits_only(n),
    ensures
        number_of(n) == Some(n),
        number_of(n + "px"@) == Some(n),
        dimension_of(n) == Some(LengthView::Px(n)),
        dimension_of(n + "px"@) == Some(LengthView::Px(n)),
        dimension_of(n + seq!['%']) == Some(LengthView::Percent(n)),
        dimension_of("auto"@) == Some(LengthView::Auto),
        inset_of(None) == LengthView::Auto,
        inset_of(Some(n + "px"@)) == LengthView::Px(n),
        inset_of(Some(n + seq!['%'])) == LengthView::Percent(n),
{
    reveal_strlit("px");
    reveal_strlit("auto");
    let px = n + "px"@;
    let share = n + seq!['%'];
    assert("px"@.len() == 2 && "px"@[0] == 'p' && "px"@[1] == 'x');
    assert("auto"@.len() == 4 && "auto"@[0] == 'a');
    solid_is_trimmed(n);
    assert forall|i: int| 0 <= i < px.len() implies !white(#[trigger] px[i]) by {
        if i < n.len() {
            assert(px[i] == n[i]);
        } else {
            assert(px[i] == "px"@[i - n.len()]);
        }
    }
    solid_is_trimmed(px);
    assert(px.subrange(px.len() - 2, px.len() as int) =~= "px"@);
    assert(px.subrange(0, px.len() - 2) =~= n);
    assert(figure(n[0]));
    assert(figure(n[n.len() - 1]));
    if occurs_at(n, "px"@, n.len() - 2) {
        assert(n.subrange(n.len() - 2, n.len() as int)[1] == n[n.len() - 1]);
    }
    assert(px[0] == n[0]);
    assert(share[0] == n[0]);
    assert(px != "auto"@ && n != "auto"@ && share != "auto"@);
    assert(px.last() == 'x');
    assert(share.last() == '%');
    assert(share.drop_last() =~= n);
}

/// One value is for all sides, two are for the vertical and the horizontal sides,
/// three are for the top, the horizontal sides and the bottom, and four go
/// clockwise from the top.
pub proof fn sides_take_their_values(value: Seq<char>)
    requires
        forall|i: int|
            0 <= i < words(value).len() ==> number_of(#[trigger] words(value)[i]) is Some,
    ensures
        ({
            let w = words(value);
            let sides = edges_of(value);
            &&& w.len() == 1 ==> forall|i: int|
                0 <= i < 4 ==> #[trigger] sides[i] == LengthView::Px(number_of(w[0])->0)
            &&& w.len() == 2 ==> sides[0] == LengthView::Px(number_of(w[0])->0) && sides[2]
                == sides[0] && sides[1] == LengthView::Px(number_of(w[1])->0) && sides[3]
                == sides[1]
            &&& w.len() == 3 ==> sides[0] == LengthView::Px(number_of(w[0])->0) && sides[1]
                == LengthView::Px(number_of(w[1])->0) && sides[3] == sides[1] && sides[2]
                == LengthView::Px(number_of(w[2])->0)
            &&& w.len() == 4 ==> sides[0] == LengthView::Px(number_of(w[0])->0) && sides[1]
                == LengthView::Px(number_of(w[1])->0) && sides[2] == LengthView::Px(
                number_of(w[2])->0,
            ) && sides[3] == LengthView::Px(number_of(w[3])->0)
            &&& w.len() == 0 || w.len() > 4 ==> forall|i: int|
                0 <= i < 4 ==> #[trigger] sides[i] == LengthView::Zero
        }),
{
    all_words_count(words(value));
}

proof fn all_words_count(list: Seq<Seq<char>>)
    requires
        forall|i: int| 0 <= i < list.len() ==> number_of(#[trigger] list[i]) is Some,
    ensures
        numbers_in(list).len() == list.len(),
        forall|i: int| 0 <= i < list.len() ==> #[trigger] numbers_in(list)[i] == number_of(
            list[i],
        )->0,
    decreases list.len(),
{
    if list.len() > 0 {
        let front = list.drop_last();
        assert forall|i: int| 0 <= i < front.len() implies number_of(#[trigger] front[i]) is Some by {
            assert(front[i] == list[i]);
        }
        all_words_count(front);
        assert(number_of(list[list.len() - 1]) is Some);
        assert forall|i: int| 0 <= i < list.len() implies #[trigger] numbers_in(list)[i]
            == number_of(list[i])->0 by {
            if i < front.len() {
                assert(front[i] == list[i]);
                assert(numbers_in(list)[i] == numbers_in(front)[i]);
            }
        }
    }
}

/// Margins go to their sides in the same way, and one that cannot be read makes
/// the whole value void.
pub proof fn margins_take_their_values(value: Seq<char>, bad: int)
    ensures
        ({
            let w = words(value);
            &&& (0 <= bad < w.len() && margin_of(w[bad]) is None) ==> margins_of(value) is None
            &&& w.len() == 0 || w.len() > 4 ==> margins_of(value) is None
            &&& (forall|i: int| 0 <= i < w.len() ==> margin_of(#[trigger] w[i]) is Some) && 1
                <= w.len() <= 4 ==> {
                let sides = margins_of(value)->0;
                &&& margins_of(value) is Some
                &&& sides[0] == margin_of(w[0])->0
                &&& w.len() == 1 ==> sides[1] == sides[0] && sides[2] == sides[0] && sides[3]
                    == sides[0]
                &&& w.len() >= 2 ==> sides[1] == margin_of(w[1])->0
                &&& w.len() == 2 ==> sides[2] == sides[0] && sides[3] == sides[1]
                &&& w.len() >= 3 ==> sides[2] == margin_of(w[2])->0
                &&& w.len() == 3 ==> sides[3] == sides[1]
                &&& w.len() == 4 ==> sides[3] == margin_of(w[3])->0
            }
        }),
{
}

/// The first number of a value is the first of its words that is one.
pub proof fn the_first_number_counts(value: Seq<char>, i: int)
    requires
        0 <= i < words(value).len(),
        number_of(words(value)[i]) is Some,
        forall|k: int| 0 <= k < i ==> number_of(#[trigger] words(value)[k]) is None,
    ensures
        first_number_of(value) == number_of(words(value)[i]),
{
    first_of_numbers(words(value), i);
}

proof fn first_of_numbers(list: Seq<Seq<char>>, i: int)
    requires
        0 <= i < list.len(),
        number_of(list[i]) is Some,
        forall|k: int| 0 <= k < i ==> number_of(#[trigger] list[k]) is None,
    ensures
        numbers_in(list).len() > 0,
        numbers_in(list)[0] == number_of(list[i])->0,
    decreases list.len(),
{
    let front = list.drop_last();
    if i < front.len() {
        assert(front[i] == list[i]);
        assert forall|k: int| 0 <= k < i implies number_of(#[trigger] front[k]) is None by {
            assert(front[k] == list[k]);
        }
        first_of_numbers(front, i);
    } else {
        no_numbers(front, list);
    }
}

proof fn no_numbers(front: Seq<Seq<char>>, list: Seq<Seq<char>>)
    requires
        front.len() <= list.len(),
        forall|k: int| 0 <= k < front.len() ==> front[k] == list[k],
        forall|k: int| 0 <= k < front.len() ==> number_of(#[trigger] list[k]) is None,
    ensures
        numbers_in(front).len() == 0,
    decreases front.len(),
{
    if front.len() > 0 {
        assert(number_of(list[front.len() - 1]) is None);
        no_numbers(front.drop_last(), list);
    }
}

/// Texts that differ only in the case of ASCII letters are the same, and any
/// other difference counts.
pub proof fn case_is_ignored(a: Seq<char>, b: Seq<char>)
    ensures
        same_ignoring_case(a, a),
        same_ignoring_case(a, b) == same_ignoring_case(b, a),
        a.len() != b.len() ==> !same_ignoring_case(a, b),
        lower('A') == 'a' && lower('Z') == 'z' && lower('a') == 'a' && lower('1') == '1',
{
}

} // verus!
