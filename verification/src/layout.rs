//! Lowering of resolved styles to box layout. Numbers are kept as written; only
//! their form is checked here.

pub mod lower;
pub mod numeral;

use vstd::prelude::*;
use vstd::string::*;
use crate::layout::numeral::{is_numeral, numeral};
use crate::style::{text_view, value_of, Computed};
use crate::text::{
    occurs_at, same, split_whitespace, starts_with, strip_suffix, trim, trimmed, views, words,
};

verus! {

/// A length on one axis. The text is a number as written.
#[derive(Clone, Copy)]
pub enum Length<'a> {
    Zero,
    Auto,
    Percent(&'a str),
    Px(&'a str),
}

/// What a [`Length`] holds.
pub enum LengthView {
    Zero,
    Auto,
    Percent(Seq<char>),
    Px(Seq<char>),
}

impl<'a> View for Length<'a> {
    type V = LengthView;

    open spec fn view(&self) -> LengthView {
        match self {
            Length::Zero => LengthView::Zero,
            Length::Auto => LengthView::Auto,
            Length::Percent(text) => LengthView::Percent(text@),
            Length::Px(text) => LengthView::Px(text@),
        }
    }
}

/// The view of an optional length.
pub open spec fn length_view(length: Option<Length>) -> Option<LengthView> {
    match length {
        Some(length) => Some(length@),
        None => None,
    }
}

/// The number of a value: white space around it and the unit `px` are left out.
pub open spec fn number_of(value: Seq<char>) -> Option<Seq<char>> {
    let inner = trimmed(value);
    let text = if occurs_at(inner, "px"@, inner.len() - 2) {
        inner.subrange(0, inner.len() - 2)
    } else {
        inner
    };
    if numeral(text) {
        Some(text)
    } else {
        None
    }
}

/// The number of a value.
pub fn number<'a>(value: &'a str) -> (result: Option<&'a str>)
    ensures
        text_view(result) == number_of(value@),
{
    let inner = trim(value);
    proof {
        reveal_strlit("px");
    }
    let text = match strip_suffix(inner, "px") {
        Some(text) => text,
        None => inner,
    };
    if is_numeral(text) {
        Some(text)
    } else {
        None
    }
}

/// The text before a percent sign.
pub open spec fn before_percent(value: Seq<char>) -> Option<Seq<char>> {
    if value.len() > 0 && value.last() == '%' {
        Some(value.drop_last())
    } else {
        None
    }
}

/// Splits off a percent sign.
pub fn strip_percent<'a>(value: &'a str) -> (result: Option<&'a str>)
    ensures
        text_view(result) == before_percent(value@),
{
    proof {
        reveal_strlit("%");
    }
    let ghost at = value@.len() - 1;
    match strip_suffix(value, "%") {
        Some(text) => {
            assert(value@.subrange(at, at + 1)[0] == "%"@[0]);
            assert(text@ =~= value@.drop_last());
            Some(text)
        },
        None => {
            proof {
                if value@.len() > 0 && value@.last() == '%' {
                    assert(value@.subrange(at, at + 1) =~= "%"@);
                }
            }
            None
        },
    }
}

/// The percentage of a value.
pub open spec fn percentage_of(value: Seq<char>) -> Option<Seq<char>> {
    match before_percent(value) {
        Some(text) => if numeral(trimmed(text)) {
            Some(trimmed(text))
        } else {
            None
        },
        None => None,
    }
}

/// A size: `auto`, a percentage or a length.
pub open spec fn dimension_of(value: Seq<char>) -> Option<LengthView> {
    if value == "auto"@ {
        Some(LengthView::Auto)
    } else if before_percent(value) is Some {
        match percentage_of(value) {
            Some(text) => Some(LengthView::Percent(text)),
            None => None,
        }
    } else {
        match number_of(value) {
            Some(text) => Some(LengthView::Px(text)),
            None => None,
        }
    }
}

/// Reads a size.
pub fn dimension<'a>(value: &'a str) -> (result: Option<Length<'a>>)
    ensures
        length_view(result) == dimension_of(value@),
{
    if same(value, "auto") {
        return Some(Length::Auto);
    }
    match strip_percent(value) {
        Some(text) => {
            let inner = trim(text);
            if is_numeral(inner) {
                Some(Length::Percent(inner))
            } else {
                None
            }
        },
        None => match number(value) {
            Some(text) => Some(Length::Px(text)),
            None => None,
        },
    }
}

/// An inset: what cannot be read is `auto`.
pub open spec fn inset_of(value: Option<Seq<char>>) -> LengthView {
    match value {
        None => LengthView::Auto,
        Some(text) => match dimension_of(text) {
            Some(length) => length,
            None => LengthView::Auto,
        },
    }
}

/// Reads an inset.
pub fn length_auto<'a>(value: Option<&'a str>) -> (result: Length<'a>)
    ensures
        result@ == inset_of(text_view(value)),
{
    match value {
        None => Length::Auto,
        Some(text) => match dimension(text) {
            Some(length) => length,
            None => Length::Auto,
        },
    }
}

/// A margin: a size with white space around it.
pub open spec fn margin_of(value: Seq<char>) -> Option<LengthView> {
    dimension_of(trimmed(value))
}

/// Reads a margin.
pub fn margin_value<'a>(value: &'a str) -> (result: Option<Length<'a>>)
    ensures
        length_view(result) == margin_of(value@),
{
    dimension(trim(value))
}

/// Which of so many values each side takes, in the order top, right, bottom,
/// left: one value is for all sides, two are for the vertical and the
/// horizontal ones, and three share the middle one.
pub open spec fn side_index(count: int, side: int) -> int {
    if count == 1 {
        0
    } else if count == 2 {
        side % 2
    } else if count == 3 {
        if side == 3 {
            1
        } else {
            side
        }
    } else {
        side
    }
}

fn pick(count: usize, side: usize) -> (result: usize)
    requires
        1 <= count <= 4,
        side < 4,
    ensures
        result == side_index(count as int, side as int),
        result < count,
{
    if count == 1 {
        0
    } else if count == 2 {
        side % 2
    } else if count == 3 {
        if side == 3 {
            1
        } else {
            side
        }
    } else {
        side
    }
}

/// Every word is a margin.
pub open spec fn all_margins(list: Seq<Seq<char>>) -> bool {
    forall|i: int| 0 <= i < list.len() ==> margin_of(#[trigger] list[i]) is Some
}

/// The margins of all sides: one to four values that can all be read.
pub open spec fn margins_of(value: Seq<char>) -> Option<Seq<LengthView>> {
    let list = words(value);
    if all_margins(list) && 1 <= list.len() <= 4 {
        Some(Seq::new(4, |side: int| margin_of(list[side_index(list.len() as int, side)])->0))
    } else {
        None
    }
}

/// The views of four lengths.
pub open spec fn side_views(sides: [Length; 4]) -> Seq<LengthView> {
    Seq::new(4, |i: int| sides[i]@)
}

/// Reads the margins of all sides.
pub fn margin_edges<'a>(value: &'a str) -> (result: Option<[Length<'a>; 4]>)
    ensures
        margins_of(value@) == (match result {
            Some(sides) => Some(side_views(sides)),
            None => None,
        }),
{
    let list = split_whitespace(value);
    let ghost all = words(value@);
    let mut lengths: Vec<Length<'a>> = Vec::new();
    let mut i: usize = 0;
    while i < list.len()
        invariant
            i <= list@.len(),
            views(list@) == all,
            all == words(value@),
            lengths@.len() == i,
            forall|k: int| 0 <= k < i ==> margin_of(#[trigger] all[k]) == Some(lengths@[k]@),
        decreases list@.len() - i,
    {
        assert(all[i as int] == list@[i as int]@);
        match margin_value(list[i]) {
            Some(length) => lengths.push(length),
            None => return None,
        }
        i = i + 1;
    }
    let count: usize = lengths.len();
    if count < 1 || count > 4 {
        return None;
    }
    let sides: [Length<'a>; 4] = [
        lengths[pick(count, 0)],
        lengths[pick(count, 1)],
        lengths[pick(count, 2)],
        lengths[pick(count, 3)],
    ];
    assert(side_views(sides) =~= margins_of(value@)->0);
    Some(sides)
}

/// The numbers among the first `n` words.
pub open spec fn numbers_in(list: Seq<Seq<char>>) -> Seq<Seq<char>>
    decreases list.len(),
{
    if list.len() == 0 {
        Seq::empty()
    } else {
        let before = numbers_in(list.drop_last());
        match number_of(list.last()) {
            Some(text) => before.push(text),
            None => before,
        }
    }
}

/// The numbers of all sides: words that are none are passed over, and without
/// one to four of them every side is zero.
pub open spec fn edges_of(value: Seq<char>) -> Seq<LengthView> {
    let list = numbers_in(words(value));
    Seq::new(
        4,
        |side: int|
            if 1 <= list.len() <= 4 {
                LengthView::Px(list[side_index(list.len() as int, side)])
            } else {
                LengthView::Zero
            },
    )
}

fn numbers<'a>(value: &'a str) -> (result: Vec<&'a str>)
    ensures
        views(result@) == numbers_in(words(value@)),
{
    let list = split_whitespace(value);
    let ghost all = words(value@);
    let mut out: Vec<&'a str> = Vec::new();
    let mut i: usize = 0;
    assert(views(out@) =~= numbers_in(all.take(0)));
    while i < list.len()
        invariant
            i <= list@.len(),
            views(list@) == all,
            views(out@) == numbers_in(all.take(i as int)),
        decreases list@.len() - i,
    {
        proof {
            assert(all.take(i + 1).drop_last() =~= all.take(i as int));
            assert(all.take(i + 1).last() == list@[i as int]@);
        }
        if let Some(text) = number(list[i]) {
            let ghost before = views(out@);
            out.push(text);
            assert(views(out@) =~= before.push(text@));
        }
        i = i + 1;
    }
    assert(all.take(i as int) =~= all);
    out
}

/// Reads the numbers of all sides.
pub fn edge_values<'a>(value: &'a str) -> (result: [Length<'a>; 4])
    ensures
        side_views(result) == edges_of(value@),
{
    let list = numbers(value);
    let ghost all = numbers_in(words(value@));
    assert(all.len() == list@.len());
    let count: usize = list.len();
    let sides: [Length<'a>; 4] = if count < 1 || count > 4 {
        [Length::Zero, Length::Zero, Length::Zero, Length::Zero]
    } else {
        assert(forall|k: int| 0 <= k < count ==> all[k] == #[trigger] list@[k]@);
        [
            Length::Px(list[pick(count, 0)]),
            Length::Px(list[pick(count, 1)]),
            Length::Px(list[pick(count, 2)]),
            Length::Px(list[pick(count, 3)]),
        ]
    };
    assert(side_views(sides) =~= edges_of(value@));
    sides
}

/// The first number among the words of a value.
pub open spec fn first_number_of(value: Seq<char>) -> Option<Seq<char>> {
    let list = numbers_in(words(value));
    if list.len() > 0 {
        Some(list[0])
    } else {
        None
    }
}

/// Finds the first number among the words of a value.
pub fn first_number<'a>(value: &'a str) -> (result: Option<&'a str>)
    ensures
        text_view(result) == first_number_of(value@),
{
    let list = numbers(value);
    if list.len() > 0 {
        assert(views(list@)[0] == list@[0]@);
        Some(list[0])
    } else {
        assert(views(list@).len() == 0);
        None
    }
}

/// A property's value, read.
pub open spec fn read_number(style: Map<Seq<char>, Seq<char>>, name: Seq<char>) -> Option<Seq<char>> {
    match value_of(style, name) {
        Some(value) => number_of(value),
        None => None,
    }
}

/// Reads the number of a property.
pub fn number_in<'a>(computed: &'a Computed, name: &str) -> (result: Option<&'a str>)
    ensures
        text_view(result) == read_number(computed@, name@),
{
    match computed.get(name) {
        Some(value) => number(value),
        None => None,
    }
}

/// A size property, read.
pub open spec fn read_dimension(style: Map<Seq<char>, Seq<char>>, name: Seq<char>) -> Option<
    LengthView,
> {
    match value_of(style, name) {
        Some(value) => dimension_of(value),
        None => None,
    }
}

/// Reads the size of a property.
pub fn dimension_in<'a>(computed: &'a Computed, name: &str) -> (result: Option<Length<'a>>)
    ensures
        length_view(result) == read_dimension(computed@, name@),
{
    match computed.get(name) {
        Some(value) => dimension(value),
        None => None,
    }
}

/// The first number of a shorthand property.
pub open spec fn read_first(style: Map<Seq<char>, Seq<char>>, name: Seq<char>) -> Option<Seq<char>> {
    match value_of(style, name) {
        Some(value) => first_number_of(value),
        None => None,
    }
}

/// Reads the first number of a shorthand property.
pub fn first_in<'a>(computed: &'a Computed, name: &str) -> (result: Option<&'a str>)
    ensures
        text_view(result) == read_first(computed@, name@),
{
    match computed.get(name) {
        Some(value) => first_number(value),
        None => None,
    }
}

/// The first answer of two.
pub open spec fn or_else(a: Option<Seq<char>>, b: Option<Seq<char>>) -> Option<Seq<char>> {
    if a is Some {
        a
    } else {
        b
    }
}

/// A number, or zero.
pub open spec fn px_or_zero(number: Option<Seq<char>>) -> LengthView {
    match number {
        Some(text) => LengthView::Px(text),
        None => LengthView::Zero,
    }
}

/// The border width of one side: nothing where its style draws nothing, else
/// the side's own width, the width in the side's shorthand, or the width of all
/// sides.
pub open spec fn border_width_of(
    style: Map<Seq<char>, Seq<char>>,
    side_style: Seq<char>,
    side_width: Seq<char>,
    side: Seq<char>,
) -> LengthView {
    let line = or_else(value_of(style, side_style), value_of(style, "border-style"@));
    let own = or_else(read_number(style, side_width), read_first(style, side));
    let all = or_else(read_number(style, "border-width"@), read_first(style, "border"@));
    if line == Some("none"@) || line == Some("hidden"@) {
        LengthView::Zero
    } else {
        px_or_zero(or_else(own, all))
    }
}

/// The border widths in the order top, right, bottom, left.
pub open spec fn border_widths_of(style: Map<Seq<char>, Seq<char>>) -> Seq<LengthView> {
    seq![
        border_width_of(style, "border-top-style"@, "border-top-width"@, "border-top"@),
        border_width_of(style, "border-right-style"@, "border-right-width"@, "border-right"@),
        border_width_of(style, "border-bottom-style"@, "border-bottom-width"@, "border-bottom"@),
        border_width_of(style, "border-left-style"@, "border-left-width"@, "border-left"@),
    ]
}

fn border_width<'a>(computed: &'a Computed, side_style: &str, side_width: &str, side: &str) -> (result:
    Length<'a>)
    ensures
        result@ == border_width_of(computed@, side_style@, side_width@, side@),
{
    let line = match computed.get(side_style) {
        Some(line) => Some(line),
        None => computed.get("border-style"),
    };
    if let Some(line) = line {
        if same(line, "none") || same(line, "hidden") {
            return Length::Zero;
        }
    }
    let own = match number_in(computed, side_width) {
        Some(text) => Some(text),
        None => first_in(computed, side),
    };
    if let Some(text) = own {
        return Length::Px(text);
    }
    let all = match number_in(computed, "border-width") {
        Some(text) => Some(text),
        None => first_in(computed, "border"),
    };
    match all {
        Some(text) => Length::Px(text),
        None => Length::Zero,
    }
}

/// Resolves the border widths; layout and painting of controls use the same.
pub fn border_widths<'a>(computed: &'a Computed) -> (result: [Length<'a>; 4])
    ensures
        side_views(result) == border_widths_of(computed@),
{
    let sides: [Length<'a>; 4] = [
        border_width(computed, "border-top-style", "border-top-width", "border-top"),
        border_width(computed, "border-right-style", "border-right-width", "border-right"),
        border_width(computed, "border-bottom-style", "border-bottom-width", "border-bottom"),
        border_width(computed, "border-left-style", "border-left-width", "border-left"),
    ];
    assert(side_views(sides) =~= border_widths_of(computed@));
    sides
}

/// The corner radii: those of the property, else zero.
pub open spec fn radii_of(style: Map<Seq<char>, Seq<char>>) -> Seq<LengthView> {
    match value_of(style, "border-radius"@) {
        Some(value) => edges_of(value),
        None => seq![LengthView::Zero, LengthView::Zero, LengthView::Zero, LengthView::Zero],
    }
}

/// Resolves the corner radii, clockwise from the top left.
pub fn corner_radii<'a>(computed: &'a Computed) -> (result: [Length<'a>; 4])
    ensures
        side_views(result) == radii_of(computed@),
{
    match computed.get("border-radius") {
        Some(value) => edge_values(value),
        None => {
            let sides: [Length<'a>; 4] = [Length::Zero, Length::Zero, Length::Zero, Length::Zero];
            assert(side_views(sides) =~= radii_of(computed@));
            sides
        },
    }
}

/// The quoted text of a value, without its quotes.
pub open spec fn unquoted(s: Seq<char>, quote: char) -> Option<Seq<char>> {
    if s.len() >= 2 && s[0] == quote && s.last() == quote {
        Some(s.subrange(1, s.len() - 1))
    } else {
        None
    }
}

/// The path in a `url(..)` value; nothing for other backgrounds.
pub open spec fn url_of(value: Seq<char>) -> Option<Seq<char>> {
    let inner = trimmed(value);
    if occurs_at(inner, "url("@, 0) && inner.len() > 4 && inner.last() == ')' {
        let path = trimmed(inner.subrange(4, inner.len() - 1));
        Some(
            if unquoted(path, '"') is Some {
                unquoted(path, '"')->0
            } else if unquoted(path, '\'') is Some {
                unquoted(path, '\'')->0
            } else {
                path
            },
        )
    } else {
        None
    }
}

fn strip_quotes<'a>(s: &'a str, quote: char) -> (result: Option<&'a str>)
    ensures
        text_view(result) == unquoted(s@, quote),
{
    let length: usize = s.unicode_len();
    if length >= 2 && s.get_char(0) == quote && s.get_char(length - 1) == quote {
        Some(s.substring_char(1, length - 1))
    } else {
        None
    }
}

/// Finds the path in a `url(..)` value. Single or double quotes around it are
/// left out.
pub fn background_url<'a>(value: &'a str) -> (result: Option<&'a str>)
    ensures
        text_view(result) == url_of(value@),
{
    let inner = trim(value);
    proof {
        reveal_strlit("url(");
    }
    let length: usize = inner.unicode_len();
    if !starts_with(inner, "url(") || length < 5 || inner.get_char(length - 1) != ')' {
        return None;
    }
    let path = trim(inner.substring_char(4, length - 1));
    match strip_quotes(path, '"') {
        Some(text) => Some(text),
        None => match strip_quotes(path, '\'') {
            Some(text) => Some(text),
            None => Some(path),
        },
    }
}

} // verus!
