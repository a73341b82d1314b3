//! CSS translations, shared by paint, descendant geometry and hit testing.

use vstd::prelude::*;
use vstd::string::*;
use crate::layout::numeral::{is_numeral, numeral};
use crate::layout::{before_percent, strip_percent, Length, LengthView};
use crate::style::{text_view, value_of, Computed};
use crate::text::{
    fields, occurs_at, same, split_fields, strip_prefix, strip_suffix, trim, trimmed, views,
};

verus! {

/// The distance that a value states: a percentage or a length in pixels. What
/// cannot be read moves nothing.
pub open spec fn distance_of(value: Seq<char>) -> LengthView {
    let inner = trimmed(value);
    match before_percent(inner) {
        Some(text) => if numeral(trimmed(text)) {
            LengthView::Percent(trimmed(text))
        } else {
            LengthView::Zero
        },
        None => {
            let text = trimmed(inner.subrange(0, inner.len() - 2));
            if occurs_at(inner, "px"@, inner.len() - 2) && numeral(text) {
                LengthView::Px(text)
            } else {
                LengthView::Zero
            }
        },
    }
}

/// Reads a distance.
pub fn css_distance<'a>(value: &'a str) -> (result: Length<'a>)
    ensures
        result@ == distance_of(value@),
{
    let inner = trim(value);
    match strip_percent(inner) {
        Some(text) => {
            let text = trim(text);
            if is_numeral(text) {
                Length::Percent(text)
            } else {
                Length::Zero
            }
        },
        None => {
            proof {
                reveal_strlit("px");
            }
            match strip_suffix(inner, "px") {
                Some(text) => {
                    let text = trim(text);
                    if is_numeral(text) {
                        Length::Px(text)
                    } else {
                        Length::Zero
                    }
                },
                None => Length::Zero,
            }
        },
    }
}

/// The pieces that are not blank.
pub open spec fn not_blank(list: Seq<Seq<char>>) -> Seq<Seq<char>>
    decreases list.len(),
{
    if list.len() == 0 {
        Seq::empty()
    } else if trimmed(list.last()).len() == 0 {
        not_blank(list.drop_last())
    } else {
        not_blank(list.drop_last()).push(list.last())
    }
}

/// The pieces of each part between spaces that are not blank.
pub open spec fn spaced_pieces(parts: Seq<Seq<char>>) -> Seq<Seq<char>>
    decreases parts.len(),
{
    if parts.len() == 0 {
        Seq::empty()
    } else {
        spaced_pieces(parts.drop_last()) + not_blank(fields(parts.last(), ' '))
    }
}

/// The components of a function's arguments: what stands between commas and
/// spaces and is not blank.
pub open spec fn components(arguments: Seq<char>) -> Seq<Seq<char>> {
    spaced_pieces(fields(arguments, ','))
}

fn append_pieces<'a>(out: &mut Vec<&'a str>, part: &'a str)
    ensures
        views(final(out)@) == views(old(out)@) + not_blank(fields(part@, ' ')),
{
    let list = split_fields(part, ' ');
    let ghost all = views(list@);
    let ghost before = views(out@);
    let mut i: usize = 0;
    assert(all.take(0) =~= Seq::<Seq<char>>::empty());
    assert(before + not_blank(all.take(0)) =~= before);
    while i < list.len()
        invariant
            i <= list@.len(),
            all == views(list@),
            views(out@) == before + not_blank(all.take(i as int)),
        decreases list@.len() - i,
    {
        let ghost held = views(out@);
        assert(all.take(i + 1).drop_last() =~= all.take(i as int));
        assert(all.take(i + 1).last() == list@[i as int]@);
        let blank = trim(list[i]).unicode_len() == 0;
        if !blank {
            out.push(list[i]);
            assert(views(out@) =~= held.push(list@[i as int]@));
            assert(held.push(list@[i as int]@) =~= before + not_blank(all.take(i as int)).push(
                list@[i as int]@,
            ));
        }
        i = i + 1;
    }
    assert(all.take(all.len() as int) =~= all);
}

fn split_components<'a>(arguments: &'a str) -> (result: Vec<&'a str>)
    ensures
        views(result@) == components(arguments@),
{
    let parts = split_fields(arguments, ',');
    let ghost all = views(parts@);
    let mut out: Vec<&'a str> = Vec::new();
    let mut i: usize = 0;
    assert(all.take(0) =~= Seq::<Seq<char>>::empty());
    assert(views(out@) =~= Seq::<Seq<char>>::empty());
    while i < parts.len()
        invariant
            i <= parts@.len(),
            all == views(parts@),
            views(out@) == spaced_pieces(all.take(i as int)),
        decreases parts@.len() - i,
    {
        assert(all.take(i + 1).drop_last() =~= all.take(i as int));
        assert(all.take(i + 1).last() == parts@[i as int]@);
        append_pieces(&mut out, parts[i]);
        i = i + 1;
    }
    assert(all.take(all.len() as int) =~= all);
    out
}

/// The arguments of a function that a value calls by this name.
pub open spec fn arguments_of(value: Seq<char>, opening: Seq<char>) -> Option<Seq<char>> {
    let rest = value.subrange(opening.len() as int, value.len() as int);
    if occurs_at(value, opening, 0) && occurs_at(rest, ")"@, rest.len() - 1) {
        Some(rest.subrange(0, rest.len() - 1))
    } else {
        None
    }
}

fn strip_call<'a>(value: &'a str, opening: &str) -> (result: Option<&'a str>)
    ensures
        text_view(result) == arguments_of(value@, opening@),
{
    proof {
        reveal_strlit(")");
    }
    match strip_prefix(value, opening) {
        Some(rest) => strip_suffix(rest, ")"),
        None => None,
    }
}

/// The component at an index, read as a distance.
pub open spec fn component_at(list: Seq<Seq<char>>, index: int) -> LengthView {
    if index < list.len() {
        distance_of(list[index])
    } else {
        LengthView::Zero
    }
}

/// The horizontal and vertical translation of a style. A missing component, and
/// what cannot be read, moves nothing.
pub open spec fn translation_of(style: Map<Seq<char>, Seq<char>>) -> (LengthView, LengthView) {
    match value_of(style, "transform"@) {
        None => (LengthView::Zero, LengthView::Zero),
        Some(text) => {
            let value = trimmed(text);
            if value == "none"@ {
                (LengthView::Zero, LengthView::Zero)
            } else if let Some(inner) = arguments_of(value, "translateX("@) {
                (distance_of(inner), LengthView::Zero)
            } else if let Some(inner) = arguments_of(value, "translateY("@) {
                (LengthView::Zero, distance_of(inner))
            } else if let Some(inner) = arguments_of(value, "translate("@) {
                let list = components(inner);
                (component_at(list, 0), component_at(list, 1))
            } else {
                (LengthView::Zero, LengthView::Zero)
            }
        },
    }
}

/// Resolves the supported translations of a style.
pub fn translation<'a>(computed: &'a Computed) -> (result: (Length<'a>, Length<'a>))
    ensures
        (result.0@, result.1@) == translation_of(computed@),
{
    let value = match computed.get("transform") {
        Some(text) => trim(text),
        None => return (Length::Zero, Length::Zero),
    };
    if same(value, "none") {
        return (Length::Zero, Length::Zero);
    }
    if let Some(inner) = strip_call(value, "translateX(") {
        return (css_distance(inner), Length::Zero);
    }
    if let Some(inner) = strip_call(value, "translateY(") {
        return (Length::Zero, css_distance(inner));
    }
    match strip_call(value, "translate(") {
        Some(inner) => {
            let list = split_components(inner);
            assert(views(list@).len() == list@.len());
            assert(forall|k: int|
                0 <= k < list@.len() ==> views(list@)[k] == (#[trigger] list@[k])@);
            let x = if list.len() > 0 {
                css_distance(list[0])
            } else {
                Length::Zero
            };
            let y = if list.len() > 1 {
                css_distance(list[1])
            } else {
                Length::Zero
            };
            (x, y)
        },
        None => (Length::Zero, Length::Zero),
    }
}

} // verus!
