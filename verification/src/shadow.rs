//! CSS box-shadow and text-shadow layers.

use vstd::prelude::*;
use vstd::string::*;
use crate::color::{accepted, parse, parse_accepted, resolves, total_conversion, Hsl};
use crate::gradient::{depth, split_top_level, top_level};
use crate::layout::{number, number_of};
use crate::rect::PhysicalRect;
use crate::text::{
    chars_of, eq_ignore_case, is_whitespace, same, same_ignoring_case, trim, trimmed, views, white,
};

verus! {

/// One shadow; lengths are the bits of single-precision pixel values.
#[derive(Clone, Copy, Debug, PartialEq, Eq, Structural)]
pub struct Shadow {
    pub dx: u32,
    pub dy: u32,
    pub blur: u32,
    pub spread: u32,
    pub color: u32,
    pub inset: bool,
}

/// One token of a layer: a word, or a length with its sign.
pub enum ShadowToken<'a> {
    Word(&'a str),
    Length { bits: u32, negative: bool },
}

/// What a token contributes to its layer.
pub enum Part {
    /// The `inset` keyword of a box shadow.
    Inset,
    /// `currentcolor`.
    Current,
    /// A color.
    Color(Seq<char>),
    /// A length.
    Length { bits: u32, negative: bool },
    /// Nothing a layer may hold.
    Invalid,
}

/// The part that a token plays.
pub open spec fn part_of(token: ShadowToken, box_shadow: bool) -> Part {
    match token {
        ShadowToken::Length { bits, negative } => Part::Length { bits, negative },
        ShadowToken::Word(word) => if word@ == "inset"@ && box_shadow {
            Part::Inset
        } else if same_ignoring_case(word@, "currentcolor"@) {
            Part::Current
        } else if accepted(word@) is Some {
            Part::Color(word@)
        } else {
            Part::Invalid
        },
    }
}

/// The lengths among the first `n` tokens.
pub open spec fn lengths(tokens: Seq<ShadowToken>, n: int) -> Seq<(u32, bool)>
    decreases n,
{
    if n <= 0 {
        Seq::empty()
    } else {
        match tokens[n - 1] {
            ShadowToken::Length { bits, negative } => lengths(tokens, n - 1).push((bits, negative)),
            ShadowToken::Word(_) => lengths(tokens, n - 1),
        }
    }
}

/// `token` is the last of the tokens that set the color.
pub open spec fn last_color_token(tokens: Seq<ShadowToken>, box_shadow: bool, at: int) -> bool {
    &&& 0 <= at < tokens.len()
    &&& part_of(tokens[at], box_shadow) is Current || part_of(tokens[at], box_shadow) is Color
    &&& forall|k: int|
        at < k < tokens.len() ==> !(part_of(#[trigger] tokens[k], box_shadow) is Current) && !(part_of(
            tokens[k],
            box_shadow,
        ) is Color)
}

/// `color` is the color of a layer: the last one stated, else the current one.
pub open spec fn layer_color<H: Fn(Hsl) -> (u8, u8, u8)>(
    tokens: Seq<ShadowToken>,
    box_shadow: bool,
    current: u32,
    hsl: &H,
    color: u32,
) -> bool {
    ||| exists|at: int|
        #[trigger] last_color_token(tokens, box_shadow, at) && match part_of(tokens[at], box_shadow) {
            Part::Current => color == current,
            Part::Color(text) => resolves(accepted(text)->0, hsl, color),
            _ => false,
        }
    ||| color == current && forall|at: int| !#[trigger] last_color_token(tokens, box_shadow, at)
}

/// Every token has a part in the layer.
pub open spec fn all_valid(tokens: Seq<ShadowToken>, box_shadow: bool) -> bool {
    forall|k: int| 0 <= k < tokens.len() ==> !(part_of(#[trigger] tokens[k], box_shadow) is Invalid)
}

/// The lengths make a shadow: two offsets, an optional blur that is not
/// negative and, for a box shadow, an optional spread.
pub open spec fn lengths_fit(list: Seq<(u32, bool)>, box_shadow: bool) -> bool {
    &&& 2 <= list.len() <= (if box_shadow {
        4int
    } else {
        3int
    })
    &&& list.len() > 2 ==> !list[2].1
}

/// The bits at a position of the lengths, zero where there are fewer.
pub open spec fn length_at(list: Seq<(u32, bool)>, at: int) -> u32 {
    if at < list.len() {
        list[at].0
    } else {
        0
    }
}

/// Some token among the first `n` is the `inset` keyword.
pub open spec fn has_inset(tokens: Seq<ShadowToken>, box_shadow: bool, n: int) -> bool {
    exists|k: int| 0 <= k < n && part_of(#[trigger] tokens[k], box_shadow) is Inset
}

fn length_or_zero(list: &Vec<(u32, bool)>, at: usize) -> (result: u32)
    ensures
        result == length_at(list@, at as int),
{
    if at < list.len() {
        list[at].0
    } else {
        0
    }
}

/// The tokens of a layer make this shadow, or none.
pub open spec fn reads_as<H: Fn(Hsl) -> (u8, u8, u8)>(
    tokens: Seq<ShadowToken>,
    current: u32,
    box_shadow: bool,
    hsl: &H,
    result: Option<Shadow>,
) -> bool {
    let list = lengths(tokens, tokens.len() as int);
    match result {
        None => !all_valid(tokens, box_shadow) || !lengths_fit(list, box_shadow),
        Some(shadow) => {
            &&& all_valid(tokens, box_shadow)
            &&& lengths_fit(list, box_shadow)
            &&& shadow.dx == length_at(list, 0)
            &&& shadow.dy == length_at(list, 1)
            &&& shadow.blur == length_at(list, 2)
            &&& shadow.spread == length_at(list, 3)
            &&& shadow.inset == has_inset(tokens, box_shadow, tokens.len() as int)
            &&& layer_color(tokens, box_shadow, current, hsl, shadow.color)
        },
    }
}

/// Reads one shadow layer. A layer with an unknown token, too few or too many
/// lengths, or a negative blur is dropped.
pub fn parse_layer<'a, H: Fn(Hsl) -> (u8, u8, u8)>(
    tokens: &Vec<ShadowToken<'a>>,
    current_color: u32,
    box_shadow: bool,
    hsl: &H,
) -> (result: Option<Shadow>)
    requires
        total_conversion(hsl),
    ensures
        reads_as(tokens@, current_color, box_shadow, hsl, result),
{
    let mut list: Vec<(u32, bool)> = Vec::new();
    let mut color: u32 = current_color;
    let mut inset: bool = false;
    let mut i: usize = 0;
    assert(tokens@.take(0) =~= Seq::empty());
    while i < tokens.len()
        invariant
            total_conversion(hsl),
            i <= tokens@.len(),
            list@ == lengths(tokens@, i as int),
            forall|k: int| 0 <= k < i ==> !(part_of(#[trigger] tokens@[k], box_shadow) is Invalid),
            inset == has_inset(tokens@, box_shadow, i as int),
            layer_color(tokens@.take(i as int), box_shadow, current_color, hsl, color),
        decreases tokens@.len() - i,
    {
        let ghost before = tokens@.take(i as int);
        let ghost after = tokens@.take(i + 1);
        assert(after =~= before.push(tokens@[i as int]));
        match &tokens[i] {
            ShadowToken::Length { bits, negative } => {
                list.push((*bits, *negative));
                proof {
                    keep_color(before, tokens@[i as int], box_shadow, current_color, hsl, color);
                    assert(!(part_of(tokens@[i as int], box_shadow) is Inset));
                }
            },
            ShadowToken::Word(word) => {
                if same(word, "inset") && box_shadow {
                    inset = true;
                    proof {
                        keep_color(before, tokens@[i as int], box_shadow, current_color, hsl, color);
                        assert(part_of(tokens@[i as int], box_shadow) is Inset);
                    }
                } else if eq_ignore_case(word, "currentcolor") {
                    color = current_color;
                    assert(last_color_token(after, box_shadow, i as int));
                } else {
                    match parse(word, hsl) {
                        Some(parsed) => {
                            color = parsed;
                            assert(last_color_token(after, box_shadow, i as int));
                        },
                        None => {
                            assert(part_of(tokens@[i as int], box_shadow) is Invalid);
                            return None;
                        },
                    }
                }
            },
        }
        i = i + 1;
    }
    assert(tokens@.take(i as int) =~= tokens@);
    let maximum: usize = if box_shadow {
        4
    } else {
        3
    };
    if list.len() < 2 || list.len() > maximum || (list.len() > 2 && list[2].1) {
        return None;
    }
    Some(
        Shadow {
            dx: list[0].0,
            dy: list[1].0,
            blur: length_or_zero(&list, 2),
            spread: length_or_zero(&list, 3),
            color,
            inset,
        },
    )
}

proof fn keep_color<H: Fn(Hsl) -> (u8, u8, u8)>(
    before: Seq<ShadowToken>,
    token: ShadowToken,
    box_shadow: bool,
    current: u32,
    hsl: &H,
    color: u32,
)
    requires
        layer_color(before, box_shadow, current, hsl, color),
        !(part_of(token, box_shadow) is Current),
        !(part_of(token, box_shadow) is Color),
    ensures
        layer_color(before.push(token), box_shadow, current, hsl, color),
{
    let after = before.push(token);
    if exists|at: int|
        #[trigger] last_color_token(before, box_shadow, at) && match part_of(before[at], box_shadow) {
            Part::Current => color == current,
            Part::Color(text) => resolves(accepted(text)->0, hsl, color),
            _ => false,
        } {
        let at = choose|at: int|
            #[trigger] last_color_token(before, box_shadow, at) && match part_of(
                before[at],
                box_shadow,
            ) {
                Part::Current => color == current,
                Part::Color(text) => resolves(accepted(text)->0, hsl, color),
                _ => false,
            };
        assert(after[at] == before[at]);
        assert(last_color_token(after, box_shadow, at)) by {
            assert forall|k: int| at < k < after.len() implies !(part_of(
                #[trigger] after[k],
                box_shadow,
            ) is Current) && !(part_of(after[k], box_shadow) is Color) by {
                if k < before.len() {
                    assert(after[k] == before[k]);
                }
            }
        }
    } else {
        assert forall|at: int| !#[trigger] last_color_token(after, box_shadow, at) by {
            if last_color_token(after, box_shadow, at) {
                assert(at < before.len());
                assert(after[at] == before[at]);
                assert(last_color_token(before, box_shadow, at)) by {
                    assert forall|k: int| at < k < before.len() implies !(part_of(
                        #[trigger] before[k],
                        box_shadow,
                    ) is Current) && !(part_of(before[k], box_shadow) is Color) by {
                        assert(after[k] == before[k]);
                    }
                }
            }
        }
    }
}

/// The first `n` layers make these shadows; a layer that makes none is dropped.
pub open spec fn reads_all<H: Fn(Hsl) -> (u8, u8, u8)>(
    layers: Seq<Vec<ShadowToken>>,
    n: int,
    current: u32,
    box_shadow: bool,
    hsl: &H,
    out: Seq<Shadow>,
) -> bool
    decreases n,
{
    if n <= 0 {
        out.len() == 0
    } else {
        ||| reads_as(layers[n - 1]@, current, box_shadow, hsl, None) && reads_all(
            layers,
            n - 1,
            current,
            box_shadow,
            hsl,
            out,
        )
        ||| out.len() > 0 && reads_as(
            layers[n - 1]@,
            current,
            box_shadow,
            hsl,
            Some(out.last()),
        ) && reads_all(layers, n - 1, current, box_shadow, hsl, out.drop_last())
    }
}

/// Reads all layers of a shadow property.
pub fn parse_shadows<'a, H: Fn(Hsl) -> (u8, u8, u8)>(
    layers: &Vec<Vec<ShadowToken<'a>>>,
    current_color: u32,
    box_shadow: bool,
    hsl: &H,
) -> (result: Vec<Shadow>)
    requires
        total_conversion(hsl),
    ensures
        reads_all(layers@, layers@.len() as int, current_color, box_shadow, hsl, result@),
{
    let mut shadows: Vec<Shadow> = Vec::new();
    let mut i: usize = 0;
    while i < layers.len()
        invariant
            total_conversion(hsl),
            i <= layers@.len(),
            reads_all(layers@, i as int, current_color, box_shadow, hsl, shadows@),
        decreases layers@.len() - i,
    {
        if let Some(shadow) = parse_layer(&layers[i], current_color, box_shadow, hsl) {
            let ghost before = shadows@;
            shadows.push(shadow);
            assert(shadows@.drop_last() =~= before);
        }
        i = i + 1;
    }
    shadows
}

/// Position `i` holds white space outside all parentheses.
pub open spec fn gap_at(s: Seq<char>, i: int) -> bool {
    white(s[i]) && depth(s, i) == 0
}

/// The maximal runs of characters between the gaps of the first `n` characters.
pub open spec fn css_words(s: Seq<char>, n: int) -> Seq<Seq<char>>
    decreases n,
{
    if n <= 0 {
        Seq::empty()
    } else {
        let before = css_words(s, n - 1);
        if gap_at(s, n - 1) {
            before
        } else if n > 1 && !gap_at(s, n - 2) {
            before.update(before.len() - 1, before.last().push(s[n - 1]))
        } else {
            before.push(seq![s[n - 1]])
        }
    }
}

/// Splits a value at white space, but not inside parentheses.
pub fn split_css_tokens<'a>(s: &'a str) -> (result: Vec<&'a str>)
    ensures
        views(result@) == css_words(s@, s@.len() as int),
{
    let cs = chars_of(s);
    let mut out: Vec<&'a str> = Vec::new();
    let mut start: usize = 0;
    let mut open: bool = false;
    let mut level: i128 = 0;
    let mut i: usize = 0;
    assert(views(out@) =~= Seq::empty());
    while i < cs.len()
        invariant
            cs@ == s@,
            start <= i <= cs@.len(),
            level == depth(s@, i as int),
            -(i as int) <= level <= i,
            open == (i > 0 && !gap_at(s@, i - 1)),
            open ==> start < i,
            ({
                let done = css_words(s@, i as int);
                if open {
                    done == views(out@).push(s@.subrange(start as int, i as int))
                } else {
                    done == views(out@)
                }
            }),
        decreases cs@.len() - i,
    {
        let ghost parts = views(out@);
        if is_whitespace(cs[i]) && level == 0 {
            if open {
                let word = s.substring_char(start, i);
                out.push(word);
                assert(views(out@) =~= parts.push(word@));
            }
            open = false;
        } else {
            if !open {
                start = i;
                open = true;
                assert(seq![s@[i as int]] =~= s@.subrange(i as int, i + 1));
            } else {
                let ghost so_far = parts.push(s@.subrange(start as int, i as int));
                assert(s@.subrange(start as int, i as int).push(s@[i as int]) =~= s@.subrange(
                    start as int,
                    i + 1,
                ));
                assert(so_far.update(so_far.len() - 1, so_far.last().push(s@[i as int]))
                    =~= parts.push(s@.subrange(start as int, i + 1)));
            }
        }
        if cs[i] == '(' {
            level = level + 1;
        } else if cs[i] == ')' {
            level = level - 1;
        }
        i = i + 1;
    }
    if open {
        let ghost parts = views(out@);
        let word = s.substring_char(start, i);
        out.push(word);
        assert(views(out@) =~= parts.push(word@));
    }
    out
}

/// The words of each layer of a shadow property.
pub open spec fn layer_words(value: Seq<char>) -> Seq<Seq<Seq<char>>> {
    let segments = top_level(value, ',', value.len() as int);
    Seq::new(
        segments.len(),
        |i: int| css_words(trimmed(segments[i]), trimmed(segments[i]).len() as int),
    )
}

/// Splits a shadow property into its layers, and each layer into its words.
pub fn split_layers<'a>(value: &'a str) -> (result: Vec<Vec<&'a str>>)
    ensures
        Seq::new(result@.len(), |i: int| views(result@[i]@)) == layer_words(value@),
{
    let segments = split_top_level(value, ',');
    let ghost all = top_level(value@, ',', value@.len() as int);
    let mut layers: Vec<Vec<&'a str>> = Vec::new();
    let mut i: usize = 0;
    while i < segments.len()
        invariant
            i <= segments@.len(),
            all == views(segments@),
            layers@.len() == i,
            forall|k: int|
                0 <= k < i ==> views((#[trigger] layers@[k])@) == css_words(
                    trimmed(all[k]),
                    trimmed(all[k]).len() as int,
                ),
        decreases segments@.len() - i,
    {
        assert(all[i as int] == segments@[i as int]@);
        layers.push(split_css_tokens(trim(segments[i])));
        i = i + 1;
    }
    assert(Seq::new(layers@.len(), |k: int| views(layers@[k]@)) =~= layer_words(value@));
    layers
}

/// A word that is neither a keyword nor a color, and has the form of a length.
pub open spec fn plain_length(word: Seq<char>, box_shadow: bool) -> bool {
    &&& !(word == "inset"@ && box_shadow)
    &&& !same_ignoring_case(word, "currentcolor"@)
    &&& accepted(word) is None
    &&& number_of(word) is Some
}

/// `length` may be called on every number.
pub open spec fn total_lengths<'a, L: Fn(&'a str) -> (u32, bool)>(length: &L) -> bool {
    forall|text: &'a str| #[trigger] call_requires(*length, (text,))
}

/// `token` is what a word of a layer stands for; `length` gives the bits and the
/// sign of its number.
pub open spec fn stands_for<'a, L: Fn(&'a str) -> (u32, bool)>(
    word: Seq<char>,
    box_shadow: bool,
    length: &L,
    token: ShadowToken,
) -> bool {
    match token {
        ShadowToken::Word(text) => !plain_length(word, box_shadow) && text@ == word,
        ShadowToken::Length { bits, negative } => {
            &&& plain_length(word, box_shadow)
            &&& exists|text: &'a str, read: (u32, bool)|
                {
                    &&& text@ == number_of(word)->0
                    &&& #[trigger] call_ensures(*length, (text,), read)
                    &&& read.0 == bits && read.1 == negative
                }
        },
    }
}

/// The tokens of a layer stand for its words.
pub open spec fn stand_for<'a, L: Fn(&'a str) -> (u32, bool)>(
    words: Seq<Seq<char>>,
    box_shadow: bool,
    length: &L,
    tokens: Seq<ShadowToken>,
) -> bool {
    &&& tokens.len() == words.len()
    &&& forall|i: int|
        0 <= i < tokens.len() ==> stands_for(words[i], box_shadow, length, #[trigger] tokens[i])
}

fn read_token<'a, L: Fn(&'a str) -> (u32, bool)>(word: &'a str, box_shadow: bool, length: &L) -> (result:
    ShadowToken<'a>)
    requires
        total_lengths(length),
    ensures
        stands_for(word@, box_shadow, length, result),
{
    if (same(word, "inset") && box_shadow) || eq_ignore_case(word, "currentcolor")
        || parse_accepted(word).is_some() {
        return ShadowToken::Word(word);
    }
    match number(word) {
        Some(text) => {
            let read = length(text);
            ShadowToken::Length { bits: read.0, negative: read.1 }
        },
        None => ShadowToken::Word(word),
    }
}

/// The layers of a shadow property hold these tokens.
pub open spec fn layers_stand_for<'a, L: Fn(&'a str) -> (u32, bool)>(
    value: Seq<char>,
    box_shadow: bool,
    length: &L,
    layers: Seq<Vec<ShadowToken>>,
) -> bool {
    &&& layers.len() == layer_words(value).len()
    &&& forall|i: int|
        0 <= i < layers.len() ==> stand_for(
            layer_words(value)[i],
            box_shadow,
            length,
            (#[trigger] layers[i])@,
        )
}

/// Reads the tokens of every layer of a shadow property.
pub fn read_layers<'a, L: Fn(&'a str) -> (u32, bool)>(value: &'a str, box_shadow: bool, length: &L) -> (result:
    Vec<Vec<ShadowToken<'a>>>)
    requires
        total_lengths(length),
    ensures
        layers_stand_for(value@, box_shadow, length, result@),
{
    let split = split_layers(value);
    let ghost all = layer_words(value@);
    let mut layers: Vec<Vec<ShadowToken<'a>>> = Vec::new();
    let mut i: usize = 0;
    assert(all.len() == split@.len());
    while i < split.len()
        invariant
            i <= split@.len(),
            total_lengths(length),
            all == Seq::new(split@.len(), |k: int| views(split@[k]@)),
            layers@.len() == i,
            forall|k: int|
                0 <= k < i ==> stand_for(all[k], box_shadow, length, (#[trigger] layers@[k])@),
        decreases split@.len() - i,
    {
        let words = &split[i];
        let mut tokens: Vec<ShadowToken<'a>> = Vec::new();
        let mut k: usize = 0;
        while k < words.len()
            invariant
                k <= words@.len(),
                total_lengths(length),
                tokens@.len() == k,
                forall|j: int|
                    0 <= j < k ==> stands_for(
                        words@[j]@,
                        box_shadow,
                        length,
                        #[trigger] tokens@[j],
                    ),
            decreases words@.len() - k,
        {
            tokens.push(read_token(words[k], box_shadow, length));
            k = k + 1;
        }
        assert(all[i as int] == views(words@));
        assert(stand_for(all[i as int], box_shadow, length, tokens@)) by {
            assert forall|j: int| 0 <= j < tokens@.len() implies stands_for(
                all[i as int][j],
                box_shadow,
                length,
                #[trigger] tokens@[j],
            ) by {
                assert(all[i as int][j] == words@[j]@);
            }
        }
        layers.push(tokens);
        i = i + 1;
    }
    layers
}

/// The shadows of a property: those of its layers.
pub open spec fn shadows_of<'a, H: Fn(Hsl) -> (u8, u8, u8), L: Fn(&'a str) -> (u32, bool)>(
    value: Seq<char>,
    current: u32,
    box_shadow: bool,
    hsl: &H,
    length: &L,
    shadows: Seq<Shadow>,
) -> bool {
    exists|layers: Seq<Vec<ShadowToken>>|
        {
            &&& #[trigger] layers_stand_for(value, box_shadow, length, layers)
            &&& reads_all(layers, layers.len() as int, current, box_shadow, hsl, shadows)
        }
}

/// Reads a `box-shadow`. `length` gives the bits and the sign of a number.
pub fn parse_box_shadows<'a, H: Fn(Hsl) -> (u8, u8, u8), L: Fn(&'a str) -> (u32, bool)>(
    value: &'a str,
    current_color: u32,
    hsl: &H,
    length: &L,
) -> (result: Vec<Shadow>)
    requires
        total_conversion(hsl),
        total_lengths(length),
    ensures
        shadows_of(value@, current_color, true, hsl, length, result@),
{
    let layers = read_layers(value, true, length);
    parse_shadows(&layers, current_color, true, hsl)
}

/// Reads a `text-shadow`, which is never inset and has no spread.
pub fn parse_text_shadows<'a, H: Fn(Hsl) -> (u8, u8, u8), L: Fn(&'a str) -> (u32, bool)>(
    value: &'a str,
    current_color: u32,
    hsl: &H,
    length: &L,
) -> (result: Vec<Shadow>)
    requires
        total_conversion(hsl),
        total_lengths(length),
    ensures
        shadows_of(value@, current_color, false, hsl, length, result@),
{
    let layers = read_layers(value, false, length);
    parse_shadows(&layers, current_color, false, hsl)
}

/// The shadows that reach out of their box.
pub open spec fn outer_of(shadows: Seq<Shadow>) -> Seq<Shadow>
    decreases shadows.len(),
{
    if shadows.len() == 0 {
        Seq::empty()
    } else if shadows.last().inset {
        outer_of(shadows.drop_last())
    } else {
        outer_of(shadows.drop_last()).push(shadows.last())
    }
}

/// The shadows that reach out of their box.
pub fn outer_shadows(shadows: &Vec<Shadow>) -> (result: Vec<Shadow>)
    ensures
        result@ == outer_of(shadows@),
{
    let mut outer: Vec<Shadow> = Vec::new();
    let mut i: usize = 0;
    assert(shadows@.take(0) =~= Seq::<Shadow>::empty());
    while i < shadows.len()
        invariant
            i <= shadows@.len(),
            outer@ == outer_of(shadows@.take(i as int)),
        decreases shadows@.len() - i,
    {
        assert(shadows@.take(i + 1).drop_last() =~= shadows@.take(i as int));
        if !shadows[i].inset {
            outer.push(shadows[i]);
        }
        i = i + 1;
    }
    assert(shadows@.take(i as int) =~= shadows@);
    outer
}

/// A box with everything that its effects reach.
pub open spec fn reached(bounds: PhysicalRect, reaches: Seq<PhysicalRect>) -> PhysicalRect
    decreases reaches.len(),
{
    if reaches.len() == 0 {
        bounds
    } else {
        reached(bounds, reaches.drop_last()).join(reaches.last())
    }
}

/// The bounds of a box together with those that its shadows reach.
pub fn effect_bounds(bounds: PhysicalRect, reaches: &Vec<PhysicalRect>) -> (result: PhysicalRect)
    ensures
        result == reached(bounds, reaches@),
{
    let mut all = bounds;
    let mut i: usize = 0;
    assert(reaches@.take(0) =~= Seq::<PhysicalRect>::empty());
    while i < reaches.len()
        invariant
            i <= reaches@.len(),
            all == reached(bounds, reaches@.take(i as int)),
        decreases reaches@.len() - i,
    {
        assert(reaches@.take(i + 1).drop_last() =~= reaches@.take(i as int));
        all = all.union(reaches[i]);
        i = i + 1;
    }
    assert(reaches@.take(i as int) =~= reaches@);
    all
}

/// Effect bounds hold the box and everything that a shadow reaches.
pub proof fn effects_are_held(bounds: PhysicalRect, reaches: Seq<PhysicalRect>, x: int, y: int)
    requires
        bounds.holds(x, y) || exists|i: int|
            0 <= i < reaches.len() && (#[trigger] reaches[i]).holds(x, y),
    ensures
        reached(bounds, reaches).holds(x, y),
    decreases reaches.len(),
{
    if reaches.len() > 0 && !reaches.last().holds(x, y) {
        if !bounds.holds(x, y) {
            let i = choose|i: int| 0 <= i < reaches.len() && (#[trigger] reaches[i]).holds(x, y);
            assert(reaches.drop_last()[i].holds(x, y));
        }
        effects_are_held(bounds, reaches.drop_last(), x, y);
    }
}

} // verus!
