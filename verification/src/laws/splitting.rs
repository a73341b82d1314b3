//! How values are taken apart and which of their parts count.

use vstd::prelude::*;
use vstd::string::*;
use crate::border::{
    color_by, shorthand_color, shorthand_style, side_paint, style_by, token_style, BorderStyle,
    Side,
};
use crate::color::{accepted, resolves, Hsl};
use crate::gradient::{angle_of, depth, direction_segment, top_level, AngleView};
use crate::laws::reading::{solid, trimming_takes_the_ends};
use crate::layout::number_of;
use crate::layout::numeral::numeral;
use crate::shadow::{
    css_words, has_inset, outer_of, part_of, plain_length, reached, reads_all, reads_as, Shadow,
    ShadowToken,
};
use crate::rect::PhysicalRect;
use crate::style::value_of;
use crate::text::{same_ignoring_case, white, words};

verus! {

proof fn depth_of_a_front(a: Seq<char>, b: Seq<char>, n: int)
    requires
        0 <= n <= a.len(),
    ensures
        depth(a + b, n) == depth(a, n),
    decreases n,
{
    if n > 0 {
        depth_of_a_front(a, b, n - 1);
        assert((a + b)[n - 1] == a[n - 1]);
    }
}

proof fn depth_of_a_back(a: Seq<char>, b: Seq<char>, n: int)
    requires
        0 <= n <= b.len(),
    ensures
        depth(a + b, a.len() + n) == depth(a, a.len() as int) + depth(b, n),
    decreases n,
{
    if n == 0 {
        depth_of_a_front(a, b, a.len() as int);
    } else {
        depth_of_a_back(a, b, n - 1);
        assert((a + b)[a.len() + n - 1] == b[n - 1]);
    }
}

proof fn pieces_of_a_front(a: Seq<char>, b: Seq<char>, separator: char, n: int)
    requires
        0 <= n <= a.len(),
    ensures
        top_level(a + b, separator, n) == top_level(a, separator, n),
        top_level(a, separator, n).len() > 0,
    decreases n,
{
    if n > 0 {
        pieces_of_a_front(a, b, separator, n - 1);
        depth_of_a_front(a, b, n - 1);
        assert((a + b)[n - 1] == a[n - 1]);
    }
}

proof fn pieces_of_a_back(front: Seq<char>, b: Seq<char>, separator: char, n: int)
    requires
        0 <= n <= b.len(),
        front.len() > 0,
        separator != '(',
        separator != ')',
        front.last() == separator,
        depth(front.drop_last(), front.len() - 1) == 0,
    ensures
        top_level(front + b, separator, front.len() + n) == top_level(
            front.drop_last(),
            separator,
            front.len() - 1,
        ) + top_level(b, separator, n),
        top_level(b, separator, n).len() > 0,
    decreases n,
{
    let a = front.drop_last();
    let all = front + b;
    let mark = seq![separator];
    assert(front =~= a + mark);
    depth_of_a_front(a, mark, a.len() as int);
    if n == 0 {
        depth_of_a_front(front, b, a.len() as int);
        pieces_of_a_front(front, b, separator, a.len() as int);
        pieces_of_a_front(a, mark, separator, a.len() as int);
        assert(all[front.len() - 1] == separator);
        assert(top_level(all, separator, front.len() as int) =~= top_level(
            a,
            separator,
            a.len() as int,
        ) + top_level(b, separator, 0));
    } else {
        pieces_of_a_back(front, b, separator, n - 1);
        depth_of_a_back(front, b, n - 1);
        depth_of_a_back(a, mark, 1);
        assert(depth(mark, 1) == depth(mark, 0));
        assert(all[front.len() + n - 1] == b[n - 1]);
        let x = top_level(a, separator, a.len() as int);
        let y = top_level(b, separator, n - 1);
        assert(top_level(all, separator, front.len() + n - 1) == x + y);
        assert((x + y).last() == y.last());
        assert(top_level(all, separator, front.len() + n) =~= x + top_level(b, separator, n));
    }
}

/// A separator outside all brackets parts what stands before it from what stands
/// behind it.
pub proof fn separators_part_values(a: Seq<char>, b: Seq<char>, separator: char)
    requires
        separator != '(',
        separator != ')',
        depth(a, a.len() as int) == 0,
    ensures
        ({
            let all = a + seq![separator] + b;
            top_level(all, separator, all.len() as int) == top_level(a, separator, a.len() as int)
                + top_level(b, separator, b.len() as int)
        }),
{
    let front = a + seq![separator];
    assert(front.drop_last() =~= a);
    pieces_of_a_back(front, b, separator, b.len() as int);
}

proof fn nothing_is_parted(s: Seq<char>, separator: char, n: int)
    requires
        0 <= n <= s.len(),
        forall|i: int| 0 <= i < n && s[i] == separator ==> #[trigger] depth(s, i) > 0,
        separator != '(',
        separator != ')',
    ensures
        top_level(s, separator, n) == seq![s.take(n)],
    decreases n,
{
    if n == 0 {
        assert(s.take(0) =~= Seq::empty());
    } else {
        nothing_is_parted(s, separator, n - 1);
        assert(s[n - 1] == separator ==> depth(s, n - 1) > 0);
        assert(s.take(n) =~= s.take(n - 1).push(s[n - 1]));
        assert(top_level(s, separator, n) =~= seq![s.take(n)]);
    }
}

/// What stands in brackets, or has no separator, is not taken apart.
pub proof fn brackets_hold_together(s: Seq<char>, inner: Seq<char>, separator: char)
    requires
        separator != '(',
        separator != ')',
        forall|i: int| 0 <= i < s.len() ==> s[i] != separator,
        forall|i: int| 0 <= i <= inner.len() ==> #[trigger] depth(inner, i) >= 0,
    ensures
        top_level(s, separator, s.len() as int) == seq![s],
        ({
            let all = s + seq!['('] + inner + seq![')'];
            depth(s, s.len() as int) >= 0 ==> top_level(all, separator, all.len() as int) == seq![
                all,
            ]
        }),
{
    nothing_is_parted(s, separator, s.len() as int);
    assert(s.take(s.len() as int) =~= s);
    let all = s + seq!['('] + inner + seq![')'];
    if depth(s, s.len() as int) >= 0 {
        let front = s + seq!['('];
        assert forall|i: int| 0 <= i < all.len() && all[i] == separator implies #[trigger] depth(
            all,
            i,
        ) > 0 by {
            assert(all =~= front + (inner + seq![')']));
            if i < s.len() {
                assert(all[i] == s[i]);
            } else {
                assert(i >= front.len());
                let k = i - front.len();
                depth_of_a_back(front, inner + seq![')'], k);
                depth_of_a_front(inner, seq![')'], k);
                depth_of_a_back(s, seq!['('], 1);
                assert(depth(seq!['('], 1) == depth(seq!['('], 0) + 1);
                assert(depth(inner, k) >= 0);
            }
        }
        nothing_is_parted(all, separator, all.len() as int);
        assert(all.take(all.len() as int) =~= all);
    }
}

/// The stops of a gradient come in their order: those in front of a comma before
/// those behind it.
pub proof fn gradients_run_through_their_stops(
    direction: Seq<char>,
    stops: Seq<char>,
)
    requires
        depth(direction, direction.len() as int) == 0,
        forall|k: int| 0 <= k < direction.len() ==> direction[k] != ',',
    ensures
        ({
            let all = direction + seq![','] + stops;
            let pieces = top_level(all, ',', all.len() as int);
            &&& pieces[0] == direction
            &&& pieces.skip(1) == top_level(stops, ',', stops.len() as int)
        }),
{
    separators_part_values(direction, stops, ',');
    nothing_is_parted(direction, ',', direction.len() as int);
    assert(direction.take(direction.len() as int) =~= direction);
    let all = direction + seq![','] + stops;
    let pieces = top_level(all, ',', all.len() as int);
    assert(pieces.skip(1) =~= top_level(stops, ',', stops.len() as int));
}

proof fn words_of_a_front(a: Seq<char>, b: Seq<char>, n: int)
    requires
        0 <= n <= a.len(),
    ensures
        css_words(a + b, n) == css_words(a, n),
    decreases n,
{
    if n > 0 {
        words_of_a_front(a, b, n - 1);
        depth_of_a_front(a, b, n - 1);
        assert((a + b)[n - 1] == a[n - 1]);
        if n > 1 {
            depth_of_a_front(a, b, n - 2);
            assert((a + b)[n - 2] == a[n - 2]);
        }
    }
}

proof fn words_are_open(s: Seq<char>, n: int)
    requires
        0 < n <= s.len(),
        !(white(s[n - 1]) && depth(s, n - 1) == 0),
    ensures
        css_words(s, n).len() > 0,
    decreases n,
{
    if n > 1 && !(white(s[n - 2]) && depth(s, n - 2) == 0) {
        words_are_open(s, n - 1);
    }
}

proof fn words_of_a_back(front: Seq<char>, b: Seq<char>, n: int)
    requires
        0 <= n <= b.len(),
        front.len() > 0,
        white(front.last()),
        front.last() != '(',
        front.last() != ')',
        depth(front.drop_last(), front.len() - 1) == 0,
    ensures
        css_words(front + b, front.len() + n) == css_words(front.drop_last(), front.len() - 1)
            + css_words(b, n),
    decreases n,
{
    let a = front.drop_last();
    let all = front + b;
    let mark = seq![front.last()];
    assert(front =~= a + mark);
    depth_of_a_front(a, mark, a.len() as int);
    if n == 0 {
        depth_of_a_front(front, b, a.len() as int);
        words_of_a_front(front, b, a.len() as int);
        words_of_a_front(a, mark, a.len() as int);
        assert(all[front.len() - 1] == front.last());
        assert(css_words(a, a.len() as int) + css_words(b, 0) =~= css_words(a, a.len() as int));
    } else {
        words_of_a_back(front, b, n - 1);
        depth_of_a_back(front, b, n - 1);
        depth_of_a_back(a, mark, 1);
        assert(depth(mark, 1) == depth(mark, 0));
        assert(all[front.len() + n - 1] == b[n - 1]);
        let x = css_words(a, a.len() as int);
        let y = css_words(b, n - 1);
        assert(css_words(all, front.len() + n - 1) == x + y);
        if n > 1 {
            depth_of_a_back(front, b, n - 2);
            assert(all[front.len() + n - 2] == b[n - 2]);
            if !(white(b[n - 2]) && depth(b, n - 2) == 0) {
                words_are_open(b, n - 1);
                assert((x + y).last() == y.last());
            }
        } else {
            depth_of_a_front(front, b, a.len() as int);
            assert(all[front.len() - 1] == front.last());
        }
        assert(css_words(all, front.len() + n) =~= x + css_words(b, n));
    }
}

/// White space outside all brackets parts words from each other.
pub proof fn spaces_part_words(a: Seq<char>, space: char, b: Seq<char>)
    requires
        white(space),
        space != '(',
        space != ')',
        depth(a, a.len() as int) == 0,
    ensures
        ({
            let all = a + seq![space] + b;
            css_words(all, all.len() as int) == css_words(a, a.len() as int) + css_words(
                b,
                b.len() as int,
            )
        }),
{
    let front = a + seq![space];
    assert(front.drop_last() =~= a);
    words_of_a_back(front, b, b.len() as int);
}

proof fn one_word_grows(s: Seq<char>, n: int)
    requires
        0 < n <= s.len(),
        forall|i: int| 0 <= i < n && white(s[i]) ==> #[trigger] depth(s, i) != 0,
    ensures
        css_words(s, n) == seq![s.take(n)],
    decreases n,
{
    assert(white(s[n - 1]) ==> depth(s, n - 1) != 0);
    if n == 1 {
        assert(css_words(s, 0) =~= Seq::empty());
        assert(s.take(1) =~= seq![s[0]]);
        assert(css_words(s, 1) =~= seq![s.take(1)]);
    } else {
        one_word_grows(s, n - 1);
        assert(white(s[n - 2]) ==> depth(s, n - 2) != 0);
        assert(s.take(n) =~= s.take(n - 1).push(s[n - 1]));
        assert(css_words(s, n) =~= seq![s.take(n)]);
    }
}

/// A text without white space outside brackets is one word.
pub proof fn texts_without_spaces_are_words(s: Seq<char>)
    requires
        s.len() > 0,
        forall|i: int| 0 <= i < s.len() && white(s[i]) ==> #[trigger] depth(s, i) != 0,
    ensures
        css_words(s, s.len() as int) == seq![s],
{
    one_word_grows(s, s.len() as int);
    assert(s.take(s.len() as int) =~= s);
}

/// Inner shadows are left out where outer ones are asked for, and the others keep
/// their order.
pub proof fn outer_shadows_keep_their_order(shadows: Seq<Shadow>, shadow: Shadow)
    ensures
        outer_of(Seq::empty()) == Seq::<Shadow>::empty(),
        shadow.inset ==> outer_of(shadows.push(shadow)) == outer_of(shadows),
        !shadow.inset ==> outer_of(shadows.push(shadow)) == outer_of(shadows).push(shadow),
{
    assert(shadows.push(shadow).drop_last() =~= shadows);
}

/// An effect reaches as far as its parts, and no further than a rectangle round
/// them.
pub proof fn effects_reach_as_far_as_their_parts(
    bounds: PhysicalRect,
    reaches: Seq<PhysicalRect>,
    x: int,
    y: int,
)
    ensures
        bounds.holds(x, y) ==> reached(bounds, reaches).holds(x, y),
        forall|i: int|
            0 <= i < reaches.len() && (#[trigger] reaches[i]).holds(x, y) ==> reached(
                bounds,
                reaches,
            ).holds(x, y),
        reached(bounds, Seq::empty()) == bounds,
    decreases reaches.len(),
{
    if reaches.len() > 0 {
        let before = reaches.drop_last();
        effects_reach_as_far_as_their_parts(bounds, before, x, y);
        assert forall|i: int| 0 <= i < reaches.len() && (#[trigger] reaches[i]).holds(x, y) implies reached(
            bounds,
            reaches,
        ).holds(x, y) by {
            if i < before.len() {
                assert(before[i] == reaches[i]);
            }
        }
    }
}

/// Shadows come from the layers that can be read, in the order of the layers.
pub proof fn shadows_come_in_order<H: Fn(Hsl) -> (u8, u8, u8)>(
    layers: Seq<Vec<ShadowToken>>,
    layer: Vec<ShadowToken>,
    current: u32,
    box_shadow: bool,
    hsl: &H,
    before: Seq<Shadow>,
    shadow: Shadow,
)
    requires
        reads_all(layers, layers.len() as int, current, box_shadow, hsl, before),
    ensures
        reads_as(layer@, current, box_shadow, hsl, Some(shadow)) ==> reads_all(
            layers.push(layer),
            layers.len() as int + 1,
            current,
            box_shadow,
            hsl,
            before.push(shadow),
        ),
        reads_as(layer@, current, box_shadow, hsl, None) ==> reads_all(
            layers.push(layer),
            layers.len() as int + 1,
            current,
            box_shadow,
            hsl,
            before,
        ),
{
    layers_in_front_count_alone(layers, layer, layers.len() as int, current, box_shadow, hsl, before);
    assert(before.push(shadow).drop_last() =~= before);
    assert(layers.push(layer)[layers.len() as int] == layer);
}

proof fn layers_in_front_count_alone<H: Fn(Hsl) -> (u8, u8, u8)>(
    layers: Seq<Vec<ShadowToken>>,
    layer: Vec<ShadowToken>,
    n: int,
    current: u32,
    box_shadow: bool,
    hsl: &H,
    out: Seq<Shadow>,
)
    requires
        0 <= n <= layers.len(),
    ensures
        reads_all(layers.push(layer), n, current, box_shadow, hsl, out) == reads_all(
            layers,
            n,
            current,
            box_shadow,
            hsl,
            out,
        ),
    decreases n,
{
    if n > 0 {
        assert(layers.push(layer)[n - 1] == layers[n - 1]);
        layers_in_front_count_alone(layers, layer, n - 1, current, box_shadow, hsl, out);
        layers_in_front_count_alone(layers, layer, n - 1, current, box_shadow, hsl, out.drop_last());
    }
}

/// A shadow is an inner one where its box says so, and no shadow of text is.
pub proof fn inner_shadows_say_so(tokens: Seq<ShadowToken>, n: int, i: int)
    requires
        0 <= i < n <= tokens.len(),
    ensures
        (tokens[i] matches ShadowToken::Word(word) && word@ == "inset"@) ==> has_inset(
            tokens,
            true,
            n,
        ),
        !has_inset(tokens, false, n),
        (forall|k: int| 0 <= k < n ==> (#[trigger] tokens[k]) is Length) ==> !has_inset(
            tokens,
            true,
            n,
        ),
{
    if tokens[i] matches ShadowToken::Word(word) && word@ == "inset"@ {
        assert(part_of(tokens[i], true) is Inset);
    }
}

/// The color and the line of a side come from its own property where that can be
/// read, and from the shorthand otherwise.
pub proof fn own_properties_come_first<H: Fn(Hsl) -> (u8, u8, u8)>(
    style: Map<Seq<char>, Seq<char>>,
    name: Seq<char>,
    shorthand: Seq<char>,
    own: Seq<char>,
    hsl: &H,
    color: Option<u32>,
    line: Option<BorderStyle>,
)
    ensures
        value_of(style, name) == Some(own) && accepted(own) is Some && color_by(
            style,
            name,
            shorthand,
            hsl,
            color,
        ) ==> color is Some && resolves(accepted(own)->0, hsl, color->0),
        value_of(style, name) is None && value_of(style, shorthand) == Some(own) && color_by(
            style,
            name,
            shorthand,
            hsl,
            color,
        ) ==> shorthand_color(own, hsl, color),
        value_of(style, name) is None && value_of(style, shorthand) is None && color_by(
            style,
            name,
            shorthand,
            hsl,
            color,
        ) ==> color is None,
        value_of(style, name) == Some(own) && token_style(own) is Some && style_by(
            style,
            name,
            shorthand,
            line,
        ) ==> line == token_style(own),
        value_of(style, name) is None && value_of(style, shorthand) == Some(own) && style_by(
            style,
            name,
            shorthand,
            line,
        ) ==> shorthand_style(own, line),
        value_of(style, name) is None && value_of(style, shorthand) is None && style_by(
            style,
            name,
            shorthand,
            line,
        ) ==> line is None,
{
}

/// A side is painted in its own color and line where it has them, and in those of
/// the whole border otherwise; it is solid where nothing says how it is. It is
/// not painted without a color, a width or a line.
pub proof fn sides_are_painted_as_stated(
    own_color: Option<u32>,
    all_color: Option<u32>,
    own_line: Option<BorderStyle>,
    all_line: Option<BorderStyle>,
)
    ensures
        side_paint(own_color, all_color, own_line, all_line, false) is None,
        own_color is None && all_color is None ==> side_paint(
            own_color,
            all_color,
            own_line,
            all_line,
            true,
        ) is None,
        own_line == Some(BorderStyle::Absent) ==> side_paint(
            own_color,
            all_color,
            own_line,
            all_line,
            true,
        ) is None,
        side_paint(own_color, all_color, own_line, all_line, true) matches Some(paint) ==> {
            &&& own_color matches Some(color) ==> paint.color == color
            &&& own_color is None ==> all_color == Some(paint.color)
            &&& own_line matches Some(line) ==> paint.style == line
            &&& own_line is None && all_line is Some ==> all_line == Some(paint.style)
            &&& own_line is None && all_line is None ==> paint.style == BorderStyle::Solid
        },
        own_color is Some && own_line is None && all_line is None ==> side_paint(
            own_color,
            all_color,
            own_line,
            all_line,
            true,
        ) is Some,
        Side::Top.color_name() == "border-top-color"@,
        Side::Right.color_name() == "border-right-color"@,
        Side::Bottom.color_name() == "border-bottom-color"@,
        Side::Left.color_name() == "border-left-color"@,
        Side::Top.style_name() == "border-top-style"@,
        Side::Right.style_name() == "border-right-style"@,
        Side::Bottom.style_name() == "border-bottom-style"@,
        Side::Left.style_name() == "border-left-style"@,
        Side::Top.shorthand_name() == "border-top"@,
        Side::Right.shorthand_name() == "border-right"@,
        Side::Bottom.shorthand_name() == "border-bottom"@,
        Side::Left.shorthand_name() == "border-left"@,
        Side::Top.width_name() == "border-top-width"@,
        Side::Right.width_name() == "border-right-width"@,
        Side::Bottom.width_name() == "border-bottom-width"@,
        Side::Left.width_name() == "border-left-width"@,
{
}

/// In a shorthand the first line counts and the last color does.
pub proof fn first_lines_and_last_colors_count<H: Fn(Hsl) -> (u8, u8, u8)>(
    value: Seq<char>,
    hsl: &H,
    color: Option<u32>,
    line: Option<BorderStyle>,
    i: int,
)
    requires
        0 <= i < words(value).len(),
    ensures
        shorthand_style(value, line) && token_style(words(value)[i]) is Some && (forall|k: int|
            0 <= k < i ==> token_style(#[trigger] words(value)[k]) is None) ==> line == token_style(
            words(value)[i],
        ),
        shorthand_color(value, hsl, color) && accepted(words(value)[i]) is Some && (forall|k: int|
            i < k < words(value).len() ==> accepted(#[trigger] words(value)[k]) is None) ==> color
            is Some && resolves(accepted(words(value)[i])->0, hsl, color->0),
{
}

/// A number of degrees turns a gradient by that number.
pub proof fn degrees_turn_gradients(n: Seq<char>)
    requires
        n.len() > 0,
        solid(n),
        numeral(n),
    ensures
        direction_segment(n + "deg"@),
        angle_of(n + "deg"@) == Some(AngleView::Number(n)),
{
    reveal_strlit("deg");
    assert("deg"@.len() == 3);
    let all = n + "deg"@;
    assert(all.subrange(all.len() - 3, all.len() as int) =~= "deg"@);
    assert(all.subrange(0, all.len() - 3) =~= n);
    let none = Seq::<char>::empty();
    trimming_takes_the_ends(none, n, none);
    assert(none + n + none =~= n);
}

/// In a shadow a number is a length unless it can be read as something else.
pub proof fn numbers_in_shadows_are_lengths(word: Seq<char>)
    ensures
        accepted(word) is Some ==> !plain_length(word, true) && !plain_length(word, false),
        !plain_length("inset"@, true),
        number_of(word) is None ==> !plain_length(word, true) && !plain_length(word, false),
        number_of(word) is Some && accepted(word) is None && word != "inset"@
            && !same_ignoring_case(word, "currentcolor"@) ==> plain_length(word, true)
            && plain_length(word, false),
{
}

} // verus!
