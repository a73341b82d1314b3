//! What colors, gradients and shadows mean.

use vstd::prelude::*;
use vstd::string::*;
use crate::color::{
    accepted, alpha_token, channel_token, color_of, hash_channels, hex_value, hsl_block,
    hue_unit_of, premultiplied, rgb_block, Accepted, Hsl, HueUnit, TokenView,
};
use crate::gradient::{
    angle_of, axis_of, direction_segment, first_stop, keyword_angle, last_white, stands, stop_of,
    stops_from, AngleView, Placement, PositionView,
};
use crate::laws::reading::{digits_only, solid, trimming_takes_the_ends};
use crate::shadow::{all_valid, last_color_token, lengths, part_of, reads_as, Shadow, ShadowToken};
use crate::text::{lower, occurs_at, same_ignoring_case, trimmed, white};

verus! {

/// The hexadecimal digits count from zero to fifteen, in either case, and nothing
/// else is one.
pub proof fn hexadecimal_digits_count(d: u8)
    ensures
        '0' as u8 <= d <= '9' as u8 ==> hex_value(d) == Some(d - 48),
        'a' as u8 <= d <= 'f' as u8 ==> hex_value(d) == Some(d - 97 + 10),
        'A' as u8 <= d <= 'F' as u8 ==> hex_value(d) == Some(d - 65 + 10),
        'a' as u8 <= d <= 'f' as u8 ==> hex_value(d) == hex_value((d - 32) as u8),
        hex_value(d) is Some ==> 0 <= hex_value(d)->0 <= 15,
        d < 48 || 57 < d < 65 || 70 < d < 97 || d > 102 ==> hex_value(d) is None,
{
}

/// Six digits are two for each of red, green and blue, of an opaque color; eight
/// digits have two more for alpha. Three or four digits mean each digit twice.
/// Any other number of digits is no color.
pub proof fn hash_colors_are_read(d: Seq<u8>)
    requires
        forall|i: int| 0 <= i < d.len() ==> hex_value(#[trigger] d[i]) is Some,
    ensures
        d.len() == 6 ==> {
            let c = hash_channels(d)->0;
            &&& hash_channels(d) is Some
            &&& c.0 == 16 * hex_value(d[0])->0 + hex_value(d[1])->0
            &&& c.1 == 16 * hex_value(d[2])->0 + hex_value(d[3])->0
            &&& c.2 == 16 * hex_value(d[4])->0 + hex_value(d[5])->0
            &&& c.3 == 255
        },
        d.len() == 8 ==> {
            let c = hash_channels(d)->0;
            let opaque = hash_channels(d.take(6))->0;
            &&& hash_channels(d) is Some
            &&& c.0 == opaque.0 && c.1 == opaque.1 && c.2 == opaque.2
            &&& c.3 == 16 * hex_value(d[6])->0 + hex_value(d[7])->0
        },
        d.len() == 3 ==> hash_channels(d) == hash_channels(
            seq![d[0], d[0], d[1], d[1], d[2], d[2]],
        ),
        d.len() == 4 ==> hash_channels(d) == hash_channels(
            seq![d[0], d[0], d[1], d[1], d[2], d[2], d[3], d[3]],
        ),
        d.len() != 3 && d.len() != 4 && d.len() != 6 && d.len() != 8 ==> hash_channels(d) is None,
{
    assert(crate::color::all_hex(d));
    if d.len() == 8 {
        let six = d.take(6);
        assert forall|i: int| 0 <= i < six.len() implies hex_value(#[trigger] six[i]) is Some by {
            assert(six[i] == d[i]);
        }
        assert(crate::color::all_hex(six));
    }
    if d.len() == 3 {
        let six = seq![d[0], d[0], d[1], d[1], d[2], d[2]];
        assert(crate::color::all_hex(six));
    }
    if d.len() == 4 {
        let eight = seq![d[0], d[0], d[1], d[1], d[2], d[2], d[3], d[3]];
        assert(crate::color::all_hex(eight));
    }
}

proof fn bytes_are_apart(a: int, r: int, g: int, b: int)
    requires
        0 <= a <= 255,
        0 <= r <= 255,
        0 <= g <= 255,
        0 <= b <= 255,
    ensures
        ({
            let p = a * 0x100_0000 + r * 0x1_0000 + g * 0x100 + b;
            p / 0x100_0000 == a && (p / 0x1_0000) % 256 == r && (p / 0x100) % 256 == g && p % 256
                == b
        }),
{
    let p = a * 0x100_0000 + r * 0x1_0000 + g * 0x100 + b;
    let low = g * 0x100 + b;
    assert(0 <= low < 0x1_0000);
    assert(p == 0x1_0000 * (a * 0x100 + r) + low);
    assert(p / 0x1_0000 == a * 0x100 + r);
    assert(p / 0x100 == a * 0x1_0000 + r * 0x100 + g);
    assert((a * 0x100 + r) % 256 == r);
    assert((a * 0x1_0000 + r * 0x100 + g) % 256 == g);
}

/// A packed color holds alpha, red, green and blue, from the highest byte down,
/// each channel scaled by alpha.
pub proof fn channels_stand_in_their_bytes(red: u8, green: u8, blue: u8, alpha: u8)
    ensures
        ({
            let p = premultiplied(red as int, green as int, blue as int, alpha as int);
            &&& p / 0x100_0000 == alpha
            &&& (p / 0x1_0000) % 256 == red as int * alpha as int / 255
            &&& (p / 0x100) % 256 == green as int * alpha as int / 255
            &&& p % 256 == blue as int * alpha as int / 255
            &&& alpha == 255 ==> p == 0xff00_0000 + red as int * 0x1_0000 + green as int * 0x100
                + blue
            &&& alpha == 0 ==> p == 0
        }),
{
    let a = alpha as int;
    let r = red as int * a / 255;
    let g = green as int * a / 255;
    let b = blue as int * a / 255;
    assert(0 <= r <= 255 && 0 <= g <= 255 && 0 <= b <= 255) by (nonlinear_arith)
        requires
            0 <= red <= 255,
            0 <= green <= 255,
            0 <= blue <= 255,
            0 <= alpha <= 255,
            a == alpha,
            r == red as int * a / 255,
            g == green as int * a / 255,
            b == blue as int * a / 255,
    ;
    bytes_are_apart(a, r, g, b);
    if alpha == 0 {
        assert(red as int * 0 == 0 && green as int * 0 == 0 && blue as int * 0 == 0);
    }
    if alpha == 255 {
        assert(red as int * 255 / 255 == red && green as int * 255 / 255 == green && blue as int * 255
            / 255 == blue);
    }
}

/// Both ways to write `rgb()` give red, green and blue in this order, opaque
/// unless an alpha follows them.
pub proof fn channels_come_in_order(r: TokenView, g: TokenView, b: TokenView, a: TokenView)
    requires
        r is Plain || r is Percent,
        g is Plain || g is Percent,
        b is Plain || b is Percent,
        a is Plain || a is Percent,
    ensures
        ({
            let comma = TokenView::Separator;
            let slash = TokenView::Sign('/');
            let opaque = Some(
                Accepted::Rgb {
                    red: channel_token(r)->0,
                    green: channel_token(g)->0,
                    blue: channel_token(b)->0,
                    alpha: 255,
                },
            );
            let clear = Some(
                Accepted::Rgb {
                    red: channel_token(r)->0,
                    green: channel_token(g)->0,
                    blue: channel_token(b)->0,
                    alpha: alpha_token(a)->0,
                },
            );
            &&& rgb_block(seq![r, comma, g, comma, b]) == opaque
            &&& rgb_block(seq![r, g, b]) == opaque
            &&& rgb_block(seq![r, comma, g, comma, b, comma, a]) == clear
            &&& rgb_block(seq![r, g, b, slash, a]) == clear
            &&& rgb_block(seq![r, g]) is None
            &&& rgb_block(seq![r, comma, g]) is None
            &&& rgb_block(seq![r, g, b, a]) is None
        }),
{
    let comma = TokenView::Separator;
    let slash = TokenView::Sign('/');
    let s1 = seq![r, comma, g, comma, b];
    assert(s1[0] == r && s1[1] == comma && s1[2] == g && s1[3] == comma && s1[4] == b);
    let s2 = seq![r, g, b];
    assert(s2[0] == r && s2[1] == g && s2[2] == b);
    let s3 = seq![r, comma, g, comma, b, comma, a];
    assert(s3[0] == r && s3[1] == comma && s3[2] == g && s3[3] == comma && s3[4] == b && s3[5]
        == comma && s3[6] == a);
    let s4 = seq![r, g, b, slash, a];
    assert(s4[0] == r && s4[1] == g && s4[2] == b && s4[3] == slash && s4[4] == a);
    assert(seq![r, g][1] == g);
    assert(seq![r, comma, g][1] == comma);
    assert(seq![r, g, b, a][1] == g);
}

/// A channel is its number, or its percentage of 255; an alpha is its number
/// times 255, or its percentage of 255.
pub proof fn numbers_and_shares_are_channels(bits: u32, whole: u8, unit: u8)
    ensures
        channel_token(TokenView::Plain(bits, whole, unit)) == Some(whole),
        channel_token(TokenView::Percent(bits, unit)) == Some(unit),
        alpha_token(TokenView::Plain(bits, whole, unit)) == Some(unit),
        alpha_token(TokenView::Percent(bits, unit)) == Some(unit),
        channel_token(TokenView::Separator) is None,
        alpha_token(TokenView::Separator) is None,
{
}

/// `hsl()` gives the hue first, then saturation, then lightness; a bare hue is in
/// degrees, and an angle has the unit that it names.
pub proof fn hsl_comes_in_order(hue: u32, s: u32, l: u32, x: u8, y: u8, z: u8)
    ensures
        ({
            let comma = TokenView::Separator;
            let sat = TokenView::Percent(s, x);
            let light = TokenView::Percent(l, y);
            &&& hsl_block(seq![TokenView::Plain(hue, z, z), comma, sat, comma, light]) == Some(
                Accepted::Hsl {
                    hsl: Hsl { hue, unit: HueUnit::Degrees, saturation: s, lightness: l },
                    alpha: 255,
                },
            )
            &&& hsl_block(seq![TokenView::Plain(hue, z, z), sat, light]) == Some(
                Accepted::Hsl {
                    hsl: Hsl { hue, unit: HueUnit::Degrees, saturation: s, lightness: l },
                    alpha: 255,
                },
            )
            &&& hsl_block(seq![TokenView::Plain(hue, z, z), light, TokenView::Plain(s, z, z)]) is None
        }),
        hue_unit_of("deg"@) == Some(HueUnit::Degrees),
        hue_unit_of("grad"@) == Some(HueUnit::Gradians),
        hue_unit_of("rad"@) == Some(HueUnit::Radians),
        hue_unit_of("turn"@) == Some(HueUnit::Turns),
{
    let comma = TokenView::Separator;
    let bare = TokenView::Plain(hue, z, z);
    let sat = TokenView::Percent(s, x);
    let light = TokenView::Percent(l, y);
    let s1 = seq![bare, comma, sat, comma, light];
    assert(s1[0] == bare && s1[1] == comma && s1[2] == sat && s1[3] == comma && s1[4] == light);
    let s2 = seq![bare, sat, light];
    assert(s2[0] == bare && s2[1] == sat && s2[2] == light);
    let s3 = seq![bare, light, TokenView::Plain(s, z, z)];
    assert(s3[0] == bare && s3[1] == light && s3[2] == TokenView::Plain(s, z, z));
    reveal_strlit("deg");
    reveal_strlit("grad");
    reveal_strlit("rad");
    reveal_strlit("turn");
    assert("deg"@.len() == 3 && "grad"@.len() == 4 && "rad"@.len() == 3 && "turn"@.len() == 4);
    assert("deg"@[0] == 'd' && "rad"@[0] == 'r' && "grad"@[0] == 'g' && "turn"@[0] == 't');
    assert(lower("deg"@[0]) != lower("rad"@[0]));
    assert(lower("grad"@[0]) != lower("turn"@[0]));
}

/// A value is a color only if it is a single token; `transparent` is colorless and
/// clear.
pub proof fn colors_are_single_tokens(tokens: Seq<TokenView>, block: Seq<TokenView>)
    ensures
        tokens.len() != 1 ==> color_of(tokens, block) is None,
        tokens == seq![TokenView::Word("transparent"@)] ==> color_of(tokens, block) == Some(
            Accepted::Rgb { red: 0, green: 0, blue: 0, alpha: 0 },
        ),
        tokens == seq![TokenView::Call("rgb"@)] ==> color_of(tokens, block) == rgb_block(block),
        tokens == seq![TokenView::Call("rgba"@)] ==> color_of(tokens, block) == rgb_block(block),
        tokens == seq![TokenView::Call("hsl"@)] ==> color_of(tokens, block) == hsl_block(block),
        tokens == seq![TokenView::Call("hsla"@)] ==> color_of(tokens, block) == hsl_block(block),
{
    reveal_strlit("rgb");
    reveal_strlit("rgba");
    reveal_strlit("hsl");
    reveal_strlit("hsla");
    assert("rgb"@.len() == 3 && "rgba"@.len() == 4 && "hsl"@.len() == 3 && "hsla"@.len() == 4);
    assert("rgb"@[0] == 'r' && "rgba"@[0] == 'r' && "hsl"@[0] == 'h' && "hsla"@[0] == 'h');
    assert(lower("hsl"@[0]) != lower("rgb"@[0]));
    assert(lower("hsla"@[0]) != lower("rgba"@[0]));
}

/// The sides of a gradient's axis stand at quarter turns, clockwise from the top,
/// and each corner halfway between its two sides, in whichever order they are
/// named.
pub proof fn directions_turn_clockwise()
    ensures
        keyword_angle("to top"@) == Some(0u16),
        keyword_angle("to right"@) == Some(90u16),
        keyword_angle("to bottom"@) == Some(180u16),
        keyword_angle("to left"@) == Some(270u16),
        keyword_angle("to top right"@) == Some(45u16),
        keyword_angle("to right top"@) == Some(45u16),
        keyword_angle("to bottom right"@) == Some(135u16),
        keyword_angle("to right bottom"@) == Some(135u16),
        keyword_angle("to bottom left"@) == Some(225u16),
        keyword_angle("to left bottom"@) == Some(225u16),
        keyword_angle("to top left"@) == Some(315u16),
        keyword_angle("to left top"@) == Some(315u16),
{
    reveal_strlit("to top");
    reveal_strlit("to right");
    reveal_strlit("to bottom");
    reveal_strlit("to left");
    reveal_strlit("to top right");
    reveal_strlit("to right top");
    reveal_strlit("to bottom right");
    reveal_strlit("to right bottom");
    reveal_strlit("to bottom left");
    reveal_strlit("to left bottom");
    reveal_strlit("to top left");
    reveal_strlit("to left top");
    assert("to top"@.len() == 6 && "to right"@.len() == 8 && "to bottom"@.len() == 9
        && "to left"@.len() == 7 && "to top right"@.len() == 12 && "to right top"@.len() == 12
        && "to bottom right"@.len() == 15 && "to right bottom"@.len() == 15 && "to bottom left"@.len()
        == 14 && "to left bottom"@.len() == 14 && "to top left"@.len() == 11 && "to left top"@.len()
        == 11);
}

/// A gradient without a direction runs to the bottom, and all its segments are
/// stops; a leading direction is none of them.
pub proof fn gradients_run_down_by_default(segments: Seq<Seq<char>>)
    requires
        segments.len() > 0,
    ensures
        !direction_segment(trimmed(segments[0])) ==> axis_of(segments) == Some(
            AngleView::Degrees(180),
        ) && first_stop(segments) == 0,
        direction_segment(trimmed(segments[0])) ==> axis_of(segments) == angle_of(
            trimmed(segments[0]),
        ) && first_stop(segments) == 1,
        stops_from(segments, first_stop(segments)).len() == segments.len() - first_stop(segments),
{
}

/// A stop is a color with a share of the axis behind it, where one is stated.
pub proof fn stops_are_colors_with_shares(color: Seq<char>, n: Seq<char>)
    requires
        color.len() > 0,
        solid(color),
        n.len() > 0,
        solid(n),
        digits_only(n),
    ensures
        stop_of(color + seq![' '] + n + seq!['%']) == (color, PositionView::Percent(n)),
        stop_of(color + seq![' ', '0']) == (color, PositionView::Zero),
        stop_of(color) == (color, PositionView::Missing),
{
    reveal_strlit("%");
    reveal_strlit("0");
    assert("%"@.len() == 1 && "%"@[0] == '%' && "0"@.len() == 1 && "0"@[0] == '0');
    let none = Seq::<char>::empty();
    assert(!white(color[0]) && !white(color[color.len() - 1]) && !white(n[0]) && !white(
        n[n.len() - 1],
    ));
    let share = n + seq!['%'];
    let s = color + seq![' '] + n + seq!['%'];
    assert(s[0] == color[0]);
    trimming_takes_the_ends(none, s, none);
    assert(none + s + none =~= s);
    let at = color.len() as int;
    assert(last_white(s, at)) by {
        assert forall|k: int| at < k < s.len() implies !white(#[trigger] s[k]) by {
            if k < s.len() - 1 {
                assert(s[k] == n[k - at - 1]);
            }
        }
    }
    let i = choose|i: int| last_white(s, i);
    assert(i == at) by {
        if i < at {
            assert(white(s[at]));
        } else if i > at {
            assert(!white(s[i]));
        }
    }
    assert(s.subrange(at + 1, s.len() as int) =~= share);
    assert(s.subrange(0, at) =~= color);
    assert(share[0] == n[0]);
    trimming_takes_the_ends(none, share, none);
    assert(none + share + none =~= share);
    trimming_takes_the_ends(none, color, none);
    assert(none + color + none =~= color);
    trimming_takes_the_ends(none, n, none);
    assert(none + n + none =~= n);
    assert(share.subrange(share.len() - 1, share.len() as int) =~= "%"@);
    assert(share.subrange(0, share.len() - 1) =~= n);
    let z = color + seq![' ', '0'];
    assert(z[0] == color[0]);
    trimming_takes_the_ends(none, z, none);
    assert(none + z + none =~= z);
    assert(last_white(z, at)) by {
        assert forall|k: int| at < k < z.len() implies !white(#[trigger] z[k]) by {}
    }
    let j = choose|j: int| last_white(z, j);
    assert(j == at) by {
        if j < at {
            assert(white(z[at]));
        } else if j > at {
            assert(!white(z[j]));
        }
    }
    let zero = seq!['0'];
    assert(z.subrange(at + 1, z.len() as int) =~= zero);
    assert(z.subrange(0, at) =~= color);
    trimming_takes_the_ends(none, zero, none);
    assert(none + zero + none =~= zero);
    assert(zero =~= "0"@);
    if occurs_at(zero, "%"@, 0) {
        assert(zero.subrange(0, 1)[0] == '0');
    }
    if exists|k: int| last_white(color, k) {
        let k = choose|k: int| last_white(color, k);
        assert(!white(color[k]));
    }
}

/// The first and the last stop stand at the ends of the axis unless they state a
/// position, and a stop between two placed ones stands between exactly those.
pub proof fn stops_spread_between_their_neighbors(
    stated: Seq<bool>,
    index: int,
    place: Placement,
)
    requires
        0 <= index < stated.len(),
        stands(stated, index, place),
    ensures
        stated[index] ==> place == Placement::Stated,
        !stated[index] && index == 0 ==> place == Placement::Start,
        !stated[index] && index == stated.len() - 1 && index > 0 ==> place == Placement::End,
        !stated[index] && 0 < index < stated.len() - 1 ==> place is Between && place->before
            < index < place->after < stated.len() && (stated[place->before as int] || place->before
            == 0) && (stated[place->after as int] || place->after == stated.len() - 1),
        place is Between ==> forall|k: int| place->before < k < place->after ==> !stated[k],
{
    if let Placement::Between { before, after } = place {
        assert(crate::gradient::anchored(stated, before as int));
        assert(crate::gradient::anchored(stated, after as int));
        assert(!crate::gradient::anchored(stated, index));
        assert forall|k: int| before < k < after implies !stated[k] by {
            assert(!crate::gradient::anchored(stated, k));
        }
    }
}

proof fn two_lengths(tokens: Seq<ShadowToken>, n: int)
    requires
        0 <= n <= tokens.len(),
        forall|i: int| 0 <= i < n ==> (#[trigger] tokens[i]) is Length,
    ensures
        lengths(tokens, n).len() == n,
        forall|i: int|
            0 <= i < n ==> #[trigger] lengths(tokens, n)[i] == (
                tokens[i]->bits,
                tokens[i]->negative,
            ),
    decreases n,
{
    if n > 0 {
        two_lengths(tokens, n - 1);
        assert(tokens[n - 1] is Length);
    }
}

/// The lengths of a shadow are its offset to the right, its offset down, its blur
/// and its spread, in this order. Two are needed, a blur is never negative, and
/// only a box shadow spreads. Without a color the shadow has the current one.
pub proof fn shadow_lengths_come_in_order<H: Fn(Hsl) -> (u8, u8, u8)>(
    tokens: Seq<ShadowToken>,
    current: u32,
    box_shadow: bool,
    hsl: &H,
    result: Option<Shadow>,
)
    requires
        forall|i: int| 0 <= i < tokens.len() ==> (#[trigger] tokens[i]) is Length,
        reads_as(tokens, current, box_shadow, hsl, result),
    ensures
        tokens.len() < 2 ==> result is None,
        tokens.len() == 2 ==> result == Some(
            Shadow {
                dx: tokens[0]->bits,
                dy: tokens[1]->bits,
                blur: 0,
                spread: 0,
                color: current,
                inset: false,
            },
        ),
        tokens.len() == 3 && !tokens[2]->negative ==> result == Some(
            Shadow {
                dx: tokens[0]->bits,
                dy: tokens[1]->bits,
                blur: tokens[2]->bits,
                spread: 0,
                color: current,
                inset: false,
            },
        ),
        tokens.len() >= 3 && tokens[2]->negative ==> result is None,
        tokens.len() == 4 && !tokens[2]->negative && box_shadow ==> result == Some(
            Shadow {
                dx: tokens[0]->bits,
                dy: tokens[1]->bits,
                blur: tokens[2]->bits,
                spread: tokens[3]->bits,
                color: current,
                inset: false,
            },
        ),
        tokens.len() == 4 && !box_shadow ==> result is None,
        tokens.len() > 4 ==> result is None,
{
    two_lengths(tokens, tokens.len() as int);
    assert forall|at: int| !#[trigger] last_color_token(tokens, box_shadow, at) by {
        if last_color_token(tokens, box_shadow, at) {
            assert(tokens[at] is Length);
        }
    }
    assert(all_valid(tokens, box_shadow));
    if let Some(shadow) = result {
        if shadow.inset {
            let k = choose|k: int|
                0 <= k < tokens.len() && part_of(#[trigger] tokens[k], box_shadow) is Inset;
            assert(tokens[k] is Length);
        }
    }
}

/// A word that is no color and no keyword spoils its shadow; `inset` is a keyword
/// of box shadows only.
pub proof fn unknown_words_spoil_shadows<H: Fn(Hsl) -> (u8, u8, u8)>(
    tokens: Seq<ShadowToken>,
    current: u32,
    box_shadow: bool,
    hsl: &H,
    result: Option<Shadow>,
    k: int,
)
    requires
        reads_as(tokens, current, box_shadow, hsl, result),
        0 <= k < tokens.len(),
        tokens[k] is Word,
        accepted(tokens[k]->0@) is None,
        !same_ignoring_case(tokens[k]->0@, "currentcolor"@),
    ensures
        tokens[k]->0@ != "inset"@ || !box_shadow ==> result is None,
        tokens[k]->0@ == "inset"@ && box_shadow && result is Some ==> (result->0).inset,
{
    if tokens[k]->0@ != "inset"@ || !box_shadow {
        assert(part_of(tokens[k], box_shadow) is Invalid);
    } else {
        assert(part_of(tokens[k], box_shadow) is Inset);
    }
}

} // verus!
