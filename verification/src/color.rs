//! CSS `<color>` parsing into premultiplied ARGB8888.
//!
//! Single owner of color syntax for every paint consumer (background, border,
//! gradient stops, shadows, text color). Values are premultiplied so that
//! translucent colors composite correctly.
//!
//! `currentColor` is rejected: inherited-color resolution belongs to the
//! cascade. Unknown functions and trailing garbage are rejected so typos fail
//! loudly instead of painting wrong colors.
//!
//! Numbers travel as the bit patterns of single-precision values; turning HSL
//! coordinates into channels is the caller's [`hsl`](parse) argument.

use cssparser::color::{clamp_floor_256_f32, clamp_unit_f32, parse_hash_color, parse_named_color};
use cssparser::Token::{Comma, Delim, Dimension, Function, IDHash, Ident, Number, Percentage};
use cssparser::{ParseError, Parser, ParserInput, Token};
use vstd::prelude::*;
use vstd::string::*;
use crate::color::CssToken::{Call, Measure, Other, Percent, Plain, Separator, Sharp, Sign, Word};
use crate::text::{eq_ignore_case, same_ignoring_case};

verus! {

/// One CSS token as the color grammar reads it.
pub enum CssToken {
    /// `#...`, without the sign.
    Sharp(String),
    /// An identifier.
    Word(String),
    /// A function name; its block is skipped.
    Call(String),
    /// A number: its bits, and it rounded and clamped to `0..=255`, first as it
    /// stands, then scaled by 255.
    Plain(u32, u8, u8),
    /// A percentage: the bits of its fraction of one, and that fraction scaled
    /// by 255, rounded and clamped to `0..=255`.
    Percent(u32, u8),
    /// The bits of a number, and the name of its unit.
    Measure(u32, String),
    /// A delimiter character.
    Sign(char),
    /// `,`
    Separator,
    /// Any other token.
    Other,
}

/// What a [`CssToken`] holds.
pub enum TokenView {
    Sharp(Seq<char>),
    Word(Seq<char>),
    Call(Seq<char>),
    Plain(u32, u8, u8),
    Percent(u32, u8),
    Measure(u32, Seq<char>),
    Sign(char),
    Separator,
    Other,
}

impl View for CssToken {
    type V = TokenView;

    open spec fn view(&self) -> TokenView {
        match *self {
            CssToken::Sharp(text) => TokenView::Sharp(text@),
            CssToken::Word(text) => TokenView::Word(text@),
            CssToken::Call(text) => TokenView::Call(text@),
            CssToken::Plain(bits, channel, unit) => TokenView::Plain(bits, channel, unit),
            CssToken::Percent(bits, unit) => TokenView::Percent(bits, unit),
            CssToken::Measure(bits, name) => TokenView::Measure(bits, name@),
            CssToken::Sign(c) => TokenView::Sign(c),
            CssToken::Separator => TokenView::Separator,
            CssToken::Other => TokenView::Other,
        }
    }
}

/// The views of a token list.
pub open spec fn token_views(tokens: Seq<CssToken>) -> Seq<TokenView> {
    Seq::new(tokens.len(), |i: int| tokens[i]@)
}

/// The tokens that `cssparser` finds at the top level of a text.
pub uninterp spec fn css_tokens(text: Seq<char>) -> Seq<TokenView>;

/// `cssparser::Parser::next`, called until it reports the end of the input,
/// yields the top-level tokens of the text without white space and comments; a
/// function's block is skipped. Every token is carried over one for one, its
/// numbers through `clamp_floor_256_f32`, `clamp_unit_f32` and their bits.
#[verifier::external_body]
fn tokenize(text: &str) -> (result: Vec<CssToken>)
    ensures
        token_views(result@) == css_tokens(text@),
{
    let mut input = ParserInput::new(text);
    let mut parser = Parser::new(&mut input);
    std::iter::from_fn(|| Some(match parser.next().ok()? {
        Token::Hash(v) | IDHash(v) => Sharp(v.to_string()),
        Ident(v) => Word(v.to_string()),
        Function(v) => Call(v.to_string()),
        Number { value: v, .. } => Plain(v.to_bits(), clamp_floor_256_f32(*v), clamp_unit_f32(*v)),
        Percentage { unit_value: v, .. } => Percent(v.to_bits(), clamp_unit_f32(*v)),
        Dimension { value: v, unit, .. } => Measure(v.to_bits(), unit.to_string()),
        Delim(c) => Sign(*c),
        Comma => Separator,
        _ => Other,
    })).collect()
}

/// The text inside the block of the function that a text begins with.
pub uninterp spec fn css_block(text: Seq<char>) -> Seq<char>;

/// `cssparser::Parser::parse_nested_block` on the first token of the text,
/// which has to open a block, walks that block to its end;
/// `cssparser::Parser::slice_from` is the text walked over.
#[verifier::external_body]
fn block_text(text: &str) -> (result: String)
    requires
        css_tokens(text@).len() > 0,
        css_tokens(text@)[0] is Call,
    ensures
        result@ == css_block(text@),
{
    let mut input = ParserInput::new(text);
    let mut parser = Parser::new(&mut input);
    let _ = parser.next();
    parser.parse_nested_block(|inner| -> Result<String, ParseError<'_, ()>> {
        let start = inner.position();
        while inner.next().is_ok() {}
        Ok(inner.slice_from(start).to_string())
    }).unwrap_or_default()
}

/// The value of a hexadecimal digit.
pub open spec fn hex_value(digit: u8) -> Option<int> {
    if 48 <= digit <= 57 {
        Some(digit - 48)
    } else if 97 <= digit <= 102 {
        Some(digit - 87)
    } else if 65 <= digit <= 70 {
        Some(digit - 55)
    } else {
        None
    }
}

/// Every byte is a hexadecimal digit.
pub open spec fn all_hex(digits: Seq<u8>) -> bool {
    forall|i: int| 0 <= i < digits.len() ==> hex_value(#[trigger] digits[i]) is Some
}

/// One channel out of two digits.
pub open spec fn hex_pair(digits: Seq<u8>, at: int) -> int {
    hex_value(digits[at])->0 * 16 + hex_value(digits[at + 1])->0
}

/// One channel out of one doubled digit.
pub open spec fn hex_single(digits: Seq<u8>, at: int) -> int {
    hex_value(digits[at])->0 * 17
}

/// Red, green, blue and alpha of a hash color.
pub open spec fn hash_channels(digits: Seq<u8>) -> Option<(int, int, int, int)> {
    if !all_hex(digits) {
        None
    } else if digits.len() == 8 {
        Some((hex_pair(digits, 0), hex_pair(digits, 2), hex_pair(digits, 4), hex_pair(digits, 6)))
    } else if digits.len() == 6 {
        Some((hex_pair(digits, 0), hex_pair(digits, 2), hex_pair(digits, 4), 255))
    } else if digits.len() == 4 {
        Some((hex_single(digits, 0), hex_single(digits, 1), hex_single(digits, 2), hex_single(digits, 3)))
    } else if digits.len() == 3 {
        Some((hex_single(digits, 0), hex_single(digits, 1), hex_single(digits, 2), 255))
    } else {
        None
    }
}

/// The channels of an accepted color as integers.
pub open spec fn channel_view(channels: Option<(u8, u8, u8, u8)>) -> Option<(int, int, int, int)> {
    match channels {
        Some(c) => Some((c.0 as int, c.1 as int, c.2 as int, c.3 as int)),
        None => None,
    }
}

/// `cssparser::color::parse_hash_color` reads three, four, six or eight
/// hexadecimal digits. Its alpha is a byte divided by 255;
/// `cssparser::color::clamp_unit_f32` gives that byte back.
#[verifier::external_body]
fn hash_color(digits: &[u8]) -> (result: Option<(u8, u8, u8, u8)>)
    ensures
        channel_view(result) == hash_channels(digits@),
{
    match parse_hash_color(digits) {
        Ok((red, green, blue, alpha)) => Some((red, green, blue, clamp_unit_f32(alpha))),
        Err(()) => None,
    }
}

/// The channels of a CSS color name.
pub uninterp spec fn css_named_color(name: Seq<char>) -> Option<(u8, u8, u8)>;

/// `cssparser::color::parse_named_color` looks a name up in the CSS table.
#[verifier::external_body]
fn named_color(name: &str) -> (result: Option<(u8, u8, u8)>)
    ensures
        result == css_named_color(name@),
{
    parse_named_color(name).ok()
}

/// Packs channels scaled by `alpha / 255` under that alpha.
pub open spec fn premultiplied(red: int, green: int, blue: int, alpha: int) -> int {
    alpha * 0x100_0000 + (red * alpha / 255) * 0x1_0000 + (green * alpha / 255) * 0x100 + blue * alpha
        / 255
}

fn scale(channel: u8, alpha: u8) -> (result: u32)
    ensures
        result == channel as int * alpha as int / 255,
        result <= 255,
{
    assert(channel as int * alpha as int <= 255 * 255) by (nonlinear_arith)
        requires
            0 <= channel <= 255,
            0 <= alpha <= 255,
    ;
    channel as u32 * alpha as u32 / 255
}

/// Premultiplied ARGB8888 of straight channels.
pub fn premultiply(red: u8, green: u8, blue: u8, alpha: u8) -> (result: u32)
    ensures
        result == premultiplied(red as int, green as int, blue as int, alpha as int),
{
    alpha as u32 * 0x100_0000 + scale(red, alpha) * 0x1_0000 + scale(green, alpha) * 0x100 + scale(
        blue,
        alpha,
    )
}

/// The unit of a hue.
#[derive(Clone, Copy, Debug, PartialEq, Eq, Structural)]
pub enum HueUnit {
    Degrees,
    Gradians,
    Radians,
    Turns,
}

/// HSL coordinates as written: bits of the hue in its unit, and bits of the
/// saturation and lightness fractions, not yet clamped.
#[derive(Clone, Copy, Debug, PartialEq, Eq, Structural)]
pub struct Hsl {
    pub hue: u32,
    pub unit: HueUnit,
    pub saturation: u32,
    pub lightness: u32,
}

/// A color that the grammar accepts.
#[derive(Clone, Copy, Debug, PartialEq, Eq, Structural)]
pub enum Accepted {
    /// Straight channels.
    Rgb { red: u8, green: u8, blue: u8, alpha: u8 },
    /// HSL coordinates with an alpha.
    Hsl { hsl: Hsl, alpha: u8 },
}

/// One `rgb()` channel: a number, or a percentage of 255.
pub open spec fn channel_token(token: TokenView) -> Option<u8> {
    match token {
        TokenView::Plain(_, channel, _) => Some(channel),
        TokenView::Percent(_, unit) => Some(unit),
        _ => None,
    }
}

/// An alpha: a number or a percentage of one.
pub open spec fn alpha_token(token: TokenView) -> Option<u8> {
    match token {
        TokenView::Plain(_, _, unit) => Some(unit),
        TokenView::Percent(_, unit) => Some(unit),
        _ => None,
    }
}

/// A mandatory percentage.
pub open spec fn percentage_token(token: TokenView) -> Option<u32> {
    match token {
        TokenView::Percent(bits, _) => Some(bits),
        _ => None,
    }
}

/// The hue unit of a dimension name.
pub open spec fn hue_unit_of(name: Seq<char>) -> Option<HueUnit> {
    if same_ignoring_case(name, "deg"@) {
        Some(HueUnit::Degrees)
    } else if same_ignoring_case(name, "grad"@) {
        Some(HueUnit::Gradians)
    } else if same_ignoring_case(name, "rad"@) {
        Some(HueUnit::Radians)
    } else if same_ignoring_case(name, "turn"@) {
        Some(HueUnit::Turns)
    } else {
        None
    }
}

/// A hue: a bare number of degrees or an angle.
pub open spec fn hue_token(token: TokenView) -> Option<(u32, HueUnit)> {
    match token {
        TokenView::Plain(bits, _, _) => Some((bits, HueUnit::Degrees)),
        TokenView::Measure(bits, name) => match hue_unit_of(name) {
            Some(unit) => Some((bits, unit)),
            None => None,
        },
        _ => None,
    }
}

/// Positions of three components and the optional alpha in a block: the legacy
/// form separates everything by commas, the modern form separates the
/// components by nothing and the alpha by a slash.
pub open spec fn components(block: Seq<TokenView>) -> Option<(int, int, int, Option<int>)> {
    if block.len() >= 2 && block[1] is Separator {
        if block.len() == 5 && block[3] is Separator {
            Some((0, 2, 4, None))
        } else if block.len() == 7 && block[3] is Separator && block[5] is Separator {
            Some((0, 2, 4, Some(6)))
        } else {
            None
        }
    } else if block.len() == 3 {
        Some((0, 1, 2, None))
    } else if block.len() == 5 && block[3] == TokenView::Sign('/') {
        Some((0, 1, 2, Some(4)))
    } else {
        None
    }
}

/// The alpha at an optional position; opaque where there is none.
pub open spec fn alpha_at(block: Seq<TokenView>, at: Option<int>) -> Option<u8> {
    match at {
        Some(i) => alpha_token(block[i]),
        None => Some(255),
    }
}

/// The color of an `rgb()` block.
pub open spec fn rgb_block(block: Seq<TokenView>) -> Option<Accepted> {
    match components(block) {
        None => None,
        Some((r, g, b, a)) => match (
            channel_token(block[r]),
            channel_token(block[g]),
            channel_token(block[b]),
            alpha_at(block, a),
        ) {
            (Some(red), Some(green), Some(blue), Some(alpha)) => Some(
                Accepted::Rgb { red, green, blue, alpha },
            ),
            _ => None,
        },
    }
}

/// The color of an `hsl()` block.
pub open spec fn hsl_block(block: Seq<TokenView>) -> Option<Accepted> {
    match components(block) {
        None => None,
        Some((h, s, l, a)) => match (
            hue_token(block[h]),
            percentage_token(block[s]),
            percentage_token(block[l]),
            alpha_at(block, a),
        ) {
            (Some((hue, unit)), Some(saturation), Some(lightness), Some(alpha)) => Some(
                Accepted::Hsl { hsl: Hsl { hue, unit, saturation, lightness }, alpha },
            ),
            _ => None,
        },
    }
}

/// The color that a value denotes, given its top-level tokens and the tokens of
/// its function block.
pub open spec fn color_of(tokens: Seq<TokenView>, block: Seq<TokenView>) -> Option<Accepted> {
    if tokens.len() != 1 {
        None
    } else {
        match tokens[0] {
            TokenView::Sharp(digits) => match hash_channels(vstd::utf8::encode_utf8(digits)) {
                Some((r, g, b, a)) => Some(
                    Accepted::Rgb { red: r as u8, green: g as u8, blue: b as u8, alpha: a as u8 },
                ),
                None => None,
            },
            TokenView::Word(name) => if same_ignoring_case(name, "transparent"@) {
                Some(Accepted::Rgb { red: 0, green: 0, blue: 0, alpha: 0 })
            } else {
                match css_named_color(name) {
                    Some((red, green, blue)) => Some(
                        Accepted::Rgb { red, green, blue, alpha: 255 },
                    ),
                    None => None,
                }
            },
            TokenView::Call(name) => if same_ignoring_case(name, "rgb"@)
                || same_ignoring_case(name, "rgba"@) {
                rgb_block(block)
            } else if same_ignoring_case(name, "hsl"@) || same_ignoring_case(name, "hsla"@) {
                hsl_block(block)
            } else {
                None
            },
            _ => None,
        }
    }
}

fn channel_of(token: &CssToken) -> (result: Option<u8>)
    ensures
        result == channel_token(token@),
{
    match token {
        CssToken::Plain(_, channel, _) => Some(*channel),
        CssToken::Percent(_, unit) => Some(*unit),
        _ => None,
    }
}

fn alpha_of(token: &CssToken) -> (result: Option<u8>)
    ensures
        result == alpha_token(token@),
{
    match token {
        CssToken::Plain(_, _, unit) => Some(*unit),
        CssToken::Percent(_, unit) => Some(*unit),
        _ => None,
    }
}

fn percentage_of(token: &CssToken) -> (result: Option<u32>)
    ensures
        result == percentage_token(token@),
{
    match token {
        CssToken::Percent(bits, _) => Some(*bits),
        _ => None,
    }
}

fn hue_of(token: &CssToken) -> (result: Option<(u32, HueUnit)>)
    ensures
        result == hue_token(token@),
{
    match token {
        CssToken::Plain(bits, _, _) => Some((*bits, HueUnit::Degrees)),
        CssToken::Measure(bits, name) => {
            if eq_ignore_case(name.as_str(), "deg") {
                Some((*bits, HueUnit::Degrees))
            } else if eq_ignore_case(name.as_str(), "grad") {
                Some((*bits, HueUnit::Gradians))
            } else if eq_ignore_case(name.as_str(), "rad") {
                Some((*bits, HueUnit::Radians))
            } else if eq_ignore_case(name.as_str(), "turn") {
                Some((*bits, HueUnit::Turns))
            } else {
                None
            }
        },
        _ => None,
    }
}

fn is_comma(token: &CssToken) -> (result: bool)
    ensures
        result == (token@ is Separator),
{
    matches!(token, CssToken::Separator)
}

fn is_slash(token: &CssToken) -> (result: bool)
    ensures
        result == (token@ == TokenView::Sign('/')),
{
    match token {
        CssToken::Sign(c) => *c == '/',
        _ => false,
    }
}

/// Positions as integers.
pub open spec fn position_view(at: Option<(usize, usize, usize, Option<usize>)>) -> Option<
    (int, int, int, Option<int>),
> {
    match at {
        None => None,
        Some((a, b, c, d)) => Some(
            (
                a as int,
                b as int,
                c as int,
                match d {
                    Some(i) => Some(i as int),
                    None => None,
                },
            ),
        ),
    }
}

fn component_positions(block: &Vec<CssToken>) -> (result: Option<
    (usize, usize, usize, Option<usize>),
>)
    ensures
        position_view(result) == components(token_views(block@)),
        result matches Some((a, b, c, d)) ==> a < block@.len() && b < block@.len() && c < block@.len()
            && (d matches Some(i) ==> i < block@.len()),
{
    if block.len() >= 2 && is_comma(&block[1]) {
        if block.len() == 5 && is_comma(&block[3]) {
            Some((0, 2, 4, None))
        } else if block.len() == 7 && is_comma(&block[3]) && is_comma(&block[5]) {
            Some((0, 2, 4, Some(6)))
        } else {
            None
        }
    } else if block.len() == 3 {
        Some((0, 1, 2, None))
    } else if block.len() == 5 && is_slash(&block[3]) {
        Some((0, 1, 2, Some(4)))
    } else {
        None
    }
}

fn alpha_position(block: &Vec<CssToken>, at: Option<usize>) -> (result: Option<u8>)
    requires
        at matches Some(i) ==> i < block@.len(),
    ensures
        result == alpha_at(
            token_views(block@),
            match at {
                Some(i) => Some(i as int),
                None => None,
            },
        ),
{
    match at {
        Some(i) => alpha_of(&block[i]),
        None => Some(255),
    }
}

/// Reads an `rgb()` block in legacy comma or modern space-slash syntax.
pub fn parse_rgb(block: &Vec<CssToken>) -> (result: Option<Accepted>)
    ensures
        result == rgb_block(token_views(block@)),
{
    let (r, g, b, a) = match component_positions(block) {
        Some(at) => at,
        None => return None,
    };
    match (
        channel_of(&block[r]),
        channel_of(&block[g]),
        channel_of(&block[b]),
        alpha_position(block, a),
    ) {
        (Some(red), Some(green), Some(blue), Some(alpha)) => Some(
            Accepted::Rgb { red, green, blue, alpha },
        ),
        _ => None,
    }
}

/// Reads an `hsl()` block in legacy comma or modern space-slash syntax.
pub fn parse_hsl(block: &Vec<CssToken>) -> (result: Option<Accepted>)
    ensures
        result == hsl_block(token_views(block@)),
{
    let (h, s, l, a) = match component_positions(block) {
        Some(at) => at,
        None => return None,
    };
    match (
        hue_of(&block[h]),
        percentage_of(&block[s]),
        percentage_of(&block[l]),
        alpha_position(block, a),
    ) {
        (Some((hue, unit)), Some(saturation), Some(lightness), Some(alpha)) => Some(
            Accepted::Hsl { hsl: Hsl { hue, unit, saturation, lightness }, alpha },
        ),
        _ => None,
    }
}

/// Whether a function name is one that [`parse_color`] reads a block for.
fn is_rgb_name(name: &str) -> (result: bool)
    ensures
        result == (same_ignoring_case(name@, "rgb"@) || same_ignoring_case(name@, "rgba"@)),
{
    eq_ignore_case(name, "rgb") || eq_ignore_case(name, "rgba")
}

fn is_hsl_name(name: &str) -> (result: bool)
    ensures
        result == (same_ignoring_case(name@, "hsl"@) || same_ignoring_case(name@, "hsla"@)),
{
    eq_ignore_case(name, "hsl") || eq_ignore_case(name, "hsla")
}

/// Reads the color that `tokens` denote; `block` holds the tokens inside the
/// function's block.
pub fn parse_color(tokens: &Vec<CssToken>, block: &Vec<CssToken>) -> (result: Option<Accepted>)
    ensures
        result == color_of(token_views(tokens@), token_views(block@)),
{
    if tokens.len() != 1 {
        return None;
    }
    match &tokens[0] {
        CssToken::Sharp(digits) => match hash_color(digits.as_str().as_bytes()) {
            Some((red, green, blue, alpha)) => Some(Accepted::Rgb { red, green, blue, alpha }),
            None => None,
        },
        CssToken::Word(name) => if eq_ignore_case(name.as_str(), "transparent") {
            Some(Accepted::Rgb { red: 0, green: 0, blue: 0, alpha: 0 })
        } else {
            match named_color(name.as_str()) {
                Some((red, green, blue)) => Some(Accepted::Rgb { red, green, blue, alpha: 255 }),
                None => None,
            }
        },
        CssToken::Call(name) => {
            if is_rgb_name(name.as_str()) {
                parse_rgb(block)
            } else if is_hsl_name(name.as_str()) {
                parse_hsl(block)
            } else {
                None
            }
        },
        _ => None,
    }
}

/// The color that a text denotes.
pub open spec fn accepted(text: Seq<char>) -> Option<Accepted> {
    color_of(css_tokens(text), css_tokens(css_block(text)))
}

/// Reads one CSS color without resolving HSL coordinates.
pub fn parse_accepted(value: &str) -> (result: Option<Accepted>)
    ensures
        result == accepted(value@),
{
    let tokens = tokenize(value);
    let mut block: Vec<CssToken> = Vec::new();
    if tokens.len() == 1 {
        assert(token_views(tokens@)[0] == tokens@[0]@);
        if let CssToken::Call(_) = &tokens[0] {
            block = tokenize(block_text(value).as_str());
        }
    }
    parse_color(&tokens, &block)
}

/// `hsl` may be called on every HSL coordinate.
pub open spec fn total_conversion<H: Fn(Hsl) -> (u8, u8, u8)>(hsl: &H) -> bool {
    forall|c: Hsl| #[trigger] call_requires(*hsl, (c,))
}

/// `argb` is the premultiplied color of `color`, where `hsl` turns HSL
/// coordinates into channels.
pub open spec fn resolves<H: Fn(Hsl) -> (u8, u8, u8)>(color: Accepted, hsl: &H, argb: u32) -> bool {
    match color {
        Accepted::Rgb { red, green, blue, alpha } => argb == premultiplied(
            red as int,
            green as int,
            blue as int,
            alpha as int,
        ),
        Accepted::Hsl { hsl: coordinates, alpha } => exists|rgb: (u8, u8, u8)|
            {
                &&& #[trigger] call_ensures(*hsl, (coordinates,), rgb)
                &&& argb == premultiplied(rgb.0 as int, rgb.1 as int, rgb.2 as int, alpha as int)
            },
    }
}

/// Premultiplied ARGB8888 of an accepted color.
pub fn resolve<H: Fn(Hsl) -> (u8, u8, u8)>(color: Accepted, hsl: &H) -> (result: u32)
    requires
        total_conversion(hsl),
    ensures
        resolves(color, hsl, result),
{
    match color {
        Accepted::Rgb { red, green, blue, alpha } => premultiply(red, green, blue, alpha),
        Accepted::Hsl { hsl: coordinates, alpha } => {
            let rgb = hsl(coordinates);
            premultiply(rgb.0, rgb.1, rgb.2, alpha)
        },
    }
}

/// Parses one CSS `<color>` into premultiplied ARGB8888.
///
/// Accepts `#rgb`/`#rgba`/`#rrggbb`/`#rrggbbaa`, `rgb()`/`rgba()` and
/// `hsl()`/`hsla()` in both legacy comma and modern space-slash syntax, the
/// full named-color table and `transparent`. The entire input must be one
/// color; anything trailing rejects the value. `hsl` turns HSL coordinates into
/// sRGB channels.
pub fn parse<H: Fn(Hsl) -> (u8, u8, u8)>(value: &str, hsl: &H) -> (result: Option<u32>)
    requires
        total_conversion(hsl),
    ensures
        result is Some <==> accepted(value@) is Some,
        result matches Some(argb) ==> resolves(accepted(value@)->0, hsl, argb),
{
    match parse_accepted(value) {
        Some(color) => Some(resolve(color, hsl)),
        None => None,
    }
}

proof fn scaled_channel_bound(channel: u8, alpha: u8)
    ensures
        0 <= channel as int * alpha as int / 255 <= alpha,
{
    assert(0 <= channel as int * alpha as int <= 255 * alpha) by (nonlinear_arith)
        requires
            0 <= channel <= 255,
            0 <= alpha,
    ;
}

proof fn packed_bytes(a: int, r: int, g: int, b: int)
    requires
        0 <= a <= 255,
        0 <= r <= 255,
        0 <= g <= 255,
        0 <= b <= 255,
    ensures
        ({
            let packed = a * 0x100_0000 + r * 0x1_0000 + g * 0x100 + b;
            &&& packed / 0x100_0000 == a
            &&& (packed / 0x1_0000) % 0x100 == r
            &&& (packed / 0x100) % 0x100 == g
            &&& packed % 0x100 == b
        }),
{
}

/// A premultiplied color holds its alpha in the top byte and no channel above
/// it: scaled channels never exceed the alpha.
pub proof fn premultiplied_channels_stay_below_alpha(red: u8, green: u8, blue: u8, alpha: u8)
    ensures
        ({
            let argb = premultiplied(red as int, green as int, blue as int, alpha as int);
            &&& argb / 0x100_0000 == alpha
            &&& (argb / 0x1_0000) % 0x100 <= alpha
            &&& (argb / 0x100) % 0x100 <= alpha
            &&& argb % 0x100 <= alpha
        }),
{
    scaled_channel_bound(red, alpha);
    scaled_channel_bound(green, alpha);
    scaled_channel_bound(blue, alpha);
    packed_bytes(
        alpha as int,
        red as int * alpha as int / 255,
        green as int * alpha as int / 255,
        blue as int * alpha as int / 255,
    );
}

/// An opaque color keeps its channels.
pub proof fn opaque_keeps_channels(red: u8, green: u8, blue: u8)
    ensures
        premultiplied(red as int, green as int, blue as int, 255) == 0xff00_0000 + red * 0x1_0000
            + green * 0x100 + blue,
{
    assert(red as int * 255 / 255 == red);
    assert(green as int * 255 / 255 == green);
    assert(blue as int * 255 / 255 == blue);
}

} // verus!
