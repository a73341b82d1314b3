//! CSS border shorthand resolution.

use vstd::prelude::*;
use vstd::string::*;
use crate::color::{accepted, parse, resolves, total_conversion, Hsl};
use crate::layout::{first_in, number_in, or_else, read_first, read_number};
use crate::style::{text_view, value_of, Computed};
use crate::text::{same, split_whitespace, views, words};

verus! {

/// How one border side is drawn.
#[derive(Clone, Copy, Debug, PartialEq, Eq, Structural)]
pub enum BorderStyle {
    Absent,
    Solid,
    Dotted,
    Dashed,
    Outset,
    Inset,
    Groove,
    Ridge,
    Double,
}

/// The style that a token of a shorthand names.
pub open spec fn token_style(token: Seq<char>) -> Option<BorderStyle> {
    if token == "none"@ || token == "hidden"@ {
        Some(BorderStyle::Absent)
    } else if token == "dotted"@ {
        Some(BorderStyle::Dotted)
    } else if token == "dashed"@ {
        Some(BorderStyle::Dashed)
    } else if token == "outset"@ {
        Some(BorderStyle::Outset)
    } else if token == "inset"@ {
        Some(BorderStyle::Inset)
    } else if token == "groove"@ {
        Some(BorderStyle::Groove)
    } else if token == "ridge"@ {
        Some(BorderStyle::Ridge)
    } else if token == "double"@ {
        Some(BorderStyle::Double)
    } else if token == "solid"@ {
        Some(BorderStyle::Solid)
    } else {
        None
    }
}

/// The style of a `border-style` value; anything unknown is solid.
pub open spec fn style_of(value: Option<Seq<char>>) -> BorderStyle {
    match value {
        Some(text) => match token_style(text) {
            Some(style) => style,
            None => BorderStyle::Solid,
        },
        None => BorderStyle::Solid,
    }
}

fn named_style(token: &str) -> (result: Option<BorderStyle>)
    ensures
        result == token_style(token@),
{
    if same(token, "none") || same(token, "hidden") {
        Some(BorderStyle::Absent)
    } else if same(token, "dotted") {
        Some(BorderStyle::Dotted)
    } else if same(token, "dashed") {
        Some(BorderStyle::Dashed)
    } else if same(token, "outset") {
        Some(BorderStyle::Outset)
    } else if same(token, "inset") {
        Some(BorderStyle::Inset)
    } else if same(token, "groove") {
        Some(BorderStyle::Groove)
    } else if same(token, "ridge") {
        Some(BorderStyle::Ridge)
    } else if same(token, "double") {
        Some(BorderStyle::Double)
    } else if same(token, "solid") {
        Some(BorderStyle::Solid)
    } else {
        None
    }
}

impl BorderStyle {
    /// Reads a `border-style` value.
    pub fn parse(value: Option<&str>) -> (result: Self)
        ensures
            result == style_of(text_view(value)),
    {
        match value {
            Some(text) => match named_style(text) {
                Some(style) => style,
                None => BorderStyle::Solid,
            },
            None => BorderStyle::Solid,
        }
    }
}

/// `tokens[i]` is the first token that names a style.
pub open spec fn first_style(tokens: Seq<Seq<char>>, i: int) -> bool {
    &&& 0 <= i < tokens.len()
    &&& token_style(tokens[i]) is Some
    &&& forall|k: int| 0 <= k < i ==> token_style(#[trigger] tokens[k]) is None
}

/// `style` is what a shorthand says of the style.
pub open spec fn shorthand_style(value: Seq<char>, style: Option<BorderStyle>) -> bool {
    let tokens = words(value);
    match style {
        Some(s) => exists|i: int| #[trigger] first_style(tokens, i) && token_style(tokens[i]) == Some(s),
        None => forall|i: int| 0 <= i < tokens.len() ==> token_style(#[trigger] tokens[i]) is None,
    }
}

/// The style token of a border shorthand.
pub fn border_style(value: &str) -> (result: Option<BorderStyle>)
    ensures
        shorthand_style(value@, result),
{
    let tokens = split_whitespace(value);
    let ghost all = words(value@);
    assert(all.len() == tokens@.len());
    let mut i: usize = 0;
    while i < tokens.len()
        invariant
            i <= tokens@.len(),
            all == words(value@),
            all == views(tokens@),
            forall|k: int| 0 <= k < i ==> token_style(#[trigger] all[k]) is None,
        decreases tokens@.len() - i,
    {
        assert(all[i as int] == tokens@[i as int]@);
        let style = named_style(tokens[i]);
        if style.is_some() {
            assert(first_style(all, i as int));
            return style;
        }
        i = i + 1;
    }
    None
}

/// `tokens[i]` is the last token that is a color.
pub open spec fn last_accepted(tokens: Seq<Seq<char>>, i: int) -> bool {
    &&& 0 <= i < tokens.len()
    &&& accepted(tokens[i]) is Some
    &&& forall|k: int| i < k < tokens.len() ==> accepted(#[trigger] tokens[k]) is None
}

/// `color` is what a shorthand says of the color.
pub open spec fn shorthand_color<H: Fn(Hsl) -> (u8, u8, u8)>(
    value: Seq<char>,
    hsl: &H,
    color: Option<u32>,
) -> bool {
    let tokens = words(value);
    match color {
        Some(argb) => exists|i: int|
            #[trigger] last_accepted(tokens, i) && resolves(accepted(tokens[i])->0, hsl, argb),
        None => forall|i: int| 0 <= i < tokens.len() ==> accepted(#[trigger] tokens[i]) is None,
    }
}

/// The last color token of a border shorthand.
pub fn last_color<H: Fn(Hsl) -> (u8, u8, u8)>(value: &str, hsl: &H) -> (result: Option<u32>)
    requires
        total_conversion(hsl),
    ensures
        shorthand_color(value@, hsl, result),
{
    let tokens = split_whitespace(value);
    let ghost all = words(value@);
    assert(all.len() == tokens@.len());
    let mut i: usize = tokens.len();
    while i > 0
        invariant
            total_conversion(hsl),
            i <= tokens@.len(),
            all == words(value@),
            all == views(tokens@),
            forall|k: int| i <= k < all.len() ==> accepted(#[trigger] all[k]) is None,
        decreases i,
    {
        i = i - 1;
        assert(all[i as int] == tokens@[i as int]@);
        let color = parse(tokens[i], hsl);
        if color.is_some() {
            assert(last_accepted(all, i as int));
            return color;
        }
    }
    None
}

/// One side of the box.
#[derive(Clone, Copy, Debug, PartialEq, Eq, Structural)]
pub enum Side {
    Top,
    Right,
    Bottom,
    Left,
}

impl Side {
    /// The shorthand property of the side.
    pub open spec fn shorthand_name(self) -> Seq<char> {
        match self {
            Side::Top => "border-top"@,
            Side::Right => "border-right"@,
            Side::Bottom => "border-bottom"@,
            Side::Left => "border-left"@,
        }
    }

    /// The color property of the side.
    pub open spec fn color_name(self) -> Seq<char> {
        match self {
            Side::Top => "border-top-color"@,
            Side::Right => "border-right-color"@,
            Side::Bottom => "border-bottom-color"@,
            Side::Left => "border-left-color"@,
        }
    }

    /// The style property of the side.
    pub open spec fn style_name(self) -> Seq<char> {
        match self {
            Side::Top => "border-top-style"@,
            Side::Right => "border-right-style"@,
            Side::Bottom => "border-bottom-style"@,
            Side::Left => "border-left-style"@,
        }
    }

    /// The width property of the side.
    pub open spec fn width_name(self) -> Seq<char> {
        match self {
            Side::Top => "border-top-width"@,
            Side::Right => "border-right-width"@,
            Side::Bottom => "border-bottom-width"@,
            Side::Left => "border-left-width"@,
        }
    }

    fn width_property(self) -> (result: &'static str)
        ensures
            result@ == self.width_name(),
    {
        match self {
            Side::Top => "border-top-width",
            Side::Right => "border-right-width",
            Side::Bottom => "border-bottom-width",
            Side::Left => "border-left-width",
        }
    }

    fn shorthand(self) -> (result: &'static str)
        ensures
            result@ == self.shorthand_name(),
    {
        match self {
            Side::Top => "border-top",
            Side::Right => "border-right",
            Side::Bottom => "border-bottom",
            Side::Left => "border-left",
        }
    }

    fn color_property(self) -> (result: &'static str)
        ensures
            result@ == self.color_name(),
    {
        match self {
            Side::Top => "border-top-color",
            Side::Right => "border-right-color",
            Side::Bottom => "border-bottom-color",
            Side::Left => "border-left-color",
        }
    }

    fn style_property(self) -> (result: &'static str)
        ensures
            result@ == self.style_name(),
    {
        match self {
            Side::Top => "border-top-style",
            Side::Right => "border-right-style",
            Side::Bottom => "border-bottom-style",
            Side::Left => "border-left-style",
        }
    }
}

/// `color` is what the color property `name`, or else the shorthand
/// `shorthand`, says. A value that is no color counts as absent.
pub open spec fn color_by<H: Fn(Hsl) -> (u8, u8, u8)>(
    style: Map<Seq<char>, Seq<char>>,
    name: Seq<char>,
    shorthand: Seq<char>,
    hsl: &H,
    color: Option<u32>,
) -> bool {
    let own = value_of(style, name);
    if own is Some && accepted(own->0) is Some {
        color is Some && resolves(accepted(own->0)->0, hsl, color->0)
    } else {
        match value_of(style, shorthand) {
            Some(value) => shorthand_color(value, hsl, color),
            None => color is None,
        }
    }
}

fn pick_color<H: Fn(Hsl) -> (u8, u8, u8)>(
    computed: &Computed,
    name: &str,
    shorthand: &str,
    hsl: &H,
) -> (result: Option<u32>)
    requires
        total_conversion(hsl),
    ensures
        color_by(computed@, name@, shorthand@, hsl, result),
{
    if let Some(value) = computed.get(name) {
        let own = parse(value, hsl);
        if own.is_some() {
            return own;
        }
    }
    match computed.get(shorthand) {
        Some(value) => last_color(value, hsl),
        None => None,
    }
}

/// `picked` is what the style property `name`, or else the shorthand
/// `shorthand`, says.
pub open spec fn style_by(
    style: Map<Seq<char>, Seq<char>>,
    name: Seq<char>,
    shorthand: Seq<char>,
    picked: Option<BorderStyle>,
) -> bool {
    match value_of(style, name) {
        Some(value) => picked == Some(style_of(Some(value))),
        None => match value_of(style, shorthand) {
            Some(value) => shorthand_style(value, picked),
            None => picked is None,
        },
    }
}

fn pick_style(computed: &Computed, name: &str, shorthand: &str) -> (result: Option<BorderStyle>)
    ensures
        style_by(computed@, name@, shorthand@, result),
{
    match computed.get(name) {
        Some(value) => Some(BorderStyle::parse(Some(value))),
        None => match computed.get(shorthand) {
            Some(value) => border_style(value),
            None => None,
        },
    }
}

/// How one side is painted.
#[derive(Clone, Copy, Debug, PartialEq, Eq, Structural)]
pub struct SidePaint {
    pub color: u32,
    pub style: BorderStyle,
}

/// `paint` is how a side is painted: the side's own color and style, else the
/// uniform ones; a side without color, width or visible style is not painted.
pub open spec fn paints<H: Fn(Hsl) -> (u8, u8, u8)>(
    style: Map<Seq<char>, Seq<char>>,
    side: Side,
    has_width: bool,
    hsl: &H,
    paint: Option<SidePaint>,
) -> bool {
    exists|all_color: Option<u32>, own_color: Option<u32>, all_style: Option<BorderStyle>, own_style: Option<BorderStyle>|
        {
            &&& #[trigger] color_by(style, "border-color"@, "border"@, hsl, all_color)
            &&& #[trigger] color_by(style, side.color_name(), side.shorthand_name(), hsl, own_color)
            &&& #[trigger] style_by(style, "border-style"@, "border"@, all_style)
            &&& #[trigger] style_by(style, side.style_name(), side.shorthand_name(), own_style)
            &&& paint == side_paint(own_color, all_color, own_style, all_style, has_width)
        }
}

/// The paint of one side from what the properties say.
pub open spec fn side_paint(
    own_color: Option<u32>,
    all_color: Option<u32>,
    own_style: Option<BorderStyle>,
    all_style: Option<BorderStyle>,
    has_width: bool,
) -> Option<SidePaint> {
    let color = if own_color is Some {
        own_color
    } else {
        all_color
    };
    let uniform = if all_style is Some {
        all_style->0
    } else {
        BorderStyle::Solid
    };
    let style = if own_style is Some {
        own_style->0
    } else {
        uniform
    };
    if color is Some && has_width && style != BorderStyle::Absent {
        Some(SidePaint { color: color->0, style })
    } else {
        None
    }
}

/// Resolves the paint of one border side. `has_width` tells whether the
/// [painted width](side_width) of the side is positive.
pub fn border_side<H: Fn(Hsl) -> (u8, u8, u8)>(
    computed: &Computed,
    side: Side,
    has_width: bool,
    hsl: &H,
) -> (result: Option<SidePaint>)
    requires
        total_conversion(hsl),
    ensures
        paints(computed@, side, has_width, hsl, result),
{
    let all_color = pick_color(computed, "border-color", "border", hsl);
    let all_style = pick_style(computed, "border-style", "border");
    let own_color = pick_color(computed, side.color_property(), side.shorthand(), hsl);
    let own_style = pick_style(computed, side.style_property(), side.shorthand());
    let color = match own_color {
        Some(argb) => argb,
        None => match all_color {
            Some(argb) => argb,
            None => {
                assert(side_paint(own_color, all_color, own_style, all_style, has_width) is None);
                return None;
            },
        },
    };
    let style = match own_style {
        Some(style) => style,
        None => match all_style {
            Some(style) => style,
            None => BorderStyle::Solid,
        },
    };
    let paint = if has_width && style != BorderStyle::Absent {
        Some(SidePaint { color, style })
    } else {
        None
    };
    assert(paint == side_paint(own_color, all_color, own_style, all_style, has_width));
    paint
}

/// The width that a side is painted with: the side's own, the one in the side's
/// shorthand, that of all sides, or the one in their shorthand. Its style has no
/// say in it.
pub open spec fn painted_width(style: Map<Seq<char>, Seq<char>>, side: Side) -> Option<Seq<char>> {
    or_else(
        or_else(read_number(style, side.width_name()), read_first(style, side.shorthand_name())),
        or_else(read_number(style, "border-width"@), read_first(style, "border"@)),
    )
}

/// Reads the width that a side is painted with; zero where there is none.
pub fn side_width<'a>(computed: &'a Computed, side: Side) -> (result: Option<&'a str>)
    ensures
        text_view(result) == painted_width(computed@, side),
{
    if let Some(width) = number_in(computed, side.width_property()) {
        return Some(width);
    }
    if let Some(width) = first_in(computed, side.shorthand()) {
        return Some(width);
    }
    if let Some(width) = number_in(computed, "border-width") {
        return Some(width);
    }
    first_in(computed, "border")
}

/// Reads the widths that the sides are painted with, in the order top, right,
/// bottom, left.
pub fn side_widths<'a>(computed: &'a Computed) -> (result: [Option<&'a str>; 4])
    ensures
        text_view(result[0]) == painted_width(computed@, Side::Top),
        text_view(result[1]) == painted_width(computed@, Side::Right),
        text_view(result[2]) == painted_width(computed@, Side::Bottom),
        text_view(result[3]) == painted_width(computed@, Side::Left),
{
    [
        side_width(computed, Side::Top),
        side_width(computed, Side::Right),
        side_width(computed, Side::Bottom),
        side_width(computed, Side::Left),
    ]
}

/// Resolves all four sides in the order top, right, bottom, left.
pub fn gpu_border<H: Fn(Hsl) -> (u8, u8, u8)>(
    computed: &Computed,
    has_width: [bool; 4],
    hsl: &H,
) -> (result: [Option<SidePaint>; 4])
    requires
        total_conversion(hsl),
    ensures
        paints(computed@, Side::Top, has_width[0], hsl, result[0]),
        paints(computed@, Side::Right, has_width[1], hsl, result[1]),
        paints(computed@, Side::Bottom, has_width[2], hsl, result[2]),
        paints(computed@, Side::Left, has_width[3], hsl, result[3]),
{
    [
        border_side(computed, Side::Top, has_width[0], hsl),
        border_side(computed, Side::Right, has_width[1], hsl),
        border_side(computed, Side::Bottom, has_width[2], hsl),
        border_side(computed, Side::Left, has_width[3], hsl),
    ]
}

} // verus!
