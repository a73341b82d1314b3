//! `linear-gradient(...)` syntax.

use vstd::prelude::*;
use vstd::string::*;
use crate::color::{accepted, parse, resolves, total_conversion, Hsl};
use crate::layout::numeral::{is_numeral, numeral};
use crate::text::{
    chars_of, ends_with, is_whitespace, occurs_at, same, starts_with, strip_prefix, strip_suffix,
    trim, trimmed, views, white,
};

verus! {

/// Parenthesis depth before position `n`: opening less closing parentheses.
pub open spec fn depth(s: Seq<char>, n: int) -> int
    decreases n,
{
    if n <= 0 {
        0
    } else if s[n - 1] == '(' {
        depth(s, n - 1) + 1
    } else if s[n - 1] == ')' {
        depth(s, n - 1) - 1
    } else {
        depth(s, n - 1)
    }
}

/// Position `i` holds a separator outside all parentheses.
pub open spec fn cuts_at(s: Seq<char>, separator: char, i: int) -> bool {
    s[i] != '(' && s[i] != ')' && s[i] == separator && depth(s, i) == 0
}

/// The pieces of the first `n` characters between top-level separators.
pub open spec fn top_level(s: Seq<char>, separator: char, n: int) -> Seq<Seq<char>>
    decreases n,
{
    if n <= 0 {
        seq![Seq::empty()]
    } else {
        let before = top_level(s, separator, n - 1);
        if cuts_at(s, separator, n - 1) {
            before.push(Seq::empty())
        } else {
            before.update(before.len() - 1, before.last().push(s[n - 1]))
        }
    }
}

/// The pieces put together again with the separator between them.
pub open spec fn joined(parts: Seq<Seq<char>>, separator: char) -> Seq<char>
    decreases parts.len(),
{
    if parts.len() == 0 {
        Seq::empty()
    } else if parts.len() == 1 {
        parts[0]
    } else {
        joined(parts.drop_last(), separator).push(separator) + parts.last()
    }
}

proof fn top_level_is_not_empty(s: Seq<char>, separator: char, n: int)
    ensures
        top_level(s, separator, n).len() >= 1,
    decreases n,
{
    if n > 0 {
        top_level_is_not_empty(s, separator, n - 1);
    }
}

/// Splitting loses nothing: the pieces joined by the separator are the text.
pub proof fn split_then_join(s: Seq<char>, separator: char, n: int)
    requires
        0 <= n <= s.len(),
    ensures
        joined(top_level(s, separator, n), separator) == s.take(n),
    decreases n,
{
    if n == 0 {
        assert(s.take(0) =~= Seq::<char>::empty());
    } else {
        split_then_join(s, separator, n - 1);
        top_level_is_not_empty(s, separator, n - 1);
        let before = top_level(s, separator, n - 1);
        let after = top_level(s, separator, n);
        assert(s.take(n) =~= s.take(n - 1).push(s[n - 1]));
        if cuts_at(s, separator, n - 1) {
            assert(after.drop_last() =~= before);
            assert(joined(before, separator).push(separator) + Seq::<char>::empty() =~= joined(
                before,
                separator,
            ).push(separator));
        } else {
            assert(after.drop_last() =~= before.drop_last());
            if before.len() == 1 {
                assert(after[0] == before[0].push(s[n - 1]));
            } else {
                assert(after.last() == before.last().push(s[n - 1]));
                assert(joined(before.drop_last(), separator).push(separator) + before.last().push(
                    s[n - 1],
                ) =~= (joined(before.drop_last(), separator).push(separator) + before.last()).push(
                    s[n - 1],
                ));
            }
        }
    }
}

/// Splits `value` on `separator` occurrences at parenthesis depth zero.
///
/// Nested `(...)` is preserved so comma-separated color functions inside a
/// gradient are not torn apart into invalid fragments.
pub fn split_top_level<'a>(value: &'a str, separator: char) -> (result: Vec<&'a str>)
    ensures
        views(result@) == top_level(value@, separator, value@.len() as int),
{
    let cs = chars_of(value);
    let mut parts: Vec<&'a str> = Vec::new();
    let mut level: i128 = 0;
    let mut start: usize = 0;
    let mut i: usize = 0;
    assert(value@.subrange(0, 0) =~= Seq::<char>::empty());
    assert(views(parts@).push(value@.subrange(0, 0)) =~= seq![Seq::<char>::empty()]);
    while i < cs.len()
        invariant
            cs@ == value@,
            start <= i <= cs@.len(),
            level == depth(value@, i as int),
            -(i as int) <= level <= i,
            top_level(value@, separator, i as int) == views(parts@).push(
                value@.subrange(start as int, i as int),
            ),
        decreases cs@.len() - i,
    {
        let c = cs[i];
        let ghost before = views(parts@);
        let ghost tail = value@.subrange(start as int, i as int);
        if c == '(' {
            level = level + 1;
        } else if c == ')' {
            level = level - 1;
        } else if c == separator && level == 0 {
            let part = value.substring_char(start, i);
            parts.push(part);
            start = i + 1;
            assert(views(parts@) =~= before.push(tail));
            assert(value@.subrange(start as int, i + 1) =~= Seq::<char>::empty());
        }
        proof {
            if !cuts_at(value@, separator, i as int) {
                assert(tail.push(c) =~= value@.subrange(start as int, i + 1));
                assert(before.push(tail).update(before.len() as int, tail.push(c)) =~= before.push(
                    tail.push(c),
                ));
            }
        }
        i = i + 1;
    }
    let ghost before = views(parts@);
    let part = value.substring_char(start, i);
    parts.push(part);
    assert(views(parts@) =~= before.push(part@));
    parts
}

/// A segment that names a direction or an angle.
pub open spec fn direction_segment(segment: Seq<char>) -> bool {
    occurs_at(segment, "to "@, 0) || occurs_at(segment, "deg"@, segment.len() - 3)
}

/// Whether a segment names the gradient axis.
pub fn is_direction(segment: &str) -> (result: bool)
    ensures
        result == direction_segment(segment@),
{
    proof {
        reveal_strlit("deg");
    }
    starts_with(segment, "to ") || ends_with(segment, "deg")
}

/// CSS degrees of a direction keyword (`0` points to the top, `90` to the
/// right); diagonal keywords map to the 45 degree family.
pub open spec fn keyword_angle(segment: Seq<char>) -> Option<u16> {
    if segment == "to top"@ {
        Some(0)
    } else if segment == "to right"@ {
        Some(90)
    } else if segment == "to bottom"@ {
        Some(180)
    } else if segment == "to left"@ {
        Some(270)
    } else if segment == "to top right"@ || segment == "to right top"@ {
        Some(45)
    } else if segment == "to bottom right"@ || segment == "to right bottom"@ {
        Some(135)
    } else if segment == "to bottom left"@ || segment == "to left bottom"@ {
        Some(225)
    } else if segment == "to top left"@ || segment == "to left top"@ {
        Some(315)
    } else {
        None
    }
}

/// Resolves a direction keyword to CSS degrees.
pub fn keyword_degrees(segment: &str) -> (result: Option<u16>)
    ensures
        result == keyword_angle(segment@),
{
    if same(segment, "to top") {
        Some(0)
    } else if same(segment, "to right") {
        Some(90)
    } else if same(segment, "to bottom") {
        Some(180)
    } else if same(segment, "to left") {
        Some(270)
    } else if same(segment, "to top right") || same(segment, "to right top") {
        Some(45)
    } else if same(segment, "to bottom right") || same(segment, "to right bottom") {
        Some(135)
    } else if same(segment, "to bottom left") || same(segment, "to left bottom") {
        Some(225)
    } else if same(segment, "to top left") || same(segment, "to left top") {
        Some(315)
    } else {
        None
    }
}

/// One gradient stop, with its numeric position still as text.
pub struct StopSyntax<'a> {
    /// The color part.
    pub color: &'a str,
    /// Where the stop is positioned.
    pub position: StopPosition<'a>,
}

/// How a stop states its position.
pub enum StopPosition<'a> {
    /// Not stated.
    Missing,
    /// A bare `0`, which CSS treats as `0%`.
    Zero,
    /// The number in front of a percent sign.
    Percent(&'a str),
}

/// What a [`StopPosition`] holds.
pub enum PositionView {
    Missing,
    Zero,
    Percent(Seq<char>),
}

impl<'a> View for StopPosition<'a> {
    type V = PositionView;

    open spec fn view(&self) -> PositionView {
        match *self {
            StopPosition::Missing => PositionView::Missing,
            StopPosition::Zero => PositionView::Zero,
            StopPosition::Percent(text) => PositionView::Percent(text@),
        }
    }
}

/// What a [`StopSyntax`] holds: the color text and the position.
pub open spec fn stop_view(stop: StopSyntax) -> (Seq<char>, PositionView) {
    (stop.color@, stop.position@)
}

/// `i` is the position of the last white space of `s`.
pub open spec fn last_white(s: Seq<char>, i: int) -> bool {
    &&& 0 <= i < s.len()
    &&& white(s[i])
    &&& forall|k: int| i < k < s.len() ==> !white(#[trigger] s[k])
}

/// The color and the position that one segment states: a last word that is a
/// percentage or a bare `0` is the position, anything else belongs to the color.
pub open spec fn stop_of(segment: Seq<char>) -> (Seq<char>, PositionView) {
    let s = trimmed(segment);
    if exists|i: int| last_white(s, i) {
        let split = choose|i: int| last_white(s, i);
        let tail = trimmed(s.subrange(split + 1, s.len() as int));
        let head = trimmed(s.subrange(0, split));
        if occurs_at(tail, "%"@, tail.len() - 1) {
            (head, PositionView::Percent(trimmed(tail.subrange(0, tail.len() - 1))))
        } else if tail == "0"@ {
            (head, PositionView::Zero)
        } else {
            (s, PositionView::Missing)
        }
    } else {
        (s, PositionView::Missing)
    }
}

fn rfind_whitespace(s: &str) -> (result: Option<usize>)
    ensures
        match result {
            Some(i) => last_white(s@, i as int),
            None => forall|i: int| !last_white(s@, i),
        },
{
    let cs = chars_of(s);
    let mut i: usize = cs.len();
    while i > 0
        invariant
            cs@ == s@,
            i <= cs@.len(),
            forall|k: int| i <= k < s@.len() ==> !white(#[trigger] s@[k]),
        decreases i,
    {
        i = i - 1;
        if is_whitespace(cs[i]) {
            return Some(i);
        }
    }
    None
}

/// Reads one `color [position]` gradient stop.
pub fn parse_stop<'a>(segment: &'a str) -> (result: StopSyntax<'a>)
    ensures
        stop_view(result) == stop_of(segment@),
{
    let whole = trim(segment);
    proof {
        reveal_strlit("%");
    }
    if let Some(split) = rfind_whitespace(whole) {
        proof {
            let picked = choose|i: int| last_white(whole@, i);
            assert(last_white(whole@, split as int));
            assert(picked == split) by {
                if picked < split {
                    assert(!white(whole@[split as int]));
                } else if split < picked {
                    assert(!white(whole@[picked]));
                }
            }
        }
        let end: usize = whole.unicode_len();
        let tail = trim(whole.substring_char(split + 1, end));
        let head = trim(whole.substring_char(0, split));
        if let Some(percent) = strip_suffix(tail, "%") {
            return StopSyntax { color: head, position: StopPosition::Percent(trim(percent)) };
        }
        if same(tail, "0") {
            return StopSyntax { color: head, position: StopPosition::Zero };
        }
    }
    StopSyntax { color: whole, position: StopPosition::Missing }
}

/// The arguments of a gradient function: an optional direction and its stops.
pub struct GradientSyntax<'a> {
    pub direction: Option<&'a str>,
    pub stops: Vec<StopSyntax<'a>>,
}

/// The stops that segments `from..` state.
pub open spec fn stops_from(segments: Seq<Seq<char>>, from: int) -> Seq<(Seq<char>, PositionView)> {
    Seq::new((segments.len() - from) as nat, |i: int| stop_of(trimmed(segments[from + i])))
}

/// The views of a list of stops.
pub open spec fn stop_views(stops: Seq<StopSyntax>) -> Seq<(Seq<char>, PositionView)> {
    Seq::new(stops.len(), |i: int| stop_view(stops[i]))
}

/// Reads the arguments of `linear-gradient(...)`. A leading direction segment
/// is consumed; without it the axis defaults to the bottom. No stop at all
/// rejects the gradient.
pub fn parse_arguments<'a>(arguments: &'a str) -> (result: Option<GradientSyntax<'a>>)
    ensures
        ({
            let segments = top_level(arguments@, ',', arguments@.len() as int);
            let directed = direction_segment(trimmed(segments[0]));
            let from: int = if directed {
                1
            } else {
                0
            };
            match result {
                None => segments.len() == from,
                Some(syntax) => {
                    &&& segments.len() > from
                    &&& syntax.direction is Some <==> directed
                    &&& syntax.direction matches Some(text) ==> text@ == trimmed(segments[0])
                    &&& stop_views(syntax.stops@) == stops_from(segments, from)
                },
            }
        }),
{
    let segments = split_top_level(arguments, ',');
    let ghost all = top_level(arguments@, ',', arguments@.len() as int);
    proof {
        top_level_is_not_empty(arguments@, ',', arguments@.len() as int);
        assert(all.len() == segments@.len());
        assert(forall|k: int| 0 <= k < segments@.len() ==> all[k] == (#[trigger] segments@[k])@);
    }
    let first = trim(segments[0]);
    let directed = is_direction(first);
    let from: usize = if directed {
        1
    } else {
        0
    };
    let direction = if directed {
        Some(first)
    } else {
        None
    };
    let mut stops: Vec<StopSyntax<'a>> = Vec::new();
    let mut i: usize = from;
    while i < segments.len()
        invariant
            from <= i <= segments@.len(),
            all.len() == segments@.len(),
            forall|k: int| 0 <= k < segments@.len() ==> all[k] == (#[trigger] segments@[k])@,
            stops@.len() == i - from,
            forall|k: int|
                0 <= k < stops@.len() ==> stop_view(#[trigger] stops@[k]) == stop_of(
                    trimmed(all[from + k]),
                ),
        decreases segments@.len() - i,
    {
        let stop = parse_stop(trim(segments[i]));
        stops.push(stop);
        i = i + 1;
    }
    if stops.len() == 0 {
        return None;
    }
    assert(stop_views(stops@) =~= stops_from(all, from as int));
    Some(GradientSyntax { direction, stops })
}

/// A `background` fill as written.
pub enum FillSyntax<'a> {
    /// A plain color value.
    Solid(&'a str),
    /// The arguments of a linear gradient.
    Gradient(&'a str),
}

/// The gradient arguments inside a trimmed value, where it is one.
pub open spec fn gradient_arguments(value: Seq<char>) -> Option<Seq<char>> {
    let rest = value.subrange(16, value.len() as int);
    if occurs_at(value, "linear-gradient("@, 0) && occurs_at(rest, ")"@, rest.len() - 1) {
        Some(rest.subrange(0, rest.len() - 1))
    } else {
        None
    }
}

/// Tells a gradient from a plain color.
pub fn parse_fill<'a>(value: &'a str) -> (result: FillSyntax<'a>)
    ensures
        match result {
            FillSyntax::Gradient(arguments) => gradient_arguments(trimmed(value@)) == Some(
                arguments@,
            ),
            FillSyntax::Solid(text) => gradient_arguments(trimmed(value@)) is None && text@
                == trimmed(value@),
        },
{
    let value = trim(value);
    proof {
        reveal_strlit("linear-gradient(");
        reveal_strlit(")");
    }
    if let Some(rest) = strip_prefix(value, "linear-gradient(") {
        if let Some(arguments) = strip_suffix(rest, ")") {
            return FillSyntax::Gradient(arguments);
        }
    }
    FillSyntax::Solid(value)
}

/// The axis of a gradient in CSS degrees: `0` points to the top, `90` to the
/// right. The text is a number as written.
pub enum Angle<'a> {
    Degrees(u16),
    Number(&'a str),
}

/// What an [`Angle`] holds.
pub enum AngleView {
    Degrees(u16),
    Number(Seq<char>),
}

impl<'a> View for Angle<'a> {
    type V = AngleView;

    open spec fn view(&self) -> AngleView {
        match *self {
            Angle::Degrees(degrees) => AngleView::Degrees(degrees),
            Angle::Number(text) => AngleView::Number(text@),
        }
    }
}

/// The number in front of the unit `deg`.
pub open spec fn degrees_of(segment: Seq<char>) -> Option<Seq<char>> {
    let text = trimmed(segment.subrange(0, segment.len() - 3));
    if occurs_at(segment, "deg"@, segment.len() - 3) && numeral(text) {
        Some(text)
    } else {
        None
    }
}

/// The axis that a direction segment names.
pub open spec fn angle_of(segment: Seq<char>) -> Option<AngleView> {
    match degrees_of(segment) {
        Some(text) => Some(AngleView::Number(text)),
        None => match keyword_angle(segment) {
            Some(degrees) => Some(AngleView::Degrees(degrees)),
            None => None,
        },
    }
}

/// Maps a gradient direction keyword or angle to CSS degrees.
pub fn parse_direction<'a>(segment: &'a str) -> (result: Option<Angle<'a>>)
    ensures
        angle_of(segment@) == (match result {
            Some(angle) => Some(angle@),
            None => None,
        }),
{
    proof {
        reveal_strlit("deg");
    }
    if let Some(text) = strip_suffix(segment, "deg") {
        let text = trim(text);
        if is_numeral(text) {
            return Some(Angle::Number(text));
        }
    }
    match keyword_degrees(segment) {
        Some(degrees) => Some(Angle::Degrees(degrees)),
        None => None,
    }
}

/// One color of a gradient and the position that it states.
pub struct Stop<'a> {
    pub color: u32,
    pub position: StopPosition<'a>,
}

/// A linear gradient: its axis and its premultiplied colors from the start of
/// the axis to the end.
pub struct Gradient<'a> {
    pub angle: Angle<'a>,
    pub stops: Vec<Stop<'a>>,
}

/// A stop whose color and position can be read.
pub open spec fn readable(stop: (Seq<char>, PositionView)) -> bool {
    &&& accepted(stop.0) is Some
    &&& match stop.1 {
        PositionView::Percent(text) => numeral(text),
        _ => true,
    }
}

/// The index of the first stop segment.
pub open spec fn first_stop(segments: Seq<Seq<char>>) -> int {
    if direction_segment(trimmed(segments[0])) {
        1
    } else {
        0
    }
}

/// The axis that a gradient's segments state: a leading direction, or the bottom.
pub open spec fn axis_of(segments: Seq<Seq<char>>) -> Option<AngleView> {
    if direction_segment(trimmed(segments[0])) {
        angle_of(trimmed(segments[0]))
    } else {
        Some(AngleView::Degrees(180))
    }
}

/// The stops that a gradient's arguments state.
pub open spec fn stated_stops(arguments: Seq<char>) -> Seq<(Seq<char>, PositionView)> {
    let segments = top_level(arguments, ',', arguments.len() as int);
    stops_from(segments, first_stop(segments))
}

/// The axis that a gradient's arguments state.
pub open spec fn stated_axis(arguments: Seq<char>) -> Option<AngleView> {
    axis_of(top_level(arguments, ',', arguments.len() as int))
}

/// Arguments of a gradient that can be painted: an axis that can be read and at
/// least one stop, all of them readable.
pub open spec fn paintable(arguments: Seq<char>) -> bool {
    let stops = stated_stops(arguments);
    &&& stated_axis(arguments) is Some
    &&& stops.len() > 0
    &&& forall|i: int| 0 <= i < stops.len() ==> readable(#[trigger] stops[i])
}

/// `stops` are the stated ones, with their colors resolved.
pub open spec fn resolved_stops<H: Fn(Hsl) -> (u8, u8, u8)>(
    stated: Seq<(Seq<char>, PositionView)>,
    hsl: &H,
    stops: Seq<Stop>,
) -> bool {
    &&& stops.len() == stated.len()
    &&& forall|i: int|
        0 <= i < stops.len() ==> {
            &&& (#[trigger] stops[i]).position@ == stated[i].1
            &&& resolves(accepted(stated[i].0)->0, hsl, stops[i].color)
        }
}

impl<'a> Gradient<'a> {
    /// Reads the arguments of `linear-gradient(...)`.
    pub fn parse<H: Fn(Hsl) -> (u8, u8, u8)>(arguments: &'a str, hsl: &H) -> (result: Option<Self>)
        requires
            total_conversion(hsl),
        ensures
            result is Some <==> paintable(arguments@),
            result matches Some(gradient) ==> {
                &&& stated_axis(arguments@) == Some(gradient.angle@)
                &&& resolved_stops(stated_stops(arguments@), hsl, gradient.stops@)
            },
    {
        let ghost stated = stated_stops(arguments@);
        proof {
            top_level_is_not_empty(arguments@, ',', arguments@.len() as int);
        }
        let syntax = match parse_arguments(arguments) {
            Some(syntax) => syntax,
            None => return None,
        };
        let angle = match syntax.direction {
            Some(text) => match parse_direction(text) {
                Some(angle) => angle,
                None => return None,
            },
            None => Angle::Degrees(180),
        };
        assert(stop_views(syntax.stops@) == stated);
        let mut stops: Vec<Stop<'a>> = Vec::new();
        let mut i: usize = 0;
        while i < syntax.stops.len()
            invariant
                i <= syntax.stops@.len(),
                total_conversion(hsl),
                stated == stated_stops(arguments@),
                stop_views(syntax.stops@) == stated,
                resolved_stops(stated.take(i as int), hsl, stops@),
                forall|k: int| 0 <= k < i ==> readable(#[trigger] stated[k]),
            decreases syntax.stops@.len() - i,
        {
            let ghost before = stops@;
            assert(stated[i as int] == stop_view(syntax.stops@[i as int]));
            let position = match &syntax.stops[i].position {
                StopPosition::Missing => StopPosition::Missing,
                StopPosition::Zero => StopPosition::Zero,
                StopPosition::Percent(text) => {
                    if !is_numeral(text) {
                        assert(!readable(stated[i as int]));
                        return None;
                    }
                    StopPosition::Percent(text)
                },
            };
            let color = match parse(syntax.stops[i].color, hsl) {
                Some(color) => color,
                None => {
                    assert(!readable(stated[i as int]));
                    return None;
                },
            };
            stops.push(Stop { color, position });
            i = i + 1;
            assert(resolved_stops(stated.take(i as int), hsl, stops@)) by {
                assert forall|k: int| 0 <= k < stops@.len() implies {
                    &&& (#[trigger] stops@[k]).position@ == stated.take(i as int)[k].1
                    &&& resolves(accepted(stated.take(i as int)[k].0)->0, hsl, stops@[k].color)
                } by {
                    if k < before.len() {
                        assert(stops@[k] == before[k]);
                        assert(stated.take(i - 1)[k] == stated.take(i as int)[k]);
                    }
                }
            }
        }
        assert(stated.take(stated.len() as int) =~= stated);
        Some(Gradient { angle, stops })
    }
}

/// A parsed `background` fill.
pub enum Fill<'a> {
    /// One premultiplied ARGB8888 color.
    Solid(u32),
    /// A multi-stop linear gradient.
    Gradient(Gradient<'a>),
}

impl<'a> Fill<'a> {
    /// Reads a `background` fill.
    pub fn parse<H: Fn(Hsl) -> (u8, u8, u8)>(value: &'a str, hsl: &H) -> (result: Option<Self>)
        requires
            total_conversion(hsl),
        ensures
            match gradient_arguments(trimmed(value@)) {
                Some(arguments) => {
                    &&& result is Some <==> paintable(arguments)
                    &&& result matches Some(fill) ==> match fill {
                        Fill::Gradient(gradient) => {
                            &&& stated_axis(arguments) == Some(gradient.angle@)
                            &&& resolved_stops(stated_stops(arguments), hsl, gradient.stops@)
                        },
                        Fill::Solid(_) => false,
                    }
                },
                None => {
                    &&& result is Some <==> accepted(trimmed(value@)) is Some
                    &&& result matches Some(fill) ==> match fill {
                        Fill::Solid(color) => resolves(accepted(trimmed(value@))->0, hsl, color),
                        Fill::Gradient(_) => false,
                    }
                },
            },
    {
        match parse_fill(value) {
            FillSyntax::Gradient(arguments) => match Gradient::parse(arguments, hsl) {
                Some(gradient) => Some(Fill::Gradient(gradient)),
                None => None,
            },
            FillSyntax::Solid(text) => match parse(text, hsl) {
                Some(color) => Some(Fill::Solid(color)),
                None => None,
            },
        }
    }
}

/// Where a stop stands on the axis.
#[derive(Clone, Copy, Debug, PartialEq, Eq, Structural)]
pub enum Placement {
    /// At the position that it states.
    Stated,
    /// At the start of the axis.
    Start,
    /// At the end of the axis.
    End,
    /// On the line between two other stops, in even steps.
    Between { before: usize, after: usize },
}

/// A stop that stands by itself: it states a position, or it is the first or the
/// last one.
pub open spec fn anchored(stated: Seq<bool>, index: int) -> bool {
    0 <= index < stated.len() && (stated[index] || index == 0 || index == stated.len() - 1)
}

/// `placement` is where the stop at `index` stands: a stop without a position
/// stands between the nearest ones that stand by themselves.
pub open spec fn stands(stated: Seq<bool>, index: int, placement: Placement) -> bool {
    match placement {
        Placement::Stated => stated[index],
        Placement::Start => !stated[index] && index == 0,
        Placement::End => !stated[index] && index == stated.len() - 1 && index != 0,
        Placement::Between { before, after } => {
            &&& before < index < after
            &&& anchored(stated, before as int)
            &&& anchored(stated, after as int)
            &&& forall|k: int| before < k < after ==> !#[trigger] anchored(stated, k)
        },
    }
}

/// Places the stops of a gradient: the ends are pinned, and stops without a
/// position are spread evenly between their neighbors.
pub fn resolve_positions(stated: &Vec<bool>) -> (result: Vec<Placement>)
    ensures
        result@.len() == stated@.len(),
        forall|i: int| 0 <= i < stated@.len() ==> stands(stated@, i, #[trigger] result@[i]),
{
    let count: usize = stated.len();
    let mut places: Vec<Placement> = Vec::new();
    let mut before: usize = 0;
    while places.len() < count
        invariant
            count == stated@.len(),
            places@.len() <= count,
            places@.len() > 0 ==> before < places@.len(),
            places@.len() > 0 ==> anchored(stated@, before as int),
            places@.len() > 0 ==> (forall|k: int|
                before < k < places@.len() ==> !#[trigger] anchored(stated@, k)),
            forall|i: int| 0 <= i < places@.len() ==> stands(stated@, i, #[trigger] places@[i]),
        decreases count - places@.len(),
    {
        let index: usize = places.len();
        if stated[index] {
            places.push(Placement::Stated);
            before = index;
        } else if index == 0 {
            places.push(Placement::Start);
            before = index;
        } else if index == count - 1 {
            places.push(Placement::End);
            before = index;
        } else {
            let mut after: usize = index + 1;
            while !stated[after] && after != count - 1
                invariant
                    count == stated@.len(),
                    0 < index < after < count,
                    forall|k: int| index <= k < after ==> !#[trigger] anchored(stated@, k),
                decreases count - after,
            {
                after = after + 1;
            }
            places.push(Placement::Between { before, after });
        }
    }
    places
}

/// The nearest neighbors of a stop are the only ones between which it stands:
/// every stop has exactly one place.
pub proof fn placements_are_unique(stated: Seq<bool>, index: int, one: Placement, other: Placement)
    requires
        0 <= index < stated.len(),
        stands(stated, index, one),
        stands(stated, index, other),
    ensures
        one == other,
{
    if let Placement::Between { before, after } = one {
        assert(!anchored(stated, index));
        if let Placement::Between { before: first, after: last } = other {
            assert(anchored(stated, before as int) && anchored(stated, after as int));
            assert(anchored(stated, first as int) && anchored(stated, last as int));
        }
    }
    if let Placement::Between { before, after } = other {
        assert(!anchored(stated, index));
    }
}

} // verus!
