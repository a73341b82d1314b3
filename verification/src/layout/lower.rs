//! The box that a styled node asks the layout for.

use vstd::prelude::*;
use vstd::string::*;
use crate::layout::{
    border_widths, border_widths_of, dimension_in, edge_values, edges_of, length_auto, length_view,
    margin_edges, margin_of, margin_value, margins_of, number_in, read_dimension, read_number,
    side_views, inset_of, Length, LengthView,
};
use crate::overflow::{modes_of, overflow_modes, OverflowMode};
use crate::style::{text_view, value_of, Computed};
use crate::text::{chars_of, same};
use crate::tree::{text_content, text_leaf, text_of, Node, NodeView};

verus! {

/// How a box lays its children out.
#[derive(Clone, Copy, Debug, PartialEq, Eq, Structural)]
pub enum DisplayMode {
    Hidden,
    Flex,
    Block,
}

/// The direction of a flex container.
#[derive(Clone, Copy, Debug, PartialEq, Eq, Structural)]
pub enum Direction {
    Row,
    Column,
    RowReverse,
    ColumnReverse,
}

/// Whether a flex container breaks lines.
#[derive(Clone, Copy, Debug, PartialEq, Eq, Structural)]
pub enum Wrap {
    NoWrap,
    Wrap,
    WrapReverse,
}

/// Placement across the direction.
#[derive(Clone, Copy, Debug, PartialEq, Eq, Structural)]
pub enum Align {
    Center,
    FlexStart,
    FlexEnd,
    Stretch,
}

/// Placement along the direction.
#[derive(Clone, Copy, Debug, PartialEq, Eq, Structural)]
pub enum Justify {
    Center,
    FlexStart,
    FlexEnd,
    SpaceBetween,
}

/// The mode that a value names.
pub open spec fn display_of(value: Option<Seq<char>>) -> DisplayMode {
    if value == Some("none"@) {
        DisplayMode::Hidden
    } else if value == Some("flex"@) {
        DisplayMode::Flex
    } else {
        DisplayMode::Block
    }
}

/// The direction that a value names.
pub open spec fn direction_of(value: Option<Seq<char>>) -> Direction {
    if value == Some("column"@) {
        Direction::Column
    } else if value == Some("row-reverse"@) {
        Direction::RowReverse
    } else if value == Some("column-reverse"@) {
        Direction::ColumnReverse
    } else {
        Direction::Row
    }
}

/// The wrap rule that a value names.
pub open spec fn wrap_of(value: Option<Seq<char>>) -> Wrap {
    if value == Some("wrap"@) {
        Wrap::Wrap
    } else if value == Some("wrap-reverse"@) {
        Wrap::WrapReverse
    } else {
        Wrap::NoWrap
    }
}

/// The placement that a value names.
pub open spec fn align_of(value: Option<Seq<char>>) -> Option<Align> {
    if value == Some("center"@) {
        Some(Align::Center)
    } else if value == Some("flex-start"@) {
        Some(Align::FlexStart)
    } else if value == Some("flex-end"@) {
        Some(Align::FlexEnd)
    } else if value == Some("stretch"@) {
        Some(Align::Stretch)
    } else {
        None
    }
}

/// The placement that a value names.
pub open spec fn justify_of(value: Option<Seq<char>>) -> Option<Justify> {
    if value == Some("center"@) {
        Some(Justify::Center)
    } else if value == Some("flex-start"@) {
        Some(Justify::FlexStart)
    } else if value == Some("flex-end"@) {
        Some(Justify::FlexEnd)
    } else if value == Some("space-between"@) {
        Some(Justify::SpaceBetween)
    } else {
        None
    }
}

/// The size of monospace text: its columns, and one line more than its breaks.
#[derive(Clone, Copy, Debug, PartialEq, Eq, Structural)]
pub struct Cells {
    pub columns: usize,
    pub breaks: usize,
}

/// The characters of the current line, those of the longest line, and the line
/// breaks after reading a text.
pub open spec fn line_count(text: Seq<char>) -> (int, int, int)
    decreases text.len(),
{
    if text.len() == 0 {
        (0, 0, 0)
    } else {
        let (current, longest, breaks) = line_count(text.drop_last());
        if text.last() == '\n' {
            (0, longest, breaks + 1)
        } else {
            let grown = current + 1;
            (
                grown,
                if grown > longest {
                    grown
                } else {
                    longest
                },
                breaks,
            )
        }
    }
}

/// The cells of a text: its longest line and its line breaks where lines are
/// preserved, else all its characters on one line.
pub open spec fn cells_of(text: Seq<char>, preserves_lines: bool) -> (int, int) {
    if preserves_lines {
        (line_count(text).1, line_count(text).2)
    } else {
        (text.len() as int, 0)
    }
}

fn count_cells(text: &str, preserves_lines: bool) -> (result: Cells)
    ensures
        (result.columns as int, result.breaks as int) == cells_of(text@, preserves_lines),
{
    let chars = chars_of(text);
    let length: usize = chars.len();
    if !preserves_lines {
        return Cells { columns: length, breaks: 0 };
    }
    let mut current: usize = 0;
    let mut longest: usize = 0;
    let mut breaks: usize = 0;
    let mut i: usize = 0;
    assert(text@.take(0) =~= Seq::<char>::empty());
    while i < length
        invariant
            chars@ == text@,
            length == text@.len(),
            i <= length,
            current <= i,
            longest <= i,
            breaks <= i,
            line_count(text@.take(i as int)) == (current as int, longest as int, breaks as int),
        decreases length - i,
    {
        assert(text@.take(i + 1).drop_last() =~= text@.take(i as int));
        if chars[i] == '\n' {
            current = 0;
            breaks = breaks + 1;
        } else {
            current = current + 1;
            if current > longest {
                longest = current;
            }
        }
        i = i + 1;
    }
    assert(text@.take(i as int) =~= text@);
    Cells { columns: longest, breaks }
}

/// The text is sized by cells.
pub open spec fn cell_text(node: NodeView, style: Map<Seq<char>, Seq<char>>) -> bool {
    text_leaf(node) && text_of(node).len() > 0 && value_of(style, "font-family"@) == Some(
        "monospace"@,
    )
}

/// Everything that a box asks for. Sides stand in the order top, right, bottom,
/// left.
pub struct BoxStyle<'a> {
    pub display: DisplayMode,
    /// The box is placed out of the flow. Fixed boxes are placed against the
    /// root, which stands for the viewport.
    pub absolute: bool,
    pub direction: Direction,
    pub wrap: Wrap,
    pub align_items: Option<Align>,
    pub justify_content: Option<Justify>,
    /// Without a size the box has that of its cells, or of its content.
    pub width: Option<Length<'a>>,
    pub height: Option<Length<'a>>,
    pub min_width: Option<Length<'a>>,
    pub min_height: Option<Length<'a>>,
    pub max_width: Option<Length<'a>>,
    pub max_height: Option<Length<'a>>,
    pub cells: Option<Cells>,
    pub inset: [Length<'a>; 4],
    pub overflow: (OverflowMode, OverflowMode),
    /// Sizes do not take in padding and border.
    pub content_box: bool,
    pub padding: [Length<'a>; 4],
    pub border: [Length<'a>; 4],
    pub margin: [Length<'a>; 4],
    pub gap: Option<&'a str>,
    pub flex_grow: Option<&'a str>,
    pub flex_shrink: Option<&'a str>,
    pub flex_basis: Option<Length<'a>>,
}

/// Sides from a shorthand, where it can be read, with each side's own value in
/// place of it.
pub open spec fn override_sides(
    base: Seq<LengthView>,
    top: Option<LengthView>,
    right: Option<LengthView>,
    bottom: Option<LengthView>,
    left: Option<LengthView>,
) -> Seq<LengthView> {
    seq![
        if top is Some {
            top->0
        } else {
            base[0]
        },
        if right is Some {
            right->0
        } else {
            base[1]
        },
        if bottom is Some {
            bottom->0
        } else {
            base[2]
        },
        if left is Some {
            left->0
        } else {
            base[3]
        },
    ]
}

/// Four sides of nothing.
pub open spec fn no_sides() -> Seq<LengthView> {
    seq![LengthView::Zero, LengthView::Zero, LengthView::Zero, LengthView::Zero]
}

/// A padding property, read.
pub open spec fn read_padding(style: Map<Seq<char>, Seq<char>>, name: Seq<char>) -> Option<
    LengthView,
> {
    match read_number(style, name) {
        Some(text) => Some(LengthView::Px(text)),
        None => None,
    }
}

/// A margin property, read.
pub open spec fn read_margin(style: Map<Seq<char>, Seq<char>>, name: Seq<char>) -> Option<
    LengthView,
> {
    match value_of(style, name) {
        Some(value) => margin_of(value),
        None => None,
    }
}

/// The padding of all sides.
pub open spec fn padding_of(style: Map<Seq<char>, Seq<char>>) -> Seq<LengthView> {
    override_sides(
        match value_of(style, "padding"@) {
            Some(value) => edges_of(value),
            None => no_sides(),
        },
        read_padding(style, "padding-top"@),
        read_padding(style, "padding-right"@),
        read_padding(style, "padding-bottom"@),
        read_padding(style, "padding-left"@),
    )
}

/// The margins of all sides.
pub open spec fn all_margins_of(style: Map<Seq<char>, Seq<char>>) -> Seq<LengthView> {
    override_sides(
        match value_of(style, "margin"@) {
            Some(value) => match margins_of(value) {
                Some(sides) => sides,
                None => no_sides(),
            },
            None => no_sides(),
        },
        read_margin(style, "margin-top"@),
        read_margin(style, "margin-right"@),
        read_margin(style, "margin-bottom"@),
        read_margin(style, "margin-left"@),
    )
}

/// The box is what a node's style asks for.
pub open spec fn lowers(out: BoxStyle, node: NodeView, style: Map<Seq<char>, Seq<char>>) -> bool {
    &&& out.display == display_of(value_of(style, "display"@))
    &&& out.absolute == (value_of(style, "position"@) == Some("absolute"@) || value_of(
        style,
        "position"@,
    ) == Some("fixed"@))
    &&& out.direction == direction_of(value_of(style, "flex-direction"@))
    &&& out.wrap == wrap_of(value_of(style, "flex-wrap"@))
    &&& out.align_items == align_of(value_of(style, "align-items"@))
    &&& out.justify_content == justify_of(value_of(style, "justify-content"@))
    &&& length_view(out.width) == read_dimension(style, "width"@)
    &&& length_view(out.height) == read_dimension(style, "height"@)
    &&& length_view(out.min_width) == read_dimension(style, "min-width"@)
    &&& length_view(out.min_height) == read_dimension(style, "min-height"@)
    &&& length_view(out.max_width) == read_dimension(style, "max-width"@)
    &&& length_view(out.max_height) == read_dimension(style, "max-height"@)
    &&& match out.cells {
        Some(cells) => cell_text(node, style) && (cells.columns as int, cells.breaks as int)
            == cells_of(text_of(node), value_of(style, "white-space"@) == Some("pre"@)),
        None => !cell_text(node, style),
    }
    &&& side_views(out.inset) == seq![
        inset_of(value_of(style, "top"@)),
        inset_of(value_of(style, "right"@)),
        inset_of(value_of(style, "bottom"@)),
        inset_of(value_of(style, "left"@)),
    ]
    &&& out.overflow == modes_of(style)
    &&& out.content_box == (value_of(style, "box-sizing"@) == Some("content-box"@))
    &&& side_views(out.padding) == padding_of(style)
    &&& side_views(out.border) == border_widths_of(style)
    &&& side_views(out.margin) == all_margins_of(style)
    &&& text_view(out.gap) == read_number(style, "gap"@)
    &&& text_view(out.flex_grow) == read_number(style, "flex-grow"@)
    &&& text_view(out.flex_shrink) == read_number(style, "flex-shrink"@)
    &&& length_view(out.flex_basis) == read_dimension(style, "flex-basis"@)
}

fn display_mode(value: Option<&str>) -> (result: DisplayMode)
    ensures
        result == display_of(text_view(value)),
{
    match value {
        Some(text) => if same(text, "none") {
            DisplayMode::Hidden
        } else if same(text, "flex") {
            DisplayMode::Flex
        } else {
            DisplayMode::Block
        },
        None => DisplayMode::Block,
    }
}

fn flex_direction(value: Option<&str>) -> (result: Direction)
    ensures
        result == direction_of(text_view(value)),
{
    match value {
        Some(text) => if same(text, "column") {
            Direction::Column
        } else if same(text, "row-reverse") {
            Direction::RowReverse
        } else if same(text, "column-reverse") {
            Direction::ColumnReverse
        } else {
            Direction::Row
        },
        None => Direction::Row,
    }
}

fn flex_wrap(value: Option<&str>) -> (result: Wrap)
    ensures
        result == wrap_of(text_view(value)),
{
    match value {
        Some(text) => if same(text, "wrap") {
            Wrap::Wrap
        } else if same(text, "wrap-reverse") {
            Wrap::WrapReverse
        } else {
            Wrap::NoWrap
        },
        None => Wrap::NoWrap,
    }
}

fn align_items(value: Option<&str>) -> (result: Option<Align>)
    ensures
        result == align_of(text_view(value)),
{
    match value {
        Some(text) => if same(text, "center") {
            Some(Align::Center)
        } else if same(text, "flex-start") {
            Some(Align::FlexStart)
        } else if same(text, "flex-end") {
            Some(Align::FlexEnd)
        } else if same(text, "stretch") {
            Some(Align::Stretch)
        } else {
            None
        },
        None => None,
    }
}

fn justify_content(value: Option<&str>) -> (result: Option<Justify>)
    ensures
        result == justify_of(text_view(value)),
{
    match value {
        Some(text) => if same(text, "center") {
            Some(Justify::Center)
        } else if same(text, "flex-start") {
            Some(Justify::FlexStart)
        } else if same(text, "flex-end") {
            Some(Justify::FlexEnd)
        } else if same(text, "space-between") {
            Some(Justify::SpaceBetween)
        } else {
            None
        },
        None => None,
    }
}

fn padding_side<'a>(computed: &'a Computed, name: &str, base: Length<'a>) -> (result: Length<'a>)
    ensures
        result@ == (match read_padding(computed@, name@) {
            Some(length) => length,
            None => base@,
        }),
{
    match number_in(computed, name) {
        Some(text) => Length::Px(text),
        None => base,
    }
}

fn padding<'a>(computed: &'a Computed) -> (result: [Length<'a>; 4])
    ensures
        side_views(result) == padding_of(computed@),
{
    let base: [Length<'a>; 4] = match computed.get("padding") {
        Some(value) => edge_values(value),
        None => [Length::Zero, Length::Zero, Length::Zero, Length::Zero],
    };
    let ghost sides = side_views(base);
    assert(sides[0] == base[0]@ && sides[1] == base[1]@ && sides[2] == base[2]@ && sides[3]
        == base[3]@);
    let result: [Length<'a>; 4] = [
        padding_side(computed, "padding-top", base[0]),
        padding_side(computed, "padding-right", base[1]),
        padding_side(computed, "padding-bottom", base[2]),
        padding_side(computed, "padding-left", base[3]),
    ];
    assert(side_views(result) =~= padding_of(computed@));
    result
}

fn margin_side<'a>(computed: &'a Computed, name: &str, base: Length<'a>) -> (result: Length<'a>)
    ensures
        result@ == (match read_margin(computed@, name@) {
            Some(length) => length,
            None => base@,
        }),
{
    match computed.get(name) {
        Some(value) => match margin_value(value) {
            Some(length) => length,
            None => base,
        },
        None => base,
    }
}

fn margin<'a>(computed: &'a Computed) -> (result: [Length<'a>; 4])
    ensures
        side_views(result) == all_margins_of(computed@),
{
    let base: [Length<'a>; 4] = match computed.get("margin") {
        Some(value) => match margin_edges(value) {
            Some(sides) => sides,
            None => [Length::Zero, Length::Zero, Length::Zero, Length::Zero],
        },
        None => [Length::Zero, Length::Zero, Length::Zero, Length::Zero],
    };
    let ghost sides = side_views(base);
    assert(sides[0] == base[0]@ && sides[1] == base[1]@ && sides[2] == base[2]@ && sides[3]
        == base[3]@);
    let result: [Length<'a>; 4] = [
        margin_side(computed, "margin-top", base[0]),
        margin_side(computed, "margin-right", base[1]),
        margin_side(computed, "margin-bottom", base[2]),
        margin_side(computed, "margin-left", base[3]),
    ];
    assert(side_views(result) =~= all_margins_of(computed@));
    result
}

fn text_cells(node: &Node, computed: &Computed) -> (result: Option<Cells>)
    ensures
        match result {
            Some(cells) => cell_text(node@, computed@) && (
                cells.columns as int,
                cells.breaks as int,
            ) == cells_of(text_of(node@), value_of(computed@, "white-space"@) == Some("pre"@)),
            None => !cell_text(node@, computed@),
        },
{
    if !node.is_text_leaf() || !computed.is("font-family", "monospace") {
        return None;
    }
    let text = text_content(node);
    if text.as_str().unicode_len() == 0 {
        return None;
    }
    Some(count_cells(text.as_str(), computed.is("white-space", "pre")))
}

fn insets<'a>(computed: &'a Computed) -> (result: [Length<'a>; 4])
    ensures
        side_views(result) == seq![
            inset_of(value_of(computed@, "top"@)),
            inset_of(value_of(computed@, "right"@)),
            inset_of(value_of(computed@, "bottom"@)),
            inset_of(value_of(computed@, "left"@)),
        ],
{
    let result: [Length<'a>; 4] = [
        length_auto(computed.get("top")),
        length_auto(computed.get("right")),
        length_auto(computed.get("bottom")),
        length_auto(computed.get("left")),
    ];
    assert(side_views(result) =~= seq![
        inset_of(value_of(computed@, "top"@)),
        inset_of(value_of(computed@, "right"@)),
        inset_of(value_of(computed@, "bottom"@)),
        inset_of(value_of(computed@, "left"@)),
    ]);
    result
}

/// Lowers a node's style to the box it asks for. Only spans of text take a size
/// from their text, and only monospace ones here: every character is a cell.
/// Other text is shaped when the layout asks for its size.
pub fn lower<'a>(node: &Node, computed: &'a Computed) -> (result: BoxStyle<'a>)
    ensures
        lowers(result, node@, computed@),
{
    BoxStyle {
        display: display_mode(computed.get("display")),
        absolute: computed.is("position", "absolute") || computed.is("position", "fixed"),
        direction: flex_direction(computed.get("flex-direction")),
        wrap: flex_wrap(computed.get("flex-wrap")),
        align_items: align_items(computed.get("align-items")),
        justify_content: justify_content(computed.get("justify-content")),
        width: dimension_in(computed, "width"),
        height: dimension_in(computed, "height"),
        min_width: dimension_in(computed, "min-width"),
        min_height: dimension_in(computed, "min-height"),
        max_width: dimension_in(computed, "max-width"),
        max_height: dimension_in(computed, "max-height"),
        cells: text_cells(node, computed),
        inset: insets(computed),
        overflow: overflow_modes(computed),
        content_box: computed.is("box-sizing", "content-box"),
        padding: padding(computed),
        border: border_widths(computed),
        margin: margin(computed),
        gap: number_in(computed, "gap"),
        flex_grow: number_in(computed, "flex-grow"),
        flex_shrink: number_in(computed, "flex-shrink"),
        flex_basis: dimension_in(computed, "flex-basis"),
    }
}

/// The longest line of a text is no longer than the text, and every line break
/// is one of its characters.
pub proof fn cells_fit_the_text(text: Seq<char>)
    ensures
        0 <= line_count(text).0 <= line_count(text).1,
        line_count(text).1 + line_count(text).2 <= text.len(),
        line_count(text).2 >= 0,
    decreases text.len(),
{
    if text.len() > 0 {
        cells_fit_the_text(text.drop_last());
    }
}

} // verus!
