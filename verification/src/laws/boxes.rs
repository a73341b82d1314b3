//! What a style asks of its box.

use vstd::prelude::*;
use vstd::string::*;
use crate::border::{painted_width, style_of, token_style, BorderStyle, Side};
use crate::laws::reading::{digits_only, lengths_are_read, solid, solid_texts_are_words};
use crate::layout::lower::{
    cells_of, line_count, lowers, Align, BoxStyle, Direction, DisplayMode, Justify, Wrap,
};
use crate::layout::numeral::numeral;
use crate::layout::{
    border_widths_of, edges_of, length_view, number_of, numbers_in, radii_of, read_first,
    read_number, side_views, url_of, LengthView,
};
use crate::overflow::{modes_of, OverflowMode};
use crate::color::accepted;
use crate::renderer::{blur_of, opacity_of, sampling_of, stated_color};
use crate::gpu_list::ImageSampling;
use crate::style::{text_view, value_of};
use crate::text::{fields, occurs_at, trimmed, white, words};
use crate::transform::{components, distance_of, not_blank, spaced_pieces, translation_of};
use crate::tree::{text_leaf, text_of, NodeView};

verus! {

/// `text[from..to]` is a line: it starts at the start or behind a line break, ends
/// at the end or before one, and holds none.
pub open spec fn is_line(text: Seq<char>, from: int, to: int) -> bool {
    &&& 0 <= from <= to <= text.len()
    &&& from == 0 || text[from - 1] == '\n'
    &&& to == text.len() || text[to] == '\n'
    &&& forall|i: int| from <= i < to ==> text[i] != '\n'
}

proof fn lines_are_counted(text: Seq<char>)
    ensures
        ({
            let (current, longest, breaks) = line_count(text);
            &&& 0 <= current <= text.len()
            &&& is_line(text, text.len() - current, text.len() as int)
            &&& forall|from: int, to: int| #[trigger]
                is_line(text, from, to) ==> to - from <= longest
            &&& exists|from: int, to: int| #[trigger] is_line(text, from, to) && to - from
                == longest
            &&& breaks == text.filter(|c: char| c == '\n').len()
        }),
    decreases text.len(),
{
    let is_break = |c: char| c == '\n';
    reveal(Seq::filter);
    if text.len() == 0 {
        assert(is_line(text, 0, 0));
    } else {
        let front = text.drop_last();
        lines_are_counted(front);
        let (current, longest, breaks) = line_count(front);
        let (now, most, all) = line_count(text);
        let n = text.len() as int;
        assert forall|i: int| 0 <= i < n - 1 implies front[i] == text[i] by {}
        if text.last() == '\n' {
            assert(is_line(text, n, n));
            assert forall|from: int, to: int| #[trigger] is_line(text, from, to) implies to - from
                <= most by {
                if to < n {
                    assert(is_line(front, from, to));
                } else if from < n {
                    assert(text[n - 1] != '\n');
                }
            }
            let (a, b) = choose|a: int, b: int| #[trigger] is_line(front, a, b) && b - a == longest;
            assert(is_line(text, a, b));
        } else {
            assert(is_line(front, front.len() - current, front.len() as int));
            assert(is_line(text, n - now, n)) by {
                assert(n - now == front.len() - current);
            }
            assert forall|from: int, to: int| #[trigger] is_line(text, from, to) implies to - from
                <= most by {
                if to < n {
                    assert(text[to] == '\n');
                    assert(to < n - 1);
                    assert(is_line(front, from, to));
                } else {
                    let start = n - now;
                    if from < start {
                        assert(text[start - 1] == '\n');
                    } else if from > start {
                        assert(text[from - 1] == '\n');
                    }
                }
            }
            if now > longest {
                assert(is_line(text, n - now, n));
            } else {
                let (a, b) = choose|a: int, b: int| #[trigger]
                    is_line(front, a, b) && b - a == longest;
                if b == n - 1 {
                    assert(a == front.len() - current) by {
                        if a < front.len() - current {
                            assert(front[front.len() - current - 1] == '\n');
                        } else if a > front.len() - current {
                            assert(front[a - 1] == '\n');
                        }
                    }
                    assert(false);
                }
                assert(is_line(text, a, b));
            }
        }
    }
}

/// Where lines are preserved, a text is as many columns wide as its longest line
/// has characters, and has one line break less than lines. Else it stands on one
/// line.
pub proof fn text_is_as_wide_as_its_longest_line(text: Seq<char>, from: int, to: int)
    ensures
        is_line(text, from, to) ==> to - from <= cells_of(text, true).0,
        exists|a: int, b: int| #[trigger] is_line(text, a, b) && b - a == cells_of(text, true).0,
        cells_of(text, true).1 == text.filter(|c: char| c == '\n').len(),
        cells_of(text, false) == (text.len() as int, 0int),
{
    lines_are_counted(text);
}

/// A monospace text with preserved lines asks for a box that none of its lines
/// leaves, and for no wider one.
pub proof fn preformatted_boxes_hold_their_lines(
    out: BoxStyle,
    node: NodeView,
    style: Map<Seq<char>, Seq<char>>,
    from: int,
    to: int,
)
    requires
        lowers(out, node, style),
        text_leaf(node),
        text_of(node).len() > 0,
        value_of(style, "font-family"@) == Some("monospace"@),
        value_of(style, "white-space"@) == Some("pre"@),
    ensures
        out.cells is Some,
        is_line(text_of(node), from, to) ==> to - from <= (out.cells->0).columns,
        exists|a: int, b: int| #[trigger]
            is_line(text_of(node), a, b) && b - a == (out.cells->0).columns,
{
    lines_are_counted(text_of(node));
}

proof fn keywords_are_apart()
    ensures
        "none"@ != "flex"@,
        "column"@ != "row-reverse"@ && "column"@ != "column-reverse"@ && "row-reverse"@
            != "column-reverse"@,
        "row"@ != "column"@ && "row"@ != "row-reverse"@ && "row"@ != "column-reverse"@,
        "wrap"@ != "wrap-reverse"@ && "nowrap"@ != "wrap"@ && "nowrap"@ != "wrap-reverse"@,
        "center"@ != "flex-start"@ && "center"@ != "flex-end"@ && "center"@ != "stretch"@
            && "center"@ != "space-between"@,
        "flex-start"@ != "flex-end"@ && "flex-start"@ != "stretch"@ && "flex-start"@
            != "space-between"@,
        "flex-end"@ != "stretch"@ && "flex-end"@ != "space-between"@,
        "block"@ != "none"@ && "block"@ != "flex"@,
        "visible"@ != "clip"@ && "visible"@ != "hidden"@ && "visible"@ != "auto"@ && "visible"@
            != "scroll"@,
        "clip"@ != "hidden"@ && "clip"@ != "auto"@ && "clip"@ != "scroll"@,
        "hidden"@ != "auto"@ && "hidden"@ != "scroll"@ && "auto"@ != "scroll"@,
        "none"@ != "hidden"@ && "solid"@ != "none"@ && "solid"@ != "hidden"@,
        "static"@ != "absolute"@ && "relative"@ != "absolute"@ && "relative"@ != "fixed"@
            && "static"@ != "fixed"@,
        "border-box"@ != "content-box"@,
{
    reveal_strlit("none");
    reveal_strlit("flex");
    reveal_strlit("block");
    reveal_strlit("row");
    reveal_strlit("column");
    reveal_strlit("row-reverse");
    reveal_strlit("column-reverse");
    reveal_strlit("wrap");
    reveal_strlit("nowrap");
    reveal_strlit("wrap-reverse");
    reveal_strlit("center");
    reveal_strlit("flex-start");
    reveal_strlit("flex-end");
    reveal_strlit("stretch");
    reveal_strlit("space-between");
    reveal_strlit("visible");
    reveal_strlit("clip");
    reveal_strlit("hidden");
    reveal_strlit("auto");
    reveal_strlit("scroll");
    reveal_strlit("solid");
    reveal_strlit("static");
    reveal_strlit("absolute");
    reveal_strlit("relative");
    reveal_strlit("fixed");
    reveal_strlit("border-box");
    reveal_strlit("content-box");
    assert("none"@[0] == 'n' && "flex"@[0] == 'f' && "wrap"@[0] == 'w' && "clip"@[0] == 'c'
        && "auto"@[0] == 'a');
    assert("hidden"@[0] == 'h' && "scroll"@[0] == 's' && "column"@[0] == 'c' && "nowrap"@[0]
        == 'n' && "center"@[0] == 'c');
    assert("relative"@[0] == 'r' && "absolute"@[0] == 'a');
    assert("none"@.len() == 4 && "flex"@.len() == 4 && "block"@.len() == 5 && "row"@.len() == 3
        && "column"@.len() == 6 && "row-reverse"@.len() == 11 && "column-reverse"@.len() == 14);
    assert("wrap"@.len() == 4 && "nowrap"@.len() == 6 && "wrap-reverse"@.len() == 12
        && "center"@.len() == 6 && "flex-start"@.len() == 10 && "flex-end"@.len() == 8
        && "stretch"@.len() == 7 && "space-between"@.len() == 13);
    assert("visible"@.len() == 7 && "clip"@.len() == 4 && "hidden"@.len() == 6 && "auto"@.len() == 4
        && "scroll"@.len() == 6 && "solid"@.len() == 5);
    assert("static"@.len() == 6 && "absolute"@.len() == 8 && "relative"@.len() == 8
        && "fixed"@.len() == 5 && "border-box"@.len() == 10 && "content-box"@.len() == 11);
}

/// A box is hidden, a flex container or a block by what its style says.
pub proof fn boxes_display_as_stated(
    out: BoxStyle,
    node: NodeView,
    style: Map<Seq<char>, Seq<char>>,
)
    requires
        lowers(out, node, style),
    ensures
        value_of(style, "display"@) == Some("none"@) <==> out.display == DisplayMode::Hidden,
        value_of(style, "display"@) == Some("flex"@) <==> out.display == DisplayMode::Flex,
        value_of(style, "position"@) == Some("absolute"@) ==> out.absolute,
        value_of(style, "position"@) == Some("fixed"@) ==> out.absolute,
        value_of(style, "position"@) == Some("relative"@) ==> !out.absolute,
        value_of(style, "position"@) is None ==> !out.absolute,
        value_of(style, "box-sizing"@) == Some("content-box"@) <==> out.content_box,
{
    keywords_are_apart();
}

/// A flex container runs, wraps and places its items as its style says.
pub proof fn flex_containers_run_as_stated(
    out: BoxStyle,
    node: NodeView,
    style: Map<Seq<char>, Seq<char>>,
)
    requires
        lowers(out, node, style),
    ensures
        value_of(style, "flex-direction"@) == Some("column"@) <==> out.direction
            == Direction::Column,
        value_of(style, "flex-direction"@) == Some("row-reverse"@) <==> out.direction
            == Direction::RowReverse,
        value_of(style, "flex-direction"@) == Some("column-reverse"@) <==> out.direction
            == Direction::ColumnReverse,
        value_of(style, "flex-wrap"@) == Some("wrap"@) <==> out.wrap == Wrap::Wrap,
        value_of(style, "flex-wrap"@) == Some("wrap-reverse"@) <==> out.wrap == Wrap::WrapReverse,
        value_of(style, "align-items"@) == Some("center"@) <==> out.align_items == Some(
            Align::Center,
        ),
        value_of(style, "align-items"@) == Some("flex-start"@) <==> out.align_items == Some(
            Align::FlexStart,
        ),
        value_of(style, "align-items"@) == Some("flex-end"@) <==> out.align_items == Some(
            Align::FlexEnd,
        ),
        value_of(style, "align-items"@) == Some("stretch"@) <==> out.align_items == Some(
            Align::Stretch,
        ),
        value_of(style, "justify-content"@) == Some("center"@) <==> out.justify_content == Some(
            Justify::Center,
        ),
        value_of(style, "justify-content"@) == Some("flex-start"@) <==> out.justify_content == Some(
            Justify::FlexStart,
        ),
        value_of(style, "justify-content"@) == Some("flex-end"@) <==> out.justify_content == Some(
            Justify::FlexEnd,
        ),
        value_of(style, "justify-content"@) == Some("space-between"@) <==> out.justify_content
            == Some(Justify::SpaceBetween),
        value_of(style, "align-items"@) is None ==> out.align_items is None,
        value_of(style, "justify-content"@) is None ==> out.justify_content is None,
{
    keywords_are_apart();
}

/// Each size of a box is the one that its own property states in pixels.
pub proof fn sizes_come_from_their_properties(
    out: BoxStyle,
    node: NodeView,
    style: Map<Seq<char>, Seq<char>>,
    n: Seq<char>,
)
    requires
        lowers(out, node, style),
        n.len() > 0,
        numeral(n),
        solid(n),
        digits_only(n),
    ensures
        ({
            let stated = Some(n + "px"@);
            let read = Some(LengthView::Px(n));
            &&& value_of(style, "width"@) == stated ==> length_view(out.width) == read
            &&& value_of(style, "height"@) == stated ==> length_view(out.height) == read
            &&& value_of(style, "min-width"@) == stated ==> length_view(out.min_width) == read
            &&& value_of(style, "min-height"@) == stated ==> length_view(out.min_height) == read
            &&& value_of(style, "max-width"@) == stated ==> length_view(out.max_width) == read
            &&& value_of(style, "max-height"@) == stated ==> length_view(out.max_height) == read
            &&& value_of(style, "flex-basis"@) == stated ==> length_view(out.flex_basis) == read
            &&& value_of(style, "top"@) == stated ==> side_views(out.inset)[0] == LengthView::Px(n)
            &&& value_of(style, "right"@) == stated ==> side_views(out.inset)[1] == LengthView::Px(n)
            &&& value_of(style, "bottom"@) == stated ==> side_views(out.inset)[2]
                == LengthView::Px(n)
            &&& value_of(style, "left"@) == stated ==> side_views(out.inset)[3] == LengthView::Px(n)
            &&& value_of(style, "gap"@) == stated ==> text_view(out.gap) == Some(n)
            &&& value_of(style, "flex-grow"@) == Some(n) ==> text_view(out.flex_grow) == Some(n)
            &&& value_of(style, "flex-shrink"@) == Some(n) ==> text_view(out.flex_shrink) == Some(n)
            &&& value_of(style, "width"@) is None ==> out.width is None
            &&& value_of(style, "height"@) is None ==> out.height is None
            &&& value_of(style, "max-width"@) is None ==> out.max_width is None
            &&& value_of(style, "left"@) is None ==> side_views(out.inset)[3] == LengthView::Auto
            &&& value_of(style, "top"@) is None ==> side_views(out.inset)[0] == LengthView::Auto
        }),
{
    lengths_are_read(n);
}

/// The padding and the margin of a side are what the side's own property states,
/// before what the shorthand gives it, and nothing where neither is stated.
pub proof fn own_sides_come_before_the_shorthand(
    out: BoxStyle,
    node: NodeView,
    style: Map<Seq<char>, Seq<char>>,
    n: Seq<char>,
)
    requires
        lowers(out, node, style),
        n.len() > 0,
        numeral(n),
        solid(n),
        digits_only(n),
    ensures
        ({
            let stated = Some(n + "px"@);
            let read = LengthView::Px(n);
            let padding = side_views(out.padding);
            let margin = side_views(out.margin);
            &&& value_of(style, "padding-top"@) == stated ==> padding[0] == read
            &&& value_of(style, "padding-right"@) == stated ==> padding[1] == read
            &&& value_of(style, "padding-bottom"@) == stated ==> padding[2] == read
            &&& value_of(style, "padding-left"@) == stated ==> padding[3] == read
            &&& value_of(style, "margin-top"@) == stated ==> margin[0] == read
            &&& value_of(style, "margin-right"@) == stated ==> margin[1] == read
            &&& value_of(style, "margin-bottom"@) == stated ==> margin[2] == read
            &&& value_of(style, "margin-left"@) == stated ==> margin[3] == read
            &&& value_of(style, "padding"@) == stated && value_of(style, "padding-top"@) is None
                ==> padding[0] == read
            &&& value_of(style, "padding"@) == stated && value_of(style, "padding-left"@) is None
                ==> padding[3] == read
            &&& value_of(style, "margin"@) == stated && value_of(style, "margin-right"@) is None
                ==> margin[1] == read
            &&& value_of(style, "margin"@) == stated && value_of(style, "margin-bottom"@) is None
                ==> margin[2] == read
            &&& value_of(style, "padding"@) is None && value_of(style, "padding-top"@) is None
                ==> padding[0] == LengthView::Zero
            &&& value_of(style, "margin"@) is None && value_of(style, "margin-left"@) is None
                ==> margin[3] == LengthView::Zero
        }),
{
    lengths_are_read(n);
    let px = n + "px"@;
    reveal_strlit("px");
    assert("px"@.len() == 2 && "px"@[0] == 'p' && "px"@[1] == 'x');
    assert forall|i: int| 0 <= i < px.len() implies !white(#[trigger] px[i]) by {
        if i < n.len() {
            assert(px[i] == n[i]);
        } else {
            assert(px[i] == "px"@[i - n.len()]);
        }
    }
    solid_texts_are_words(px);
    crate::laws::reading::sides_take_their_values(px);
    crate::laws::reading::margins_take_their_values(px, 0);
    crate::laws::reading::trimming_takes_the_ends(Seq::empty(), px, Seq::empty());
    assert(Seq::<char>::empty() + px + Seq::<char>::empty() =~= px);
    assert(words(px)[0] == px);
    assert(edges_of(px)[0] == LengthView::Px(n) && edges_of(px)[3] == LengthView::Px(n));
}

/// A border takes room exactly if some width is stated for its side and its line
/// is drawn: the side's own width comes first, then the side's shorthand, then
/// the width of all sides, then their shorthand.
pub proof fn borders_take_room_where_they_are_drawn(style: Map<Seq<char>, Seq<char>>)
    ensures
        ({
            let top = border_widths_of(style)[0];
            let own = read_number(style, "border-top-width"@);
            let side = read_first(style, "border-top"@);
            let all = read_number(style, "border-width"@);
            let shorthand = read_first(style, "border"@);
            let hidden = value_of(style, "border-top-style"@) == Some("none"@) || value_of(
                style,
                "border-top-style"@,
            ) == Some("hidden"@) || (value_of(style, "border-top-style"@) is None && (value_of(
                style,
                "border-style"@,
            ) == Some("none"@) || value_of(style, "border-style"@) == Some("hidden"@)));
            &&& hidden ==> top == LengthView::Zero
            &&& !hidden && own is Some ==> top == LengthView::Px(own->0)
            &&& !hidden && own is None && side is Some ==> top == LengthView::Px(side->0)
            &&& !hidden && own is None && side is None && all is Some ==> top == LengthView::Px(
                all->0,
            )
            &&& !hidden && own is None && side is None && all is None && shorthand is Some ==> top
                == LengthView::Px(shorthand->0)
            &&& own is None && side is None && all is None && shorthand is None ==> top
                == LengthView::Zero
        }),
        border_widths_of(style).len() == 4,
        read_number(style, "border-right-width"@) is Some && value_of(
            style,
            "border-right-style"@,
        ) == Some("solid"@) ==> border_widths_of(style)[1] == LengthView::Px(
            read_number(style, "border-right-width"@)->0,
        ),
        read_number(style, "border-bottom-width"@) is Some && value_of(
            style,
            "border-bottom-style"@,
        ) == Some("solid"@) ==> border_widths_of(style)[2] == LengthView::Px(
            read_number(style, "border-bottom-width"@)->0,
        ),
        read_number(style, "border-left-width"@) is Some && value_of(style, "border-left-style"@)
            == Some("solid"@) ==> border_widths_of(style)[3] == LengthView::Px(
            read_number(style, "border-left-width"@)->0,
        ),
        value_of(style, "border-right-style"@) == Some("none"@) ==> border_widths_of(style)[1]
            == LengthView::Zero,
        value_of(style, "border-bottom-style"@) == Some("none"@) ==> border_widths_of(style)[2]
            == LengthView::Zero,
        value_of(style, "border-left-style"@) == Some("none"@) ==> border_widths_of(style)[3]
            == LengthView::Zero,
{
    keywords_are_apart();
}

/// A side is painted as wide as it takes room, wherever its line is drawn.
pub proof fn painted_borders_fill_their_room(style: Map<Seq<char>, Seq<char>>)
    requires
        value_of(style, "border-top-style"@) == Some("solid"@),
        value_of(style, "border-right-style"@) == Some("solid"@),
        value_of(style, "border-bottom-style"@) == Some("solid"@),
        value_of(style, "border-left-style"@) == Some("solid"@),
    ensures
        painted_width(style, Side::Top) matches Some(w) ==> border_widths_of(style)[0]
            == LengthView::Px(w),
        painted_width(style, Side::Right) matches Some(w) ==> border_widths_of(style)[1]
            == LengthView::Px(w),
        painted_width(style, Side::Bottom) matches Some(w) ==> border_widths_of(style)[2]
            == LengthView::Px(w),
        painted_width(style, Side::Left) matches Some(w) ==> border_widths_of(style)[3]
            == LengthView::Px(w),
        painted_width(style, Side::Top) is None ==> border_widths_of(style)[0] == LengthView::Zero,
        painted_width(style, Side::Left) is None ==> border_widths_of(style)[3] == LengthView::Zero,
{
    keywords_are_apart();
}

/// The names of border lines mean the lines that they name.
pub proof fn border_lines_are_named()
    ensures
        token_style("none"@) == Some(BorderStyle::Absent),
        token_style("hidden"@) == Some(BorderStyle::Absent),
        token_style("solid"@) == Some(BorderStyle::Solid),
        token_style("dotted"@) == Some(BorderStyle::Dotted),
        token_style("dashed"@) == Some(BorderStyle::Dashed),
        token_style("double"@) == Some(BorderStyle::Double),
        token_style("groove"@) == Some(BorderStyle::Groove),
        token_style("ridge"@) == Some(BorderStyle::Ridge),
        token_style("inset"@) == Some(BorderStyle::Inset),
        token_style("outset"@) == Some(BorderStyle::Outset),
        style_of(None) == BorderStyle::Solid,
{
    reveal_strlit("none");
    reveal_strlit("hidden");
    reveal_strlit("solid");
    reveal_strlit("dotted");
    reveal_strlit("dashed");
    reveal_strlit("double");
    reveal_strlit("groove");
    reveal_strlit("ridge");
    reveal_strlit("inset");
    reveal_strlit("outset");
    assert("hidden"@[0] == 'h' && "dotted"@[0] == 'd' && "dotted"@[1] == 'o' && "dotted"@[2] == 't'
        && "dashed"@[1] == 'a' && "double"@[1] == 'o' && "double"@[2] == 'u' && "groove"@[0] == 'g'
        && "outset"@[0] == 'o' && "dashed"@[0] == 'd' && "double"@[0] == 'd');
    assert("solid"@[0] == 's' && "ridge"@[0] == 'r' && "inset"@[0] == 'i');
    assert("none"@.len() == 4 && "hidden"@.len() == 6 && "solid"@.len() == 5 && "dotted"@.len() == 6
        && "dashed"@.len() == 6 && "double"@.len() == 6 && "groove"@.len() == 6 && "ridge"@.len()
        == 5 && "inset"@.len() == 5 && "outset"@.len() == 6);
}

/// Both axes follow one keyword; an axis' own property comes before it.
pub proof fn overflow_follows_its_keywords(style: Map<Seq<char>, Seq<char>>)
    ensures
        value_of(style, "overflow-x"@) == Some("scroll"@) ==> modes_of(style).0
            == OverflowMode::Scroll,
        value_of(style, "overflow-y"@) == Some("scroll"@) ==> modes_of(style).1
            == OverflowMode::Scroll,
        value_of(style, "overflow-x"@) == Some("auto"@) ==> modes_of(style).0 == OverflowMode::Auto,
        value_of(style, "overflow-y"@) == Some("auto"@) ==> modes_of(style).1 == OverflowMode::Auto,
        value_of(style, "overflow-x"@) == Some("hidden"@) ==> modes_of(style).0
            == OverflowMode::Hidden,
        value_of(style, "overflow-y"@) == Some("hidden"@) ==> modes_of(style).1
            == OverflowMode::Hidden,
        value_of(style, "overflow-x"@) is None && value_of(style, "overflow-y"@) is None && value_of(
            style,
            "overflow"@,
        ) is None ==> modes_of(style) == (OverflowMode::Visible, OverflowMode::Visible),
        value_of(style, "overflow-x"@) is None && value_of(style, "overflow-y"@) is None && value_of(
            style,
            "overflow"@,
        ) == Some("hidden"@) ==> modes_of(style) == (OverflowMode::Hidden, OverflowMode::Hidden),
        value_of(style, "overflow-x"@) is None && value_of(style, "overflow-y"@) is None && value_of(
            style,
            "overflow"@,
        ) == Some("auto"@) ==> modes_of(style) == (OverflowMode::Auto, OverflowMode::Auto),
        value_of(style, "overflow-x"@) == Some("visible"@) && value_of(style, "overflow-y"@) == Some(
            "scroll"@,
        ) ==> modes_of(style) == (OverflowMode::Auto, OverflowMode::Scroll),
        value_of(style, "overflow-x"@) == Some("clip"@) && value_of(style, "overflow-y"@) == Some(
            "hidden"@,
        ) ==> modes_of(style) == (OverflowMode::Hidden, OverflowMode::Hidden),
        value_of(style, "overflow-x"@) == Some("visible"@) && value_of(style, "overflow-y"@) == Some(
            "visible"@,
        ) ==> modes_of(style) == (OverflowMode::Visible, OverflowMode::Visible),
        value_of(style, "overflow-x"@) == Some("clip"@) && value_of(style, "overflow-y"@) == Some(
            "visible"@,
        ) ==> modes_of(style) == (OverflowMode::Clip, OverflowMode::Visible),
{
    keywords_are_apart();
    solid_keyword("visible"@);
    solid_keyword("hidden"@);
    solid_keyword("auto"@);
}

proof fn solid_keyword(word: Seq<char>)
    requires
        word == "visible"@ || word == "hidden"@ || word == "auto"@ || word == "none"@,
    ensures
        words(word) == seq![word],
        word.len() > 0,
        trimmed(word) == word,
{
    reveal_strlit("visible");
    reveal_strlit("hidden");
    reveal_strlit("auto");
    reveal_strlit("none");
    assert("visible"@.len() == 7 && "hidden"@.len() == 6 && "auto"@.len() == 4 && "none"@.len()
        == 4);
    assert("visible"@[0] == 'v' && "visible"@[1] == 'i' && "visible"@[2] == 's' && "visible"@[3]
        == 'i' && "visible"@[4] == 'b' && "visible"@[5] == 'l' && "visible"@[6] == 'e');
    assert("hidden"@[0] == 'h' && "hidden"@[1] == 'i' && "hidden"@[2] == 'd' && "hidden"@[3] == 'd'
        && "hidden"@[4] == 'e' && "hidden"@[5] == 'n');
    assert("auto"@[0] == 'a' && "auto"@[1] == 'u' && "auto"@[2] == 't' && "auto"@[3] == 'o');
    assert("none"@[0] == 'n' && "none"@[1] == 'o' && "none"@[2] == 'n' && "none"@[3] == 'e');
    assert forall|i: int| 0 <= i < word.len() implies !white(#[trigger] word[i]) by {}
    solid_texts_are_words(word);
    let none = Seq::<char>::empty();
    assert(!white(word[0]) && !white(word[word.len() - 1]));
    crate::laws::reading::trimming_takes_the_ends(none, word, none);
    assert(none + word + none =~= word);
}

/// Two words of the shorthand are for the horizontal and the vertical axis, in
/// this order.
pub proof fn overflow_words_go_to_their_axes(
    style: Map<Seq<char>, Seq<char>>,
    value: Seq<char>,
)
    requires
        value_of(style, "overflow-x"@) is None,
        value_of(style, "overflow-y"@) is None,
        value_of(style, "overflow"@) == Some(value),
        words(value) == seq!["hidden"@, "auto"@],
    ensures
        modes_of(style) == (OverflowMode::Hidden, OverflowMode::Auto),
{
    keywords_are_apart();
    assert(words(value)[0] == "hidden"@ && words(value)[1] == "auto"@);
}

/// An image is sampled by its nearest texels where its style asks for crisp
/// edges, and smoothly otherwise.
pub proof fn crisp_images_are_not_smoothed(style: Map<Seq<char>, Seq<char>>)
    ensures
        value_of(style, "image-rendering"@) == Some("pixelated"@) ==> sampling_of(style)
            == ImageSampling::Nearest,
        value_of(style, "image-rendering"@) == Some("crisp-edges"@) ==> sampling_of(style)
            == ImageSampling::Nearest,
        value_of(style, "image-rendering"@) is None ==> sampling_of(style) == ImageSampling::Linear,
{
}

/// A blur filter has the radius in its brackets; a url names the path in its
/// brackets, without quotes.
pub proof fn brackets_are_opened(n: Seq<char>, path: Seq<char>)
    requires
        n.len() > 0,
        numeral(n),
        solid(n),
        digits_only(n),
        path.len() > 0,
        solid(path),
        path[0] != '"' && path[0] != '\'',
    ensures
        blur_of("blur("@ + n + "px"@ + seq![')']) == Some(n),
        blur_of("blur("@ + n + seq![')']) == Some(n),
        url_of("url("@ + path + seq![')']) == Some(path),
        url_of("url("@ + seq!['"'] + path + seq!['"'] + seq![')']) == Some(path),
        url_of("url("@ + seq!['\''] + path + seq!['\''] + seq![')']) == Some(path),
{
    reveal_strlit("blur(");
    reveal_strlit("url(");
    reveal_strlit("px");
    assert("blur("@.len() == 5 && "blur("@[0] == 'b' && "url("@.len() == 4 && "url("@[0] == 'u');
    lengths_are_read(n);
    let none = Seq::<char>::empty();
    let px = n + "px"@;
    let a = "blur("@ + n + "px"@ + seq![')'];
    crate::laws::reading::trimming_takes_the_ends(none, a, none);
    assert(none + a + none =~= a);
    assert(a.subrange(0, 5) =~= "blur("@);
    assert(a.subrange(5, a.len() - 1) =~= px);
    let b = "blur("@ + n + seq![')'];
    crate::laws::reading::trimming_takes_the_ends(none, b, none);
    assert(none + b + none =~= b);
    assert(b.subrange(0, 5) =~= "blur("@);
    assert(b.subrange(5, b.len() - 1) =~= n);
    let c = "url("@ + path + seq![')'];
    crate::laws::reading::trimming_takes_the_ends(none, c, none);
    assert(none + c + none =~= c);
    assert(c.subrange(0, 4) =~= "url("@);
    assert(c.subrange(4, c.len() - 1) =~= path);
    assert(!white(path[0]) && !white(path[path.len() - 1]));
    crate::laws::reading::trimming_takes_the_ends(none, path, none);
    assert(none + path + none =~= path);
    quoted_path(path, '"');
    quoted_path(path, '\'');
}

proof fn quoted_path(path: Seq<char>, quote: char)
    requires
        path.len() > 0,
        quote == '"' || quote == '\'',
    ensures
        url_of("url("@ + seq![quote] + path + seq![quote] + seq![')']) == Some(path),
{
    reveal_strlit("url(");
    assert("url("@.len() == 4 && "url("@[0] == 'u');
    let none = Seq::<char>::empty();
    let all = "url("@ + seq![quote] + path + seq![quote] + seq![')'];
    let held = seq![quote] + path + seq![quote];
    crate::laws::reading::trimming_takes_the_ends(none, all, none);
    assert(none + all + none =~= all);
    assert(all.subrange(0, 4) =~= "url("@);
    assert(all.subrange(4, all.len() - 1) =~= held);
    crate::laws::reading::trimming_takes_the_ends(none, held, none);
    assert(none + held + none =~= held);
    assert(held.subrange(1, held.len() - 1) =~= path);
    assert(held[0] == quote && held.last() == quote);
}

/// A style without a transform, or with none, moves nothing; each of the
/// single-axis translations moves along its own axis only.
pub proof fn translations_move_along_their_axes(style: Map<Seq<char>, Seq<char>>, n: Seq<char>)
    requires
        n.len() > 0,
        numeral(n),
        solid(n),
        digits_only(n),
    ensures
        value_of(style, "transform"@) is None ==> translation_of(style) == (
            LengthView::Zero,
            LengthView::Zero,
        ),
        value_of(style, "transform"@) == Some("none"@) ==> translation_of(style) == (
            LengthView::Zero,
            LengthView::Zero,
        ),
        value_of(style, "transform"@) == Some("translateX("@ + n + "px)"@) ==> translation_of(style)
            == (LengthView::Px(n), LengthView::Zero),
        value_of(style, "transform"@) == Some("translateY("@ + n + "px)"@) ==> translation_of(style)
            == (LengthView::Zero, LengthView::Px(n)),
        value_of(style, "transform"@) == Some("translateX("@ + n + "%)"@) ==> translation_of(style)
            == (LengthView::Percent(n), LengthView::Zero),
        value_of(style, "transform"@) == Some("translateY("@ + n + "%)"@) ==> translation_of(style)
            == (LengthView::Zero, LengthView::Percent(n)),
{
    solid_keyword("none"@);
    reveal_strlit("none");
    reveal_strlit("translateX(");
    reveal_strlit("translateY(");
    reveal_strlit("px)");
    reveal_strlit("%)");
    reveal_strlit("px");
    reveal_strlit(")");
    let x = "translateX("@;
    let y = "translateY("@;
    assert(x.len() == 11 && y.len() == 11 && x[0] == 't' && y[0] == 't' && x[9] == 'X' && y[9]
        == 'Y');
    single_axis(x, n, "px)"@, LengthView::Px(n));
    single_axis(y, n, "px)"@, LengthView::Px(n));
    single_axis(x, n, "%)"@, LengthView::Percent(n));
    single_axis(y, n, "%)"@, LengthView::Percent(n));
    let a = y + n + "px)"@;
    let b = y + n + "%)"@;
    assert(a.subrange(0, 11)[9] == 'Y');
    assert(b.subrange(0, 11)[9] == 'Y');
}

#[verifier::rlimit(60)]
proof fn single_axis(opening: Seq<char>, n: Seq<char>, unit: Seq<char>, read: LengthView)
    requires
        opening.len() == 11,
        opening[0] == 't',
        n.len() > 0,
        numeral(n),
        solid(n),
        digits_only(n),
        (unit == "px)"@ && read == LengthView::Px(n)) || (unit == "%)"@ && read
            == LengthView::Percent(n)),
    ensures
        ({
            let all = opening + n + unit;
            &&& trimmed(all) == all
            &&& all != "none"@
            &&& crate::transform::arguments_of(all, opening) matches Some(inner) && distance_of(
                inner,
            ) == read
        }),
{
    reveal_strlit("none");
    reveal_strlit("px)");
    reveal_strlit("%)");
    reveal_strlit("px");
    reveal_strlit(")");
    let none = Seq::<char>::empty();
    let all = opening + n + unit;
    assert("none"@.len() == 4);
    assert("px)"@.len() == 3 && "px)"@[0] == 'p' && "px)"@[1] == 'x' && "px)"@[2] == ')');
    assert("%)"@.len() == 2 && "%)"@[0] == '%' && "%)"@[1] == ')');
    assert("px"@.len() == 2 && "px"@[0] == 'p' && "px"@[1] == 'x');
    assert(")"@.len() == 1 && ")"@[0] == ')');
    assert(all[0] == 't' && all.last() == ')');
    crate::laws::reading::trimming_takes_the_ends(none, all, none);
    assert(none + all + none =~= all);
    assert(all.subrange(0, 11) =~= opening);
    let rest = all.subrange(11, all.len() as int);
    assert(rest =~= n + unit);
    assert(rest.subrange(rest.len() - 1, rest.len() as int) =~= ")"@);
    let inner = rest.subrange(0, rest.len() - 1);
    assert(inner =~= n + unit.drop_last());
    assert(inner[0] == n[0]);
    assert(!white(n[0]) && !white(n[n.len() - 1]));
    crate::laws::reading::trimming_takes_the_ends(none, inner, none);
    assert(none + inner + none =~= inner);
    crate::laws::reading::trimming_takes_the_ends(none, n, none);
    assert(none + n + none =~= n);
    if unit == "px)"@ {
        assert(inner.last() == 'x');
        assert(inner.subrange(inner.len() - 2, inner.len() as int) =~= "px"@);
        assert(inner.subrange(0, inner.len() - 2) =~= n);
    } else {
        assert(inner.last() == '%');
        assert(inner.drop_last() =~= n);
    }
}

/// The corners of a box are as round as stated, each by its own number, clockwise
/// from the upper left; without a statement they are not round.
pub proof fn corners_are_round_as_stated(
    style: Map<Seq<char>, Seq<char>>,
    value: Seq<char>,
    corner: int,
)
    requires
        0 <= corner < 4,
    ensures
        value_of(style, "border-radius"@) is None ==> radii_of(style)[corner] == LengthView::Zero,
        value_of(style, "border-radius"@) == Some(value) && words(value).len() == 4 && (forall|i: int|
            0 <= i < 4 ==> number_of(#[trigger] words(value)[i]) is Some) ==> radii_of(style)[corner]
            == LengthView::Px(number_of(words(value)[corner])->0),
        value_of(style, "border-radius"@) == Some(value) && words(value).len() == 1 && number_of(
            words(value)[0],
        ) is Some ==> radii_of(style)[corner] == LengthView::Px(number_of(words(value)[0])->0),
{
    let list = words(value);
    if list.len() == 4 && (forall|i: int| 0 <= i < 4 ==> number_of(#[trigger] list[i]) is Some) {
        let three = list.drop_last();
        let two = three.drop_last();
        let one = two.drop_last();
        assert(one.drop_last() =~= Seq::empty());
        assert(list[3] == list.last() && list[2] == three.last() && list[1] == two.last() && list[0]
            == one.last());
        assert(numbers_in(one.drop_last()) =~= Seq::empty());
        assert(numbers_in(one) =~= seq![number_of(list[0])->0]);
        assert(numbers_in(two) =~= seq![number_of(list[0])->0, number_of(list[1])->0]);
        assert(numbers_in(three) =~= seq![
            number_of(list[0])->0,
            number_of(list[1])->0,
            number_of(list[2])->0,
        ]);
        assert(numbers_in(list) =~= seq![
            number_of(list[0])->0,
            number_of(list[1])->0,
            number_of(list[2])->0,
            number_of(list[3])->0,
        ]);
    }
    if list.len() == 1 && number_of(list[0]) is Some {
        assert(list.drop_last() =~= Seq::empty());
        assert(numbers_in(list.drop_last()) =~= Seq::empty());
        assert(numbers_in(list) =~= seq![number_of(list[0])->0]);
    }
}

/// A color counts where it can be read, and an opacity where it is a number.
pub proof fn readable_values_count(style: Map<Seq<char>, Seq<char>>, name: Seq<char>, n: Seq<char>)
    ensures
        value_of(style, name) == Some(n) && accepted(n) is Some ==> stated_color(style, name) == Some(
            n,
        ),
        value_of(style, name) == Some(n) && accepted(n) is None ==> stated_color(style, name) is None,
        value_of(style, name) is None ==> stated_color(style, name) is None,
        value_of(style, "opacity"@) == Some(n) && n.len() > 0 && solid(n) && numeral(n)
            ==> opacity_of(style) == Some(n),
        value_of(style, "opacity"@) == Some(n) && n.len() > 0 && solid(n) && !numeral(n)
            ==> opacity_of(style) is None,
        value_of(style, "opacity"@) is None ==> opacity_of(style) is None,
{
    if n.len() > 0 && solid(n) {
        let none = Seq::<char>::empty();
        crate::laws::reading::trimming_takes_the_ends(none, n, none);
        assert(none + n + none =~= n);
    }
}

/// The two distances of a translation go along x and y.
pub proof fn translations_go_along_both_axes(
    style: Map<Seq<char>, Seq<char>>,
    x: Seq<char>,
    y: Seq<char>,
)
    requires
        x.len() > 0,
        y.len() > 0,
        solid(x),
        solid(y),
        forall|i: int| 0 <= i < x.len() ==> x[i] != ',' && x[i] != ' ',
        forall|i: int| 0 <= i < y.len() ==> y[i] != ',' && y[i] != ' ',
        value_of(style, "transform"@) == Some("translate("@ + x + seq![','] + y + ")"@),
    ensures
        translation_of(style) == (distance_of(x), distance_of(y)),
{
    reveal_strlit("none");
    reveal_strlit("translate(");
    reveal_strlit("translateX(");
    reveal_strlit("translateY(");
    reveal_strlit(")");
    let none = Seq::<char>::empty();
    let opening = "translate("@;
    let pair = x + seq![','] + y;
    let all = opening + x + seq![','] + y + ")"@;
    assert(all =~= opening + pair + ")"@);
    assert(opening.len() == 10 && opening[0] == 't' && opening[9] == '(');
    assert("translateX("@.len() == 11 && "translateX("@[9] == 'X');
    assert("translateY("@.len() == 11 && "translateY("@[9] == 'Y');
    assert(")"@.len() == 1 && ")"@[0] == ')');
    assert("none"@.len() == 4);
    assert(all[0] == 't' && all.last() == ')' && all[9] == '(');
    crate::laws::reading::trimming_takes_the_ends(none, all, none);
    assert(none + all + none =~= all);
    assert(all.subrange(0, 11)[9] == '(');
    assert(!occurs_at(all, "translateX("@, 0));
    assert(!occurs_at(all, "translateY("@, 0));
    assert(all.subrange(0, 10) =~= opening);
    let rest = all.subrange(10, all.len() as int);
    assert(rest =~= pair + ")"@);
    assert(rest.subrange(rest.len() - 1, rest.len() as int) =~= ")"@);
    let inner = rest.subrange(0, rest.len() - 1);
    assert(inner =~= pair);
    two_components(x, y);
}

proof fn two_components(x: Seq<char>, y: Seq<char>)
    requires
        x.len() > 0,
        y.len() > 0,
        solid(x),
        solid(y),
        forall|i: int| 0 <= i < x.len() ==> x[i] != ',' && x[i] != ' ',
        forall|i: int| 0 <= i < y.len() ==> y[i] != ',' && y[i] != ' ',
    ensures
        components(x + seq![','] + y) == seq![x, y],
{
    let none = Seq::<char>::empty();
    let pair = x + seq![','] + y;
    crate::laws::reading::separators_end_pieces(x, ',', y);
    crate::laws::reading::separators_end_pieces(y, ',', none);
    crate::laws::reading::separators_end_pieces(x, ' ', none);
    crate::laws::reading::separators_end_pieces(y, ' ', none);
    assert(fields(pair, ',') =~= seq![x, y]);
    crate::laws::reading::trimming_takes_the_ends(none, x, none);
    assert(none + x + none =~= x);
    crate::laws::reading::trimming_takes_the_ends(none, y, none);
    assert(none + y + none =~= y);
    one_piece(x);
    one_piece(y);
    let list = seq![x, y];
    let first = list.drop_last();
    assert(first =~= seq![x]);
    assert(first.drop_last() =~= Seq::empty());
    assert(spaced_pieces(first.drop_last()) =~= Seq::empty());
    assert(spaced_pieces(first) =~= seq![x]);
    assert(spaced_pieces(list) =~= seq![x, y]);
}

proof fn one_piece(x: Seq<char>)
    requires
        x.len() > 0,
        trimmed(x) == x,
        fields(x, ' ') == seq![x],
    ensures
        not_blank(fields(x, ' ')) == seq![x],
{
    let list = seq![x];
    assert(list.drop_last() =~= Seq::empty());
    assert(not_blank(list.drop_last()) =~= Seq::empty());
    assert(not_blank(list) =~= seq![x]);
}

} // verus!
