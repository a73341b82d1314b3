//! What images, glyphs and blurs show.

use vstd::prelude::*;
use vstd::string::*;
use crate::color::premultiplied;
use crate::font::gpu::{
    drawn_at, drawn_geometry, inserted, packed, quad, run_glyphs, shear, sheared, AtlasKey,
    AtlasView, GpuTextRun,
};
use crate::font::raster::CachedGlyph;
use crate::font::{
    line_height_of, measure_of, weight_of, wrapping, LineHeightView, Room, Shaping, WeightView,
};
use crate::gpu_list::Glyph;
use crate::image::{
    axis_of, offset_of, opaque, pixel_at, pixel_bytes, position_words, repeat_axes, repeat_of,
    tile_size_of, ImageRepeat, PixelLayout, TileOffsetView, TileSizeView,
};
use crate::kernel::{blurred, channel, clamped, mean_pixel, span_sum, window_sum};
use crate::laws::reading::{digits_only, lengths_are_read, solid, trimming_takes_the_ends};
use crate::layout::numeral::numeral;
use crate::layout::LengthView;
use crate::rect::{PhysicalRect, Rect};
use crate::style::value_of;
use crate::text::{occurs_at, white, words};

verus! {

/// Every layout of pixels says the same of the same color: an opaque pixel is one
/// with full alpha, and a gray one has three equal channels. Red comes first.
pub proof fn layouts_agree(r: u8, g: u8, b: u8, a: u8)
    ensures
        ({
            let full = seq![r, g, b, 255u8];
            let gray = seq![r, r, r];
            &&& pixel_at(PixelLayout::Rgb, seq![r, g, b], 0) == pixel_at(PixelLayout::Rgba, full, 0)
            &&& pixel_at(PixelLayout::Grayscale, seq![r], 0) == pixel_at(PixelLayout::Rgb, gray, 0)
            &&& pixel_at(PixelLayout::GrayscaleAlpha, seq![r, a], 0) == pixel_at(
                PixelLayout::Rgba,
                seq![r, r, r, a],
                0,
            )
            &&& pixel_at(PixelLayout::Rgba, seq![r, g, b, a], 0) == premultiplied(
                r as int,
                g as int,
                b as int,
                a as int,
            )
            &&& pixel_at(PixelLayout::Rgb, seq![r, g, b], 0) / 0x1_0000 % 256 == r
            &&& pixel_at(PixelLayout::Rgb, seq![r, g, b], 0) / 0x100 % 256 == g
            &&& pixel_at(PixelLayout::Rgb, seq![r, g, b], 0) % 256 == b
        }),
        pixel_bytes(PixelLayout::Rgba) == 4,
        pixel_bytes(PixelLayout::Rgb) == 3,
        pixel_bytes(PixelLayout::GrayscaleAlpha) == 2,
        pixel_bytes(PixelLayout::Grayscale) == 1,
{
    let full = seq![r, g, b, 255u8];
    assert(full[0] == r && full[1] == g && full[2] == b && full[3] == 255);
    let rgb = seq![r, g, b];
    assert(rgb[0] == r && rgb[1] == g && rgb[2] == b);
    let gray = seq![r, r, r];
    assert(gray[0] == r && gray[1] == r && gray[2] == r);
    assert(seq![r][0] == r);
    let two = seq![r, a];
    assert(two[0] == r && two[1] == a);
    let four = seq![r, r, r, a];
    assert(four[0] == r && four[1] == r && four[2] == r && four[3] == a);
    let all = seq![r, g, b, a];
    assert(all[0] == r && all[1] == g && all[2] == b && all[3] == a);
    crate::laws::paints::channels_stand_in_their_bytes(r, g, b, 255);
    crate::laws::paints::channels_stand_in_their_bytes(r, r, r, 255);
}

/// A background repeats along both axes unless its style stops one: one word is
/// for both axes, two are for the horizontal and the vertical one.
pub proof fn backgrounds_repeat_as_stated(list: Seq<Seq<char>>)
    ensures
        list.len() == 0 ==> repeat_of(repeat_axes(list)) == ImageRepeat::Repeat,
        list == seq!["repeat-x"@] ==> repeat_of(repeat_axes(list)) == ImageRepeat::RepeatX,
        list == seq!["repeat-y"@] ==> repeat_of(repeat_axes(list)) == ImageRepeat::RepeatY,
        list == seq!["no-repeat"@] ==> repeat_of(repeat_axes(list)) == ImageRepeat::NoRepeat,
        list == seq!["repeat"@] ==> repeat_of(repeat_axes(list)) == ImageRepeat::Repeat,
        list == seq!["repeat"@, "no-repeat"@] ==> repeat_of(repeat_axes(list))
            == ImageRepeat::RepeatX,
        list == seq!["no-repeat"@, "repeat"@] ==> repeat_of(repeat_axes(list))
            == ImageRepeat::RepeatY,
        list == seq!["no-repeat"@, "no-repeat"@] ==> repeat_of(repeat_axes(list))
            == ImageRepeat::NoRepeat,
{
    reveal_strlit("repeat");
    reveal_strlit("repeat-x");
    reveal_strlit("repeat-y");
    reveal_strlit("no-repeat");
    assert("repeat"@.len() == 6 && "repeat-x"@.len() == 8 && "repeat-y"@.len() == 8
        && "no-repeat"@.len() == 9);
    assert("repeat-x"@[7] == 'x' && "repeat-y"@[7] == 'y');
    assert(seq!["repeat-x"@][0] == "repeat-x"@ && seq!["repeat-y"@][0] == "repeat-y"@
        && seq!["no-repeat"@][0] == "no-repeat"@ && seq!["repeat"@][0] == "repeat"@);
    let a = seq!["repeat"@, "no-repeat"@];
    assert(a[0] == "repeat"@ && a[1] == "no-repeat"@);
    let b = seq!["no-repeat"@, "repeat"@];
    assert(b[0] == "no-repeat"@ && b[1] == "repeat"@);
    let c = seq!["no-repeat"@, "no-repeat"@];
    assert(c[0] == "no-repeat"@ && c[1] == "no-repeat"@);
}

/// The words of a background's position may name the sides in either order; a
/// single word leaves the other axis in the middle.
pub proof fn positions_name_their_axes(word: Seq<char>)
    requires
        word != "top"@,
        word != "bottom"@,
    ensures
        position_words(seq!["top"@, word]) == position_words(seq![word, "top"@]),
        position_words(seq!["bottom"@, word]) == position_words(seq![word, "bottom"@]),
        position_words(seq![word, "top"@]) == (Some(word), Some("top"@)),
        position_words(seq![word, "bottom"@]) == (Some(word), Some("bottom"@)),
        position_words(seq!["top"@]) == (Some("center"@), Some("top"@)),
        position_words(seq![word]) == (Some(word), Some("center"@)),
        position_words(Seq::empty()) == (None::<Seq<char>>, None::<Seq<char>>),
{
    let a = seq!["top"@, word];
    assert(a[0] == "top"@ && a[1] == word);
    let b = seq![word, "top"@];
    assert(b[0] == word && b[1] == "top"@);
    let c = seq!["bottom"@, word];
    assert(c[0] == "bottom"@ && c[1] == word);
    let d = seq![word, "bottom"@];
    assert(d[0] == word && d[1] == "bottom"@);
    assert(seq!["top"@][0] == "top"@ && seq![word][0] == word);
}

/// The words for the sides place a tile at the start, in the middle and at the
/// end of its axis, a length so far from the start, and a share of the free room.
pub proof fn tiles_are_placed_as_stated(n: Seq<char>)
    requires
        n.len() > 0,
        numeral(n),
        solid(n),
        digits_only(n),
    ensures
        offset_of(Some("left"@)) == TileOffsetView::Start,
        offset_of(Some("top"@)) == TileOffsetView::Start,
        offset_of(Some("center"@)) == TileOffsetView::Center,
        offset_of(Some("right"@)) == TileOffsetView::End,
        offset_of(Some("bottom"@)) == TileOffsetView::End,
        offset_of(None) == TileOffsetView::Start,
        offset_of(Some(n + "px"@)) == TileOffsetView::Px(n),
        offset_of(Some(n + seq!['%'])) == TileOffsetView::Percent(n),
{
    reveal_strlit("left");
    reveal_strlit("top");
    reveal_strlit("center");
    reveal_strlit("right");
    reveal_strlit("bottom");
    reveal_strlit("px");
    assert("left"@.len() == 4 && "top"@.len() == 3 && "center"@.len() == 6 && "right"@.len() == 5
        && "bottom"@.len() == 6);
    assert("left"@[0] == 'l' && "top"@[0] == 't' && "center"@[0] == 'c' && "right"@[0] == 'r'
        && "bottom"@[0] == 'b');
    lengths_are_read(n);
    assert(48 <= n[0] as u32 && n[0] as u32 <= 57) by {
        assert(crate::laws::reading::figure(n[0]));
    }
    assert((n + "px"@)[0] == n[0]);
    assert((n + seq!['%'])[0] == n[0]);
}

/// A background covers or is contained in its box where its style says so; else
/// each axis has the length of its own word, or is left open.
pub proof fn tiles_are_sized_as_stated(style: Map<Seq<char>, Seq<char>>, n: Seq<char>)
    requires
        n.len() > 0,
        numeral(n),
        solid(n),
        digits_only(n),
    ensures
        value_of(style, "background-size"@) == Some("cover"@) ==> tile_size_of(style)
            == TileSizeView::Cover,
        value_of(style, "background-size"@) == Some("contain"@) ==> tile_size_of(style)
            == TileSizeView::Contain,
        value_of(style, "background-size"@) is None ==> tile_size_of(style) == TileSizeView::Axes(
            None,
            None,
        ),
        axis_of(seq![n + "px"@, "auto"@], 0) == Some(LengthView::Px(n)),
        axis_of(seq![n + "px"@, "auto"@], 1) is None,
        axis_of(seq!["auto"@, n + "px"@], 0) is None,
        axis_of(seq!["auto"@, n + "px"@], 1) == Some(LengthView::Px(n)),
        axis_of(seq![n + "px"@], 1) is None,
{
    reveal_strlit("cover");
    reveal_strlit("contain");
    reveal_strlit("auto");
    reveal_strlit("px");
    assert("cover"@.len() == 5 && "contain"@.len() == 7 && "auto"@.len() == 4 && "auto"@[0] == 'a');
    lengths_are_read(n);
    assert(48 <= n[0] as u32 && n[0] as u32 <= 57) by {
        assert(crate::laws::reading::figure(n[0]));
    }
    let px = n + "px"@;
    assert(px[0] == n[0]);
    let a = seq![px, "auto"@];
    assert(a[0] == px && a[1] == "auto"@);
    let b = seq!["auto"@, px];
    assert(b[0] == "auto"@ && b[1] == px);
    assert(seq![px][0] == px);
}

/// Text wraps unless its style keeps lines unbroken.
pub proof fn text_wraps_by_default(style: Map<Seq<char>, Seq<char>>)
    ensures
        value_of(style, "white-space"@) is None ==> wrapping(style),
        value_of(style, "white-space"@) == Some("normal"@) ==> wrapping(style),
        value_of(style, "white-space"@) == Some("pre-wrap"@) ==> wrapping(style),
        value_of(style, "white-space"@) == Some("pre"@) ==> !wrapping(style),
        value_of(style, "white-space"@) == Some("nowrap"@) ==> !wrapping(style),
{
    reveal_strlit("normal");
    reveal_strlit("pre-wrap");
    reveal_strlit("pre");
    reveal_strlit("nowrap");
    assert("normal"@.len() == 6 && "pre-wrap"@.len() == 8 && "pre"@.len() == 3 && "nowrap"@.len()
        == 6);
    assert("normal"@[2] == 'r' && "nowrap"@[2] == 'w');
}

/// A width that is known is the one that text is shaped in; else the room counts,
/// if it is definite. Text that may wrap is as narrow as it can be in the least
/// room, and nothing breaks in the greatest.
pub proof fn known_widths_come_first(wrap: bool, width: u32, other: u32, room: Room)
    ensures
        measure_of(wrap, Some(width), room).0 == Shaping::Within(width),
        measure_of(wrap, None, Room::Definite(other)).0 == Shaping::Within(other),
        measure_of(true, None, Room::MinContent).0 == Shaping::Narrowest,
        measure_of(false, None, Room::MinContent).0 == Shaping::Unbroken,
        measure_of(wrap, None, Room::MaxContent) == (Shaping::Unbroken, true),
        !measure_of(wrap, Some(width), room).1,
        !measure_of(wrap, None, Room::MinContent).1,
{
}

/// A weight is bold by its name, a number by itself, and regular otherwise.
pub proof fn weights_are_read(style: Map<Seq<char>, Seq<char>>, n: Seq<char>)
    requires
        n.len() > 0,
        numeral(n),
        digits_only(n),
    ensures
        value_of(style, "font-weight"@) is None ==> weight_of(style) == WeightView::Regular,
        value_of(style, "font-weight"@) == Some("bold"@) ==> weight_of(style) == WeightView::Bold,
        value_of(style, "font-weight"@) == Some(n) ==> weight_of(style) == WeightView::Number(n),
{
    reveal_strlit("bold");
    assert("bold"@[0] == 'b');
    assert(crate::laws::reading::figure(n[0]));
}

/// A line is as high as its style states: in pixels, as a share of the font size
/// with a percent sign, or as a multiple of it without a unit.
pub proof fn line_heights_are_read(style: Map<Seq<char>, Seq<char>>, n: Seq<char>)
    requires
        n.len() > 0,
        numeral(n),
        solid(n),
        digits_only(n),
    ensures
        value_of(style, "line-height"@) is None ==> line_height_of(style)
            == LineHeightView::Normal,
        value_of(style, "line-height"@) == Some(n + "px"@) ==> line_height_of(style)
            == LineHeightView::Px(n),
        value_of(style, "line-height"@) == Some(n + seq!['%']) ==> line_height_of(style)
            == LineHeightView::Percent(n),
        value_of(style, "line-height"@) == Some(n) ==> line_height_of(style)
            == LineHeightView::Multiple(n),
{
    reveal_strlit("px");
    reveal_strlit("normal");
    assert("px"@.len() == 2 && "px"@[0] == 'p' && "px"@[1] == 'x' && "normal"@[0] == 'n');
    let none = Seq::<char>::empty();
    let px = n + "px"@;
    let share = n + seq!['%'];
    assert(crate::laws::reading::figure(n[0]) && crate::laws::reading::figure(n[n.len() - 1]));
    assert(!white(n[0]) && !white(n[n.len() - 1]));
    assert(px[0] == n[0] && px.last() == 'x' && share[0] == n[0] && share.last() == '%');
    trimming_takes_the_ends(none, px, none);
    assert(none + px + none =~= px);
    trimming_takes_the_ends(none, share, none);
    assert(none + share + none =~= share);
    trimming_takes_the_ends(none, n, none);
    assert(none + n + none =~= n);
    assert(px.subrange(px.len() - 2, px.len() as int) =~= "px"@);
    assert(px.subrange(0, px.len() - 2) =~= n);
    assert(share.drop_last() =~= n);
    if occurs_at(n, "px"@, n.len() - 2) {
        assert(n.subrange(n.len() - 2, n.len() as int)[1] == n[n.len() - 1]);
    }
}

/// An oblique glyph leans to the right: a row further up is moved at least as far
/// to the right, the row at the baseline not at all, and five rows make one pixel.
pub proof fn oblique_glyphs_lean_right(top: int, a: int, b: int)
    requires
        a <= b,
    ensures
        shear(top, a) >= shear(top, b),
        shear(top, top) == 0,
        shear(top, top - 5) == 1,
        shear(top, top + 5) == -1,
        shear(top, a - 5) <= shear(top, a) + 1,
        a <= top ==> shear(top, a) >= 0,
        a >= top ==> shear(top, a) <= 0,
{
}

/// A glyph stands with its bitmap's left edge beside the pen and its top above the
/// baseline, as far as its metrics say; leaning makes it wider, never narrower.
pub proof fn glyphs_stand_on_the_baseline(
    glyph: CachedGlyph,
    pen: int,
    baseline: int,
    italic: bool,
)
    requires
        -0x4000_0000 <= pen <= 0x3fff_ffff,
        -0x4000_0000 <= baseline <= 0x3fff_ffff,
        -0x1000_0000 <= glyph.left <= 0x0fff_ffff,
        -0x1000_0000 <= glyph.top <= 0x0fff_ffff,
        glyph.height <= 0x0fff_ffff,
        glyph.width <= 0x0fff_ffff,
    ensures
        drawn_at(glyph, italic, pen, baseline).y == baseline - glyph.top,
        drawn_at(glyph, italic, pen, baseline).height == glyph.height,
        !italic ==> drawn_at(glyph, italic, pen, baseline).x == pen + glyph.left,
        !italic ==> drawn_at(glyph, italic, pen, baseline).width == glyph.width,
        drawn_geometry(glyph, true).0 >= glyph.width,
{
}

/// A drawn glyph lies inside the clip and inside its own box, shows all of it that
/// the clip shows, and its texels move along with what is cut off.
pub proof fn glyphs_are_cut_to_the_clip(
    source: Rect,
    destination: Rect,
    clip: PhysicalRect,
    x: int,
    y: int,
)
    requires
        clip.x1 <= i32::MAX,
        clip.y1 <= i32::MAX,
        clip.x2 <= i32::MAX,
        clip.y2 <= i32::MAX,
        destination.x + destination.width <= i32::MAX,
        destination.y + destination.height <= i32::MAX,
        destination.width <= i32::MAX,
        destination.height <= i32::MAX,
        source.x + destination.width <= i32::MAX,
        source.y + destination.height <= i32::MAX,
        source.x >= 0,
        source.y >= 0,
    ensures
        ({
            let shown = destination.x <= x < destination.x + destination.width && destination.y <= y
                < destination.y + destination.height && clip.x1 <= x < clip.x2 && clip.y1 <= y
                < clip.y2;
            let list = quad(source, destination, clip);
            &&& list.len() <= 1
            &&& shown ==> list.len() == 1
            &&& list.len() == 1 ==> {
                let g = list[0];
                &&& (g.destination.x <= x < g.destination.x + g.destination.width && g.destination.y
                    <= y < g.destination.y + g.destination.height) <==> shown
                &&& g.source.x - source.x == g.destination.x - destination.x
                &&& g.source.y - source.y == g.destination.y - destination.y
                &&& g.source.width == g.destination.width
                &&& g.source.height == g.destination.height
            }
        }),
{
}

/// The window of a blur adds the pixels on both sides, each as often as it stands
/// in the window; beyond the ends of the line its end pixels count again.
pub proof fn blur_windows_add_both_sides(line: Seq<u32>, center: int, radius: int, index: int)
    requires
        line.len() > 0,
        radius >= 0,
    ensures
        window_sum(line, center, 0, index) == channel(
            line[clamped(center, line.len() as int)],
            index,
        ),
        window_sum(line, center, radius + 1, index) == window_sum(line, center, radius, index)
            + channel(line[clamped(center - radius - 1, line.len() as int)], index) + channel(
            line[clamped(center + radius + 1, line.len() as int)],
            index,
        ),
        center < 0 ==> clamped(center, line.len() as int) == 0,
        center >= line.len() ==> clamped(center, line.len() as int) == line.len() - 1,
        0 <= center < line.len() ==> clamped(center, line.len() as int) == center,
{
    reveal_with_fuel(span_sum, 2);
    span_from_below(line, center - radius - 1, center + radius + 1, index);
}

proof fn span_from_below(line: Seq<u32>, from: int, to: int, index: int)
    requires
        from < to,
    ensures
        span_sum(line, from, to, index) == channel(line[clamped(from, line.len() as int)], index)
            + span_sum(line, from + 1, to, index),
    decreases to - from,
{
    if to - from > 1 {
        span_from_below(line, from, to - 1, index);
    } else {
        reveal_with_fuel(span_sum, 2);
    }
}

/// The channels of a blurred pixel are the averages of the channels' own sums, in
/// their own bytes.
pub proof fn blurring_keeps_channels_apart(b: int, g: int, r: int, a: int, averages: Seq<u8>)
    ensures
        ({
            let p = mean_pixel(b, g, r, a, averages);
            &&& 0 <= p <= 0xffff_ffff
            &&& channel(p as u32, 0) == averages[b]
            &&& channel(p as u32, 1) == averages[g]
            &&& channel(p as u32, 2) == averages[r]
            &&& channel(p as u32, 3) == averages[a]
        }),
{
    let w = averages[b] as int;
    let x = averages[g] as int;
    let y = averages[r] as int;
    let z = averages[a] as int;
    let p = w + x * 0x100 + y * 0x1_0000 + z * 0x100_0000;
    assert(mean_pixel(b, g, r, a, averages) == p);
    assert(p == w + (x + y * 0x100 + z * 0x1_0000) * 0x100);
    assert(p % 0x100 == w && p / 0x100 == x + y * 0x100 + z * 0x1_0000);
    let q = x + (y + z * 0x100) * 0x100;
    assert(p / 0x100 == q && q % 0x100 == x && q / 0x100 == y + z * 0x100);
    assert(p == (w + x * 0x100) + (y + z * 0x100) * 0x1_0000);
    assert(p / 0x1_0000 == y + z * 0x100);
    assert((y + z * 0x100) % 0x100 == y);
    assert(p == (w + x * 0x100 + y * 0x1_0000) + z * 0x100_0000);
    assert(p / 0x100_0000 == z);
    assert(0 <= p <= 0xffff_ffff);
    assert(p as u32 as int == p);
}

/// A bitmap that is new goes behind the last one of its row, or starts a row below
/// all others where it does not fit there; the texture then shows it at its place.
/// A bitmap that is empty or wider than the texture is refused.
pub proof fn bitmaps_are_packed_in_rows(
    before: AtlasView,
    after: AtlasView,
    key: AtlasKey,
    width: usize,
    height: usize,
    data: Seq<u8>,
    result: Option<Rect>,
    row: int,
    col: int,
)
    requires
        before.wf(),
        inserted(before, after, key, width, height, data, result),
        forall|i: int|
            0 <= i < before.placements.len() ==> (#[trigger] before.placements[i]).key != key,
        0 <= row < height,
        0 <= col < width,
        before.y + before.row_height <= 0x7fff_ffff,
    ensures
        width > 2048 || data.len() != height * width ==> result is None,
        width <= 2048 && data.len() == height * width && (before.y + before.row_height + height)
            * 2048 <= usize::MAX ==> result is Some,
        result matches Some(place) ==> {
            &&& place.width == width as u32
            &&& place.height == height as u32
            &&& before.x + width <= 2048 ==> place.x == before.x && place.y == before.y
            &&& before.x + width > 2048 ==> place.x == 0 && place.y == before.y + before.row_height
            &&& after.bytes[(place.y + row) * 2048 + place.x + col] == data[row * width + col]
            &&& after.x == place.x + width
            &&& after.dirty
        },
        result is None ==> after.bytes == before.bytes && after.placements == before.placements,
{
    assert(!packed(before.placements, key));
    assert(before.slot(width as int).1 + height <= before.y + before.row_height + height);
    let y = before.slot(width as int).1;
    assert((y + height) * 2048 <= (before.y + before.row_height + height) * 2048);
    if result is Some {
        let at = crate::kernel::cell(width as int, row, col);
        assert(data[at] == data[row * width + col]);
    }
}

/// A bitmap that is already packed keeps its place, and nothing changes.
pub proof fn packed_bitmaps_stay(
    before: AtlasView,
    after: AtlasView,
    key: AtlasKey,
    width: usize,
    height: usize,
    data: Seq<u8>,
    result: Option<Rect>,
    at: int,
)
    requires
        before.wf(),
        inserted(before, after, key, width, height, data, result),
        0 <= at < before.placements.len(),
        before.placements[at].key == key,
    ensures
        after == before,
        result == Some(before.placements[at].rect()),
{
    assert(crate::font::gpu::packed_at(before.placements, key, at));
    let found = choose|k: int|
        #[trigger] crate::font::gpu::packed_at(before.placements, key, k) && result == Some(
            before.placements[k].rect(),
        );
    assert(found == at);
}

/// A slanted bitmap holds every row of the upright one, moved by how far the row
/// leans.
pub proof fn slanted_rows_are_moved(glyph: CachedGlyph, output: Seq<u8>, row: int, col: int)
    requires
        sheared(glyph, output),
        glyph.height > 0,
        0 <= row < glyph.height,
        0 <= col < glyph.width,
        glyph.data@.len() == glyph.height * glyph.width,
    ensures
        ({
            let least = shear(glyph.top as int, glyph.height - 1);
            let most = shear(glyph.top as int, 0);
            let width = glyph.width + (most - least);
            let moved = col + (shear(glyph.top as int, row) - least);
            &&& 0 <= moved < width
            &&& output[row * width + moved] == glyph.data@[row * glyph.width + col]
        }),
{
    crate::font::gpu::shear_stays_in_range(glyph.top as int, glyph.height as int, row);
    let least = shear(glyph.top as int, glyph.height - 1);
    let width = glyph.width + (shear(glyph.top as int, 0) - least);
    let moved = col + (shear(glyph.top as int, row) - least);
    let at = crate::kernel::cell(width, row, moved);
    assert(output[at] == glyph.data@[crate::kernel::cell(glyph.width as int, row, col)]);
}

/// The glyphs of runs follow each other.
pub proof fn runs_follow_each_other(runs: Seq<GpuTextRun>, run: GpuTextRun)
    ensures
        run_glyphs(Seq::empty()) == Seq::<Glyph>::empty(),
        run_glyphs(runs.push(run)) == run_glyphs(runs) + run.glyphs@,
{
    assert(runs.push(run).drop_last() =~= runs);
}

} // verus!
