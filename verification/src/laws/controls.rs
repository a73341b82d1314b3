//! What controls, fills, borders, shadows and runs of text paint.

use vstd::prelude::*;
use crate::gpu_list::{CommandView, Glyph};
use crate::gradient::Fill;
use crate::paint::control::{
    caret_rect, content_box, line_box, on_screen, range_paint, selection_rect, solid, travel,
    SolidPaint,
};
use crate::paint::field::{
    field_steps, range_rect, selected_steps, selection_steps, shows_placeholder, FieldFrame,
    FieldStep,
};
use crate::border::{BorderStyle, SidePaint};
use crate::paint::fill::{border_commands, fill_commands, shadow_commands, GradientLine};
use crate::paint::text::{run_commands, RunShadow};
use crate::rect::{PhysicalRect, Rect};
use crate::scene::CornerRadius;
use crate::shadow::Shadow;

verus! {

/// A rectangle on the screen is painted where it is and as large as it is; one
/// that is empty, or without a color, is not painted.
pub proof fn rectangles_are_painted_where_they_are(rect: PhysicalRect, color: u32, radius: u32)
    requires
        on_screen(rect),
    ensures
        (exists|x: int, y: int| rect.holds(x, y)) && color != 0 ==> solid(rect, color, radius).len()
            == 1,
        !(exists|x: int, y: int| rect.holds(x, y)) || color == 0 ==> solid(rect, color, radius).len()
            == 0,
        solid(rect, color, radius).len() == 1 ==> {
            let paint = solid(rect, color, radius)[0];
            &&& paint.color == color
            &&& paint.radius == radius
            &&& paint.rect.x == rect.x1
            &&& paint.rect.y == rect.y1
            &&& paint.rect.x + paint.rect.width == rect.x2
            &&& paint.rect.y + paint.rect.height == rect.y2
        },
{
    if !rect.void() {
        assert(rect.holds(rect.x1 as int, rect.y1 as int));
    }
}

/// A slider of some size paints its groove over the whole travel, then the part
/// up to the value, then a thumb whose middle stands at the value; with focus a
/// ring stands round the thumb. All are centered vertically.
pub proof fn sliders_show_their_value(
    bounds: PhysicalRect,
    offset: int,
    disabled: bool,
    accent: u32,
    focused: bool,
)
    requires
        on_screen(bounds),
        bounds.x1 + 24 < bounds.x2,
        bounds.y1 + 36 <= bounds.y2,
        (bounds.y2 - bounds.y1) % 2 == 0,
        bounds.x1 >= 2,
        bounds.y1 >= 2,
        bounds.x2 + 2 <= 0x7fff_ffff,
        bounds.y2 + 2 <= 0x7fff_ffff,
        0 < offset <= bounds.x2 - bounds.x1 - 24,
        accent != 0,
    ensures
        travel(bounds).1 - travel(bounds).0 == bounds.x2 - bounds.x1 - 24,
        ({
            let paint = range_paint(bounds, offset, disabled, accent, focused);
            let center = (bounds.y1 + bounds.y2) / 2;
            &&& paint.len() == if focused {
                5int
            } else {
                3
            }
            &&& paint[0].rect.x == bounds.x1 + 12
            &&& paint[0].rect.x + paint[0].rect.width == bounds.x2 - 12
            &&& paint[1].rect.x == bounds.x1 + 12
            &&& paint[1].rect.width == offset
            &&& paint[1].color == if disabled {
                0xff65_7186u32
            } else {
                accent
            }
            &&& forall|i: int|
                0 <= i < 2 ==> (#[trigger] paint[i]).rect.y == center - 4 && paint[i].rect.height == 8
                    && paint[i].radius == 4
            &&& paint[2].rect.x + 12 == bounds.x1 + 12 + offset
            &&& paint[2].rect.width == 24
            &&& paint[2].rect.y == center - 18
            &&& paint[2].rect.height == 36
            &&& paint[2].radius == 12
            &&& focused ==> {
                &&& paint[3].rect.x == paint[2].rect.x - 2
                &&& paint[3].rect.y == paint[2].rect.y - 2
                &&& paint[3].rect.width == 28
                &&& paint[3].rect.height == 40
                &&& paint[3].color == accent
                &&& paint[3].radius == 14
                &&& paint[4].rect == paint[2].rect
                &&& paint[4].color == 0xfff4_f8ff
            }
        }),
{
}

/// The content of a field lies inside its borders and padding, side by side: top,
/// right, bottom, left.
pub proof fn content_lies_inside_the_frame(
    bounds: PhysicalRect,
    borders: [usize; 4],
    padding: [usize; 4],
)
    requires
        bounds.x1 + borders[3] + padding[3] + borders[1] + padding[1] <= bounds.x2,
        bounds.y1 + borders[0] + padding[0] + borders[2] + padding[2] <= bounds.y2,
    ensures
        content_box(bounds, borders, padding).x1 == bounds.x1 + borders[3] + padding[3],
        content_box(bounds, borders, padding).y1 == bounds.y1 + borders[0] + padding[0],
        content_box(bounds, borders, padding).x2 == bounds.x2 - borders[1] - padding[1],
        content_box(bounds, borders, padding).y2 == bounds.y2 - borders[2] - padding[2],
{
}

/// The line of a field is as high as its text if there is room, and as high as
/// the content otherwise; it stands in the middle and is as wide as the content.
pub proof fn lines_stand_in_the_middle(content: PhysicalRect, height: int)
    requires
        content.y1 <= content.y2,
        0 <= height,
    ensures
        ({
            let line = line_box(content, height);
            let above = line.y1 - content.y1;
            let below = content.y2 - line.y2;
            &&& line.x1 == content.x1
            &&& line.x2 == content.x2
            &&& height <= content.y2 - content.y1 ==> line.y2 - line.y1 == height
            &&& height > content.y2 - content.y1 ==> line.y1 == content.y1 && line.y2 == content.y2
            &&& 0 <= above <= below <= above + 1
        }),
{
}

/// Selected are the columns of the content between the start and the end of the
/// selection, over the height of the line.
pub proof fn selections_cover_their_text(
    origin: int,
    line: PhysicalRect,
    content: PhysicalRect,
    start: int,
    end: int,
    x: int,
    y: int,
)
    requires
        on_screen(content),
        content.x1 <= content.x2,
        0 <= origin + start <= 0x7fff_ffff,
    ensures
        selection_rect(origin, line, content, start, end).holds(x, y) <==> origin + start <= x < origin
            + end && content.x1 <= x < content.x2 && line.y1 <= y < line.y2,
{
}

/// The caret stands at its column, two pixels wide and as high as the line; it
/// stays in the content.
pub proof fn carets_stand_at_their_column(content: PhysicalRect, line: PhysicalRect, offset: int)
    requires
        on_screen(content),
        content.x1 < content.x2,
    ensures
        ({
            let caret = caret_rect(content, line, offset);
            &&& 0 <= offset < content.x2 - content.x1 ==> caret.x1 == content.x1 + offset
            &&& offset < 0 ==> caret.x1 == content.x1
            &&& offset >= content.x2 - content.x1 ==> caret.x1 == content.x2 - 1
            &&& caret.x2 == caret.x1 + 2
            &&& caret.y1 == line.y1
            &&& caret.y2 == line.y2
        }),
{
}

/// The placeholder shows in place of an empty value only.
pub proof fn placeholders_show_without_a_value(value: Seq<char>, placeholder: Seq<char>)
    ensures
        shows_placeholder(value, placeholder) <==> value == Seq::<char>::empty() && placeholder
            != Seq::<char>::empty(),
{
    assert(value.len() == 0 ==> value =~= Seq::empty());
    assert(placeholder.len() == 0 ==> placeholder =~= Seq::empty());
}

proof fn backgrounds_are_solid(frame: FieldFrame, ranges: Seq<(i32, i32)>)
    ensures
        forall|i: int|
            0 <= i < selection_steps(frame, ranges).len() ==> (#[trigger] selection_steps(
                frame,
                ranges,
            )[i]) is Solid,
        selection_steps(frame, ranges).len() <= ranges.len(),
    decreases ranges.len(),
{
    if ranges.len() > 0 {
        backgrounds_are_solid(frame, ranges.drop_last());
    }
}

/// A field that is seen paints the backgrounds of its selection, then its text,
/// then the selected text over it, and the caret on top. A placeholder cannot be
/// selected. What is not seen is not painted.
pub proof fn fields_paint_back_to_front(
    frame: FieldFrame,
    placeholder: bool,
    ranges: Seq<(i32, i32)>,
)
    ensures
        frame.clip.void() ==> field_steps(frame, placeholder, ranges).len() == 0,
        !frame.clip.void() ==> {
            let steps = field_steps(frame, placeholder, ranges);
            exists|k: int|
                {
                    &&& 0 <= k < steps.len()
                    &&& #[trigger] steps[k] == (FieldStep::Text { placeholder, clip: frame.clip })
                    &&& forall|i: int| 0 <= i < k ==> (#[trigger] steps[i]) is Solid
                    &&& placeholder ==> k == 0
                    &&& frame.selection is None ==> k == 0
                    &&& !placeholder ==> forall|i: int|
                        0 <= i < ranges.len() ==> (#[trigger] steps[k + 1 + i]) is Selected
                    &&& frame.caret is None ==> steps.len() == k + 1 + if placeholder {
                        0
                    } else {
                        ranges.len() as int
                    }
                    &&& forall|i: int|
                        k + 1 + (if placeholder {
                            0
                        } else {
                            ranges.len() as int
                        }) <= i < steps.len() ==> (#[trigger] steps[i]) is Solid
                }
        },
{
    if !frame.clip.void() {
        backgrounds_are_solid(frame, ranges);
        let steps = field_steps(frame, placeholder, ranges);
        let under = selection_steps(frame, ranges);
        let text = seq![FieldStep::Text { placeholder, clip: frame.clip }];
        if placeholder {
            assert(steps[0] == text[0]);
        } else {
            let k = under.len() as int;
            assert(steps[k] == text[0]);
            assert forall|i: int| 0 <= i < k implies (#[trigger] steps[i]) is Solid by {
                assert(steps[i] == under[i]);
            }
            assert forall|i: int| 0 <= i < ranges.len() implies (#[trigger] steps[k + 1 + i])
                is Selected by {
                assert(steps[k + 1 + i] == selected_steps(frame, ranges)[i]);
            }
            assert(frame.selection is None ==> k == 0) by {
                without_a_color(frame, ranges);
            }
        }
    }
}

proof fn without_a_color(frame: FieldFrame, ranges: Seq<(i32, i32)>)
    ensures
        frame.selection is None ==> selection_steps(frame, ranges).len() == 0,
    decreases ranges.len(),
{
    if ranges.len() > 0 {
        without_a_color(frame, ranges.drop_last());
    }
}

/// The background of a selected range, and the text over it, take the place of
/// the range where it is seen; the background has the selection's color.
pub proof fn selections_are_painted_in_their_color(
    frame: FieldFrame,
    range: (i32, i32),
    x: int,
    y: int,
)
    requires
        on_screen(frame.content),
        on_screen(frame.line),
        on_screen(frame.clip),
        frame.content.x1 <= frame.content.x2,
        0 <= frame.origin_x + range.0 <= 0x7fff_ffff,
        range_rect(frame, range).holds(x, y),
    ensures
        frame.origin_x + range.0 <= x < frame.origin_x + range.1,
        frame.content.x1 <= x < frame.content.x2,
        frame.line.y1 <= y < frame.line.y2,
        frame.clip.holds(x, y),
        frame.selection matches Some(color) ==> color != 0 ==> selection_steps(frame, seq![range])
            == seq![
            FieldStep::Solid(
                SolidPaint { rect: range_rect(frame, range).placed(), radius: 0, color },
            ),
        ],
        selected_steps(frame, seq![range])[0] == (FieldStep::Selected {
            clip: range_rect(frame, range),
        }),
{
    let one = seq![range];
    assert(one.drop_last() =~= Seq::empty());
    assert(one.last() == range);
    assert(selection_steps(frame, one.drop_last()) =~= Seq::empty());
    if let Some(color) = frame.selection {
        if color != 0 {
            assert(selection_steps(frame, one) =~= seq![
                FieldStep::Solid(
                    SolidPaint { rect: range_rect(frame, range).placed(), radius: 0, color },
                ),
            ]);
        }
    }
}

/// A box is filled with its color, or with its gradient: every stop keeps its own
/// color and takes the place that was found for it.
pub proof fn boxes_are_filled_as_stated(
    rect: Rect,
    radii: [CornerRadius; 4],
    fill: Option<Fill>,
    line: GradientLine,
)
    ensures
        fill is None ==> fill_commands(rect, radii, fill, line).len() == 0,
        fill matches Some(Fill::Solid(color)) ==> {
            let commands = fill_commands(rect, radii, fill, line);
            &&& commands.len() == if color == 0 {
                0int
            } else {
                1
            }
            &&& color != 0 ==> commands[0] == (CommandView::SolidRect { rect, radii, color })
        },
        fill matches Some(Fill::Gradient(gradient)) ==> {
            let commands = fill_commands(rect, radii, fill, line);
            &&& commands.len() == 1
            &&& commands[0] matches CommandView::LinearGradient {
                rect: r,
                radii: c,
                start,
                end,
                stops,
            } && r == rect && c == radii && start == line.start && end == line.end && stops.len()
                == gradient.stops@.len() && forall|i: int|
                0 <= i < stops.len() ==> (#[trigger] stops[i]).color == gradient.stops@[i].color
                    && stops[i].position == line.positions@[i]
        },
{
}

/// Shadows are painted last to first, so that the first is on top.
pub proof fn first_shadows_are_on_top(
    rect: Rect,
    radii: [CornerRadius; 4],
    a: Seq<Shadow>,
    b: Seq<Shadow>,
    inset: bool,
)
    ensures
        shadow_commands(rect, radii, a + b, inset) == shadow_commands(rect, radii, b, inset)
            + shadow_commands(rect, radii, a, inset),
    decreases a.len(),
{
    if a.len() == 0 {
        assert(a + b =~= b);
        assert(shadow_commands(rect, radii, b, inset) + Seq::empty() =~= shadow_commands(
            rect,
            radii,
            b,
            inset,
        ));
    } else {
        first_shadows_are_on_top(rect, radii, a.skip(1), b, inset);
        assert((a + b).skip(1) =~= a.skip(1) + b);
        assert(shadow_commands(rect, radii, a + b, inset) =~= shadow_commands(rect, radii, b, inset)
            + shadow_commands(rect, radii, a, inset));
    }
}

/// A shadow is painted once: among the inner ones if it is one, and among the
/// outer ones otherwise, with its own offset, blur, spread and color.
pub proof fn shadows_are_painted_as_stated(rect: Rect, radii: [CornerRadius; 4], shadow: Shadow)
    ensures
        shadow_commands(rect, radii, seq![shadow], !shadow.inset).len() == 0,
        shadow_commands(rect, radii, seq![shadow], shadow.inset).len() == 1,
        shadow_commands(rect, radii, seq![shadow], shadow.inset)[0] matches CommandView::BoxShadow {
            rect: r,
            radii: c,
            offset,
            blur,
            spread,
            color,
            inset,
        } && r == rect && c == radii && offset[0] == shadow.dx && offset[1] == shadow.dy && blur
            == shadow.blur && spread == shadow.spread && color == shadow.color && inset
            == shadow.inset,
{
    let one = seq![shadow];
    assert(one.skip(1) =~= Seq::empty());
    assert(shadow_commands(rect, radii, one.skip(1), true) =~= Seq::empty());
    assert(shadow_commands(rect, radii, one.skip(1), false) =~= Seq::empty());
}

/// Each side of a border is painted with its own width, color and line; a side
/// without a line takes no width. Without any line nothing is painted.
pub proof fn borders_are_painted_side_by_side(
    rect: Rect,
    radii: [CornerRadius; 4],
    sides: [Option<SidePaint>; 4],
    width: [u32; 4],
    i: int,
)
    requires
        0 <= i < 4,
    ensures
        (forall|k: int| 0 <= k < 4 ==> #[trigger] sides[k] is None) ==> border_commands(
            rect,
            radii,
            sides,
            width,
        ).len() == 0,
        sides[i] is Some ==> border_commands(rect, radii, sides, width).len() == 1,
        border_commands(rect, radii, sides, width).len() == 1 ==> (border_commands(
            rect,
            radii,
            sides,
            width,
        )[0] matches CommandView::Border { rect: r, radii: c, widths, colors, styles } && r == rect
            && c == radii && (match sides[i] {
            Some(side) => widths[i] == width[i] && colors[i] == side.color && styles[i]
                == side.style,
            None => widths[i] == 0 && styles[i] == BorderStyle::Absent,
        })),
{
    assert(sides[0] is None || sides[0] is Some);
}

/// Text is painted over its shadows, the first of which is on top of the others;
/// text itself is neither moved nor blurred. Text without glyphs paints nothing.
pub proof fn text_stands_over_its_shadows(
    texture: u32,
    ink: u32,
    run: Seq<Glyph>,
    shadows: Seq<RunShadow>,
    i: int,
)
    requires
        0 <= i < shadows.len(),
    ensures
        run_commands(texture, ink, Seq::empty(), shadows).len() == 0,
        run.len() > 0 ==> {
            let commands = run_commands(texture, ink, run, shadows);
            &&& commands.len() == shadows.len() + 1
            &&& commands.last() matches CommandView::GlyphRun {
                texture_id,
                color,
                offset,
                blur,
                glyphs,
            } && texture_id == texture && color == ink && offset[0] == 0 && offset[1] == 0 && blur
                == 0 && glyphs == run
            &&& commands[shadows.len() - 1 - i] matches CommandView::GlyphRun {
                texture_id,
                color,
                offset,
                blur,
                glyphs,
            } && texture_id == texture && color == shadows[i].color && offset == shadows[i].offset
                && blur == shadows[i].blur && glyphs == run
        },
{
}

} // verus!
