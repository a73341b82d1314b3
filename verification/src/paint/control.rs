//! Geometry of painted form controls, in physical pixels.

use vstd::prelude::*;
use crate::rect::{high, low, max_usize, min_usize, PhysicalRect, Rect};

verus! {

/// The largest coordinate of a screen.
pub const SCREEN_LIMIT: usize = 0x7fff_ffff;

/// All coordinates are screen coordinates.
pub open spec fn on_screen(rect: PhysicalRect) -> bool {
    rect.x1 <= SCREEN_LIMIT && rect.y1 <= SCREEN_LIMIT && rect.x2 <= SCREEN_LIMIT && rect.y2
        <= SCREEN_LIMIT
}

/// A filled rounded rectangle.
#[derive(Clone, Copy, Debug, PartialEq, Eq, Structural)]
pub struct SolidPaint {
    pub rect: Rect,
    pub radius: u32,
    pub color: u32,
}

/// What filling a rectangle paints: nothing without area or color.
pub open spec fn solid(rect: PhysicalRect, color: u32, radius: u32) -> Seq<SolidPaint> {
    if rect.void() || color == 0 {
        Seq::empty()
    } else {
        seq![SolidPaint { rect: rect.placed(), radius, color }]
    }
}

/// Fills a rectangle.
pub fn gpu_physical_rect(paint: &mut Vec<SolidPaint>, rect: PhysicalRect, color: u32, radius: u32)
    ensures
        final(paint)@ == old(paint)@ + solid(rect, color, radius),
{
    if !rect.is_empty() && color != 0 {
        paint.push(SolidPaint { rect: rect.display_rect(), radius, color });
    }
    assert(paint@ =~= old(paint)@ + solid(rect, color, radius));
}

/// A difference, or zero.
pub open spec fn less(a: int, b: int) -> int {
    if a >= b {
        a - b
    } else {
        0
    }
}

fn minus(a: usize, b: usize) -> (result: usize)
    ensures
        result == less(a as int, b as int),
{
    if a >= b {
        a - b
    } else {
        0
    }
}

/// The first and last column of a range's travel.
pub open spec fn travel(bounds: PhysicalRect) -> (int, int) {
    let left = low(bounds.x1 + 12, bounds.x2 as int);
    (left, high(less(bounds.x2 as int, 12), left))
}

/// The middle row of a range.
pub open spec fn middle(bounds: PhysicalRect) -> int {
    bounds.y1 + less(bounds.y2 as int, bounds.y1 as int) / 2
}

/// The track of a range, from its first column to `right`.
pub open spec fn track_rect(bounds: PhysicalRect, right: int) -> PhysicalRect {
    PhysicalRect {
        x1: travel(bounds).0 as usize,
        y1: less(middle(bounds), 4) as usize,
        x2: right as usize,
        y2: low(middle(bounds) + 4, bounds.y2 as int) as usize,
    }
}

/// The thumb of a range around a column.
pub open spec fn thumb_rect(bounds: PhysicalRect, column: int) -> PhysicalRect {
    PhysicalRect {
        x1: less(column, 12) as usize,
        y1: less(middle(bounds), 18) as usize,
        x2: low(column + 12, bounds.x2 as int) as usize,
        y2: low(middle(bounds) + 18, bounds.y2 as int) as usize,
    }
}

/// The focus ring around a thumb.
pub open spec fn ring_rect(thumb: PhysicalRect) -> PhysicalRect {
    PhysicalRect {
        x1: less(thumb.x1 as int, 2) as usize,
        y1: less(thumb.y1 as int, 2) as usize,
        x2: (thumb.x2 + 2) as usize,
        y2: (thumb.y2 + 2) as usize,
    }
}

/// What a range paints: its track, the part up to the thumb, the thumb, and with
/// focus a ring under another thumb.
pub open spec fn range_paint(
    bounds: PhysicalRect,
    offset: int,
    disabled: bool,
    accent: u32,
    focused: bool,
) -> Seq<SolidPaint> {
    let column = travel(bounds).0 + offset;
    let thumb = thumb_rect(bounds, column);
    solid(track_rect(bounds, travel(bounds).1), 0xff0c_1728, 4) + solid(
        track_rect(bounds, column),
        if disabled {
            0xff65_7186
        } else {
            accent
        },
        4,
    ) + solid(
        thumb,
        if disabled {
            0xff8b_96a8
        } else {
            0xfff4_f8ff
        },
        12,
    ) + if focused {
        solid(ring_rect(thumb), accent, 14) + solid(thumb, 0xfff4_f8ff, 12)
    } else {
        Seq::empty()
    }
}

/// The columns that a range's thumb can travel.
pub fn range_travel(bounds: PhysicalRect) -> (result: usize)
    requires
        on_screen(bounds),
    ensures
        result == travel(bounds).1 - travel(bounds).0,
{
    let left: usize = min_usize(bounds.x1 + 12, bounds.x2);
    max_usize(minus(bounds.x2, 12), left) - left
}

/// Paints a range whose thumb stands `offset` columns into its travel.
pub fn gpu_range(bounds: PhysicalRect, offset: usize, disabled: bool, accent: u32, focused: bool) -> (result:
    Vec<SolidPaint>)
    requires
        on_screen(bounds),
        offset <= travel(bounds).1 - travel(bounds).0,
    ensures
        result@ == range_paint(bounds, offset as int, disabled, accent, focused),
{
    let left: usize = min_usize(bounds.x1 + 12, bounds.x2);
    let right: usize = max_usize(minus(bounds.x2, 12), left);
    let center: usize = bounds.y1 + minus(bounds.y2, bounds.y1) / 2;
    let column: usize = left + offset;
    let track = PhysicalRect {
        x1: left,
        y1: minus(center, 4),
        x2: right,
        y2: min_usize(center + 4, bounds.y2),
    };
    let progress = PhysicalRect { x2: column, ..track };
    let thumb = PhysicalRect {
        x1: minus(column, 12),
        y1: minus(center, 18),
        x2: min_usize(column + 12, bounds.x2),
        y2: min_usize(center + 18, bounds.y2),
    };
    let mut paint: Vec<SolidPaint> = Vec::new();
    gpu_physical_rect(&mut paint, track, 0xff0c_1728, 4);
    gpu_physical_rect(
        &mut paint,
        progress,
        if disabled {
            0xff65_7186
        } else {
            accent
        },
        4,
    );
    gpu_physical_rect(
        &mut paint,
        thumb,
        if disabled {
            0xff8b_96a8
        } else {
            0xfff4_f8ff
        },
        12,
    );
    if focused {
        let ring = PhysicalRect {
            x1: minus(thumb.x1, 2),
            y1: minus(thumb.y1, 2),
            x2: thumb.x2 + 2,
            y2: thumb.y2 + 2,
        };
        gpu_physical_rect(&mut paint, ring, accent, 14);
        gpu_physical_rect(&mut paint, thumb, 0xfff4_f8ff, 12);
    }
    assert(paint@ =~= range_paint(bounds, offset as int, disabled, accent, focused));
    paint
}

/// The thumb of a range stays within its columns, wherever it stands.
pub proof fn thumb_stays_inside(bounds: PhysicalRect, offset: int)
    requires
        on_screen(bounds),
        bounds.x2 - bounds.x1 >= 24,
        0 <= offset <= travel(bounds).1 - travel(bounds).0,
    ensures
        bounds.x1 <= thumb_rect(bounds, travel(bounds).0 + offset).x1,
        thumb_rect(bounds, travel(bounds).0 + offset).x2 <= bounds.x2,
{
}

/// Border and padding together are representable on every side.
pub open spec fn insets_fit(borders: [usize; 4], padding: [usize; 4]) -> bool {
    &&& borders[0] + padding[0] <= usize::MAX
    &&& borders[1] + padding[1] <= usize::MAX
    &&& borders[2] + padding[2] <= usize::MAX
    &&& borders[3] + padding[3] <= usize::MAX
}

/// The content box of a field: its bounds without border and padding. It never
/// turns inside out.
pub open spec fn content_box(
    bounds: PhysicalRect,
    borders: [usize; 4],
    padding: [usize; 4],
) -> PhysicalRect {
    let x1 = low(bounds.x1 + borders[3] + padding[3], bounds.x2 as int);
    let y1 = low(bounds.y1 + borders[0] + padding[0], bounds.y2 as int);
    PhysicalRect {
        x1: x1 as usize,
        y1: y1 as usize,
        x2: high(less(bounds.x2 as int, borders[1] + padding[1]), x1) as usize,
        y2: high(less(bounds.y2 as int, borders[2] + padding[2]), y1) as usize,
    }
}

/// The box of a line of text, centered in a content box.
pub open spec fn line_box(content: PhysicalRect, line_height: int) -> PhysicalRect {
    let available = content.y2 - content.y1;
    let height = low(line_height, available);
    let y = content.y1 + (available - height) / 2;
    PhysicalRect { y1: y as usize, y2: (y + height) as usize, ..content }
}

/// The content box of a field and the box of its line. Insets stand in the order
/// top, right, bottom, left.
pub fn input_line_boxes(
    bounds: PhysicalRect,
    borders: [usize; 4],
    padding: [usize; 4],
    line_height: usize,
) -> (result: (PhysicalRect, PhysicalRect))
    requires
        insets_fit(borders, padding),
    ensures
        result.0 == content_box(bounds, borders, padding),
        result.1 == line_box(result.0, line_height as int),
{
    let left: usize = borders[3] + padding[3];
    let top: usize = borders[0] + padding[0];
    let x1: usize = if left <= minus(bounds.x2, bounds.x1) {
        bounds.x1 + left
    } else {
        bounds.x2
    };
    let y1: usize = if top <= minus(bounds.y2, bounds.y1) {
        bounds.y1 + top
    } else {
        bounds.y2
    };
    let x1: usize = min_usize(x1, bounds.x2);
    let y1: usize = min_usize(y1, bounds.y2);
    let content = PhysicalRect {
        x1,
        y1,
        x2: max_usize(minus(bounds.x2, borders[1] + padding[1]), x1),
        y2: max_usize(minus(bounds.y2, borders[2] + padding[2]), y1),
    };
    let available: usize = content.y2 - content.y1;
    let height: usize = min_usize(line_height, available);
    let y: usize = content.y1 + (available - height) / 2;
    (content, PhysicalRect { y1: y, y2: y + height, ..content })
}

/// A field's line lies in its content box, and the content box in its bounds.
pub proof fn line_lies_in_the_field(
    bounds: PhysicalRect,
    borders: [usize; 4],
    padding: [usize; 4],
    line_height: int,
)
    requires
        insets_fit(borders, padding),
        bounds.x1 <= bounds.x2,
        bounds.y1 <= bounds.y2,
        line_height >= 0,
    ensures
        ({
            let content = content_box(bounds, borders, padding);
            let line = line_box(content, line_height);
            &&& bounds.x1 <= content.x1 <= content.x2 <= bounds.x2
            &&& bounds.y1 <= content.y1 <= line.y1 <= line.y2 <= content.y2 <= bounds.y2
        }),
{
    assert(borders@[0] >= 0 && borders@[1] >= 0 && borders@[2] >= 0 && borders@[3] >= 0);
    assert(padding@[0] >= 0 && padding@[1] >= 0 && padding@[2] >= 0 && padding@[3] >= 0);
}

/// A number between two bounds.
pub open spec fn between(value: int, least: int, most: int) -> int {
    if value < least {
        least
    } else if value > most {
        most
    } else {
        value
    }
}

/// The rectangle of selected text on a line, from `start` to `end` after the
/// line's origin.
pub open spec fn selection_rect(
    origin_x: int,
    line: PhysicalRect,
    content: PhysicalRect,
    start: int,
    end: int,
) -> PhysicalRect {
    PhysicalRect {
        x1: high(origin_x + start, content.x1 as int) as usize,
        y1: line.y1,
        x2: between(origin_x + end, content.x1 as int, content.x2 as int) as usize,
        y2: line.y2,
    }
}

/// Places selected text on a line.
pub fn control_selection_rect(
    origin_x: i32,
    line: PhysicalRect,
    content: PhysicalRect,
    start: i32,
    end: i32,
) -> (result: PhysicalRect)
    requires
        on_screen(content),
        content.x1 <= content.x2,
        i32::MIN <= origin_x + start <= i32::MAX,
        i32::MIN <= origin_x + end <= i32::MAX,
    ensures
        result == selection_rect(origin_x as int, line, content, start as int, end as int),
{
    let first: i32 = origin_x + start;
    let last: i32 = origin_x + end;
    let x1: usize = if first > content.x1 as i32 {
        first as usize
    } else {
        content.x1
    };
    let x2: usize = if last < content.x1 as i32 {
        content.x1
    } else if last > content.x2 as i32 {
        content.x2
    } else {
        last as usize
    };
    PhysicalRect { x1, y1: line.y1, x2, y2: line.y2 }
}

/// The caret of a field, two columns wide: it stays in the content box.
pub open spec fn caret_rect(content: PhysicalRect, line: PhysicalRect, offset: int) -> PhysicalRect {
    let x = between(
        content.x1 + offset,
        content.x1 as int,
        high(less(content.x2 as int, 1), content.x1 as int),
    );
    PhysicalRect { x1: x as usize, y1: line.y1, x2: (x + 2) as usize, y2: line.y2 }
}

/// Places the caret of a field, `offset` columns after the start of its content.
pub fn control_caret(content: PhysicalRect, line: PhysicalRect, offset: i32) -> (result: PhysicalRect)
    requires
        on_screen(content),
        content.x1 < content.x2,
    ensures
        result == caret_rect(content, line, offset as int),
{
    let wanted: i64 = content.x1 as i64 + offset as i64;
    let x: usize = if wanted < content.x1 as i64 {
        content.x1
    } else if wanted > content.x2 as i64 - 1 {
        content.x2 - 1
    } else {
        wanted as usize
    };
    PhysicalRect { x1: x, y1: line.y1, x2: x + 2, y2: line.y2 }
}

} // verus!
