//! Commands that paint a box: its shadows, its background and its border.

use vstd::prelude::*;
use crate::border::{BorderStyle, SidePaint};
use crate::gpu_list::{command_views, CommandView, GpuCommand, GradientStop};
use crate::gradient::{Fill, Stop};
use crate::rect::Rect;
use crate::scene::CornerRadius;
use crate::shadow::Shadow;

verus! {

/// A gradient's line over a box; ends and positions are the bits of
/// single-precision values.
pub struct GradientLine {
    pub start: [u32; 2],
    pub end: [u32; 2],
    pub positions: Vec<u32>,
}

/// The stops of a gradient at their positions.
pub open spec fn placed_stops(stops: Seq<Stop>, positions: Seq<u32>) -> Seq<GradientStop> {
    Seq::new(
        stops.len(),
        |i: int| GradientStop { color: stops[i].color, position: positions[i] },
    )
}

/// What a fill paints: a transparent color and an unreadable fill paint nothing.
pub open spec fn fill_commands(
    rect: Rect,
    radii: [CornerRadius; 4],
    fill: Option<Fill>,
    line: GradientLine,
) -> Seq<CommandView> {
    match fill {
        Some(Fill::Solid(color)) => if color != 0 {
            seq![CommandView::SolidRect { rect, radii, color }]
        } else {
            Seq::empty()
        },
        Some(Fill::Gradient(gradient)) => seq![
            CommandView::LinearGradient {
                rect,
                radii,
                start: line.start,
                end: line.end,
                stops: placed_stops(gradient.stops@, line.positions@),
            },
        ],
        None => Seq::empty(),
    }
}

/// Paints a fill. The line has a position for each stop of a gradient.
pub fn gpu_fill(
    commands: &mut Vec<GpuCommand>,
    rect: Rect,
    radii: [CornerRadius; 4],
    fill: &Option<Fill>,
    line: &GradientLine,
)
    requires
        fill matches Some(Fill::Gradient(gradient)) ==> line.positions@.len()
            == gradient.stops@.len(),
    ensures
        command_views(final(commands)@) == command_views(old(commands)@) + fill_commands(
            rect,
            radii,
            *fill,
            *line,
        ),
{
    let ghost before = command_views(commands@);
    match fill {
        Some(Fill::Solid(color)) => {
            if *color != 0 {
                commands.push(GpuCommand::SolidRect { rect, radii, color: *color });
            }
        },
        Some(Fill::Gradient(gradient)) => {
            let mut stops: Vec<GradientStop> = Vec::new();
            let mut i: usize = 0;
            while i < gradient.stops.len()
                invariant
                    i <= gradient.stops@.len(),
                    line.positions@.len() == gradient.stops@.len(),
                    stops@ =~= placed_stops(gradient.stops@, line.positions@).take(i as int),
                decreases gradient.stops@.len() - i,
            {
                stops.push(
                    GradientStop { color: gradient.stops[i].color, position: line.positions[i] },
                );
                i = i + 1;
            }
            assert(stops@ =~= placed_stops(gradient.stops@, line.positions@));
            commands.push(
                GpuCommand::LinearGradient { rect, radii, start: line.start, end: line.end, stops },
            );
        },
        None => {},
    }
    assert(command_views(commands@) =~= before + fill_commands(rect, radii, *fill, *line));
}

/// The command of a box shadow whose lengths are the bits of physical pixels.
pub open spec fn shadow_paint(rect: Rect, radii: [CornerRadius; 4], shadow: Shadow) -> CommandView {
    CommandView::BoxShadow {
        rect,
        radii,
        offset: [shadow.dx, shadow.dy],
        blur: shadow.blur,
        spread: shadow.spread,
        color: shadow.color,
        inset: shadow.inset,
    }
}

/// The commands of the inner or the outer shadows: the first layer is painted
/// last, on top.
pub open spec fn shadow_commands(
    rect: Rect,
    radii: [CornerRadius; 4],
    shadows: Seq<Shadow>,
    inset: bool,
) -> Seq<CommandView>
    decreases shadows.len(),
{
    if shadows.len() == 0 {
        Seq::empty()
    } else {
        let under = shadow_commands(rect, radii, shadows.skip(1), inset);
        if shadows[0].inset == inset {
            under.push(shadow_paint(rect, radii, shadows[0]))
        } else {
            under
        }
    }
}

/// Paints the inner or the outer shadows of a box.
pub fn gpu_shadows(
    commands: &mut Vec<GpuCommand>,
    rect: Rect,
    radii: [CornerRadius; 4],
    shadows: &Vec<Shadow>,
    inset: bool,
)
    ensures
        command_views(final(commands)@) == command_views(old(commands)@) + shadow_commands(
            rect,
            radii,
            shadows@,
            inset,
        ),
{
    let ghost before = command_views(commands@);
    let mut left: usize = shadows.len();
    assert(shadows@.skip(left as int) =~= Seq::<Shadow>::empty());
    assert(before =~= before + shadow_commands(rect, radii, shadows@.skip(left as int), inset));
    while left > 0
        invariant
            left <= shadows@.len(),
            command_views(commands@) == before + shadow_commands(
                rect,
                radii,
                shadows@.skip(left as int),
                inset,
            ),
        decreases left,
    {
        let ghost so_far = command_views(commands@);
        left = left - 1;
        let shadow = shadows[left];
        assert(shadows@.skip(left as int).skip(1) =~= shadows@.skip(left + 1));
        assert(shadows@.skip(left as int)[0] == shadow);
        if shadow.inset == inset {
            commands.push(
                GpuCommand::BoxShadow {
                    rect,
                    radii,
                    offset: [shadow.dx, shadow.dy],
                    blur: shadow.blur,
                    spread: shadow.spread,
                    color: shadow.color,
                    inset: shadow.inset,
                },
            );
            let ghost painted = shadow_paint(rect, radii, shadow);
            assert(command_views(commands@) =~= so_far.push(painted));
            assert(so_far.push(painted) =~= before + shadow_commands(
                rect,
                radii,
                shadows@.skip(left as int),
                inset,
            ));
        }
    }
    assert(shadows@.skip(0) =~= shadows@);
}

/// The style of an optional side.
pub open spec fn side_style(side: Option<SidePaint>) -> BorderStyle {
    match side {
        Some(paint) => paint.style,
        None => BorderStyle::Absent,
    }
}

/// The color of an optional side.
pub open spec fn side_color(side: Option<SidePaint>) -> u32 {
    match side {
        Some(paint) => paint.color,
        None => 0,
    }
}

/// The width of an optional side.
pub open spec fn side_width(side: Option<SidePaint>, width: u32) -> u32 {
    match side {
        Some(_) => width,
        None => 0,
    }
}

/// What a border paints; without a side it paints nothing.
pub open spec fn border_commands(
    rect: Rect,
    radii: [CornerRadius; 4],
    sides: [Option<SidePaint>; 4],
    widths: [u32; 4],
) -> Seq<CommandView> {
    if sides[0] is None && sides[1] is None && sides[2] is None && sides[3] is None {
        Seq::empty()
    } else {
        seq![
            CommandView::Border {
                rect,
                radii,
                widths: [
                    side_width(sides[0], widths[0]),
                    side_width(sides[1], widths[1]),
                    side_width(sides[2], widths[2]),
                    side_width(sides[3], widths[3]),
                ],
                colors: [
                    side_color(sides[0]),
                    side_color(sides[1]),
                    side_color(sides[2]),
                    side_color(sides[3]),
                ],
                styles: [
                    side_style(sides[0]),
                    side_style(sides[1]),
                    side_style(sides[2]),
                    side_style(sides[3]),
                ],
            },
        ]
    }
}

fn side_parts(side: Option<SidePaint>, width: u32) -> (result: (u32, u32, BorderStyle))
    ensures
        result == (side_width(side, width), side_color(side), side_style(side)),
{
    match side {
        Some(paint) => (width, paint.color, paint.style),
        None => (0, 0, BorderStyle::Absent),
    }
}

/// Paints a border. Widths are the bits of physical pixels, and the sides stand
/// in the order top, right, bottom, left.
pub fn paint_border(
    commands: &mut Vec<GpuCommand>,
    rect: Rect,
    radii: [CornerRadius; 4],
    sides: [Option<SidePaint>; 4],
    widths: [u32; 4],
)
    ensures
        command_views(final(commands)@) == command_views(old(commands)@) + border_commands(
            rect,
            radii,
            sides,
            widths,
        ),
{
    let ghost before = command_views(commands@);
    if sides[0].is_some() || sides[1].is_some() || sides[2].is_some() || sides[3].is_some() {
        let top = side_parts(sides[0], widths[0]);
        let right = side_parts(sides[1], widths[1]);
        let bottom = side_parts(sides[2], widths[2]);
        let left = side_parts(sides[3], widths[3]);
        commands.push(
            GpuCommand::Border {
                rect,
                radii,
                widths: [top.0, right.0, bottom.0, left.0],
                colors: [top.1, right.1, bottom.1, left.1],
                styles: [top.2, right.2, bottom.2, left.2],
            },
        );
    }
    assert(command_views(commands@) =~= before + border_commands(rect, radii, sides, widths));
}

} // verus!
