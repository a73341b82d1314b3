//! Commands that paint text.

use vstd::prelude::*;
use crate::font::gpu::GpuTextRun;
use crate::gpu_list::{command_views, CommandView, Glyph, GpuCommand};

verus! {

/// A shadow under text; offsets and blur are the bits of physical pixels.
#[derive(Clone, Copy, Debug, PartialEq, Eq)]
pub struct RunShadow {
    pub color: u32,
    pub offset: [u32; 2],
    pub blur: u32,
}

/// The command of a shadow.
pub open spec fn shadow_command(texture: u32, shadow: RunShadow, glyphs: Seq<Glyph>) -> CommandView {
    CommandView::GlyphRun {
        texture_id: texture,
        color: shadow.color,
        offset: shadow.offset,
        blur: shadow.blur,
        glyphs,
    }
}

/// The commands of one run: its shadows from the last to the first, then the
/// glyphs themselves. A run without glyphs paints nothing.
pub open spec fn run_commands(
    texture: u32,
    color: u32,
    glyphs: Seq<Glyph>,
    shadows: Seq<RunShadow>,
) -> Seq<CommandView> {
    if glyphs.len() == 0 {
        Seq::empty()
    } else {
        Seq::new(
            shadows.len(),
            |i: int| shadow_command(texture, shadows[shadows.len() - 1 - i], glyphs),
        ).push(
            CommandView::GlyphRun {
                texture_id: texture,
                color,
                offset: [0u32, 0u32],
                blur: 0,
                glyphs,
            },
        )
    }
}

/// Paints one run over its shadows.
pub fn append_text_run(
    commands: &mut Vec<GpuCommand>,
    texture_id: u32,
    run: GpuTextRun,
    shadows: &Vec<RunShadow>,
)
    ensures
        command_views(final(commands)@) == command_views(old(commands)@) + run_commands(
            texture_id,
            run.color,
            run.glyphs@,
            shadows@,
        ),
{
    let ghost before = command_views(commands@);
    let ghost glyphs = run.glyphs@;
    if run.glyphs.len() == 0 {
        assert(before =~= before + run_commands(texture_id, run.color, glyphs, shadows@));
        return;
    }
    let ghost under = Seq::new(
        shadows@.len(),
        |i: int| shadow_command(texture_id, shadows@[shadows@.len() - 1 - i], glyphs),
    );
    let mut left: usize = shadows.len();
    assert(before =~= before + under.take(0));
    while left > 0
        invariant
            left <= shadows@.len(),
            glyphs == run.glyphs@,
            under == Seq::new(
                shadows@.len(),
                |i: int| shadow_command(texture_id, shadows@[shadows@.len() - 1 - i], glyphs),
            ),
            command_views(commands@) == before + under.take(shadows@.len() - left),
        decreases left,
    {
        left = left - 1;
        let shadow = shadows[left];
        let copy = vstd::slice::slice_to_vec(run.glyphs.as_slice());
        let ghost so_far = command_views(commands@);
        commands.push(
            GpuCommand::GlyphRun {
                texture_id,
                color: shadow.color,
                offset: shadow.offset,
                blur: shadow.blur,
                glyphs: copy,
            },
        );
        let ghost at = shadows@.len() - 1 - left;
        assert(command_views(commands@) =~= so_far.push(under[at as int]));
        assert(before + under.take(at + 1) =~= (before + under.take(at as int)).push(
            under[at as int],
        ));
    }
    let ghost so_far = command_views(commands@);
    assert(under.take(shadows@.len() as int) =~= under);
    commands.push(
        GpuCommand::GlyphRun {
            texture_id,
            color: run.color,
            offset: [0, 0],
            blur: 0,
            glyphs: run.glyphs,
        },
    );
    let ghost last = run_commands(texture_id, run.color, glyphs, shadows@).last();
    assert(command_views(commands@) =~= so_far.push(last));
    assert(command_views(commands@) =~= before + run_commands(
        texture_id,
        run.color,
        glyphs,
        shadows@,
    ));
}

} // verus!
