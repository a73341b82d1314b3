//! The last step of a frame: what was painted, what the frame before gave and
//! what changed become one frame.

use vstd::prelude::*;
use vstd::string::*;
use crate::font::gpu::{AtlasView, GlyphAtlas, ATLAS_WIDTH};
use crate::gpu_list::{
    command_views, CommandView, GpuCommand, GpuFrame, TextureFormat, TextureUpload,
};
use crate::input::{Editable, HitRegion};
use crate::paint::frame::{
    assign_atlas, damage_of, frame_damage, frame_reuse, has_text, with_atlas, FrameError, Textures,
};
use crate::paint::hit::PaintedHit;
use crate::paint::{foreign_view, foreign_views, hit_views, OutputView, RenderOutput};
use crate::retained::frame::{classified, classify_gpu_paint, GpuPaint, RetainedGpuFrame};
use crate::scene::ForeignLayer;

verus! {

fn copy_editable(field: &Option<Editable>) -> (result: Option<Editable>)
    ensures
        match (*field, result) {
            (Some(a), Some(b)) => {
                &&& b.value@ == a.value@
                &&& b.on_input == a.on_input
                &&& b.text_origin_x == a.text_origin_x
            },
            (None, None) => true,
            _ => false,
        },
{
    match field {
        Some(field) => Some(
            Editable {
                value: field.value.as_str().to_owned(),
                on_input: field.on_input,
                text_origin_x: field.text_origin_x,
            },
        ),
        None => None,
    }
}

fn copy_hit(hit: &PaintedHit) -> (result: PaintedHit)
    ensures
        result@ == hit@,
{
    let region = &hit.region;
    PaintedHit {
        region: HitRegion {
            node_id: region.node_id,
            parent_node_id: region.parent_node_id,
            left: region.left,
            top: region.top,
            right: region.right,
            bottom: region.bottom,
            click: region.click,
            double_click: region.double_click,
            context_menu: region.context_menu,
            pointer_down: region.pointer_down,
            pointer_up: region.pointer_up,
            pointer_move: region.pointer_move,
            pointer_enter: region.pointer_enter,
            pointer_leave: region.pointer_leave,
            wheel: region.wheel,
            key_down: region.key_down,
            editable: copy_editable(&region.editable),
            range: region.range,
            button: region.button,
            cursor: region.cursor,
        },
        window_group: hit.window_group,
        visible: hit.visible,
    }
}

fn copy_layer(layer: &ForeignLayer) -> (result: ForeignLayer)
    ensures
        foreign_view(result) == foreign_view(*layer),
{
    ForeignLayer {
        surface_id: layer.surface_id,
        configure_serial: layer.configure_serial,
        bounds: layer.bounds,
        clip: layer.clip,
        clip_masks: vstd::slice::slice_to_vec(layer.clip_masks.as_slice()),
        desktop_input: vstd::slice::slice_to_vec(layer.desktop_input.as_slice()),
        desktop_hit_start: layer.desktop_hit_start,
    }
}

impl RenderOutput {
    /// A second output with the same contents.
    pub fn copied(&self) -> (result: RenderOutput)
        ensures
            result@ == self@,
    {
        let mut foreign: Vec<ForeignLayer> = Vec::new();
        let mut i: usize = 0;
        while i < self.foreign.len()
            invariant
                i <= self.foreign@.len(),
                foreign@.len() == i,
                forall|k: int|
                    0 <= k < i ==> foreign_view(#[trigger] foreign@[k]) == foreign_view(
                        self.foreign@[k],
                    ),
            decreases self.foreign@.len() - i,
        {
            foreign.push(copy_layer(&self.foreign[i]));
            i = i + 1;
        }
        let mut hits: Vec<PaintedHit> = Vec::new();
        let mut j: usize = 0;
        while j < self.hits.len()
            invariant
                j <= self.hits@.len(),
                hits@.len() == j,
                forall|k: int| 0 <= k < j ==> (#[trigger] hits@[k])@ == self.hits@[k]@,
            decreases self.hits@.len() - j,
        {
            hits.push(copy_hit(&self.hits[j]));
            j = j + 1;
        }
        assert(foreign_views(foreign@) =~= foreign_views(self.foreign@));
        assert(hit_views(hits@) =~= hit_views(self.hits@));
        RenderOutput {
            foreign,
            windows: vstd::slice::slice_to_vec(self.windows.as_slice()),
            overlays: vstd::slice::slice_to_vec(self.overlays.as_slice()),
            hits,
            key_listener: self.key_listener,
            focused: self.focused,
            scrolling: vstd::slice::slice_to_vec(self.scrolling.as_slice()),
            damage: vstd::slice::slice_to_vec(self.damage.as_slice()),
        }
    }
}

/// `kept` remembers the frame `snapshot` with this output.
pub open spec fn keeps(
    kept: Option<RetainedGpuFrame>,
    snapshot: RetainedGpuFrame,
    output: OutputView,
) -> bool {
    &&& kept is Some
    &&& kept->0 == RetainedGpuFrame { output: (kept->0).output, ..snapshot }
    &&& (kept->0).output is Some
    &&& (kept->0).output->0@ == output
}

/// How a frame starts.
pub enum FrameStart {
    /// It is the previous frame again, and is complete.
    Reused(GpuFrame),
    /// It has to be painted this way.
    Paint(GpuPaint),
}

/// A frame that paints nothing and shows the previous one again.
pub open spec fn repeats(frame: GpuFrame, output: OutputView) -> bool {
    &&& frame.commands@.len() == 0
    &&& frame.uploads@.len() == 0
    &&& frame.output@ == output
    &&& frame.retired_textures@.len() == 0
    &&& frame.reuses_previous
    &&& !frame.paint_changed
}

/// Starts a frame. Where nothing visible changed, the previous frame is shown
/// again with its output, which the new frame is remembered with; it is an error
/// if that output is not known. Else nothing is remembered yet.
pub fn start_gpu_frame(
    retained: &mut Option<RetainedGpuFrame>,
    current: RetainedGpuFrame,
) -> (result: Result<FrameStart, FrameError>)
    ensures
        match result {
            Ok(FrameStart::Reused(frame)) => {
                &&& classified(*old(retained), current, GpuPaint::Reuse)
                &&& (old(retained)->0).output is Some
                &&& repeats(frame, (old(retained)->0).output->0@)
                &&& keeps(*final(retained), current, (old(retained)->0).output->0@)
            },
            Ok(FrameStart::Paint(paint)) => {
                &&& !(paint is Reuse)
                &&& classified(*old(retained), current, paint)
                &&& *final(retained) == *old(retained)
            },
            Err(error) => {
                &&& classified(*old(retained), current, GpuPaint::Reuse)
                &&& (old(retained)->0).output is None
                &&& error == FrameError::OutputGone
                &&& *final(retained) == *old(retained)
            },
        },
{
    let paint = classify_gpu_paint(retained.as_ref(), &current);
    match paint {
        GpuPaint::Reuse => {},
        other => {
            return Ok(FrameStart::Paint(other));
        },
    }
    let output = match retained {
        Some(frame) => match &frame.output {
            Some(output) => output.copied(),
            None => return Err(FrameError::OutputGone),
        },
        None => return Err(FrameError::OutputGone),
    };
    let mut current = current;
    current.output = Some(output.copied());
    *retained = Some(current);
    Ok(
        FrameStart::Reused(
            GpuFrame {
                commands: Vec::new(),
                uploads: Vec::new(),
                output,
                retired_textures: Vec::new(),
                reuses_previous: true,
                paint_changed: false,
            },
        ),
    )
}

/// What a pass over the scene painted.
pub struct Painted {
    pub commands: Vec<GpuCommand>,
    /// The textures of new images.
    pub uploads: Vec<TextureUpload>,
    pub output: RenderOutput,
}

/// The glyph atlas changed and has something in it.
pub open spec fn atlas_due(atlas: AtlasView) -> bool {
    atlas.dirty && atlas.y + atlas.row_height != 0
}

/// Nothing is packed.
pub open spec fn empty_atlas(atlas: AtlasView) -> bool {
    &&& atlas.placements.len() == 0
    &&& atlas.bytes.len() == 0
    &&& atlas.x == 0
    &&& atlas.y == 0
    &&& atlas.row_height == 0
    &&& !atlas.dirty
}

/// The upload of the glyph atlas.
pub open spec fn uploads_atlas(upload: TextureUpload, id: u32, atlas: AtlasView) -> bool {
    &&& upload.id == id
    &&& upload.size.width == ATLAS_WIDTH
    &&& upload.size.height == (atlas.y + atlas.row_height) as u32
    &&& upload.format == TextureFormat::R8
    &&& upload.bytes@ == atlas.bytes
}

/// The output of a painted frame: that of the pass, with the frame's damage.
pub open spec fn damaged(output: OutputView, paint: GpuPaint) -> OutputView {
    OutputView { damage: damage_of(paint), ..output }
}

/// Commands with the published atlas in all text.
pub open spec fn with_text(commands: Seq<CommandView>, atlas: Option<u32>) -> Seq<CommandView> {
    match atlas {
        Some(id) => Seq::new(commands.len(), |i: int| with_atlas(commands[i], id)),
        None => commands,
    }
}

/// The identities after a frame. A due atlas takes a new one.
pub open spec fn published(before: Textures, after: Textures, due: bool) -> bool {
    if due {
        &&& after.text == Some(before.next)
        &&& after.next == before.next + 1
        &&& after.images == before.images
    } else {
        after == before
    }
}

/// The frame that a painted pass gives.
pub open spec fn completes(
    frame: GpuFrame,
    paint: GpuPaint,
    painted: Painted,
    before: Textures,
    after: Textures,
    atlas: AtlasView,
) -> bool {
    &&& command_views(frame.commands@) == with_text(command_views(painted.commands@), after.text)
    &&& if atlas_due(atlas) {
        &&& frame.uploads@.len() == painted.uploads@.len() + 1
        &&& frame.uploads@.drop_last() == painted.uploads@
        &&& uploads_atlas(frame.uploads@.last(), before.next, atlas)
    } else {
        frame.uploads@ == painted.uploads@
    }
    &&& frame.output@ == damaged(painted.output@, paint)
    &&& frame.retired_textures@ == (match before.text {
        Some(id) if atlas_due(atlas) => seq![id],
        _ => Seq::empty(),
    })
    &&& frame.reuses_previous == !(paint is Full)
    &&& frame.paint_changed
}

/// Completes a painted frame. The frame is remembered with its output. A glyph
/// atlas that changed is uploaded under a new identity, and the one before is
/// retired; an atlas that cannot be uploaded is lost. All text then refers to the
/// published atlas.
pub fn finish_gpu_frame(
    paint: GpuPaint,
    painted: Painted,
    snapshot: RetainedGpuFrame,
    retained: &mut Option<RetainedGpuFrame>,
    textures: &mut Textures,
    atlas: &mut GlyphAtlas,
) -> (result: Result<GpuFrame, FrameError>)
    requires
        !(paint is Reuse),
        old(textures).wf(),
        old(atlas)@.wf(),
    ensures
        final(textures).wf(),
        final(atlas)@.wf(),
        keeps(*final(retained), snapshot, damaged(painted.output@, paint)),
        ({
            let due = atlas_due(old(atlas)@);
            let exhausted = due && old(textures).next == u32::MAX;
            let textless = !due && old(textures).text is None && has_text(
                command_views(painted.commands@),
            );
            &&& result is Err <==> exhausted || textless
            &&& result matches Err(error) ==> error == (if exhausted {
                FrameError::TexturesExhausted
            } else {
                FrameError::NoTextAtlas
            })
            &&& if exhausted {
                *final(textures) == *old(textures) && empty_atlas(final(atlas)@)
            } else {
                published(*old(textures), *final(textures), due) && final(atlas)@ == (AtlasView {
                    dirty: false,
                    ..old(atlas)@
                })
            }
            &&& result matches Ok(frame) ==> completes(
                frame,
                paint,
                painted,
                *old(textures),
                *final(textures),
                old(atlas)@,
            )
        }),
{
    let ghost given = painted;
    let ghost views = command_views(painted.commands@);
    let mut output = painted.output;
    output.damage = frame_damage(paint);
    let mut snapshot = snapshot;
    snapshot.output = Some(output.copied());
    *retained = Some(snapshot);
    let mut uploads = painted.uploads;
    let mut retired_textures: Vec<u32> = Vec::new();
    let texture = if atlas.dirty() {
        atlas.upload()
    } else {
        None
    };
    if let Some((size, bytes)) = texture {
        let id: u32 = textures.next;
        match textures.publish_text(true) {
            Ok(retired) => {
                uploads.push(TextureUpload { id, size, format: TextureFormat::R8, bytes });
                if let Some(old_id) = retired {
                    retired_textures.push(old_id);
                }
            },
            Err(error) => {
                *atlas = GlyphAtlas::new();
                return Err(error);
            },
        }
    }
    atlas.mark_clean();
    assert(atlas_due(old(atlas)@) ==> uploads@.drop_last() =~= given.uploads@);
    let commands = match assign_atlas(painted.commands, textures.text) {
        Ok(commands) => commands,
        Err(error) => return Err(error),
    };
    assert(command_views(commands@) =~= with_text(views, textures.text));
    let (reuses_previous, paint_changed) = frame_reuse(paint);
    Ok(GpuFrame { commands, uploads, output, retired_textures, reuses_previous, paint_changed })
}

/// A frame that is shown again hands out what the painted frame before handed
/// out.
pub proof fn repeated_frames_keep_their_output(
    painted: GpuFrame,
    kept: Option<RetainedGpuFrame>,
    snapshot: RetainedGpuFrame,
    repeated: GpuFrame,
)
    requires
        keeps(kept, snapshot, painted.output@),
        repeats(repeated, (kept->0).output->0@),
    ensures
        repeated.output@ == painted.output@,
        repeated.commands@.len() == 0,
        repeated.reuses_previous,
        !repeated.paint_changed,
{
}

} // verus!
