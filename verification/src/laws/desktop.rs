//! How the desktop is stacked and how frames are handed over.

use vstd::prelude::*;
use crate::gpu_list::{chunk_list, CommandView};
use crate::paint::frame::{damage_of, image_texture, Textures};
use crate::paint::hit::logical_edge;
use crate::paint::join::{atlas_due, completes, published, with_text, Painted};
use crate::gpu_list::{command_views, GpuFrame, TextureFormat};
use crate::font::gpu::AtlasView;
use crate::rect::{Rect, Size};
use crate::retained::frame::GpuPaint;
use crate::scene::{
    all_window_nodes, chain_of, chains_fit, desktop_nodes, full_rect, layer_from, overlay_nodes,
    window_from, window_nodes, ForeignLayer, NodeView, Overlay, SceneNodeKind, WindowFrame,
};

verus! {

/// The document lies under everything: it covers the screen, takes the input and
/// carries the damage.
pub proof fn the_document_lies_at_the_bottom(
    physical: Size,
    foreign: Seq<ForeignLayer>,
    windows: Seq<WindowFrame>,
    overlays: Seq<Overlay>,
    damage: Seq<Rect>,
    limit: int,
)
    ensures
        ({
            let nodes = desktop_nodes(physical, foreign, windows, overlays, damage, limit);
            let screen = Rect { x: 0, y: 0, width: physical.width, height: physical.height };
            &&& nodes.len() >= 1 + windows.len() + overlays.len()
            &&& nodes[0].kind == SceneNodeKind::DisplayList
            &&& nodes[0].window_group == 0
            &&& nodes[0].source_id == 0
            &&& nodes[0].bounds == screen
            &&& nodes[0].clip == screen
            &&& nodes[0].clip_masks.len() == 0
            &&& nodes[0].opaque == Some(screen)
            &&& nodes[0].input == seq![screen]
            &&& nodes[0].damage == damage
            &&& forall|i: int| 0 < i < nodes.len() ==> (#[trigger] nodes[i]).damage.len() == 0
        }),
{
    let full = full_rect(physical);
    let nodes = desktop_nodes(physical, foreign, windows, overlays, damage, limit);
    let middle = all_window_nodes(full, windows, foreign, limit, windows.len() as int);
    windows_carry_no_damage(full, windows, foreign, limit, windows.len() as int);
    assert forall|i: int| 0 < i < nodes.len() implies (#[trigger] nodes[i]).damage.len() == 0 by {
        if i < 1 + middle.len() {
            assert(nodes[i] == middle[i - 1]);
        } else {
            assert(nodes[i] == overlay_nodes(full, overlays)[i - 1 - middle.len()]);
        }
    }
}

proof fn windows_carry_no_damage(
    full: Rect,
    windows: Seq<WindowFrame>,
    foreign: Seq<ForeignLayer>,
    limit: int,
    n: int,
)
    requires
        0 <= n <= windows.len(),
    ensures
        all_window_nodes(full, windows, foreign, limit, n).len() >= n,
        forall|i: int|
            0 <= i < all_window_nodes(full, windows, foreign, limit, n).len() ==> (
            #[trigger] all_window_nodes(full, windows, foreign, limit, n)[i]).damage.len() == 0,
    decreases n,
{
    if n > 0 {
        windows_carry_no_damage(full, windows, foreign, limit, n - 1);
        let before = all_window_nodes(full, windows, foreign, limit, n - 1);
        let own = window_nodes(full, windows, foreign, limit, n - 1);
        let all = all_window_nodes(full, windows, foreign, limit, n);
        assert(all == before + own);
        assert(own.len() >= 1);
        assert forall|i: int| 0 <= i < all.len() implies (#[trigger] all[i]).damage.len() == 0 by {
            if i < before.len() {
                assert(all[i] == before[i]);
            } else {
                assert(all[i] == own[i - before.len()]);
            }
        }
    }
}

/// Overlays lie over everything else, each over the ones before it. An overlay
/// shows the document within its rectangle and shape, and takes the input there.
pub proof fn overlays_lie_on_top(
    physical: Size,
    foreign: Seq<ForeignLayer>,
    windows: Seq<WindowFrame>,
    overlays: Seq<Overlay>,
    damage: Seq<Rect>,
    limit: int,
    i: int,
)
    requires
        0 <= i < overlays.len(),
    ensures
        ({
            let nodes = desktop_nodes(physical, foreign, windows, overlays, damage, limit);
            let node = nodes[nodes.len() - overlays.len() + i];
            &&& node.kind == SceneNodeKind::DisplayList
            &&& node.window_group == 0
            &&& node.source_id == 0
            &&& node.bounds == nodes[0].bounds
            &&& node.clip == overlays[i].rect
            &&& node.clip_masks == seq![overlays[i].clip_mask]
            &&& node.input == seq![overlays[i].rect]
            &&& node.opaque is None
        }),
{
    let full = full_rect(physical);
    let nodes = desktop_nodes(physical, foreign, windows, overlays, damage, limit);
    assert(nodes[nodes.len() - overlays.len() + i] == overlay_nodes(full, overlays)[i]);
}

proof fn the_first_is_found(foreign: Seq<ForeignLayer>, surface: u32, from: int, at: int)
    requires
        0 <= from <= at < foreign.len(),
        foreign[at].surface_id == surface,
        forall|k: int| from <= k < at ==> (#[trigger] foreign[k]).surface_id != surface,
    ensures
        layer_from(foreign, surface, from) == Some(at),
    decreases at - from,
{
    if from < at {
        the_first_is_found(foreign, surface, from + 1, at);
    }
}

proof fn the_first_window_is_found(windows: Seq<WindowFrame>, surface: u32, from: int, at: int)
    requires
        0 <= from <= at < windows.len(),
        windows[at].surface_id == surface,
        forall|k: int| from <= k < at ==> (#[trigger] windows[k]).surface_id != surface,
    ensures
        window_from(windows, surface, from) == Some(windows[at]),
    decreases at - from,
{
    if from < at {
        the_first_window_is_found(windows, surface, from + 1, at);
    }
}

proof fn nothing_is_found(foreign: Seq<ForeignLayer>, surface: u32, from: int)
    requires
        0 <= from,
        forall|k: int| from <= k < foreign.len() ==> (#[trigger] foreign[k]).surface_id != surface,
    ensures
        layer_from(foreign, surface, from) is None,
    decreases foreign.len() - from,
{
    if from < foreign.len() {
        nothing_is_found(foreign, surface, from + 1);
    }
}

/// A window whose client has no surface shows its frame alone.
pub proof fn windows_without_clients_show_their_frame(
    full: Rect,
    windows: Seq<WindowFrame>,
    foreign: Seq<ForeignLayer>,
    limit: int,
    at: int,
)
    requires
        0 <= at < windows.len(),
        forall|k: int|
            0 <= k < foreign.len() ==> (#[trigger] foreign[k]).surface_id != windows[at].surface_id,
    ensures
        window_nodes(full, windows, foreign, limit, at).len() == 1,
        window_nodes(full, windows, foreign, limit, at)[0].clip == windows[at].frame,
{
    nothing_is_found(foreign, windows[at].surface_id, 0);
}

proof fn windows_stand_one_after_another(
    full: Rect,
    windows: Seq<WindowFrame>,
    foreign: Seq<ForeignLayer>,
    limit: int,
    at: int,
    n: int,
    k: int,
)
    requires
        0 <= at < n <= windows.len(),
        0 <= k < window_nodes(full, windows, foreign, limit, at).len(),
    ensures
        ({
            let before = all_window_nodes(full, windows, foreign, limit, at);
            let all = all_window_nodes(full, windows, foreign, limit, n);
            &&& before.len() + k < all.len()
            &&& all[before.len() + k] == window_nodes(full, windows, foreign, limit, at)[k]
        }),
    decreases n,
{
    if n > at + 1 {
        windows_stand_one_after_another(full, windows, foreign, limit, at, n - 1, k);
    }
}

/// The window's frame is at a place, its client over it, and what the document
/// keeps over the client over that.
pub open spec fn stands_at(
    nodes: Seq<NodeView>,
    at: int,
    window: WindowFrame,
    layer: ForeignLayer,
) -> bool {
    let frame = nodes[at];
    let client = nodes[at + 1];
    let input = nodes[at + 2];
    let masks = layer.clip_masks@;
    &&& frame.kind == SceneNodeKind::DisplayList
    &&& frame.window_group == window.surface_id
    &&& frame.clip == window.frame
    &&& frame.clip_masks == seq![window.clip_mask]
    &&& frame.input == seq![window.frame]
    &&& client.kind == SceneNodeKind::ForeignSurface
    &&& client.window_group == window.surface_id
    &&& client.source_id == layer.surface_id
    &&& client.configure_serial == layer.configure_serial
    &&& client.bounds == layer.bounds
    &&& client.clip == layer.clip
    &&& client.opaque == Some(layer.bounds)
    &&& client.input == seq![layer.bounds]
    &&& client.clip_masks == if masks.contains(window.clip_mask) {
        masks
    } else {
        masks.push(window.clip_mask)
    }
    &&& layer.desktop_input@.len() > 0 ==> {
        &&& input.kind == SceneNodeKind::DisplayList
        &&& input.window_group == window.surface_id
        &&& input.input == layer.desktop_input@
        &&& input.clip.width == 0
        &&& input.clip.height == 0
    }
}

/// A window shows the document within its frame and shape. The surface of its
/// client lies directly over that, and what the document keeps for itself over
/// the client lies directly over the client. The next window begins above them.
pub proof fn clients_lie_in_their_windows(
    physical: Size,
    foreign: Seq<ForeignLayer>,
    windows: Seq<WindowFrame>,
    overlays: Seq<Overlay>,
    damage: Seq<Rect>,
    limit: int,
    w: int,
    c: int,
)
    requires
        0 <= w < windows.len(),
        0 <= c < foreign.len(),
        foreign[c].surface_id == windows[w].surface_id,
        forall|k: int| 0 <= k < w ==> (#[trigger] windows[k]).surface_id != windows[w].surface_id,
        forall|k: int| 0 <= k < c ==> (#[trigger] foreign[k]).surface_id != foreign[c].surface_id,
        chains_fit(windows, foreign, limit),
    ensures
        ({
            let nodes = desktop_nodes(physical, foreign, windows, overlays, damage, limit);
            exists|at: int|
                w < at < nodes.len() - overlays.len() - 1 && #[trigger] stands_at(
                    nodes,
                    at,
                    windows[w],
                    foreign[c],
                )
        }),
{
    let full = full_rect(physical);
    let n = windows.len() as int;
    let nodes = desktop_nodes(physical, foreign, windows, overlays, damage, limit);
    let all = all_window_nodes(full, windows, foreign, limit, n);
    let own = window_nodes(full, windows, foreign, limit, w);
    the_first_is_found(foreign, windows[w].surface_id, 0, c);
    the_first_window_is_found(windows, foreign[c].surface_id, 0, w);
    assert(chain_of(
        foreign[c].clip_masks@,
        window_from(windows, foreign[c].surface_id, 0),
        limit,
    ) is Some);
    windows_carry_no_damage(full, windows, foreign, limit, w);
    let before = all_window_nodes(full, windows, foreign, limit, w).len() as int;
    windows_stand_one_after_another(full, windows, foreign, limit, w, n, 0);
    windows_stand_one_after_another(full, windows, foreign, limit, w, n, 1);
    let at = 1 + before;
    assert(nodes[at] == all[before] && all[before] == own[0]);
    assert(nodes[at + 1] == all[before + 1] && all[before + 1] == own[1]);
    if foreign[c].desktop_input@.len() > 0 {
        windows_stand_one_after_another(full, windows, foreign, limit, w, n, 2);
        assert(nodes[at + 2] == all[before + 2] && all[before + 2] == own[2]);
    }
    assert(stands_at(nodes, at, windows[w], foreign[c]));
}

/// Of two windows, the nodes of the later one lie over those of the earlier one.
pub proof fn later_windows_lie_above(
    full: Rect,
    windows: Seq<WindowFrame>,
    foreign: Seq<ForeignLayer>,
    limit: int,
    a: int,
    b: int,
)
    requires
        0 <= a < b < windows.len(),
    ensures
        ({
            let all = all_window_nodes(full, windows, foreign, limit, windows.len() as int);
            exists|i: int, j: int|
                {
                    &&& 0 <= i < j < all.len()
                    &&& (#[trigger] all[i]).clip == windows[a].frame
                    &&& all[i].window_group == windows[a].surface_id
                    &&& (#[trigger] all[j]).clip == windows[b].frame
                    &&& all[j].window_group == windows[b].surface_id
                }
        }),
{
    let n = windows.len() as int;
    let all = all_window_nodes(full, windows, foreign, limit, n);
    windows_stand_one_after_another(full, windows, foreign, limit, a, n, 0);
    windows_stand_one_after_another(full, windows, foreign, limit, b, n, 0);
    windows_stand_one_after_another(full, windows, foreign, limit, a, b, 0);
    let i = all_window_nodes(full, windows, foreign, limit, a).len() as int;
    let j = all_window_nodes(full, windows, foreign, limit, b).len() as int;
    assert(all[i].clip == windows[a].frame);
    assert(all[j].clip == windows[b].frame);
}

/// Every chunk of an upload starts where the one before it ends; the first starts
/// at the beginning.
pub proof fn chunks_follow_each_other(length: int, size: int, count: int, i: int)
    requires
        0 < size,
        0 <= i < count,
        0 <= length <= u32::MAX,
        (count - 1) * size < length <= count * size,
    ensures
        chunk_list(length, size, count).len() == count,
        chunk_list(length, size, count)[0].offset == 0,
        i + 1 < count ==> chunk_list(length, size, count)[i + 1].offset == chunk_list(
            length,
            size,
            count,
        )[i].offset + chunk_list(length, size, count)[i].length,
        chunk_list(length, size, count)[count - 1].offset + chunk_list(length, size, count)[count
            - 1].length == length,
        0 < chunk_list(length, size, count)[i].length <= size,
{
    assert(0 * size == 0);
    assert(i * size >= 0 && i * size <= (count - 1) * size && i * size + size == (i + 1) * size)
        by (nonlinear_arith)
        requires
            0 <= i < count,
            0 < size,
    ;
    assert((count - 1) * size + size == count * size) by (nonlinear_arith);
    assert((count - 1) * size >= 0) by (nonlinear_arith)
        requires
            0 < count,
            0 < size,
    ;
    if i + 1 < count {
        assert((i + 1) * size <= (count - 1) * size && (i + 1) * size + size == (i + 2) * size
            && (i + 1) * size >= 0) by (nonlinear_arith)
            requires
                0 <= i,
                i + 1 < count,
                0 < size,
        ;
    }
}

/// Text takes the texture of the published glyphs; nothing else of a command
/// changes, and no other command does.
pub proof fn text_takes_the_published_glyphs(commands: Seq<CommandView>, atlas: u32, i: int)
    requires
        0 <= i < commands.len(),
    ensures
        with_text(commands, None) == commands,
        with_text(commands, Some(atlas)).len() == commands.len(),
        !(commands[i] is GlyphRun) ==> with_text(commands, Some(atlas))[i] == commands[i],
        commands[i] matches CommandView::GlyphRun { texture_id, color, offset, blur, glyphs }
            ==> with_text(commands, Some(atlas))[i] == (CommandView::GlyphRun {
            texture_id: atlas,
            color,
            offset,
            blur,
            glyphs,
        }),
{
}

/// A frame is told to repaint what was painted, and nothing if nothing was.
pub proof fn damage_is_what_was_painted(paint: GpuPaint)
    ensures
        paint is Reuse ==> damage_of(paint).len() == 0,
        paint matches GpuPaint::Partial(rect) ==> damage_of(paint) == seq![rect.placed()],
        paint matches GpuPaint::Full(rect) ==> damage_of(paint) == seq![rect.placed()],
{
}

/// Glyphs that changed are uploaded under a name that was never used, the old
/// texture is given up, and text then shows the new one. Glyphs that did not
/// change are not uploaded again.
pub proof fn new_glyphs_replace_the_old(
    frame: GpuFrame,
    paint: GpuPaint,
    painted: Painted,
    before: Textures,
    after: Textures,
    atlas: AtlasView,
)
    requires
        before.wf(),
        published(before, after, atlas_due(atlas)),
        completes(frame, paint, painted, before, after, atlas),
        atlas.y + atlas.row_height <= u32::MAX,
    ensures
        atlas.dirty && atlas.y + atlas.row_height > 0 ==> {
            let upload = frame.uploads@.last();
            &&& frame.uploads@.len() == painted.uploads@.len() + 1
            &&& upload.bytes@ == atlas.bytes
            &&& upload.size.height == atlas.y + atlas.row_height
            &&& upload.format == TextureFormat::R8
            &&& after.text == Some(upload.id)
            &&& before.text != Some(upload.id)
            &&& forall|k: int|
                0 <= k < before.images@.len() ==> (#[trigger] before.images@[k]).1 != upload.id
            &&& before.text matches Some(old_text) ==> frame.retired_textures@ == seq![old_text]
        },
        !atlas.dirty ==> frame.uploads@ == painted.uploads@ && after == before
            && frame.retired_textures@.len() == 0,
        forall|i: int|
            0 <= i < frame.commands@.len() ==> ((#[trigger] command_views(frame.commands@)[i])
                matches CommandView::GlyphRun { texture_id, .. } ==> after.text is None
                || after.text == Some(texture_id)),
        frame.reuses_previous <==> !(paint is Full),
{
    assert(command_views(frame.commands@).len() == frame.commands@.len());
}

/// A region of physical pixels answers at exactly the logical points that lie in
/// it: an edge between two points goes to the next one.
pub proof fn edges_go_to_the_next_point(physical: usize)
    requires
        physical <= 0x7fff_ffff,
    ensures
        2 * logical_edge(physical) >= physical,
        2 * logical_edge(physical) <= physical + 1,
{
}

/// A path keeps the texture that was stored for it last.
pub proof fn the_last_texture_of_a_path_counts(images: Seq<(String, u32)>, path: String, id: u32)
    ensures
        image_texture(images.push((path, id)), path@) == Some(id),
        forall|other: Seq<char>|
            other != path@ ==> #[trigger] image_texture(images.push((path, id)), other)
                == image_texture(images, other),
        image_texture(Seq::empty(), path@) is None,
{
    assert(images.push((path, id)).drop_last() =~= images);
}

} // verus!
