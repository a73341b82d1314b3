//! One frame: both phases of the walk, and what follows from the picture.

use std::collections::HashMap;
use vstd::prelude::*;
use vstd::string::*;
use crate::gpu_list::{command_views, CommandView, GpuCommand};
use crate::image::Image;
use crate::input::CURSOR_DEFAULT;
use crate::paint::hit::{HitView, PaintedHit};
use crate::paint::order::{order_of, stable_order};
use crate::paint::{
    foreign_view, foreign_views, hit_views, in_turn, paint_in_turn, paint_list, paint_views,
    ForeignView, GpuWalk, OutputView, PaintNode, PaintPhase, PaintView, RenderOutput,
    StackedOverlay, Step, WalkView,
};
use crate::rect::Rect;
use crate::retained::frame::{entry, GpuPaint, ScrollOffset};
use crate::scene::ForeignLayer;
use crate::text::same;
use crate::uapi::bytes::{pack_words, packed};

verus! {

broadcast use vstd::std_specs::hash::group_hash_axioms;

/// The walk at the root of the scene.
pub open spec fn root_walk(phase: PaintPhase) -> WalkView {
    WalkView {
        parent_node_id: None,
        window_group: None,
        clip: None,
        clip_masks: Seq::empty(),
        hits_enabled: true,
        phase,
        fixed_context: false,
    }
}

/// An output without anything in it.
pub open spec fn empty_output_view(focused: Option<u64>) -> OutputView {
    OutputView {
        foreign: Seq::empty(),
        windows: Seq::empty(),
        overlays: Seq::empty(),
        hits: Seq::empty(),
        key_listener: None,
        focused,
        scrolling: Seq::empty(),
        damage: Seq::empty(),
    }
}

fn empty_output(focused: Option<u64>) -> (result: RenderOutput)
    ensures
        result@ == empty_output_view(focused),
{
    let result = RenderOutput {
        foreign: Vec::new(),
        windows: Vec::new(),
        overlays: Vec::new(),
        hits: Vec::new(),
        key_listener: None,
        focused,
        scrolling: Vec::new(),
        damage: Vec::new(),
    };
    assert(result@.foreign =~= Seq::empty() && result@.windows =~= Seq::empty()
        && result@.overlays =~= Seq::empty() && result@.hits =~= Seq::empty()
        && result@.scrolling =~= Seq::empty() && result@.damage =~= Seq::empty());
    result
}

fn start_walk(phase: PaintPhase) -> (result: GpuWalk)
    ensures
        result@ == root_walk(phase),
{
    let result = GpuWalk {
        parent_node_id: None,
        window_group: None,
        clip: None,
        clip_masks: Vec::new(),
        hits_enabled: true,
        phase,
        fixed_context: false,
    };
    assert(result@.clip_masks =~= Seq::empty());
    result
}

/// The walk over all roots in one phase.
pub open spec fn phase_of(roots: Seq<PaintView>, phase: PaintPhase, out: OutputView) -> (
    Seq<Step>,
    OutputView,
) {
    paint_list(roots, in_turn(roots.len()), roots.len() as int, false, root_walk(phase), out)
}

/// The whole walk: the document, then fixed chrome.
pub open spec fn walked(roots: Seq<PaintView>, focused: Option<u64>) -> (Seq<Step>, OutputView) {
    let document = phase_of(roots, PaintPhase::Document, empty_output_view(focused));
    let chrome = phase_of(roots, PaintPhase::Fixed, document.1);
    (document.0 + chrome.0, chrome.1)
}

/// The region takes pointer input by itself, or shows another cursor.
pub open spec fn takes_pointer(hit: HitView) -> bool {
    ||| hit.pointer_down is Some
    ||| hit.pointer_move is Some
    ||| hit.pointer_up is Some
    ||| hit.click is Some
    ||| hit.double_click is Some
    ||| hit.context_menu is Some
    ||| hit.wheel is Some
    ||| hit.cursor != CURSOR_DEFAULT
}

/// The part of a window's chrome over its client that the desktop wants input
/// for: regions of the window painted after the client.
pub open spec fn desktop_input_of(hits: Seq<HitView>, start: int, surface: u32, n: int) -> Seq<Rect>
    decreases n - start,
{
    if n <= start || n <= 0 {
        Seq::empty()
    } else {
        let before = desktop_input_of(hits, start, surface, n - 1);
        let hit = hits[n - 1];
        let rect = hit.visible.placed();
        if hit.window_group == Some(surface) && takes_pointer(hit) && rect.width > 0 && rect.height
            > 0 {
            before.push(rect)
        } else {
            before
        }
    }
}

/// The output with its overlays in stacking order and its clients' chrome known.
pub open spec fn settled(out: OutputView) -> OutputView {
    let keys = Seq::new(out.overlays.len(), |i: int| out.overlays[i].z_index);
    OutputView {
        overlays: Seq::new(out.overlays.len(), |i: int| out.overlays[order_of(keys)[i]]),
        foreign: Seq::new(
            out.foreign.len(),
            |i: int|
                ForeignView {
                    desktop_input: desktop_input_of(
                        out.hits,
                        out.foreign[i].desktop_hit_start as int,
                        out.foreign[i].surface_id,
                        out.hits.len() as int,
                    ),
                    ..out.foreign[i]
                },
        ),
        ..out
    }
}

fn hit_takes_pointer(hit: &PaintedHit) -> (result: bool)
    ensures
        result == takes_pointer(hit@),
{
    let region = &hit.region;
    region.pointer_down.is_some() || region.pointer_move.is_some() || region.pointer_up.is_some()
        || region.click.is_some() || region.double_click.is_some() || region.context_menu.is_some()
        || region.wheel.is_some() || region.cursor != CURSOR_DEFAULT
}

fn desktop_input(hits: &Vec<PaintedHit>, start: usize, surface: u32) -> (result: Vec<Rect>)
    ensures
        result@ == desktop_input_of(hit_views(hits@), start as int, surface, hits@.len() as int),
{
    let ghost all = hit_views(hits@);
    let mut rects: Vec<Rect> = Vec::new();
    assert(rects@ =~= Seq::empty());
    let mut i: usize = start;
    if start > hits.len() {
        return rects;
    }
    while i < hits.len()
        invariant
            start <= i <= hits@.len(),
            all == hit_views(hits@),
            rects@ == desktop_input_of(all, start as int, surface, i as int),
        decreases hits@.len() - i,
    {
        let hit = &hits[i];
        assert(all[i as int] == hit@);
        let rect = hit.visible.display_rect();
        let same_group = match hit.window_group {
            Some(group) => group == surface,
            None => false,
        };
        if same_group && hit_takes_pointer(hit) && rect.width > 0 && rect.height > 0 {
            rects.push(rect);
        }
        i = i + 1;
    }
    rects
}

fn settle(out: RenderOutput) -> (result: RenderOutput)
    ensures
        result@ == settled(out@),
{
    let mut out = out;
    let ghost given = out@;
    let mut keys: Vec<i32> = Vec::new();
    let mut i: usize = 0;
    while i < out.overlays.len()
        invariant
            i <= out.overlays@.len(),
            keys@.len() == i,
            forall|k: int| 0 <= k < i ==> #[trigger] keys@[k] == out.overlays@[k].z_index,
        decreases out.overlays@.len() - i,
    {
        keys.push(out.overlays[i].z_index);
        i = i + 1;
    }
    assert(keys@ =~= Seq::new(given.overlays.len(), |k: int| given.overlays[k].z_index));
    let order = stable_order(&keys);
    let ghost turns = order_of(keys@);
    let mut overlays: Vec<StackedOverlay> = Vec::new();
    let mut j: usize = 0;
    while j < order.len()
        invariant
            j <= order@.len(),
            order@.len() == out.overlays@.len(),
            forall|k: int| 0 <= k < order@.len() ==> (#[trigger] order@[k]) < out.overlays@.len(),
            overlays@.len() == j,
            forall|k: int|
                0 <= k < j ==> #[trigger] overlays@[k] == out.overlays@[order@[k] as int],
        decreases order@.len() - j,
    {
        overlays.push(out.overlays[order[j]]);
        j = j + 1;
    }
    assert forall|k: int| 0 <= k < order@.len() implies #[trigger] turns[k] == order@[k] by {
        assert(Seq::new(order@.len(), |i: int| order@[i] as int)[k] == order@[k]);
    }
    assert(overlays@ =~= settled(given).overlays);
    let mut foreign: Vec<ForeignLayer> = Vec::new();
    let mut f: usize = 0;
    while f < out.foreign.len()
        invariant
            f <= out.foreign@.len(),
            foreign@.len() == f,
            given.hits == hit_views(out.hits@),
            given.foreign == foreign_views(out.foreign@),
            forall|k: int|
                0 <= k < f ==> foreign_view(#[trigger] foreign@[k]) == settled(given).foreign[k],
        decreases out.foreign@.len() - f,
    {
        let layer = &out.foreign[f];
        assert(given.foreign[f as int] == foreign_view(*layer));
        let made = ForeignLayer {
            surface_id: layer.surface_id,
            configure_serial: layer.configure_serial,
            bounds: layer.bounds,
            clip: layer.clip,
            clip_masks: vstd::slice::slice_to_vec(layer.clip_masks.as_slice()),
            desktop_input: desktop_input(&out.hits, layer.desktop_hit_start, layer.surface_id),
            desktop_hit_start: layer.desktop_hit_start,
        };
        assert(foreign_view(made) == settled(given).foreign[f as int]);
        foreign.push(made);
        f = f + 1;
    }
    assert(foreign_views(foreign@) =~= settled(given).foreign);
    out.overlays = overlays;
    out.foreign = foreign;
    out
}

/// Walks a scene in both phases.
pub fn walk_scene(roots: &Vec<PaintNode>, focused: Option<u64>) -> (result: (
    Vec<Step>,
    RenderOutput,
))
    ensures
        result.0@ == walked(paint_views(roots@), focused).0,
        result.1@ == settled(walked(paint_views(roots@), focused).1),
{
    proof {
        crate::paint::paint_views_in_order(roots@);
    }
    let mut steps: Vec<Step> = Vec::new();
    let mut out = empty_output(focused);
    let ghost start = steps@;
    let document = start_walk(PaintPhase::Document);
    paint_in_turn(roots, &document, &mut steps, &mut out);
    let chrome = start_walk(PaintPhase::Fixed);
    paint_in_turn(roots, &chrome, &mut steps, &mut out);
    assert(steps@ =~= walked(paint_views(roots@), focused).0);
    (steps, settle(out))
}

/// The damage of a frame.
pub open spec fn damage_of(paint: GpuPaint) -> Seq<Rect> {
    match paint {
        GpuPaint::Reuse => Seq::empty(),
        GpuPaint::Partial(rect) => seq![rect.placed()],
        GpuPaint::Full(rect) => seq![rect.placed()],
    }
}

/// The damage of a frame.
pub fn frame_damage(paint: GpuPaint) -> (result: Vec<Rect>)
    ensures
        result@ == damage_of(paint),
{
    let mut damage: Vec<Rect> = Vec::new();
    match paint {
        GpuPaint::Reuse => {},
        GpuPaint::Partial(rect) => damage.push(rect.display_rect()),
        GpuPaint::Full(rect) => damage.push(rect.display_rect()),
    }
    assert(damage@ =~= damage_of(paint));
    damage
}

/// Whether a frame builds on the previous paint, and whether it paints at all.
pub fn frame_reuse(paint: GpuPaint) -> (result: (bool, bool))
    ensures
        result.0 == !(paint is Full),
        result.1 == !(paint is Reuse),
{
    match paint {
        GpuPaint::Reuse => (true, false),
        GpuPaint::Partial(_) => (true, true),
        GpuPaint::Full(_) => (false, true),
    }
}

/// The offsets of containers that can still be scrolled.
pub fn retain_scrolls(offsets: &HashMap<u64, ScrollOffset>, scrolling: &Vec<u64>) -> (result: HashMap<
    u64,
    ScrollOffset,
>)
    ensures
        forall|id: u64| #[trigger]
            entry(result@, id) == (if scrolling@.contains(id) {
                entry(offsets@, id)
            } else {
                None
            }),
{
    let mut kept: HashMap<u64, ScrollOffset> = HashMap::new();
    let mut i: usize = 0;
    while i < scrolling.len()
        invariant
            i <= scrolling@.len(),
            forall|id: u64| #[trigger]
                entry(kept@, id) == (if scrolling@.take(i as int).contains(id) {
                    entry(offsets@, id)
                } else {
                    None
                }),
        decreases scrolling@.len() - i,
    {
        let id: u64 = scrolling[i];
        let ghost before = kept@;
        proof {
            let old_ids = scrolling@.take(i as int);
            let new_ids = scrolling@.take(i + 1);
            assert(new_ids =~= old_ids.push(id));
            assert forall|other: u64| new_ids.contains(other) <==> old_ids.contains(other) || other
                == id by {
                if old_ids.contains(other) {
                    let k = choose|k: int| 0 <= k < old_ids.len() && old_ids[k] == other;
                    assert(new_ids[k] == other);
                }
                assert(new_ids[i as int] == id);
                if new_ids.contains(other) && other != id {
                    let k = choose|k: int| 0 <= k < new_ids.len() && new_ids[k] == other;
                    assert(old_ids[k] == other);
                }
            }
        }
        if let Some(offset) = offsets.get(&id) {
            kept.insert(id, *offset);
        }
        assert forall|other: u64| #[trigger] entry(kept@, other) == (if scrolling@.take(
            i + 1,
        ).contains(other) {
            entry(offsets@, other)
        } else {
            None
        }) by {
            assert(entry(before, other) == (if scrolling@.take(i as int).contains(other) {
                entry(offsets@, other)
            } else {
                None
            }));
        }
        i = i + 1;
    }
    assert(scrolling@.take(i as int) =~= scrolling@);
    kept
}

/// The drag of a scrollbar goes on while its container can be scrolled.
pub fn retain_drag(drag: Option<u64>, scrolling: &Vec<u64>) -> (result: Option<u64>)
    ensures
        result == (match drag {
            Some(id) => if scrolling@.contains(id) {
                Some(id)
            } else {
                None
            },
            None => None,
        }),
{
    let id: u64 = match drag {
        Some(id) => id,
        None => return None,
    };
    let mut i: usize = 0;
    while i < scrolling.len()
        invariant
            i <= scrolling@.len(),
            drag == Some(id),
            forall|k: int| 0 <= k < i ==> scrolling@[k] != id,
        decreases scrolling@.len() - i,
    {
        if scrolling[i] == id {
            assert(scrolling@[i as int] == id);
            return Some(id);
        }
        i = i + 1;
    }
    None
}

/// Why a frame cannot be published.
#[derive(Clone, Copy, Debug, PartialEq, Eq, Structural)]
pub enum FrameError {
    /// No texture identity is left.
    TexturesExhausted,
    /// There is text, but no atlas was published.
    NoTextAtlas,
    /// The frame is the previous one again, whose output is not known.
    OutputGone,
}

/// Texture identities: every upload has a new one.
pub struct Textures {
    pub next: u32,
    /// The published glyph atlas.
    pub text: Option<u32>,
    /// The textures of images by path.
    pub images: Vec<(String, u32)>,
}

/// The textures of images.
pub open spec fn image_texture(images: Seq<(String, u32)>, path: Seq<char>) -> Option<u32>
    decreases images.len(),
{
    if images.len() == 0 {
        None
    } else if images.last().0@ == path {
        Some(images.last().1)
    } else {
        image_texture(images.drop_last(), path)
    }
}

impl Textures {
    /// All identities given out are below the next one.
    pub open spec fn wf(self) -> bool {
        &&& self.text matches Some(id) ==> id < self.next
        &&& forall|i: int| 0 <= i < self.images@.len() ==> (#[trigger] self.images@[i]).1 < self.next
    }

    /// Nothing is published; the first identity is one.
    pub fn new() -> (result: Self)
        ensures
            result.wf(),
            result.next == 1,
            result.text is None,
            result.images@.len() == 0,
    {
        Textures { next: 1, text: None, images: Vec::new() }
    }

    /// The texture of an image that was uploaded.
    pub fn image(&self, path: &str) -> (result: Option<u32>)
        ensures
            result == image_texture(self.images@, path@),
    {
        let mut i: usize = self.images.len();
        assert(self.images@.take(i as int) =~= self.images@);
        while i > 0
            invariant
                i <= self.images@.len(),
                image_texture(self.images@, path@) == image_texture(
                    self.images@.take(i as int),
                    path@,
                ),
            decreases i,
        {
            assert(self.images@.take(i as int).drop_last() =~= self.images@.take(i - 1));
            if same(self.images[i - 1].0.as_str(), path) {
                return Some(self.images[i - 1].1);
            }
            i = i - 1;
        }
        None
    }

    /// Gives a new image an identity.
    pub fn add_image(&mut self, path: &str) -> (result: Result<u32, FrameError>)
        requires
            old(self).wf(),
        ensures
            final(self).wf(),
            final(self).text == old(self).text,
            match result {
                Ok(id) => {
                    &&& old(self).next < u32::MAX
                    &&& id == old(self).next
                    &&& final(self).next == id + 1
                    &&& image_texture(final(self).images@, path@) == Some(id)
                    &&& forall|other: Seq<char>|
                        other != path@ ==> #[trigger] image_texture(final(self).images@, other)
                            == image_texture(old(self).images@, other)
                },
                Err(error) => {
                    &&& old(self).next == u32::MAX
                    &&& error == FrameError::TexturesExhausted
                    &&& *final(self) == *old(self)
                },
            },
    {
        let id: u32 = self.next;
        if id == u32::MAX {
            return Err(FrameError::TexturesExhausted);
        }
        self.next = id + 1;
        let ghost before = self.images@;
        self.images.push((path.to_owned(), id));
        assert(self.images@.drop_last() =~= before);
        Ok(id)
    }

    /// Publishes a changed glyph atlas under a new identity, and retires the one
    /// before; an unchanged atlas keeps its identity.
    pub fn publish_text(&mut self, changed: bool) -> (result: Result<Option<u32>, FrameError>)
        requires
            old(self).wf(),
        ensures
            final(self).wf(),
            final(self).images == old(self).images,
            match result {
                Ok(retired) => if changed {
                    &&& old(self).next < u32::MAX
                    &&& final(self).text == Some(old(self).next)
                    &&& final(self).next == old(self).next + 1
                    &&& retired == old(self).text
                } else {
                    *final(self) == *old(self) && retired is None
                },
                Err(error) => {
                    &&& changed && old(self).next == u32::MAX
                    &&& error == FrameError::TexturesExhausted
                    &&& *final(self) == *old(self)
                },
            },
    {
        if !changed {
            return Ok(None);
        }
        let id: u32 = self.next;
        if id == u32::MAX {
            return Err(FrameError::TexturesExhausted);
        }
        self.next = id + 1;
        let retired = self.text;
        self.text = Some(id);
        Ok(retired)
    }
}

/// A command paints text.
pub open spec fn paints_text(command: CommandView) -> bool {
    command is GlyphRun
}

/// A command with the atlas in it, where it paints text.
pub open spec fn with_atlas(command: CommandView, atlas: u32) -> CommandView {
    match command {
        CommandView::GlyphRun { texture_id: _, color, offset, blur, glyphs } => {
            CommandView::GlyphRun { texture_id: atlas, color, offset, blur, glyphs }
        },
        other => other,
    }
}

/// Some command paints text.
pub open spec fn has_text(commands: Seq<CommandView>) -> bool {
    exists|i: int| 0 <= i < commands.len() && paints_text(#[trigger] commands[i])
}

/// Puts the published atlas into all text commands.
pub fn assign_atlas(commands: Vec<GpuCommand>, atlas: Option<u32>) -> (result: Result<
    Vec<GpuCommand>,
    FrameError,
>)
    ensures
        match result {
            Ok(list) => {
                &&& has_text(command_views(commands@)) ==> atlas is Some
                &&& command_views(list@) == (match atlas {
                    Some(id) => Seq::new(
                        commands@.len(),
                        |i: int| with_atlas(commands@[i]@, id),
                    ),
                    None => command_views(commands@),
                })
            },
            Err(error) => {
                &&& has_text(command_views(commands@)) && atlas is None
                &&& error == FrameError::NoTextAtlas
            },
        },
{
    let mut list = commands;
    let ghost given = commands@;
    let ghost views = command_views(given);
    let id: u32 = match atlas {
        Some(id) => id,
        None => {
            let mut i: usize = 0;
            while i < list.len()
                invariant
                    i <= list@.len(),
                    list@ == given,
                    atlas is None,
                    given == commands@,
                    views == command_views(given),
                    forall|k: int| 0 <= k < i ==> !paints_text(#[trigger] views[k]),
                decreases list@.len() - i,
            {
                assert(views[i as int] == list@[i as int]@);
                if let GpuCommand::GlyphRun { .. } = &list[i] {
                    assert(paints_text(views[i as int]));
                    return Err(FrameError::NoTextAtlas);
                }
                i = i + 1;
            }
            return Ok(list);
        },
    };
    let mut i: usize = 0;
    while i < list.len()
        invariant
            i <= list@.len(),
            list@.len() == given.len(),
            forall|k: int| 0 <= k < i ==> (#[trigger] list@[k])@ == with_atlas(given[k]@, id),
            forall|k: int| i <= k < given.len() ==> #[trigger] list@[k] == given[k],
        decreases list@.len() - i,
    {
        let ghost before = list@;
        if let GpuCommand::GlyphRun { texture_id, .. } = &mut list[i] {
            *texture_id = id;
        }
        assert(list@[i as int]@ == with_atlas(given[i as int]@, id));
        i = i + 1;
    }
    assert(command_views(list@) =~= Seq::new(given.len(), |k: int| with_atlas(given[k]@, id)));
    Ok(list)
}

/// The bytes of an image's pixels as the device takes them.
pub fn image_bytes(image: &Image) -> (result: Vec<u8>)
    ensures
        result@ == packed(image.pixels@),
{
    pack_words(image.pixels.as_slice())
}

/// Puts commands together. A group is opened in the list only once something is
/// painted in it.
pub struct Assembly {
    pub commands: Vec<GpuCommand>,
    /// Where each open group starts, and its opacity bits.
    pub open: Vec<(usize, u32)>,
}

/// Every open group starts within the list, and no group starts before one
/// around it.
pub open spec fn groups_fit(open: Seq<(usize, u32)>, count: int) -> bool {
    &&& forall|i: int| 0 <= i < open.len() ==> (#[trigger] open[i]).0 <= count
    &&& forall|i: int, j: int|
        0 <= i < j < open.len() ==> (#[trigger] open[i]).0 <= (#[trigger] open[j]).0
}

impl Assembly {
    /// The open groups fit the list.
    pub open spec fn wf(self) -> bool {
        groups_fit(self.open@, self.commands@.len() as int)
    }

    /// Nothing is painted, no group is open.
    pub fn new() -> (result: Self)
        ensures
            result.wf(),
            result.commands@.len() == 0,
            result.open@.len() == 0,
    {
        Assembly { commands: Vec::new(), open: Vec::new() }
    }

    /// Paints commands.
    pub fn emit(&mut self, commands: Vec<GpuCommand>)
        requires
            old(self).wf(),
        ensures
            final(self).wf(),
            final(self).open@ == old(self).open@,
            final(self).commands@ == old(self).commands@ + commands@,
    {
        let mut commands = commands;
        self.commands.append(&mut commands);
    }

    /// Opens a group.
    pub fn open_opacity(&mut self, opacity: u32)
        requires
            old(self).wf(),
        ensures
            final(self).wf(),
            final(self).commands@ == old(self).commands@,
            final(self).open@ == old(self).open@.push((old(self).commands@.len() as usize, opacity)),
    {
        let at: usize = self.commands.len();
        self.open.push((at, opacity));
    }

    /// Closes the innermost group: what was painted in it is put between the two
    /// ends of a group, and a group without paint leaves nothing.
    pub fn close_opacity(&mut self)
        requires
            old(self).wf(),
            old(self).open@.len() > 0,
        ensures
            final(self).wf(),
            final(self).open@ == old(self).open@.drop_last(),
            ({
                let (at, opacity) = old(self).open@.last();
                final(self).commands@ == (if old(self).commands@.len() > at {
                    old(self).commands@.insert(at as int, GpuCommand::PushOpacity(opacity)).push(
                        GpuCommand::PopOpacity,
                    )
                } else {
                    old(self).commands@
                })
            }),
    {
        let ghost before = self.open@;
        let (at, opacity): (usize, u32) = self.open.pop().unwrap();
        proof {
            assert(before.last() == before[before.len() - 1]);
            assert forall|i: int| 0 <= i < self.open@.len() implies (#[trigger] self.open@[i]).0
                <= at by {
                assert(before[i].0 <= before[before.len() - 1].0);
            }
        }
        if self.commands.len() > at {
            self.commands.insert(at, GpuCommand::PushOpacity(opacity));
            self.commands.push(GpuCommand::PopOpacity);
        }
    }
}

} // verus!
