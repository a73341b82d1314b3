//! The paint walk. It visits the styled and laid-out tree in stacking order and
//! plans what is painted; it also gathers the regions that take input, the
//! embedded client surfaces, the window frames and the fixed chrome.

pub mod ancestry;
pub mod balance;
pub mod control;
pub mod field;
pub mod fill;
pub mod frame;
pub mod hit;
pub mod join;
pub mod order;
pub mod text;

use vstd::prelude::*;
use vstd::string::*;
use crate::input::RangeControl;
use crate::overflow::{modes_of, overflow_modes, OverflowMode};
use crate::paint::hit::{
    focusable, gpu_hit, hit_of, hits_allowed, hits_enabled, interactive, key_listener,
    wants_autofocus, HitView, PaintedHit,
};
use crate::paint::order::{level_of, order_of, stable_order, stacking_level, z_index, z_index_of};
use crate::rect::{PhysicalRect, Rect};
use crate::retained::fixed;
use crate::scene::{ClipMask, CornerRadius, ForeignLayer, Overlay, WindowFrame};
use crate::style::{value_of, Computed};
use crate::text::same;
use crate::tree::{
    autofocuses, has_prop, is_surface, number_of, number_prop, prop_of, small_number, small_prop,
    string_of, surface_node, text_leaf, text_prop, Node, NodeView,
};

verus! {

/// What the layout and the fonts say of a node.
#[derive(Clone, Copy)]
pub struct Laid {
    /// The border box on the screen.
    pub bounds: PhysicalRect,
    /// The border box wherever it is.
    pub surface: Rect,
    /// The box inside the border on the screen.
    pub port: PhysicalRect,
    pub radii: [CornerRadius; 4],
    /// The content is wider than its box.
    pub overflows_x: bool,
    /// The content is taller than its box.
    pub overflows_y: bool,
    /// The node and its children are blended as a group.
    pub translucent: bool,
    pub cursor: u32,
    /// The state of a range field.
    pub range: Option<RangeControl>,
    /// Where the shaped line of a text field starts.
    pub text_origin_x: i32,
}

/// A styled and laid-out node.
pub struct PaintNode<'a> {
    pub source: &'a Node,
    pub computed: &'a Computed,
    pub laid: Laid,
    pub children: Vec<PaintNode<'a>>,
}

/// What a [`PaintNode`] holds.
pub struct PaintView {
    pub source: NodeView,
    pub computed: Map<Seq<char>, Seq<char>>,
    pub laid: Laid,
    pub children: Seq<PaintView>,
}

/// The views of a list of nodes.
pub open spec fn paint_views(nodes: Seq<PaintNode>) -> Seq<PaintView>
    decreases nodes,
{
    if nodes.len() == 0 {
        Seq::empty()
    } else {
        let last = nodes.last();
        paint_views(nodes.drop_last()).push(
            PaintView {
                source: last.source@,
                computed: last.computed@,
                laid: last.laid,
                children: paint_views(last.children@),
            },
        )
    }
}

impl<'a> View for PaintNode<'a> {
    type V = PaintView;

    open spec fn view(&self) -> PaintView {
        PaintView {
            source: self.source@,
            computed: self.computed@,
            laid: self.laid,
            children: paint_views(self.children@),
        }
    }
}

/// Views keep the order of their nodes.
pub proof fn paint_views_in_order(nodes: Seq<PaintNode>)
    ensures
        paint_views(nodes).len() == nodes.len(),
        forall|i: int| 0 <= i < nodes.len() ==> #[trigger] paint_views(nodes)[i] == nodes[i]@,
    decreases nodes,
{
    if nodes.len() > 0 {
        paint_views_in_order(nodes.drop_last());
        assert forall|i: int| 0 <= i < nodes.len() implies #[trigger] paint_views(nodes)[i]
            == nodes[i]@ by {
            if i < nodes.len() - 1 {
                assert(paint_views(nodes)[i] == paint_views(nodes.drop_last())[i]);
                assert(nodes.drop_last()[i] == nodes[i]);
            }
        }
    }
}

/// Fixed chrome is painted after the document.
#[derive(Clone, Copy, Debug, PartialEq, Eq, Structural)]
pub enum PaintPhase {
    Document,
    Fixed,
}

/// One thing to paint.
#[derive(Clone, Copy, Debug, PartialEq, Eq)]
pub enum Op {
    PushGroup(u32),
    PopGroup,
    Backdrop,
    Shadows { inset: bool },
    BackgroundColor,
    BackgroundImage,
    Border,
    Picture,
    Range,
    Field,
    Text { monospace: bool },
    /// The container can be scrolled by the wheel.
    ScrollRegion,
    PushClip(ClipMask),
    PopClip,
    /// A scrollbar; `corner` says that the other axis has one too, `hit` that it
    /// takes input.
    Scrollbar { horizontal: bool, corner: bool, hit: bool },
    ScrollCorner,
    /// What follows is blended as a group, unless nothing is painted.
    OpenOpacity,
    CloseOpacity,
}

/// One thing to paint for a node, within a clip.
#[derive(Clone, Copy, Debug, PartialEq, Eq)]
pub struct Step {
    pub node: u64,
    pub clip: Option<PhysicalRect>,
    pub op: Op,
}

/// What a node inherits from its ancestors.
pub struct GpuWalk {
    pub parent_node_id: Option<u64>,
    pub window_group: Option<u32>,
    pub clip: Option<PhysicalRect>,
    pub clip_masks: Vec<ClipMask>,
    pub hits_enabled: bool,
    pub phase: PaintPhase,
    pub fixed_context: bool,
}

/// What a [`GpuWalk`] holds.
pub struct WalkView {
    pub parent_node_id: Option<u64>,
    pub window_group: Option<u32>,
    pub clip: Option<PhysicalRect>,
    pub clip_masks: Seq<ClipMask>,
    pub hits_enabled: bool,
    pub phase: PaintPhase,
    pub fixed_context: bool,
}

impl View for GpuWalk {
    type V = WalkView;

    open spec fn view(&self) -> WalkView {
        WalkView {
            parent_node_id: self.parent_node_id,
            window_group: self.window_group,
            clip: self.clip,
            clip_masks: self.clip_masks@,
            hits_enabled: self.hits_enabled,
            phase: self.phase,
            fixed_context: self.fixed_context,
        }
    }
}

/// Fixed chrome with its stacking number.
#[derive(Clone, Copy, Debug, PartialEq, Eq)]
pub struct StackedOverlay {
    pub z_index: i32,
    pub overlay: Overlay,
}

/// What is gathered beside the picture, in painting order.
pub struct RenderOutput {
    pub foreign: Vec<ForeignLayer>,
    pub windows: Vec<WindowFrame>,
    pub overlays: Vec<StackedOverlay>,
    pub hits: Vec<PaintedHit>,
    pub key_listener: Option<u64>,
    /// The control with focus; one may take it by itself.
    pub focused: Option<u64>,
    /// The containers that can be scrolled.
    pub scrolling: Vec<u64>,
    /// What the frame paints anew; known once the walk is over.
    pub damage: Vec<Rect>,
}

/// What a [`ForeignLayer`] holds.
pub struct ForeignView {
    pub surface_id: u32,
    pub configure_serial: u64,
    pub bounds: Rect,
    pub clip: Rect,
    pub clip_masks: Seq<ClipMask>,
    pub desktop_input: Seq<Rect>,
    pub desktop_hit_start: usize,
}

/// The view of a layer.
pub open spec fn foreign_view(layer: ForeignLayer) -> ForeignView {
    ForeignView {
        surface_id: layer.surface_id,
        configure_serial: layer.configure_serial,
        bounds: layer.bounds,
        clip: layer.clip,
        clip_masks: layer.clip_masks@,
        desktop_input: layer.desktop_input@,
        desktop_hit_start: layer.desktop_hit_start,
    }
}

/// What a [`RenderOutput`] holds.
pub struct OutputView {
    pub foreign: Seq<ForeignView>,
    pub windows: Seq<WindowFrame>,
    pub overlays: Seq<StackedOverlay>,
    pub hits: Seq<HitView>,
    pub key_listener: Option<u64>,
    pub focused: Option<u64>,
    pub scrolling: Seq<u64>,
    pub damage: Seq<Rect>,
}

/// The views of a list of layers.
pub open spec fn foreign_views(layers: Seq<ForeignLayer>) -> Seq<ForeignView> {
    Seq::new(layers.len(), |i: int| foreign_view(layers[i]))
}

/// The views of a list of regions.
pub open spec fn hit_views(hits: Seq<PaintedHit>) -> Seq<HitView> {
    Seq::new(hits.len(), |i: int| hits[i]@)
}

impl View for RenderOutput {
    type V = OutputView;

    open spec fn view(&self) -> OutputView {
        OutputView {
            foreign: foreign_views(self.foreign@),
            windows: self.windows@,
            overlays: self.overlays@,
            hits: hit_views(self.hits@),
            key_listener: self.key_listener,
            focused: self.focused,
            scrolling: self.scrolling@,
            damage: self.damage@,
        }
    }
}

/// The part of a rectangle inside an optional clip.
pub open spec fn clipped(rect: PhysicalRect, clip: Option<PhysicalRect>) -> PhysicalRect {
    match clip {
        Some(clip) => rect.meet(clip),
        None => rect,
    }
}

fn clip_rect(rect: PhysicalRect, clip: Option<PhysicalRect>) -> (result: PhysicalRect)
    ensures
        result == clipped(rect, clip),
{
    match clip {
        Some(clip) => rect.intersect(clip),
        None => rect,
    }
}

/// The node shows nothing where it is.
pub open spec fn out_of_sight(laid: Laid, clip: Option<PhysicalRect>) -> bool {
    laid.bounds.void() || clipped(laid.bounds, clip).void()
}

/// The output after the node's input region: it may take focus, it may get
/// keys, and it has a region where input reaches it.
pub open spec fn after_hit(node: PaintView, walk: WalkView, out: OutputView) -> OutputView {
    let visible = clipped(node.laid.bounds, walk.clip);
    let key = interactive(node.source, "onKeyDown"@);
    OutputView {
        focused: if focusable(node.source, node.laid) && autofocuses(
            node.source.props,
            out.focused,
        ) {
            Some(node.source.id)
        } else {
            out.focused
        },
        hits: if hits_allowed(walk.hits_enabled, node.computed) && !visible.void() {
            out.hits.push(
                hit_of(
                    node.source,
                    node.laid,
                    walk.parent_node_id,
                    walk.window_group,
                    visible,
                ),
            )
        } else {
            out.hits
        },
        key_listener: if key is Some {
            key
        } else {
            out.key_listener
        },
        ..out
    }
}

/// The client area that a node embeds.
pub open spec fn foreign_of(node: PaintView, walk: WalkView, hits: nat) -> Option<ForeignView> {
    let surface = small_number(node.source.props, "data-surface-id"@);
    let serial = number_of(node.source.props, "data-configure-serial"@);
    if surface_node(node.source) && surface is Some && serial is Some {
        Some(
            ForeignView {
                surface_id: surface->0,
                configure_serial: serial->0,
                bounds: node.laid.surface,
                clip: match walk.clip {
                    Some(clip) => clip.placed(),
                    None => node.laid.surface,
                },
                clip_masks: walk.clip_masks,
                desktop_input: Seq::empty(),
                desktop_hit_start: hits as usize,
            },
        )
    } else {
        None
    }
}

/// The window that a node is.
pub open spec fn own_group(node: NodeView) -> Option<u32> {
    small_number(node.props, "data-lite-window"@)
}

/// The output after what the scene has to know of a node.
pub open spec fn after_metadata(node: PaintView, walk: WalkView, out: OutputView) -> OutputView {
    let layer = foreign_of(node, walk, out.hits.len());
    let rect = node.laid.bounds.placed();
    let group = own_group(node.source);
    OutputView {
        foreign: if layer is Some {
            out.foreign.push(layer->0)
        } else {
            out.foreign
        },
        overlays: if fixed(node.computed) {
            out.overlays.push(
                StackedOverlay {
                    z_index: z_index_of(node.computed) as i32,
                    overlay: Overlay { rect, clip_mask: ClipMask { rect, radii: node.laid.radii } },
                },
            )
        } else {
            out.overlays
        },
        windows: if group is Some {
            out.windows.push(
                WindowFrame {
                    surface_id: group->0,
                    frame: node.laid.surface,
                    clip_mask: ClipMask { rect: node.laid.surface, radii: node.laid.radii },
                },
            )
        } else {
            out.windows
        },
        ..out
    }
}

/// A step where a condition holds.
pub open spec fn step_if(condition: bool, node: PaintView, walk: WalkView, op: Op) -> Seq<Step> {
    if condition {
        seq![Step { node: node.source.id, clip: walk.clip, op }]
    } else {
        Seq::empty()
    }
}

/// A property is set.
pub open spec fn styled(node: PaintView, name: Seq<char>) -> bool {
    value_of(node.computed, name) is Some
}

/// The steps of the node's own box, from back to front.
pub open spec fn box_steps(node: PaintView, walk: WalkView) -> Seq<Step> {
    let field = node.source.kind == "input"@;
    let group = own_group(node.source);
    Seq::<Step>::empty() + step_if(group is Some, node, walk, Op::PushGroup(group->0)) + step_if(
        styled(node, "backdrop-filter"@),
        node,
        walk,
        Op::Backdrop,
    ) + step_if(styled(node, "box-shadow"@), node, walk, Op::Shadows { inset: false }) + step_if(
        styled(node, "background-color"@),
        node,
        walk,
        Op::BackgroundColor,
    ) + step_if(styled(node, "background-image"@), node, walk, Op::BackgroundImage) + step_if(
        styled(node, "box-shadow"@),
        node,
        walk,
        Op::Shadows { inset: true },
    ) + step_if(true, node, walk, Op::Border) + step_if(
        node.source.kind == "img"@ && string_of(node.source.props, "src"@) is Some,
        node,
        walk,
        Op::Picture,
    ) + step_if(field && node.laid.range is Some, node, walk, Op::Range) + step_if(
        field && node.laid.range is None,
        node,
        walk,
        Op::Field,
    ) + step_if(
        text_leaf(node.source),
        node,
        walk,
        Op::Text { monospace: value_of(node.computed, "font-family"@) == Some("monospace"@) },
    )
}

/// The walk below a node.
pub open spec fn child_walk(node: PaintView, walk: WalkView) -> WalkView {
    let modes = modes_of(node.computed);
    let cuts = modes.0.cuts() || modes.1.cuts();
    let window = prop_of(node.source.props, "data-lite-window"@) is Some;
    WalkView {
        parent_node_id: Some(node.source.id),
        window_group: if window {
            own_group(node.source)
        } else {
            walk.window_group
        },
        clip: if cuts {
            Some(
                match walk.clip {
                    Some(outer) => outer.meet(node.laid.port),
                    None => node.laid.port,
                },
            )
        } else {
            walk.clip
        },
        clip_masks: if cuts {
            walk.clip_masks.push(port_mask(node.laid))
        } else {
            walk.clip_masks
        },
        hits_enabled: hits_allowed(walk.hits_enabled, node.computed),
        phase: walk.phase,
        fixed_context: walk.fixed_context || fixed(node.computed),
    }
}

/// The mask of a node's inner box.
pub open spec fn port_mask(laid: Laid) -> ClipMask {
    ClipMask { rect: laid.port.placed(), radii: laid.radii }
}

/// A scrollbar is shown: always, or where the content does not fit.
pub open spec fn bar_shown(mode: OverflowMode, overflows: bool) -> bool {
    mode == OverflowMode::Scroll || (mode == OverflowMode::Auto && overflows)
}

/// The steps after a node's children: the end of their clip, and the scrollbars.
pub open spec fn closing_steps(node: PaintView, walk: WalkView) -> Seq<Step> {
    let modes = modes_of(node.computed);
    let below = child_walk(node, walk);
    let x = bar_shown(modes.0, node.laid.overflows_x);
    let y = bar_shown(modes.1, node.laid.overflows_y);
    step_if(modes.0.cuts() || modes.1.cuts(), node, walk, Op::PopClip) + step_if(
        x,
        node,
        walk,
        Op::Scrollbar { horizontal: true, corner: y, hit: below.hits_enabled },
    ) + step_if(
        y,
        node,
        walk,
        Op::Scrollbar { horizontal: false, corner: x, hit: below.hits_enabled },
    ) + step_if(x && y, node, walk, Op::ScrollCorner) + step_if(
        own_group(node.source) is Some,
        node,
        walk,
        Op::PopGroup,
    )
}

/// The steps between a node's own box and its children: scrolling, and the clip
/// around the children.
pub open spec fn opening_steps(node: PaintView, walk: WalkView) -> Seq<Step> {
    let modes = modes_of(node.computed);
    step_if(
        (modes.0.scrolling() || modes.1.scrolling()) && walk.hits_enabled,
        node,
        walk,
        Op::ScrollRegion,
    ) + step_if(modes.0.cuts() || modes.1.cuts(), node, walk, Op::PushClip(port_mask(node.laid)))
}

/// The output after a node is noted as scrollable.
pub open spec fn after_scrolling(node: PaintView, out: OutputView) -> OutputView {
    let modes = modes_of(node.computed);
    OutputView {
        scrolling: if modes.0.scrolling() || modes.1.scrolling() {
            out.scrolling.push(node.source.id)
        } else {
            out.scrolling
        },
        ..out
    }
}

/// The stacking levels of a node's children.
pub open spec fn levels(children: Seq<PaintView>, flex: bool) -> Seq<i32> {
    Seq::new(children.len(), |i: int| level_of(children[i].computed, flex) as i32)
}

/// The painting order of a node's children.
pub open spec fn child_order(node: PaintView) -> Seq<int> {
    order_of(levels(node.children, value_of(node.computed, "display"@) == Some("flex"@)))
}

/// A group is blended as a whole where a translucent child paints anything.
pub open spec fn grouped(child: PaintView, walk: WalkView, steps: Seq<Step>) -> Seq<Step> {
    if steps.len() > 0 && child.laid.translucent {
        seq![Step { node: child.source.id, clip: walk.clip, op: Op::OpenOpacity }] + steps + seq![
            Step { node: child.source.id, clip: walk.clip, op: Op::CloseOpacity },
        ]
    } else {
        steps
    }
}

/// Painting the first `n` nodes of an order; with `groups`, translucent ones are
/// blended as groups.
pub open spec fn paint_list(
    nodes: Seq<PaintView>,
    order: Seq<int>,
    n: int,
    groups: bool,
    walk: WalkView,
    out: OutputView,
) -> (Seq<Step>, OutputView)
    decreases nodes, n,
{
    if n <= 0 {
        (Seq::empty(), out)
    } else {
        let before = paint_list(nodes, order, n - 1, groups, walk, out);
        let position = order[n - 1];
        if 0 <= position < nodes.len() {
            let painted = paint_node(nodes[position], walk, before.1);
            (
                before.0 + if groups {
                    grouped(nodes[position], walk, painted.0)
                } else {
                    painted.0
                },
                painted.1,
            )
        } else {
            before
        }
    }
}

/// The positions of a list, in order.
pub open spec fn in_turn(count: nat) -> Seq<int> {
    Seq::new(count, |i: int| i)
}

/// Painting one node: the steps, and the output. Hidden trees, trees out of
/// sight and fixed chrome in the document phase paint nothing; in the fixed
/// phase the walk looks through the document for fixed chrome.
pub open spec fn paint_node(node: PaintView, walk: WalkView, out: OutputView) -> (
    Seq<Step>,
    OutputView,
)
    decreases node, 0int,
{
    let in_fixed = walk.fixed_context || fixed(node.computed);
    if value_of(node.computed, "display"@) == Some("none"@) {
        (Seq::empty(), out)
    } else if walk.phase == PaintPhase::Document && in_fixed {
        (Seq::empty(), out)
    } else if walk.phase == PaintPhase::Fixed && !in_fixed {
        paint_list(
            node.children,
            in_turn(node.children.len()),
            node.children.len() as int,
            false,
            walk,
            out,
        )
    } else if out_of_sight(node.laid, walk.clip) {
        (Seq::empty(), out)
    } else {
        let noted = after_scrolling(node, after_metadata(node, walk, after_hit(node, walk, out)));
        let below = paint_list(
            node.children,
            child_order(node),
            node.children.len() as int,
            true,
            child_walk(node, walk),
            noted,
        );
        (
            box_steps(node, walk) + opening_steps(node, walk) + below.0 + closing_steps(node, walk),
            below.1,
        )
    }
}

fn plan(steps: &mut Vec<Step>, condition: bool, node: &PaintNode, walk: &GpuWalk, op: Op)
    ensures
        final(steps)@ == old(steps)@ + step_if(condition, node@, walk@, op),
{
    if condition {
        steps.push(Step { node: node.source.id, clip: walk.clip, op });
    }
    assert(steps@ =~= old(steps)@ + step_if(condition, node@, walk@, op));
}

fn plan_box(steps: &mut Vec<Step>, node: &PaintNode, walk: &GpuWalk)
    ensures
        final(steps)@ == old(steps)@ + box_steps(node@, walk@),
{
    let computed = node.computed;
    let group = small_prop(&node.source.props, "data-lite-window");
    let shadows = computed.get("box-shadow").is_some();
    let field = same(node.source.kind.as_str(), "input");
    let picture = same(node.source.kind.as_str(), "img") && text_prop(
        &node.source.props,
        "src",
    ).is_some();
    let mut own: Vec<Step> = Vec::new();
    assert(own@ =~= Seq::empty());
    let number: u32 = match group {
        Some(number) => number,
        None => 0,
    };
    plan(&mut own, group.is_some(), node, walk, Op::PushGroup(number));
    assert(own@ =~= Seq::<Step>::empty() + step_if(
        own_group(node@.source) is Some,
        node@,
        walk@,
        Op::PushGroup(own_group(node@.source)->0),
    ));
    plan(&mut own, computed.get("backdrop-filter").is_some(), node, walk, Op::Backdrop);
    plan(&mut own, shadows, node, walk, Op::Shadows { inset: false });
    plan(&mut own, computed.get("background-color").is_some(), node, walk, Op::BackgroundColor);
    plan(&mut own, computed.get("background-image").is_some(), node, walk, Op::BackgroundImage);
    plan(&mut own, shadows, node, walk, Op::Shadows { inset: true });
    plan(&mut own, true, node, walk, Op::Border);
    plan(&mut own, picture, node, walk, Op::Picture);
    plan(&mut own, field && node.laid.range.is_some(), node, walk, Op::Range);
    plan(&mut own, field && node.laid.range.is_none(), node, walk, Op::Field);
    plan(
        &mut own,
        node.source.is_text_leaf(),
        node,
        walk,
        Op::Text { monospace: computed.is("font-family", "monospace") },
    );
    assert(own@ == box_steps(node@, walk@));
    steps.append(&mut own);
}

fn plan_closing(steps: &mut Vec<Step>, node: &PaintNode, walk: &GpuWalk)
    ensures
        final(steps)@ == old(steps)@ + closing_steps(node@, walk@),
{
    let ghost before = steps@;
    let modes = overflow_modes(node.computed);
    let hit = hits_enabled(walk.hits_enabled, node.computed);
    let x = modes.0 == OverflowMode::Scroll || (modes.0 == OverflowMode::Auto
        && node.laid.overflows_x);
    let y = modes.1 == OverflowMode::Scroll || (modes.1 == OverflowMode::Auto
        && node.laid.overflows_y);
    plan(steps, modes.0.clips() || modes.1.clips(), node, walk, Op::PopClip);
    plan(steps, x, node, walk, Op::Scrollbar { horizontal: true, corner: y, hit });
    plan(steps, y, node, walk, Op::Scrollbar { horizontal: false, corner: x, hit });
    plan(steps, x && y, node, walk, Op::ScrollCorner);
    let group = small_prop(&node.source.props, "data-lite-window");
    plan(steps, group.is_some(), node, walk, Op::PopGroup);
    assert(steps@ =~= before + closing_steps(node@, walk@));
}

fn plan_opening(steps: &mut Vec<Step>, node: &PaintNode, walk: &GpuWalk)
    ensures
        final(steps)@ == old(steps)@ + opening_steps(node@, walk@),
{
    let ghost before = steps@;
    let modes = overflow_modes(node.computed);
    let scrolls = modes.0.scrolls() || modes.1.scrolls();
    let mask = ClipMask { rect: node.laid.port.display_rect(), radii: node.laid.radii };
    plan(steps, scrolls && walk.hits_enabled, node, walk, Op::ScrollRegion);
    plan(steps, modes.0.clips() || modes.1.clips(), node, walk, Op::PushClip(mask));
    assert(steps@ =~= before + opening_steps(node@, walk@));
}

fn note_hit(node: &PaintNode, walk: &GpuWalk, out: &mut RenderOutput)
    ensures
        final(out)@ == after_hit(node@, walk@, old(out)@),
{
    let ghost before = out@;
    if wants_autofocus(node.source, &node.laid, out.focused) {
        out.focused = Some(node.source.id);
    }
    let visible = clip_rect(node.laid.bounds, walk.clip);
    if hits_enabled(walk.hits_enabled, node.computed) && !visible.is_empty() {
        let hit = gpu_hit(
            node.source,
            &node.laid,
            walk.parent_node_id,
            walk.window_group,
            visible,
        );
        out.hits.push(hit);
        assert(hit_views(out.hits@) =~= before.hits.push(hit@));
    }
    let key = key_listener(node.source);
    if key.is_some() {
        out.key_listener = key;
    }
}

fn note_scene(node: &PaintNode, walk: &GpuWalk, out: &mut RenderOutput)
    ensures
        final(out)@ == after_metadata(node@, walk@, old(out)@),
{
    let ghost before = out@;
    if is_surface(node.source) {
        let surface = small_prop(&node.source.props, "data-surface-id");
        let serial = number_prop(&node.source.props, "data-configure-serial");
        if let (Some(surface_id), Some(configure_serial)) = (surface, serial) {
            let clip = match walk.clip {
                Some(clip) => clip.display_rect(),
                None => node.laid.surface,
            };
            let layer = ForeignLayer {
                surface_id,
                configure_serial,
                bounds: node.laid.surface,
                clip,
                clip_masks: vstd::slice::slice_to_vec(walk.clip_masks.as_slice()),
                desktop_input: Vec::new(),
                desktop_hit_start: out.hits.len(),
            };
            assert(layer.desktop_input@ =~= Seq::empty());
            let ghost view = foreign_view(layer);
            out.foreign.push(layer);
            assert(foreign_views(out.foreign@) =~= before.foreign.push(view));
        }
    }
    if node.computed.is("position", "fixed") {
        let rect = node.laid.bounds.display_rect();
        out.overlays.push(
            StackedOverlay {
                z_index: z_index(node.computed),
                overlay: Overlay { rect, clip_mask: ClipMask { rect, radii: node.laid.radii } },
            },
        );
    }
    if let Some(group) = small_prop(&node.source.props, "data-lite-window") {
        out.windows.push(
            WindowFrame {
                surface_id: group,
                frame: node.laid.surface,
                clip_mask: ClipMask { rect: node.laid.surface, radii: node.laid.radii },
            },
        );
    }
}

fn walk_below(node: &PaintNode, walk: &GpuWalk) -> (result: GpuWalk)
    ensures
        result@ == child_walk(node@, walk@),
{
    let modes = overflow_modes(node.computed);
    let cuts = modes.0.clips() || modes.1.clips();
    let mut clip_masks = vstd::slice::slice_to_vec(walk.clip_masks.as_slice());
    let mut clip = walk.clip;
    if cuts {
        clip = Some(
            match walk.clip {
                Some(outer) => outer.intersect(node.laid.port),
                None => node.laid.port,
            },
        );
        clip_masks.push(
            ClipMask { rect: node.laid.port.display_rect(), radii: node.laid.radii },
        );
    }
    let window_group = if has_prop(&node.source.props, "data-lite-window") {
        small_prop(&node.source.props, "data-lite-window")
    } else {
        walk.window_group
    };
    GpuWalk {
        parent_node_id: Some(node.source.id),
        window_group,
        clip,
        clip_masks,
        hits_enabled: hits_enabled(walk.hits_enabled, node.computed),
        phase: walk.phase,
        fixed_context: walk.fixed_context || node.computed.is("position", "fixed"),
    }
}

fn child_positions(node: &PaintNode) -> (result: Vec<usize>)
    ensures
        result@.len() == node.children@.len(),
        forall|i: int| 0 <= i < result@.len() ==> (#[trigger] result@[i]) < node.children@.len(),
        Seq::new(result@.len(), |i: int| result@[i] as int) == child_order(node@),
{
    proof {
        paint_views_in_order(node.children@);
    }
    let flex = node.computed.is("display", "flex");
    let mut keys: Vec<i32> = Vec::new();
    let mut i: usize = 0;
    while i < node.children.len()
        invariant
            i <= node.children@.len(),
            keys@.len() == i,
            node@.children.len() == node.children@.len(),
            forall|k: int|
                0 <= k < node.children@.len() ==> #[trigger] node@.children[k]
                    == node.children@[k]@,
            forall|k: int|
                0 <= k < i ==> #[trigger] keys@[k] == level_of(node@.children[k].computed, flex),
        decreases node.children@.len() - i,
    {
        assert(node@.children[i as int] == node.children@[i as int]@);
        keys.push(stacking_level(node.children[i].computed, flex));
        i = i + 1;
    }
    assert(keys@ =~= levels(node@.children, flex));
    stable_order(&keys)
}

/// Paints the children of a node in stacking order, each translucent one as a
/// group of its own.
fn paint_stacked(
    node: &PaintNode,
    below: &GpuWalk,
    steps: &mut Vec<Step>,
    out: &mut RenderOutput,
)
    ensures
        ({
            let painted = paint_list(
                node@.children,
                child_order(node@),
                node@.children.len() as int,
                true,
                below@,
                old(out)@,
            );
            &&& final(steps)@ == old(steps)@ + painted.0
            &&& final(out)@ == painted.1
        }),
    decreases node, 0int,
{
    let ghost opened = steps@;
    let ghost noted = out@;
    let ghost turns = child_order(node@);
    proof {
        paint_views_in_order(node.children@);
        assert(opened + Seq::<Step>::empty() =~= opened);
    }
    let order = child_positions(node);
    let mut i: usize = 0;
    while i < order.len()
        invariant
            i <= order@.len(),
            order@.len() == node.children@.len(),
            node@.children.len() == node.children@.len(),
            forall|k: int|
                0 <= k < node.children@.len() ==> #[trigger] node@.children[k]
                    == node.children@[k]@,
            forall|k: int| 0 <= k < order@.len() ==> (#[trigger] order@[k]) < node.children@.len(),
            turns == Seq::new(order@.len(), |k: int| order@[k] as int),
            steps@ == opened + paint_list(
                node@.children,
                turns,
                i as int,
                true,
                below@,
                noted,
            ).0,
            out@ == paint_list(node@.children, turns, i as int, true, below@, noted).1,
        decreases order@.len() - i,
    {
        let position: usize = order[i];
        let child = &node.children[position];
        let ghost done = paint_list(node@.children, turns, i as int, true, below@, noted);
        assert(node@.children[position as int] == child@);
        let mut painted: Vec<Step> = Vec::new();
        paint_gpu_node(child, below, &mut painted, out);
        let ghost fresh = paint_node(child@, below@, done.1).0;
        assert(painted@ =~= fresh);
        let group = painted.len() > 0 && child.laid.translucent;
        if group {
            steps.push(Step { node: child.source.id, clip: below.clip, op: Op::OpenOpacity });
        }
        steps.append(&mut painted);
        if group {
            steps.push(Step { node: child.source.id, clip: below.clip, op: Op::CloseOpacity });
        }
        assert(steps@ =~= opened + (done.0 + grouped(child@, below@, fresh)));
        i = i + 1;
    }
}

/// Paints one node: plans its steps, and gathers what the scene and the input
/// dispatch need.
pub fn paint_gpu_node(
    node: &PaintNode,
    walk: &GpuWalk,
    steps: &mut Vec<Step>,
    out: &mut RenderOutput,
)
    ensures
        final(steps)@ == old(steps)@ + paint_node(node@, walk@, old(out)@).0,
        final(out)@ == paint_node(node@, walk@, old(out)@).1,
    decreases node, 1int,
{
    let ghost start = steps@;
    let ghost given = out@;
    proof {
        paint_views_in_order(node.children@);
        assert(start + Seq::<Step>::empty() =~= start);
    }
    if node.computed.is("display", "none") {
        return;
    }
    let in_fixed = walk.fixed_context || node.computed.is("position", "fixed");
    if walk.phase == PaintPhase::Document && in_fixed {
        return;
    }
    if walk.phase == PaintPhase::Fixed && !in_fixed {
        paint_in_turn(&node.children, walk, steps, out);
        return;
    }
    if node.laid.bounds.is_empty() || clip_rect(node.laid.bounds, walk.clip).is_empty() {
        return;
    }
    note_hit(node, walk, out);
    plan_box(steps, node, walk);
    note_scene(node, walk, out);
    let modes = overflow_modes(node.computed);
    if modes.0.scrolls() || modes.1.scrolls() {
        out.scrolling.push(node.source.id);
    }
    plan_opening(steps, node, walk);
    let ghost noted = after_scrolling(
        node@,
        after_metadata(node@, walk@, after_hit(node@, walk@, given)),
    );
    assert(out@ == noted);
    let below = walk_below(node, walk);
    paint_stacked(node, &below, steps, out);
    plan_closing(steps, node, walk);
    assert(steps@ =~= start + paint_node(node@, walk@, given).0);
}

/// Paints a list of nodes in its own order.
pub fn paint_in_turn(
    nodes: &Vec<PaintNode>,
    walk: &GpuWalk,
    steps: &mut Vec<Step>,
    out: &mut RenderOutput,
)
    ensures
        ({
            let painted = paint_list(
                paint_views(nodes@),
                in_turn(nodes@.len()),
                nodes@.len() as int,
                false,
                walk@,
                old(out)@,
            );
            &&& final(steps)@ == old(steps)@ + painted.0
            &&& final(out)@ == painted.1
        }),
    decreases nodes, 2int,
{
    let ghost all = paint_views(nodes@);
    let ghost start = steps@;
    let ghost given = out@;
    let ghost turns = in_turn(nodes@.len());
    proof {
        paint_views_in_order(nodes@);
        assert(start + Seq::<Step>::empty() =~= start);
    }
    let mut i: usize = 0;
    while i < nodes.len()
        invariant
            i <= nodes@.len(),
            all == paint_views(nodes@),
            all.len() == nodes@.len(),
            forall|k: int| 0 <= k < nodes@.len() ==> #[trigger] all[k] == nodes@[k]@,
            turns == in_turn(nodes@.len()),
            steps@ == start + paint_list(all, turns, i as int, false, walk@, given).0,
            out@ == paint_list(all, turns, i as int, false, walk@, given).1,
        decreases nodes@.len() - i,
    {
        let ghost done = paint_list(all, turns, i as int, false, walk@, given);
        assert(all[i as int] == nodes@[i as int]@);
        paint_gpu_node(&nodes[i], walk, steps, out);
        assert(steps@ =~= start + (done.0 + paint_node(all[i as int], walk@, done.1).0));
        i = i + 1;
    }
}

} // verus!
