//! Desktop flat-scene construction.

use vstd::prelude::*;
use crate::rect::{Rect, Size};

verus! {

/// The radii of one rounded corner.
#[derive(Clone, Copy, Debug, PartialEq, Eq, Structural)]
pub struct CornerRadius {
    pub x: u32,
    pub y: u32,
}

/// A rounded clip rectangle.
#[derive(Clone, Copy, Debug, PartialEq, Eq)]
pub struct ClipMask {
    pub rect: Rect,
    pub radii: [CornerRadius; 4],
}

/// What a scene node shows.
#[derive(Clone, Copy, Debug, PartialEq, Eq, Structural)]
pub enum SceneNodeKind {
    DisplayList,
    ForeignSurface,
}

/// One node of the flat scene; the order of nodes is the stacking order.
pub struct SceneNode {
    pub kind: SceneNodeKind,
    pub window_group: u32,
    pub source_id: u32,
    pub configure_serial: u64,
    pub bounds: Rect,
    pub clip: Rect,
    pub clip_masks: Vec<ClipMask>,
    pub opaque: Option<Rect>,
    pub input: Vec<Rect>,
    pub damage: Vec<Rect>,
}

/// What a [`SceneNode`] holds.
pub struct NodeView {
    pub kind: SceneNodeKind,
    pub window_group: u32,
    pub source_id: u32,
    pub configure_serial: u64,
    pub bounds: Rect,
    pub clip: Rect,
    pub clip_masks: Seq<ClipMask>,
    pub opaque: Option<Rect>,
    pub input: Seq<Rect>,
    pub damage: Seq<Rect>,
}

impl View for SceneNode {
    type V = NodeView;

    open spec fn view(&self) -> NodeView {
        NodeView {
            kind: self.kind,
            window_group: self.window_group,
            source_id: self.source_id,
            configure_serial: self.configure_serial,
            bounds: self.bounds,
            clip: self.clip,
            clip_masks: self.clip_masks@,
            opaque: self.opaque,
            input: self.input@,
            damage: self.damage@,
        }
    }
}

/// The views of a list of nodes.
pub open spec fn node_views(nodes: Seq<SceneNode>) -> Seq<NodeView> {
    Seq::new(nodes.len(), |i: int| nodes[i]@)
}

/// A ready embedded client surface, in painting order.
pub struct ForeignLayer {
    pub surface_id: u32,
    pub configure_serial: u64,
    pub bounds: Rect,
    pub clip: Rect,
    pub clip_masks: Vec<ClipMask>,
    pub desktop_input: Vec<Rect>,
    pub desktop_hit_start: usize,
}

/// The frame of a system window, in stacking order.
#[derive(Clone, Copy, Debug, PartialEq, Eq)]
pub struct WindowFrame {
    pub surface_id: u32,
    pub frame: Rect,
    pub clip_mask: ClipMask,
}

/// Fixed global chrome above every window.
#[derive(Clone, Copy, Debug, PartialEq, Eq)]
pub struct Overlay {
    pub rect: Rect,
    pub clip_mask: ClipMask,
}

/// Why a scene cannot be built.
#[derive(Clone, Copy, Debug, PartialEq, Eq, Structural)]
pub enum SceneError {
    /// A foreign surface's clip chain leaves no room for its window's shape.
    ClipChainFull,
}

/// Whether two masks are the same.
pub fn same_mask(a: &ClipMask, b: &ClipMask) -> (result: bool)
    ensures
        result == (*a == *b),
{
    let result = a.rect == b.rect && a.radii[0] == b.radii[0] && a.radii[1] == b.radii[1]
        && a.radii[2] == b.radii[2] && a.radii[3] == b.radii[3];
    proof {
        if result {
            assert(a.radii@ =~= b.radii@);
            assert(a.radii =~= b.radii);
        }
    }
    result
}

/// The window that embeds a surface: the first one with its id, from `from` on.
pub open spec fn window_from(windows: Seq<WindowFrame>, surface: u32, from: int) -> Option<WindowFrame>
    decreases windows.len() - from,
{
    if from < 0 || from >= windows.len() {
        None
    } else if windows[from].surface_id == surface {
        Some(windows[from])
    } else {
        window_from(windows, surface, from + 1)
    }
}

/// The first layer of a surface, from `from` on.
pub open spec fn layer_from(foreign: Seq<ForeignLayer>, surface: u32, from: int) -> Option<int>
    decreases foreign.len() - from,
{
    if from < 0 || from >= foreign.len() {
        None
    } else if foreign[from].surface_id == surface {
        Some(from)
    } else {
        layer_from(foreign, surface, from + 1)
    }
}

/// The clip chain of a foreign surface: its own masks and the shape of its
/// window, unless that is among them. There is room for `limit` masks.
pub open spec fn chain_of(masks: Seq<ClipMask>, window: Option<WindowFrame>, limit: int) -> Option<
    Seq<ClipMask>,
> {
    match window {
        None => Some(masks),
        Some(w) => if masks.contains(w.clip_mask) {
            Some(masks)
        } else if masks.len() == limit {
            None
        } else {
            Some(masks.push(w.clip_mask))
        },
    }
}

/// Adds the owning window's outer shape to an embedded surface's inherited
/// clips. Foreign pixels are a scene node of their own and inherit no clip from
/// the window's node; without the mask an opaque client texture would overwrite
/// the rounded corners of its frame.
pub fn scene_clip_masks(layer: &ForeignLayer, window: Option<&WindowFrame>, limit: usize) -> (result:
    Result<Vec<ClipMask>, SceneError>)
    ensures
        match result {
            Ok(masks) => chain_of(
                layer.clip_masks@,
                match window {
                    Some(w) => Some(*w),
                    None => None,
                },
                limit as int,
            ) == Some(masks@),
            Err(error) => chain_of(
                layer.clip_masks@,
                match window {
                    Some(w) => Some(*w),
                    None => None,
                },
                limit as int,
            ) is None && error == SceneError::ClipChainFull,
        },
{
    let mut masks: Vec<ClipMask> = vstd::slice::slice_to_vec(layer.clip_masks.as_slice());
    let mask = match window {
        Some(w) => w.clip_mask,
        None => return Ok(masks),
    };
    let mut i: usize = 0;
    while i < masks.len()
        invariant
            i <= masks@.len(),
            masks@ == layer.clip_masks@,
            window matches Some(w) && w.clip_mask == mask,
            forall|k: int| 0 <= k < i ==> masks@[k] != mask,
        decreases masks@.len() - i,
    {
        if same_mask(&masks[i], &mask) {
            assert(masks@[i as int] == mask);
            return Ok(masks);
        }
        i = i + 1;
    }
    if masks.len() == limit {
        return Err(SceneError::ClipChainFull);
    }
    masks.push(mask);
    Ok(masks)
}

/// A rectangle from the origin.
pub open spec fn full_rect(physical: Size) -> Rect {
    Rect { x: 0, y: 0, width: physical.width, height: physical.height }
}

/// The rectangle without any pixel.
pub open spec fn no_rect() -> Rect {
    Rect { x: 0, y: 0, width: 0, height: 0 }
}

/// The desktop's own pixels under everything.
pub open spec fn root_node(full: Rect, damage: Seq<Rect>) -> NodeView {
    NodeView {
        kind: SceneNodeKind::DisplayList,
        window_group: 0,
        source_id: 0,
        configure_serial: 0,
        bounds: full,
        clip: full,
        clip_masks: Seq::empty(),
        opaque: Some(full),
        input: seq![full],
        damage,
    }
}

/// Desktop pixels cut to one shape, which also takes input.
pub open spec fn cutout(full: Rect, group: u32, clip: Rect, mask: ClipMask) -> NodeView {
    NodeView {
        kind: SceneNodeKind::DisplayList,
        window_group: group,
        source_id: 0,
        configure_serial: 0,
        bounds: full,
        clip,
        clip_masks: seq![mask],
        opaque: None,
        input: seq![clip],
        damage: Seq::empty(),
    }
}

/// The client pixels of a window.
pub open spec fn client_node(layer: ForeignLayer, masks: Seq<ClipMask>) -> NodeView {
    NodeView {
        kind: SceneNodeKind::ForeignSurface,
        window_group: layer.surface_id,
        source_id: layer.surface_id,
        configure_serial: layer.configure_serial,
        bounds: layer.bounds,
        clip: layer.clip,
        clip_masks: masks,
        opaque: Some(layer.bounds),
        input: seq![layer.bounds],
        damage: Seq::empty(),
    }
}

/// Desktop input painted later than the client: a node that paints nothing.
pub open spec fn input_node(full: Rect, layer: ForeignLayer) -> NodeView {
    NodeView {
        kind: SceneNodeKind::DisplayList,
        window_group: layer.surface_id,
        source_id: 0,
        configure_serial: 0,
        bounds: full,
        clip: no_rect(),
        clip_masks: Seq::empty(),
        opaque: None,
        input: layer.desktop_input@,
        damage: Seq::empty(),
    }
}

/// The nodes of one window: its frame, its client, and later desktop input.
pub open spec fn window_nodes(
    full: Rect,
    windows: Seq<WindowFrame>,
    foreign: Seq<ForeignLayer>,
    limit: int,
    at: int,
) -> Seq<NodeView> {
    let window = windows[at];
    let frame = seq![cutout(full, window.surface_id, window.frame, window.clip_mask)];
    match layer_from(foreign, window.surface_id, 0) {
        None => frame,
        Some(i) => {
            let layer = foreign[i];
            let masks = chain_of(
                layer.clip_masks@,
                window_from(windows, layer.surface_id, 0),
                limit,
            )->0;
            let client = frame.push(client_node(layer, masks));
            if layer.desktop_input@.len() > 0 {
                client.push(input_node(full, layer))
            } else {
                client
            }
        },
    }
}

/// The nodes of the first `n` windows.
pub open spec fn all_window_nodes(
    full: Rect,
    windows: Seq<WindowFrame>,
    foreign: Seq<ForeignLayer>,
    limit: int,
    n: int,
) -> Seq<NodeView>
    decreases n,
{
    if n <= 0 {
        Seq::empty()
    } else {
        all_window_nodes(full, windows, foreign, limit, n - 1) + window_nodes(
            full,
            windows,
            foreign,
            limit,
            n - 1,
        )
    }
}

/// The nodes of the overlays.
pub open spec fn overlay_nodes(full: Rect, overlays: Seq<Overlay>) -> Seq<NodeView> {
    Seq::new(
        overlays.len(),
        |i: int| cutout(full, 0, overlays[i].rect, overlays[i].clip_mask),
    )
}

/// Every foreign surface has room for its window's shape.
pub open spec fn chains_fit(windows: Seq<WindowFrame>, foreign: Seq<ForeignLayer>, limit: int) -> bool {
    forall|i: int|
        0 <= i < foreign.len() ==> chain_of(
            (#[trigger] foreign[i]).clip_masks@,
            window_from(windows, foreign[i].surface_id, 0),
            limit,
        ) is Some
}

/// The whole desktop scene.
pub open spec fn desktop_nodes(
    physical: Size,
    foreign: Seq<ForeignLayer>,
    windows: Seq<WindowFrame>,
    overlays: Seq<Overlay>,
    damage: Seq<Rect>,
    limit: int,
) -> Seq<NodeView> {
    let full = full_rect(physical);
    seq![root_node(full, damage)] + all_window_nodes(
        full,
        windows,
        foreign,
        limit,
        windows.len() as int,
    ) + overlay_nodes(full, overlays)
}

fn find_window(windows: &Vec<WindowFrame>, surface: u32) -> (result: Option<usize>)
    ensures
        match result {
            Some(i) => i < windows@.len() && window_from(windows@, surface, 0) == Some(
                windows@[i as int],
            ),
            None => window_from(windows@, surface, 0) is None,
        },
{
    let mut i: usize = 0;
    while i < windows.len()
        invariant
            i <= windows@.len(),
            window_from(windows@, surface, 0) == window_from(windows@, surface, i as int),
        decreases windows@.len() - i,
    {
        if windows[i].surface_id == surface {
            return Some(i);
        }
        i = i + 1;
    }
    None
}

fn find_layer(foreign: &Vec<ForeignLayer>, surface: u32) -> (result: Option<usize>)
    ensures
        match result {
            Some(i) => i < foreign@.len() && layer_from(foreign@, surface, 0) == Some(i as int),
            None => layer_from(foreign@, surface, 0) is None,
        },
{
    let mut i: usize = 0;
    while i < foreign.len()
        invariant
            i <= foreign@.len(),
            layer_from(foreign@, surface, 0) == layer_from(foreign@, surface, i as int),
        decreases foreign@.len() - i,
    {
        if foreign[i].surface_id == surface {
            return Some(i);
        }
        i = i + 1;
    }
    None
}

fn single<T: Copy>(value: T) -> (result: Vec<T>)
    ensures
        result@ == seq![value],
{
    let mut out: Vec<T> = Vec::new();
    out.push(value);
    assert(out@ =~= seq![value]);
    out
}

fn make_cutout(full: Rect, group: u32, clip: Rect, mask: ClipMask) -> (result: SceneNode)
    ensures
        result@ == cutout(full, group, clip, mask),
{
    let node = SceneNode {
        kind: SceneNodeKind::DisplayList,
        window_group: group,
        source_id: 0,
        configure_serial: 0,
        bounds: full,
        clip,
        clip_masks: single(mask),
        opaque: None,
        input: single(clip),
        damage: Vec::new(),
    };
    assert(node.damage@ =~= Seq::<Rect>::empty());
    node
}

fn push_window(
    nodes: &mut Vec<SceneNode>,
    full: Rect,
    windows: &Vec<WindowFrame>,
    foreign: &Vec<ForeignLayer>,
    limit: usize,
    at: usize,
)
    requires
        at < windows@.len(),
        chains_fit(windows@, foreign@, limit as int),
    ensures
        node_views(final(nodes)@) == node_views(old(nodes)@) + window_nodes(
            full,
            windows@,
            foreign@,
            limit as int,
            at as int,
        ),
{
    let ghost before = node_views(nodes@);
    let window = &windows[at];
    nodes.push(make_cutout(full, window.surface_id, window.frame, window.clip_mask));
    if let Some(i) = find_layer(foreign, window.surface_id) {
        let layer = &foreign[i];
        let found = find_window(windows, layer.surface_id);
        let owner: Option<&WindowFrame> = match found {
            Some(w) => Some(&windows[w]),
            None => None,
        };
        assert(chain_of(
            foreign@[i as int].clip_masks@,
            window_from(windows@, foreign@[i as int].surface_id, 0),
            limit as int,
        ) is Some);
        if let Ok(masks) = scene_clip_masks(layer, owner, limit) {
            let client = SceneNode {
                kind: SceneNodeKind::ForeignSurface,
                window_group: layer.surface_id,
                source_id: layer.surface_id,
                configure_serial: layer.configure_serial,
                bounds: layer.bounds,
                clip: layer.clip,
                clip_masks: masks,
                opaque: Some(layer.bounds),
                input: single(layer.bounds),
                damage: Vec::new(),
            };
            assert(client.damage@ =~= Seq::<Rect>::empty());
            nodes.push(client);
            if layer.desktop_input.len() > 0 {
                let input = SceneNode {
                    kind: SceneNodeKind::DisplayList,
                    window_group: layer.surface_id,
                    source_id: 0,
                    configure_serial: 0,
                    bounds: full,
                    clip: Rect { x: 0, y: 0, width: 0, height: 0 },
                    clip_masks: Vec::new(),
                    opaque: None,
                    input: vstd::slice::slice_to_vec(layer.desktop_input.as_slice()),
                    damage: Vec::new(),
                };
                assert(input.damage@ =~= Seq::<Rect>::empty());
                assert(input.clip_masks@ =~= Seq::<ClipMask>::empty());
                nodes.push(input);
            }
        }
    }
    assert(node_views(nodes@) =~= before + window_nodes(
        full,
        windows@,
        foreign@,
        limit as int,
        at as int,
    ));
}

/// Builds the desktop scene of one commit.
///
/// Node order is the stacking order: full desktop pixels; for each window its
/// frame, foreign client and later-painted desktop input; then global chrome.
/// An input-only node has an empty clip, which preserves document hit order
/// without obscuring embedded client pixels. `limit` is the number of clip
/// masks that one node can carry; every foreign surface is checked against it,
/// whether a window shows it or not.
pub fn commit_desktop(
    physical: Size,
    foreign: &Vec<ForeignLayer>,
    windows: &Vec<WindowFrame>,
    overlays: &Vec<Overlay>,
    damage: &Vec<Rect>,
    limit: usize,
) -> (result: Result<Vec<SceneNode>, SceneError>)
    ensures
        match result {
            Ok(nodes) => {
                &&& chains_fit(windows@, foreign@, limit as int)
                &&& node_views(nodes@) == desktop_nodes(
                    physical,
                    foreign@,
                    windows@,
                    overlays@,
                    damage@,
                    limit as int,
                )
            },
            Err(error) => {
                &&& !chains_fit(windows@, foreign@, limit as int)
                &&& error == SceneError::ClipChainFull
            },
        },
{
    let full = Rect { x: 0, y: 0, width: physical.width, height: physical.height };
    let mut i: usize = 0;
    while i < foreign.len()
        invariant
            i <= foreign@.len(),
            forall|k: int|
                0 <= k < i ==> chain_of(
                    (#[trigger] foreign@[k]).clip_masks@,
                    window_from(windows@, foreign@[k].surface_id, 0),
                    limit as int,
                ) is Some,
        decreases foreign@.len() - i,
    {
        let found = find_window(windows, foreign[i].surface_id);
        let owner: Option<&WindowFrame> = match found {
            Some(w) => Some(&windows[w]),
            None => None,
        };
        if let Err(error) = scene_clip_masks(&foreign[i], owner, limit) {
            assert(chain_of(
                foreign@[i as int].clip_masks@,
                window_from(windows@, foreign@[i as int].surface_id, 0),
                limit as int,
            ) is None);
            return Err(error);
        }
        i = i + 1;
    }
    let mut nodes: Vec<SceneNode> = Vec::new();
    let root = SceneNode {
        kind: SceneNodeKind::DisplayList,
        window_group: 0,
        source_id: 0,
        configure_serial: 0,
        bounds: full,
        clip: full,
        clip_masks: Vec::new(),
        opaque: Some(full),
        input: single(full),
        damage: vstd::slice::slice_to_vec(damage.as_slice()),
    };
    assert(root.clip_masks@ =~= Seq::<ClipMask>::empty());
    nodes.push(root);
    let ghost head = seq![root_node(full, damage@)];
    assert(node_views(nodes@) =~= head);
    assert(head + Seq::<NodeView>::empty() =~= head);
    let mut w: usize = 0;
    while w < windows.len()
        invariant
            w <= windows@.len(),
            chains_fit(windows@, foreign@, limit as int),
            node_views(nodes@) == head + all_window_nodes(
                full,
                windows@,
                foreign@,
                limit as int,
                w as int,
            ),
        decreases windows@.len() - w,
    {
        push_window(&mut nodes, full, windows, foreign, limit, w);
        assert(node_views(nodes@) =~= head + all_window_nodes(
            full,
            windows@,
            foreign@,
            limit as int,
            w + 1,
        ));
        w = w + 1;
    }
    let ghost middle = node_views(nodes@);
    let mut o: usize = 0;
    while o < overlays.len()
        invariant
            o <= overlays@.len(),
            node_views(nodes@) == middle + overlay_nodes(full, overlays@).take(o as int),
        decreases overlays@.len() - o,
    {
        let overlay = &overlays[o];
        let ghost before = node_views(nodes@);
        let node = make_cutout(full, 0, overlay.rect, overlay.clip_mask);
        assert(node@ == overlay_nodes(full, overlays@)[o as int]);
        nodes.push(node);
        assert(node_views(nodes@) =~= before.push(node@));
        assert(overlay_nodes(full, overlays@).take(o + 1) =~= overlay_nodes(full, overlays@).take(
            o as int,
        ).push(node@));
        assert(node_views(nodes@) =~= middle + overlay_nodes(full, overlays@).take(o + 1));
        o = o + 1;
    }
    assert(overlay_nodes(full, overlays@).take(o as int) =~= overlay_nodes(full, overlays@));
    Ok(nodes)
}

/// Every window shows its frame directly below its client, and nothing of
/// another window lies between them.
pub proof fn client_stands_on_its_frame(
    full: Rect,
    windows: Seq<WindowFrame>,
    foreign: Seq<ForeignLayer>,
    limit: int,
    at: int,
)
    requires
        0 <= at < windows.len(),
        layer_from(foreign, windows[at].surface_id, 0) is Some,
    ensures
        ({
            let nodes = window_nodes(full, windows, foreign, limit, at);
            &&& 2 <= nodes.len() <= 3
            &&& nodes[0].kind == SceneNodeKind::DisplayList
            &&& nodes[0].window_group == windows[at].surface_id
            &&& nodes[1].kind == SceneNodeKind::ForeignSurface
            &&& nodes[1].source_id == windows[at].surface_id
        }),
{
    layer_has_its_surface(foreign, windows[at].surface_id, 0);
}

proof fn layer_has_its_surface(foreign: Seq<ForeignLayer>, surface: u32, from: int)
    requires
        0 <= from,
        layer_from(foreign, surface, from) is Some,
    ensures
        from <= layer_from(foreign, surface, from)->0 < foreign.len(),
        foreign[layer_from(foreign, surface, from)->0].surface_id == surface,
    decreases foreign.len() - from,
{
    if foreign[from].surface_id != surface {
        layer_has_its_surface(foreign, surface, from + 1);
    }
}

/// The clip chain of an embedded surface always includes the shape of its
/// window.
pub proof fn chain_includes_window_shape(masks: Seq<ClipMask>, window: WindowFrame, limit: int)
    requires
        chain_of(masks, Some(window), limit) is Some,
    ensures
        chain_of(masks, Some(window), limit)->0.contains(window.clip_mask),
        forall|i: int|
            0 <= i < masks.len() ==> chain_of(masks, Some(window), limit)->0.contains(
                #[trigger] masks[i],
            ),
{
    let chain = chain_of(masks, Some(window), limit)->0;
    if !masks.contains(window.clip_mask) {
        assert(chain[masks.len() as int] == window.clip_mask);
    }
    assert forall|i: int| 0 <= i < masks.len() implies chain.contains(#[trigger] masks[i]) by {
        assert(chain[i] == masks[i]);
    }
}

} // verus!
