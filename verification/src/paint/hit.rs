//! The input region of a painted node.

use vstd::prelude::*;
use vstd::string::*;
use crate::input::{Editable, HitRegion, RangeControl};
use crate::paint::Laid;
use crate::rect::PhysicalRect;
use crate::style::{value_of, Computed};
use crate::text::same;
use crate::tree::{
    autofocuses, flag_prop, flagged, listener, number_of, string_of, takes_autofocus, text_prop,
    Node, NodeView,
};

verus! {

/// A painted input region with what the compositor needs of it.
pub struct PaintedHit {
    pub region: HitRegion,
    pub window_group: Option<u32>,
    pub visible: PhysicalRect,
}

/// What an editable region holds.
pub struct EditableView {
    pub value: Seq<char>,
    pub on_input: Option<u64>,
    pub text_origin_x: i32,
}

/// What a [`PaintedHit`] holds.
pub struct HitView {
    pub node_id: u64,
    pub parent_node_id: Option<u64>,
    pub window_group: Option<u32>,
    pub visible: PhysicalRect,
    pub left: i32,
    pub top: i32,
    pub right: i32,
    pub bottom: i32,
    pub click: Option<u64>,
    pub double_click: Option<u64>,
    pub context_menu: Option<u64>,
    pub pointer_down: Option<u64>,
    pub pointer_up: Option<u64>,
    pub pointer_move: Option<u64>,
    pub pointer_enter: Option<u64>,
    pub pointer_leave: Option<u64>,
    pub wheel: Option<u64>,
    pub key_down: Option<u64>,
    pub editable: Option<EditableView>,
    pub range: Option<RangeControl>,
    pub button: bool,
    pub cursor: u32,
}

impl View for PaintedHit {
    type V = HitView;

    open spec fn view(&self) -> HitView {
        HitView {
            node_id: self.region.node_id,
            parent_node_id: self.region.parent_node_id,
            window_group: self.window_group,
            visible: self.visible,
            left: self.region.left,
            top: self.region.top,
            right: self.region.right,
            bottom: self.region.bottom,
            click: self.region.click,
            double_click: self.region.double_click,
            context_menu: self.region.context_menu,
            pointer_down: self.region.pointer_down,
            pointer_up: self.region.pointer_up,
            pointer_move: self.region.pointer_move,
            pointer_enter: self.region.pointer_enter,
            pointer_leave: self.region.pointer_leave,
            wheel: self.region.wheel,
            key_down: self.region.key_down,
            editable: match self.region.editable {
                Some(field) => Some(
                    EditableView {
                        value: field.value@,
                        on_input: field.on_input,
                        text_origin_x: field.text_origin_x,
                    },
                ),
                None => None,
            },
            range: self.region.range,
            button: self.region.button,
            cursor: self.region.cursor,
        }
    }
}

/// The first logical pixel at or after a physical one.
pub open spec fn logical_edge(physical: usize) -> i32 {
    (physical / 2 + physical % 2) as i32
}

fn to_logical_edge(physical: usize) -> (result: i32)
    ensures
        result == logical_edge(physical),
{
    #[verifier::truncate]
    ((physical / 2 + physical % 2) as i32)
}

/// A logical position lies inside a span exactly if its physical pixel does.
pub proof fn logical_edges_are_exact(x1: usize, x2: usize, x: int)
    requires
        x1 <= 0x7fff_ffff,
        x2 <= 0x7fff_ffff,
    ensures
        logical_edge(x1) <= x < logical_edge(x2) <==> x1 <= 2 * x < x2,
{
}

/// A button that takes no input.
pub open spec fn disabled_button(node: NodeView) -> bool {
    node.kind == "button"@ && flagged(node.props, "disabled"@)
}

/// A button that takes input.
pub open spec fn live_button(node: NodeView) -> bool {
    node.kind == "button"@ && !flagged(node.props, "disabled"@)
}

/// A listener that a disabled button does not have.
pub open spec fn interactive(node: NodeView, name: Seq<char>) -> Option<u64> {
    if disabled_button(node) {
        None
    } else {
        number_of(node.props, name)
    }
}

/// The range of a field.
pub open spec fn range_of(node: NodeView, laid: Laid) -> Option<RangeControl> {
    if node.kind == "input"@ {
        laid.range
    } else {
        None
    }
}

/// The text of a text field.
pub open spec fn editable_of(node: NodeView, laid: Laid) -> Option<EditableView> {
    if node.kind == "input"@ && laid.range is None {
        Some(
            EditableView {
                value: match string_of(node.props, "value"@) {
                    Some(text) => text,
                    None => Seq::empty(),
                },
                on_input: number_of(node.props, "onInput"@),
                text_origin_x: laid.text_origin_x,
            },
        )
    } else {
        None
    }
}

/// The node can take focus.
pub open spec fn focusable(node: NodeView, laid: Laid) -> bool {
    ||| editable_of(node, laid) is Some
    ||| range_of(node, laid) matches Some(range) && !range.disabled
    ||| live_button(node)
}

/// Input reaches the node: no ancestor and not the node itself lets it through.
pub open spec fn hits_allowed(ancestor: bool, style: Map<Seq<char>, Seq<char>>) -> bool {
    ancestor && value_of(style, "pointer-events"@) != Some("none"@)
}

/// Whether input reaches a node.
pub fn hits_enabled(ancestor: bool, computed: &Computed) -> (result: bool)
    ensures
        result == hits_allowed(ancestor, computed@),
{
    ancestor && !computed.is("pointer-events", "none")
}

/// The input region of a node.
pub open spec fn hit_of(
    node: NodeView,
    laid: Laid,
    parent: Option<u64>,
    group: Option<u32>,
    visible: PhysicalRect,
) -> HitView {
    HitView {
        node_id: node.id,
        parent_node_id: parent,
        window_group: group,
        visible,
        left: logical_edge(visible.x1),
        top: logical_edge(visible.y1),
        right: logical_edge(visible.x2),
        bottom: logical_edge(visible.y2),
        click: interactive(node, "onClick"@),
        double_click: interactive(node, "onDoubleClick"@),
        context_menu: number_of(node.props, "onContextMenu"@),
        pointer_down: interactive(node, "onPointerDown"@),
        pointer_up: interactive(node, "onPointerUp"@),
        pointer_move: number_of(node.props, "onPointerMove"@),
        pointer_enter: number_of(node.props, "onPointerEnter"@),
        pointer_leave: number_of(node.props, "onPointerLeave"@),
        wheel: number_of(node.props, "onWheel"@),
        key_down: interactive(node, "onKeyDown"@),
        editable: editable_of(node, laid),
        range: range_of(node, laid),
        button: live_button(node),
        cursor: laid.cursor,
    }
}

fn live_listener(node: &Node, disabled: bool, name: &str) -> (result: Option<u64>)
    requires
        disabled == disabled_button(node@),
    ensures
        result == interactive(node@, name@),
{
    if disabled {
        None
    } else {
        listener(node, name)
    }
}

/// Whether a node takes focus by itself.
pub fn wants_autofocus(node: &Node, laid: &Laid, focused: Option<u64>) -> (result: bool)
    ensures
        result == (focusable(node@, *laid) && autofocuses(node@.props, focused)),
{
    let is_button = same(node.kind.as_str(), "button");
    let is_input = same(node.kind.as_str(), "input");
    let takes = if is_input {
        match laid.range {
            Some(range) => !range.disabled,
            None => true,
        }
    } else {
        is_button && !flag_prop(&node.props, "disabled")
    };
    proof {
        reveal_strlit("button");
        reveal_strlit("input");
        assert("button"@.len() != "input"@.len());
    }
    takes && takes_autofocus(&node.props, focused)
}

/// The listener that gets keys while no control has focus.
pub fn key_listener(node: &Node) -> (result: Option<u64>)
    ensures
        result == interactive(node@, "onKeyDown"@),
{
    let disabled = same(node.kind.as_str(), "button") && flag_prop(&node.props, "disabled");
    live_listener(node, disabled, "onKeyDown")
}

/// Builds the input region of a node.
pub fn gpu_hit(
    node: &Node,
    laid: &Laid,
    parent: Option<u64>,
    group: Option<u32>,
    visible: PhysicalRect,
) -> (result: PaintedHit)
    ensures
        result@ == hit_of(node@, *laid, parent, group, visible),
{
    let is_button = same(node.kind.as_str(), "button");
    let is_input = same(node.kind.as_str(), "input");
    let disabled = is_button && flag_prop(&node.props, "disabled");
    let range = if is_input {
        laid.range
    } else {
        None
    };
    let editable = if is_input && range.is_none() {
        let value = match text_prop(&node.props, "value") {
            Some(text) => text.to_owned(),
            None => {
                proof {
                    reveal_strlit("");
                }
                "".to_owned()
            },
        };
        assert(string_of(node@.props, "value"@) is None ==> value@ =~= Seq::empty());
        Some(
            Editable {
                value,
                on_input: listener(node, "onInput"),
                text_origin_x: laid.text_origin_x,
            },
        )
    } else {
        None
    };
    PaintedHit {
        region: HitRegion {
            node_id: node.id,
            parent_node_id: parent,
            left: to_logical_edge(visible.x1),
            top: to_logical_edge(visible.y1),
            right: to_logical_edge(visible.x2),
            bottom: to_logical_edge(visible.y2),
            click: live_listener(node, disabled, "onClick"),
            double_click: live_listener(node, disabled, "onDoubleClick"),
            context_menu: listener(node, "onContextMenu"),
            pointer_down: live_listener(node, disabled, "onPointerDown"),
            pointer_up: live_listener(node, disabled, "onPointerUp"),
            pointer_move: listener(node, "onPointerMove"),
            pointer_enter: listener(node, "onPointerEnter"),
            pointer_leave: listener(node, "onPointerLeave"),
            wheel: listener(node, "onWheel"),
            key_down: live_listener(node, disabled, "onKeyDown"),
            editable,
            range,
            button: is_button && !disabled,
            cursor: laid.cursor,
        },
        window_group: group,
        visible,
    }
}

/// A disabled button hears no press, click or key.
pub proof fn disabled_buttons_are_deaf(
    node: NodeView,
    laid: Laid,
    parent: Option<u64>,
    group: Option<u32>,
    visible: PhysicalRect,
)
    requires
        disabled_button(node),
    ensures
        ({
            let hit = hit_of(node, laid, parent, group, visible);
            &&& hit.click is None && hit.double_click is None && hit.pointer_down is None
            &&& hit.pointer_up is None && hit.key_down is None && !hit.button
        }),
{
}

} // verus!
