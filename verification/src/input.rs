//! DOM-style input targeting over the latest rendered hit regions.
//!
//! The dispatchers decide; every effect on the script engine, the renderer and
//! the display is returned as an [`Action`] for the event loop to perform in
//! order. An action that changes what is painted invalidates the scene.

pub mod key;
pub mod pointer;
pub mod script;

use vstd::prelude::*;
use vstd::string::*;
use crate::font::CursorMove;
use crate::keymap::{Modifiers, TextEdit};

verus! {

/// Linux evdev `BTN_RIGHT`; the right button opens context menus rather than
/// starting a drag or click.
pub const BTN_RIGHT: u32 = 273;

/// The cursor shape outside every region.
pub const CURSOR_DEFAULT: u32 = 0;

/// Longest time between the two clicks of a double click, in nanoseconds.
pub const DOUBLE_CLICK_NS: u64 = 500_000_000;

/// Farthest distance between the two clicks of a double click, on each axis.
pub const DOUBLE_CLICK_SLOP: i64 = 4;

/// What a text field edits.
pub struct Editable {
    pub value: String,
    pub on_input: Option<u64>,
    pub text_origin_x: i32,
}

/// A range slider.
#[derive(Clone, Copy, Debug, PartialEq, Eq, Structural)]
pub struct RangeControl {
    pub disabled: bool,
}

/// One painted region that takes input, in painting order. It holds the pixels
/// with `left <= x < right` and `top <= y < bottom`.
pub struct HitRegion {
    pub node_id: u64,
    pub parent_node_id: Option<u64>,
    pub left: i32,
    pub top: i32,
    pub right: i32,
    pub bottom: i32,
    pub click: Option<u64>,
    pub double_click: Option<u64>,
    pub context_menu: Option<u64>,
    pub pointer_down: Option<u64>,
    pub pointer_up: Option<u64>,
    pub pointer_move: Option<u64>,
    pub pointer_enter: Option<u64>,
    pub pointer_leave: Option<u64>,
    pub wheel: Option<u64>,
    pub key_down: Option<u64>,
    pub editable: Option<Editable>,
    pub range: Option<RangeControl>,
    pub button: bool,
    pub cursor: u32,
}

/// The listeners that an event can bubble to.
#[derive(Clone, Copy, Debug, PartialEq, Eq, Structural)]
pub enum ListenerKind {
    Click,
    DoubleClick,
    ContextMenu,
    PointerDown,
    PointerUp,
    PointerMove,
    Wheel,
    KeyDown,
}

/// What a region is looked for.
#[derive(Clone, Copy, Debug, PartialEq, Eq, Structural)]
pub enum Want {
    /// Any region.
    Any,
    /// Text fields, enabled ranges and buttons take focus.
    Focusable,
    /// Text fields.
    Text,
    /// Enabled ranges.
    Range,
    /// Regions that listen for the pointer entering, leaving or moving.
    Hoverable,
}

/// The payload of a dispatched event.
#[derive(Clone, Copy, Debug, PartialEq, Eq, Structural)]
pub enum EventKind {
    /// The pointer event itself.
    Pointer,
    /// A click with detail 1.
    Click,
    /// A double click with detail 2.
    DoubleClick,
    /// A wheel event.
    Wheel,
    /// The key event itself.
    Key,
    /// A click made with the keyboard, detail 0.
    KeyboardClick,
}

/// One effect for the event loop to perform.
#[derive(Clone, Copy, Debug, PartialEq, Eq, Structural)]
pub enum Action {
    /// Let media play: the user has acted physically.
    GrantMediaPlayback,
    /// Point `:hover` at a node.
    SetHover(Option<u64>),
    /// Point `:active` at a node.
    SetActive(Option<u64>),
    /// Move focus.
    SetFocus(Option<u64>),
    /// Press the scrollbar under the pointer.
    ScrollbarDown,
    /// Drag the pressed scrollbar to the pointer.
    ScrollbarMove,
    /// Release the pressed scrollbar.
    ScrollbarUp,
    /// Scroll the container under the pointer by the wheel.
    ScrollWheel,
    /// Place the caret of the region's text field at the pointer.
    PlaceCursor { hit: usize, extend: bool },
    /// Set the region's range from the pointer.
    RangePointer { hit: usize },
    /// Step the region's range.
    RangeStep { hit: usize, direction: i32 },
    /// Call one listener.
    Listener { listener: u64, event: EventKind },
    /// Call the listeners on the route from a node to the root.
    Bubble { target: u64, kind: ListenerKind, event: EventKind },
    /// Show a cursor shape.
    CursorShape(u32),
    /// Move the caret of the region's text field.
    MoveCaret { hit: usize, movement: CursorMove, extend: bool },
    /// Move the caret to an end of the region's text field.
    CaretToEdge { hit: usize, end: bool, extend: bool },
    /// Apply an edit to the region's text field and report the value.
    Edit { hit: usize, edit: TextEdit, on_input: u64 },
    /// Remember something for later events. What stands behind an effect that
    /// failed is not remembered.
    Remember(Memory),
}

/// The phase of a pointer event.
#[derive(Clone, Copy, Debug, PartialEq, Eq, Structural)]
pub enum PointerPhase {
    Motion,
    Down,
    Up,
}

/// A pointer event routed against the presented scene.
#[derive(Clone, Copy, Debug, PartialEq, Eq, Structural)]
pub struct InputPointer {
    pub phase: PointerPhase,
    pub x: i32,
    pub y: i32,
    pub button: u32,
    pub buttons: u32,
    pub serial: u64,
}

/// A key event.
#[derive(Clone, Copy, Debug, PartialEq, Eq, Structural)]
pub struct InputKey {
    pub code: u32,
    pub value: i32,
    pub modifiers: u32,
}

/// The node that received pointer-down. The node is captured rather than its
/// listeners, which a commit may replace before the pointer is released.
#[derive(Clone, Copy, Debug, PartialEq, Eq, Structural)]
pub struct PointerCapture {
    pub node_id: u64,
}

/// The time and place of a click.
#[derive(Clone, Copy, Debug, PartialEq, Eq, Structural)]
pub struct ClickMark {
    pub at: u64,
    pub x: i32,
    pub y: i32,
}

/// What the dispatchers remember between events.
pub struct Interactions {
    pub hits: Vec<HitRegion>,
    pub modifiers: Modifiers,
    pub key_listener: Option<u64>,
    pub pointer_position: Option<(i32, i32)>,
    pub native_scroll_pointer: bool,
    pub hovered: Option<u64>,
    pub cursor_shape: u32,
    pub pointer_capture: Option<PointerCapture>,
    pub last_click: Option<ClickMark>,
}

/// One thing that the dispatchers remember.
#[derive(Clone, Copy, Debug, PartialEq, Eq, Structural)]
pub enum Memory {
    /// Where the pointer is.
    Position { x: i32, y: i32 },
    /// Whether a native scrollbar has the pointer.
    NativeScroll(bool),
    /// The node that the pointer entered last.
    Hovered(Option<u64>),
    /// The shape of the shown cursor.
    CursorShape(u32),
    /// The node that has the pointer.
    Capture(Option<PointerCapture>),
    /// The click that a double click may follow.
    Click(Option<ClickMark>),
}

/// What is remembered with one thing more.
pub open spec fn remembering(s: Interactions, memory: Memory) -> Interactions {
    match memory {
        Memory::Position { x, y } => Interactions { pointer_position: Some((x, y)), ..s },
        Memory::NativeScroll(held) => Interactions { native_scroll_pointer: held, ..s },
        Memory::Hovered(node) => Interactions { hovered: node, ..s },
        Memory::CursorShape(shape) => Interactions { cursor_shape: shape, ..s },
        Memory::Capture(capture) => Interactions { pointer_capture: capture, ..s },
        Memory::Click(mark) => Interactions { last_click: mark, ..s },
    }
}

/// What is remembered once these actions have been carried out in turn.
pub open spec fn after_actions(s: Interactions, actions: Seq<Action>) -> Interactions
    decreases actions.len(),
{
    if actions.len() == 0 {
        s
    } else {
        let before = after_actions(s, actions.drop_last());
        match actions.last() {
            Action::Remember(memory) => remembering(before, memory),
            _ => before,
        }
    }
}

impl Interactions {
    /// Remembers one thing.
    pub fn remember(&mut self, memory: Memory)
        ensures
            *final(self) == remembering(*old(self), memory),
    {
        match memory {
            Memory::Position { x, y } => {
                self.pointer_position = Some((x, y));
            },
            Memory::NativeScroll(held) => {
                self.native_scroll_pointer = held;
            },
            Memory::Hovered(node) => {
                self.hovered = node;
            },
            Memory::CursorShape(shape) => {
                self.cursor_shape = shape;
            },
            Memory::Capture(capture) => {
                self.pointer_capture = capture;
            },
            Memory::Click(mark) => {
                self.last_click = mark;
            },
        }
    }
}

/// Actions in two parts are remembered one part after the other.
pub proof fn actions_in_turn(s: Interactions, a: Seq<Action>, b: Seq<Action>)
    ensures
        after_actions(s, a + b) == after_actions(after_actions(s, a), b),
    decreases b.len(),
{
    if b.len() == 0 {
        assert(a + b =~= a);
    } else {
        actions_in_turn(s, a, b.drop_last());
        assert((a + b).drop_last() =~= a + b.drop_last());
        assert((a + b).last() == b.last());
    }
}

/// One memory alone.
pub proof fn one_thing_is_remembered(s: Interactions, memory: Memory)
    ensures
        after_actions(s, seq![Action::Remember(memory)]) == remembering(s, memory),
{
    assert(seq![Action::Remember(memory)].drop_last() =~= Seq::<Action>::empty());
    reveal_with_fuel(after_actions, 2);
}

/// Effects alone leave what is remembered.
pub proof fn effects_are_not_remembered(s: Interactions, actions: Seq<Action>)
    requires
        forall|i: int| 0 <= i < actions.len() ==> !((#[trigger] actions[i]) is Remember),
    ensures
        after_actions(s, actions) == s,
    decreases actions.len(),
{
    if actions.len() > 0 {
        let rest = actions.drop_last();
        assert forall|i: int| 0 <= i < rest.len() implies !((#[trigger] rest[i]) is Remember) by {
            assert(rest[i] == actions[i]);
        }
        effects_are_not_remembered(s, rest);
        assert(actions.last() == actions[actions.len() - 1]);
    }
}

/// The point lies in the region.
pub open spec fn covers(hit: HitRegion, x: int, y: int) -> bool {
    hit.left <= x < hit.right && hit.top <= y < hit.bottom
}

/// The region is an enabled range.
pub open spec fn live_range(hit: HitRegion) -> bool {
    hit.range matches Some(range) && !range.disabled
}

/// The region is what is looked for.
pub open spec fn wanted(hit: HitRegion, want: Want) -> bool {
    match want {
        Want::Any => true,
        Want::Focusable => hit.editable is Some || live_range(hit) || hit.button,
        Want::Text => hit.editable is Some,
        Want::Range => live_range(hit),
        Want::Hoverable => hit.pointer_enter is Some || hit.pointer_leave is Some
            || hit.pointer_move is Some,
    }
}

/// The last painted of the first `n` regions that covers the point and is
/// wanted.
pub open spec fn topmost_of(hits: Seq<HitRegion>, n: int, x: int, y: int, want: Want) -> Option<int>
    decreases n,
{
    if n <= 0 {
        None
    } else if covers(hits[n - 1], x, y) && wanted(hits[n - 1], want) {
        Some(n - 1)
    } else {
        topmost_of(hits, n - 1, x, y, want)
    }
}

/// The topmost wanted region at the point.
pub open spec fn topmost(hits: Seq<HitRegion>, x: int, y: int, want: Want) -> Option<int> {
    topmost_of(hits, hits.len() as int, x, y, want)
}

/// The node of an optional region.
pub open spec fn node_at(hits: Seq<HitRegion>, at: Option<int>) -> Option<u64> {
    match at {
        Some(i) => Some(hits[i].node_id),
        None => None,
    }
}

/// The topmost node at the point, which styles and bubbling start from.
pub open spec fn target_at(hits: Seq<HitRegion>, x: int, y: int) -> Option<u64> {
    node_at(hits, topmost(hits, x, y, Want::Any))
}

/// The first region of a node, from position `from` on.
pub open spec fn first_from(hits: Seq<HitRegion>, node: u64, from: int) -> Option<int>
    decreases hits.len() - from,
{
    if from < 0 || from >= hits.len() {
        None
    } else if hits[from].node_id == node {
        Some(from)
    } else {
        first_from(hits, node, from + 1)
    }
}

/// The first region of a node.
pub open spec fn region_of(hits: Seq<HitRegion>, node: u64) -> Option<int> {
    first_from(hits, node, 0)
}

/// The listener of a region.
pub open spec fn listener_of(hit: HitRegion, kind: ListenerKind) -> Option<u64> {
    match kind {
        ListenerKind::Click => hit.click,
        ListenerKind::DoubleClick => hit.double_click,
        ListenerKind::ContextMenu => hit.context_menu,
        ListenerKind::PointerDown => hit.pointer_down,
        ListenerKind::PointerUp => hit.pointer_up,
        ListenerKind::PointerMove => hit.pointer_move,
        ListenerKind::Wheel => hit.wheel,
        ListenerKind::KeyDown => hit.key_down,
    }
}

/// The parents of a node end at a node without region or parent within `steps`
/// steps. Parents that lead in a circle never end.
pub open spec fn climbs(hits: Seq<HitRegion>, from: Option<u64>, steps: int) -> bool
    decreases steps,
{
    match from {
        None => true,
        Some(node) => match region_of(hits, node) {
            None => true,
            Some(i) => steps > 0 && climbs(hits, hits[i].parent_node_id, steps - 1),
        },
    }
}

/// The listeners from a node up through its parents, at most `steps` of them.
pub open spec fn route_within(
    hits: Seq<HitRegion>,
    from: Option<u64>,
    kind: ListenerKind,
    steps: int,
) -> Seq<u64>
    decreases steps,
{
    match from {
        None => Seq::empty(),
        Some(node) => match region_of(hits, node) {
            None => Seq::empty(),
            Some(i) => if steps <= 0 {
                Seq::empty()
            } else {
                let above = route_within(hits, hits[i].parent_node_id, kind, steps - 1);
                match listener_of(hits[i], kind) {
                    Some(listener) => seq![listener] + above,
                    None => above,
                }
            },
        },
    }
}

/// The listeners from a node up through its parents.
pub open spec fn route(hits: Seq<HitRegion>, from: Option<u64>, kind: ListenerKind) -> Seq<u64> {
    route_within(hits, from, kind, hits.len() as int)
}

/// No parents lead in a circle.
pub open spec fn rooted(hits: Seq<HitRegion>) -> bool {
    forall|from: Option<u64>| #[trigger] climbs(hits, from, hits.len() as int)
}

fn is_inside(hit: &HitRegion, x: i32, y: i32) -> (result: bool)
    ensures
        result == covers(*hit, x as int, y as int),
{
    hit.left <= x && x < hit.right && hit.top <= y && y < hit.bottom
}

fn is_live_range(hit: &HitRegion) -> (result: bool)
    ensures
        result == live_range(*hit),
{
    match &hit.range {
        Some(range) => !range.disabled,
        None => false,
    }
}

fn is_wanted(hit: &HitRegion, want: Want) -> (result: bool)
    ensures
        result == wanted(*hit, want),
{
    match want {
        Want::Any => true,
        Want::Focusable => hit.editable.is_some() || is_live_range(hit) || hit.button,
        Want::Text => hit.editable.is_some(),
        Want::Range => is_live_range(hit),
        Want::Hoverable => hit.pointer_enter.is_some() || hit.pointer_leave.is_some()
            || hit.pointer_move.is_some(),
    }
}

/// An optional position as an integer.
pub open spec fn position(at: Option<usize>) -> Option<int> {
    match at {
        Some(i) => Some(i as int),
        None => None,
    }
}

/// Finds the topmost wanted region at a point.
pub fn find_topmost(hits: &Vec<HitRegion>, x: i32, y: i32, want: Want) -> (result: Option<usize>)
    ensures
        position(result) == topmost(hits@, x as int, y as int, want),
        result matches Some(i) ==> i < hits@.len(),
{
    let mut i: usize = hits.len();
    while i > 0
        invariant
            i <= hits@.len(),
            topmost(hits@, x as int, y as int, want) == topmost_of(
                hits@,
                i as int,
                x as int,
                y as int,
                want,
            ),
        decreases i,
    {
        i = i - 1;
        if is_inside(&hits[i], x, y) && is_wanted(&hits[i], want) {
            return Some(i);
        }
    }
    None
}

/// Finds the first region of a node.
pub fn find_region(hits: &Vec<HitRegion>, node: u64) -> (result: Option<usize>)
    ensures
        position(result) == region_of(hits@, node),
        result matches Some(i) ==> i < hits@.len() && hits@[i as int].node_id == node,
{
    let mut i: usize = 0;
    while i < hits.len()
        invariant
            i <= hits@.len(),
            region_of(hits@, node) == first_from(hits@, node, i as int),
        decreases hits@.len() - i,
    {
        if hits[i].node_id == node {
            return Some(i);
        }
        i = i + 1;
    }
    None
}

fn node_of(hits: &Vec<HitRegion>, at: Option<usize>) -> (result: Option<u64>)
    requires
        at matches Some(i) ==> i < hits@.len(),
    ensures
        result == node_at(hits@, position(at)),
{
    match at {
        Some(i) => Some(hits[i].node_id),
        None => None,
    }
}

fn listener(hit: &HitRegion, kind: ListenerKind) -> (result: Option<u64>)
    ensures
        result == listener_of(*hit, kind),
{
    match kind {
        ListenerKind::Click => hit.click,
        ListenerKind::DoubleClick => hit.double_click,
        ListenerKind::ContextMenu => hit.context_menu,
        ListenerKind::PointerDown => hit.pointer_down,
        ListenerKind::PointerUp => hit.pointer_up,
        ListenerKind::PointerMove => hit.pointer_move,
        ListenerKind::Wheel => hit.wheel,
        ListenerKind::KeyDown => hit.key_down,
    }
}

/// The route of an event from its deepest painted target through the actual
/// document ancestors.
pub fn bubbling_listener_ids(
    hits: &Vec<HitRegion>,
    target: Option<u64>,
    kind: ListenerKind,
) -> (result: Vec<u64>)
    requires
        climbs(hits@, target, hits@.len() as int),
    ensures
        result@ == route(hits@, target, kind),
{
    let mut current: Option<u64> = target;
    let mut out: Vec<u64> = Vec::new();
    let ghost mut steps: int = hits@.len() as int;
    assert(out@ + route_within(hits@, current, kind, steps) =~= route(hits@, target, kind));
    loop
        invariant
            climbs(hits@, current, steps),
            out@ + route_within(hits@, current, kind, steps) == route(hits@, target, kind),
        decreases steps,
    {
        let found: Option<usize> = match current {
            Some(node) => find_region(hits, node),
            None => None,
        };
        match found {
            None => {
                assert(out@ + Seq::<u64>::empty() =~= out@);
                return out;
            },
            Some(i) => {
                let ghost before = out@;
                let ghost above = route_within(
                    hits@,
                    hits@[i as int].parent_node_id,
                    kind,
                    steps - 1,
                );
                if let Some(id) = listener(&hits[i], kind) {
                    out.push(id);
                    assert(before + (seq![id] + above) =~= out@ + above);
                }
                current = hits[i].parent_node_id;
                proof {
                    steps = steps - 1;
                }
            },
        }
    }
}

fn climb_ends(hits: &Vec<HitRegion>, from: u64) -> (result: bool)
    ensures
        result == climbs(hits@, Some(from), hits@.len() as int),
{
    let mut current: Option<u64> = Some(from);
    let mut steps: usize = hits.len();
    loop
        invariant
            climbs(hits@, Some(from), hits@.len() as int) == climbs(
                hits@,
                current,
                steps as int,
            ),
        decreases steps,
    {
        match current {
            None => return true,
            Some(node) => match find_region(hits, node) {
                None => return true,
                Some(i) => {
                    if steps == 0 {
                        return false;
                    }
                    current = hits[i].parent_node_id;
                    steps = steps - 1;
                },
            },
        }
    }
}

proof fn unknown_nodes_end(hits: Seq<HitRegion>, node: u64, from: int)
    requires
        0 <= from,
        forall|k: int| from <= k < hits.len() ==> (#[trigger] hits[k]).node_id != node,
    ensures
        first_from(hits, node, from) is None,
    decreases hits.len() - from,
{
    if from < hits.len() {
        unknown_nodes_end(hits, node, from + 1);
    }
}

/// Whether the dispatchers may walk these regions.
pub fn is_rooted(hits: &Vec<HitRegion>) -> (result: bool)
    ensures
        result == rooted(hits@),
{
    let mut i: usize = 0;
    while i < hits.len()
        invariant
            i <= hits@.len(),
            forall|k: int|
                0 <= k < i ==> climbs(
                    hits@,
                    Some((#[trigger] hits@[k]).node_id),
                    hits@.len() as int,
                ),
        decreases hits@.len() - i,
    {
        if !climb_ends(hits, hits[i].node_id) {
            return false;
        }
        i = i + 1;
    }
    assert forall|from: Option<u64>| #[trigger] climbs(hits@, from, hits@.len() as int) by {
        if let Some(node) = from {
            if forall|k: int| 0 <= k < hits@.len() ==> (#[trigger] hits@[k]).node_id != node {
                unknown_nodes_end(hits@, node, 0);
            } else {
                let k = choose|k: int| 0 <= k < hits@.len() && (#[trigger] hits@[k]).node_id == node;
                assert(climbs(hits@, Some(hits@[k].node_id), hits@.len() as int));
            }
        }
    }
    true
}

impl PointerCapture {
    /// The captured region, if it is still painted.
    pub fn hit(self, hits: &Vec<HitRegion>) -> (result: Option<usize>)
        ensures
            position(result) == region_of(hits@, self.node_id),
            result matches Some(i) ==> i < hits@.len() && hits@[i as int].node_id == self.node_id,
    {
        find_region(hits, self.node_id)
    }

    /// The listener for motion of the captured region as it is now.
    pub fn move_listener(self, hits: &Vec<HitRegion>) -> (result: Option<u64>)
        ensures
            result == (match region_of(hits@, self.node_id) {
                Some(i) => hits@[i].pointer_move,
                None => None,
            }),
    {
        match self.hit(hits) {
            Some(i) => hits[i].pointer_move,
            None => None,
        }
    }

    /// The listener for release of the captured region as it is now.
    pub fn up_listener(self, hits: &Vec<HitRegion>) -> (result: Option<u64>)
        ensures
            result == (match region_of(hits@, self.node_id) {
                Some(i) => hits@[i].pointer_up,
                None => None,
            }),
    {
        match self.hit(hits) {
            Some(i) => hits[i].pointer_up,
            None => None,
        }
    }
}

/// The action that bubbles an event, where any listener is on its route.
pub open spec fn bubble(
    hits: Seq<HitRegion>,
    target: Option<u64>,
    kind: ListenerKind,
    event: EventKind,
) -> Seq<Action> {
    if route(hits, target, kind).len() > 0 {
        seq![Action::Bubble { target: target->0, kind, event }]
    } else {
        Seq::empty()
    }
}

fn push_bubble(
    actions: &mut Vec<Action>,
    hits: &Vec<HitRegion>,
    target: Option<u64>,
    kind: ListenerKind,
    event: EventKind,
) -> (result: bool)
    requires
        rooted(hits@),
    ensures
        final(actions)@ == old(actions)@ + bubble(hits@, target, kind, event),
        result == (route(hits@, target, kind).len() > 0),
{
    let ghost before = actions@;
    assert(climbs(hits@, target, hits@.len() as int));
    let ids = bubbling_listener_ids(hits, target, kind);
    if ids.len() == 0 {
        assert(before + Seq::<Action>::empty() =~= before);
        return false;
    }
    if let Some(node) = target {
        actions.push(Action::Bubble { target: node, kind, event });
        assert(actions@ =~= before + seq![Action::Bubble { target: node, kind, event }]);
    }
    true
}

/// The action that calls one optional listener.
pub open spec fn call(listener: Option<u64>, event: EventKind) -> Seq<Action> {
    match listener {
        Some(id) => seq![Action::Listener { listener: id, event }],
        None => Seq::empty(),
    }
}

fn push_call(actions: &mut Vec<Action>, listener: Option<u64>, event: EventKind)
    ensures
        final(actions)@ == old(actions)@ + call(listener, event),
{
    let ghost before = actions@;
    match listener {
        Some(id) => {
            actions.push(Action::Listener { listener: id, event });
            assert(actions@ =~= before + seq![Action::Listener { listener: id, event }]);
        },
        None => {
            assert(before + Seq::<Action>::empty() =~= before);
        },
    }
}

/// The listener of a node for the pointer leaving it.
pub open spec fn leave_of(hits: Seq<HitRegion>, node: Option<u64>) -> Option<u64> {
    match node {
        Some(id) => match region_of(hits, id) {
            Some(i) => hits[i].pointer_leave,
            None => None,
        },
        None => None,
    }
}

/// The listener of a node for the pointer entering it.
pub open spec fn enter_of(hits: Seq<HitRegion>, node: Option<u64>) -> Option<u64> {
    match node {
        Some(id) => match region_of(hits, id) {
            Some(i) => hits[i].pointer_enter,
            None => None,
        },
        None => None,
    }
}

fn leave_listener(hits: &Vec<HitRegion>, node: Option<u64>) -> (result: Option<u64>)
    ensures
        result == leave_of(hits@, node),
{
    match node {
        Some(id) => match find_region(hits, id) {
            Some(i) => hits[i].pointer_leave,
            None => None,
        },
        None => None,
    }
}

fn enter_listener(hits: &Vec<HitRegion>, node: Option<u64>) -> (result: Option<u64>)
    ensures
        result == enter_of(hits@, node),
{
    match node {
        Some(id) => match find_region(hits, id) {
            Some(i) => hits[i].pointer_enter,
            None => None,
        },
        None => None,
    }
}

/// The cursor at a point.
pub open spec fn cursor_at(hits: Seq<HitRegion>, x: int, y: int) -> u32 {
    match topmost(hits, x, y, Want::Any) {
        Some(i) => hits[i].cursor,
        None => CURSOR_DEFAULT,
    }
}

/// The actions that change the shown cursor. It is remembered once it is shown.
pub open spec fn show_cursor(shown: u32, shape: u32) -> Seq<Action> {
    if shown != shape {
        seq![Action::CursorShape(shape), Action::Remember(Memory::CursorShape(shape))]
    } else {
        Seq::empty()
    }
}

/// Showing a cursor leaves it remembered, and nothing else.
pub proof fn shown_cursors_are_remembered(s: Interactions, shape: u32)
    ensures
        after_actions(s, show_cursor(s.cursor_shape, shape)) == (Interactions {
            cursor_shape: shape,
            ..s
        }),
{
    let plan = show_cursor(s.cursor_shape, shape);
    if s.cursor_shape != shape {
        assert(plan.drop_last() =~= seq![Action::CursorShape(shape)]);
        effects_are_not_remembered(s, plan.drop_last());
    }
}

fn push_cursor(actions: &mut Vec<Action>, shown: u32, shape: u32)
    ensures
        final(actions)@ == old(actions)@ + show_cursor(shown, shape),
{
    let ghost before = actions@;
    if shown != shape {
        actions.push(Action::CursorShape(shape));
        actions.push(Action::Remember(Memory::CursorShape(shape)));
        assert(actions@ =~= before + show_cursor(shown, shape));
    } else {
        assert(before + Seq::<Action>::empty() =~= before);
    }
}

/// Re-evaluates the cursor at the latest pointer position. It is called after
/// pointer motion and after a rendered change, so that a cursor changes without
/// the pointer having to move.
pub fn reconcile_cursor(interactions: &Interactions) -> (result: Vec<Action>)
    ensures
        result@ == (match interactions.pointer_position {
            None => Seq::<Action>::empty(),
            Some((x, y)) => show_cursor(
                interactions.cursor_shape,
                cursor_at(interactions.hits@, x as int, y as int),
            ),
        }),
{
    let mut actions: Vec<Action> = Vec::new();
    if let Some((x, y)) = interactions.pointer_position {
        let shape: u32 = match find_topmost(&interactions.hits, x, y, Want::Any) {
            Some(i) => interactions.hits[i].cursor,
            None => CURSOR_DEFAULT,
        };
        push_cursor(&mut actions, interactions.cursor_shape, shape);
        assert(actions@ =~= show_cursor(interactions.cursor_shape, shape));
    }
    actions
}

} // verus!
