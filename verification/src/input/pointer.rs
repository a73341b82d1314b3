//! Routing of pointer and wheel events.

use vstd::prelude::*;
use crate::input::{
    actions_in_turn, after_actions, bubble, call, cursor_at, effects_are_not_remembered,
    enter_listener, enter_of, find_topmost, is_live_range, leave_listener, leave_of, live_range,
    node_at, node_of, one_thing_is_remembered, position, push_bubble, push_call, push_cursor,
    region_of, rooted, route, show_cursor, shown_cursors_are_remembered, target_at, topmost, Action,
    ClickMark, EventKind, HitRegion, InputPointer, Interactions, ListenerKind, Memory,
    PointerCapture, PointerPhase, Want, BTN_RIGHT, CURSOR_DEFAULT, DOUBLE_CLICK_NS,
    DOUBLE_CLICK_SLOP,
};

verus! {

/// The event starts, continues or ends the drag of a native scrollbar.
pub open spec fn on_scrollbar(s: Interactions, p: InputPointer, over_scrollbar: bool) -> bool {
    match p.phase {
        PointerPhase::Down => over_scrollbar,
        PointerPhase::Motion => s.native_scroll_pointer,
        PointerPhase::Up => s.native_scroll_pointer,
    }
}

/// Physical presses let media play.
pub open spec fn grant(p: InputPointer) -> Seq<Action> {
    if p.phase == PointerPhase::Down {
        seq![Action::GrantMediaPlayback]
    } else {
        Seq::empty()
    }
}

/// What a scrollbar drag does.
pub open spec fn scrollbar_plan(p: InputPointer) -> Seq<Action> {
    match p.phase {
        PointerPhase::Down => if p.button == BTN_RIGHT {
            seq![
                Action::SetHover(None),
                Action::SetActive(None),
                Action::Remember(Memory::NativeScroll(true)),
            ]
        } else {
            seq![
                Action::SetHover(None),
                Action::SetActive(None),
                Action::ScrollbarDown,
                Action::Remember(Memory::NativeScroll(true)),
            ]
        },
        PointerPhase::Motion => seq![Action::ScrollbarMove, Action::SetHover(None)],
        PointerPhase::Up => seq![
            Action::Remember(Memory::NativeScroll(false)),
            Action::ScrollbarUp,
            Action::SetActive(None),
        ],
    }
}

/// The pseudo-class targets of an event.
pub open spec fn pseudo_plan(p: InputPointer, target: Option<u64>) -> Seq<Action> {
    if p.phase == PointerPhase::Motion {
        seq![Action::SetHover(target)]
    } else if p.button == BTN_RIGHT {
        Seq::empty()
    } else if p.phase == PointerPhase::Down {
        seq![Action::SetActive(target)]
    } else {
        seq![Action::SetActive(None)]
    }
}

/// Moving onto a scrollbar leaves the document.
pub open spec fn leave_document(s: Interactions) -> Seq<Action> {
    call(leave_of(s.hits@, s.hovered), EventKind::Pointer) + seq![
        Action::Remember(Memory::Hovered(None)),
        Action::SetHover(None),
    ] + show_cursor(s.cursor_shape, 0)
}

/// Placing the caret of an optional region.
pub open spec fn place(at: Option<int>, extend: bool) -> Seq<Action> {
    match at {
        Some(i) => seq![Action::PlaceCursor { hit: i as usize, extend }],
        None => Seq::empty(),
    }
}

/// Setting the range of an optional region.
pub open spec fn slide(at: Option<int>) -> Seq<Action> {
    match at {
        Some(i) => seq![Action::RangePointer { hit: i as usize }],
        None => Seq::empty(),
    }
}

/// The action that gives the pointer to the node of an optional region.
pub open spec fn capture_region(hits: Seq<HitRegion>, at: Option<int>) -> Seq<Action> {
    match at {
        Some(i) => capture_node(Some(hits[i].node_id)),
        None => Seq::empty(),
    }
}

/// The action that gives the pointer to an optional node.
pub open spec fn capture_node(node: Option<u64>) -> Seq<Action> {
    match node {
        Some(node_id) => seq![
            Action::Remember(Memory::Capture(Some(PointerCapture { node_id }))),
        ],
        None => Seq::empty(),
    }
}

/// Some listener hears a press.
pub open spec fn press_is_heard(s: Interactions, p: InputPointer) -> bool {
    route(
        s.hits@,
        target_at(s.hits@, p.x as int, p.y as int),
        ListenerKind::PointerDown,
    ).len() > 0
}

/// The node that takes the pointer once a press has been heard: the target,
/// unless a range has it.
pub open spec fn heard_capture(s: Interactions, p: InputPointer) -> Option<u64> {
    if press_is_heard(s, p) && topmost(s.hits@, p.x as int, p.y as int, Want::Range) is None {
        target_at(s.hits@, p.x as int, p.y as int)
    } else {
        None
    }
}

/// A press with another button than the right one: focus follows it, a text
/// field places its caret, a range takes the pointer, and the press bubbles.
pub open spec fn press_plan(s: Interactions, p: InputPointer) -> Seq<Action> {
    let x = p.x as int;
    let y = p.y as int;
    let hits = s.hits@;
    let text = topmost(hits, x, y, Want::Text);
    let range = topmost(hits, x, y, Want::Range);
    seq![Action::SetFocus(node_at(hits, topmost(hits, x, y, Want::Focusable)))] + place(
        text,
        s.modifiers.shift,
    ) + capture_region(hits, text) + slide(range) + capture_region(hits, range) + bubble(
        hits,
        target_at(hits, x, y),
        ListenerKind::PointerDown,
        EventKind::Pointer,
    ) + capture_node(heard_capture(s, p))
}

/// The node that a press captures: a range first, then the target of a press
/// that some listener took, then a text field; else the capture stays.
pub open spec fn press_capture(s: Interactions, p: InputPointer) -> Option<PointerCapture> {
    let x = p.x as int;
    let y = p.y as int;
    let hits = s.hits@;
    if let Some(i) = topmost(hits, x, y, Want::Range) {
        Some(PointerCapture { node_id: hits[i].node_id })
    } else if press_is_heard(s, p) {
        Some(PointerCapture { node_id: target_at(hits, x, y)->0 })
    } else if let Some(i) = topmost(hits, x, y, Want::Text) {
        Some(PointerCapture { node_id: hits[i].node_id })
    } else {
        s.pointer_capture
    }
}

/// What a captured region does with the pointer.
pub open spec fn drag_plan(hits: Seq<HitRegion>, at: int, kind: ListenerKind) -> Seq<Action> {
    (if hits[at].editable is Some {
        place(Some(at), true)
    } else {
        Seq::empty()
    }) + (if live_range(hits[at]) {
        slide(Some(at))
    } else {
        Seq::empty()
    }) + bubble(hits, Some(hits[at].node_id), kind, EventKind::Pointer)
}

/// What the capture does with the pointer.
pub open spec fn capture_plan(s: Interactions, kind: ListenerKind) -> Seq<Action> {
    match s.pointer_capture {
        Some(capture) => match region_of(s.hits@, capture.node_id) {
            Some(i) => drag_plan(s.hits@, i, kind),
            None => Seq::empty(),
        },
        None => Seq::empty(),
    }
}

/// This click follows the last one closely enough to make a double click.
pub open spec fn doubles(last: Option<ClickMark>, p: InputPointer, now: u64) -> bool {
    match last {
        Some(mark) => {
            &&& now - mark.at <= DOUBLE_CLICK_NS
            &&& -DOUBLE_CLICK_SLOP <= mark.x - p.x <= DOUBLE_CLICK_SLOP
            &&& -DOUBLE_CLICK_SLOP <= mark.y - p.y <= DOUBLE_CLICK_SLOP
        },
        None => false,
    }
}

/// A release: it ends the capture, goes to the captured node, and clicks unless
/// it is one of the right button.
pub open spec fn release_plan(s: Interactions, p: InputPointer) -> Seq<Action> {
    seq![Action::Remember(Memory::Capture(None))] + capture_plan(s, ListenerKind::PointerUp) + (
    if p.button == BTN_RIGHT {
        Seq::empty()
    } else {
        bubble(
            s.hits@,
            target_at(s.hits@, p.x as int, p.y as int),
            ListenerKind::Click,
            EventKind::Click,
        )
    })
}

/// The last click once a click has been timed.
pub open spec fn click_mark(last: Option<ClickMark>, p: InputPointer, now: u64) -> Option<
    ClickMark,
> {
    if doubles(last, p, now) {
        None
    } else {
        Some(ClickMark { at: now, x: p.x, y: p.y })
    }
}

/// What follows a click, once the time is known: a second one may make a double
/// click, and the click is remembered.
pub open spec fn click_plan(s: Interactions, p: InputPointer, now: u64) -> Seq<Action> {
    (if doubles(s.last_click, p, now) {
        bubble(
            s.hits@,
            target_at(s.hits@, p.x as int, p.y as int),
            ListenerKind::DoubleClick,
            EventKind::DoubleClick,
        )
    } else {
        Seq::empty()
    }) + seq![Action::Remember(Memory::Click(click_mark(s.last_click, p, now)))]
}

/// The node that is hovered after a motion.
pub open spec fn hover_node(s: Interactions, p: InputPointer) -> Option<u64> {
    node_at(s.hits@, topmost(s.hits@, p.x as int, p.y as int, Want::Hoverable))
}

/// Motion without capture: enter and leave, bubble, and show the cursor.
pub open spec fn hover_plan(s: Interactions, p: InputPointer) -> Seq<Action> {
    let next = hover_node(s, p);
    (if next != s.hovered {
        call(leave_of(s.hits@, s.hovered), EventKind::Pointer) + call(
            enter_of(s.hits@, next),
            EventKind::Pointer,
        ) + seq![Action::Remember(Memory::Hovered(next))]
    } else {
        Seq::empty()
    }) + bubble(
        s.hits@,
        target_at(s.hits@, p.x as int, p.y as int),
        ListenerKind::PointerMove,
        EventKind::Pointer,
    ) + show_cursor(s.cursor_shape, cursor_at(s.hits@, p.x as int, p.y as int))
}

/// What the document does with an event that no scrollbar takes.
pub open spec fn document_plan(s: Interactions, p: InputPointer, over_scrollbar: bool) -> Seq<
    Action,
> {
    if over_scrollbar {
        if p.phase == PointerPhase::Motion {
            leave_document(s)
        } else {
            Seq::empty()
        }
    } else {
        match p.phase {
            PointerPhase::Down => if p.button == BTN_RIGHT {
                bubble(
                    s.hits@,
                    target_at(s.hits@, p.x as int, p.y as int),
                    ListenerKind::ContextMenu,
                    EventKind::Pointer,
                )
            } else {
                press_plan(s, p)
            },
            PointerPhase::Up => release_plan(s, p),
            PointerPhase::Motion => if s.pointer_capture is Some {
                capture_plan(s, ListenerKind::PointerMove)
            } else {
                hover_plan(s, p)
            },
        }
    }
}

/// What comes before the document or a scrollbar takes the event.
pub open spec fn arrival(p: InputPointer) -> Seq<Action> {
    seq![Action::Remember(Memory::Position { x: p.x, y: p.y })] + grant(p)
}

/// Everything that one pointer event does, in order.
pub open spec fn pointer_plan(s: Interactions, p: InputPointer, over_scrollbar: bool) -> Seq<Action> {
    arrival(p) + (if on_scrollbar(s, p, over_scrollbar) {
        scrollbar_plan(p)
    } else {
        pseudo_plan(p, target_at(s.hits@, p.x as int, p.y as int)) + document_plan(
            s,
            p,
            over_scrollbar,
        )
    })
}

/// How far a pointer event has been decided.
#[derive(Clone, Copy, Debug, PartialEq, Eq, Structural)]
pub enum PointerStep {
    /// The event needs nothing more.
    Done,
    /// The release has clicked; [`finish_click`] goes on with the time at which
    /// the click is over.
    TimeClick,
}

/// What a pointer event needs after its actions.
pub open spec fn pointer_step(s: Interactions, p: InputPointer, over_scrollbar: bool) -> PointerStep {
    if p.phase == PointerPhase::Up && p.button != BTN_RIGHT && !over_scrollbar && !on_scrollbar(
        s,
        p,
        over_scrollbar,
    ) {
        PointerStep::TimeClick
    } else {
        PointerStep::Done
    }
}

/// What is remembered once everything that one pointer event does has been
/// carried out.
pub open spec fn pointer_next(s: Interactions, p: InputPointer, over_scrollbar: bool) -> Interactions {
    let at = Interactions { pointer_position: Some((p.x, p.y)), ..s };
    if on_scrollbar(s, p, over_scrollbar) {
        match p.phase {
            PointerPhase::Down => Interactions { native_scroll_pointer: true, ..at },
            PointerPhase::Motion => at,
            PointerPhase::Up => Interactions { native_scroll_pointer: false, ..at },
        }
    } else if over_scrollbar {
        if p.phase == PointerPhase::Motion {
            Interactions { hovered: None, cursor_shape: 0, ..at }
        } else {
            at
        }
    } else {
        match p.phase {
            PointerPhase::Down => if p.button == BTN_RIGHT {
                at
            } else {
                Interactions { pointer_capture: press_capture(s, p), ..at }
            },
            PointerPhase::Up => Interactions { pointer_capture: None, ..at },
            PointerPhase::Motion => if s.pointer_capture is Some {
                at
            } else {
                Interactions {
                    hovered: hover_node(s, p),
                    cursor_shape: cursor_at(s.hits@, p.x as int, p.y as int),
                    ..at
                }
            },
        }
    }
}

fn push_place(actions: &mut Vec<Action>, at: Option<usize>, extend: bool)
    ensures
        final(actions)@ == old(actions)@ + place(position(at), extend),
{
    let ghost before = actions@;
    match at {
        Some(hit) => {
            actions.push(Action::PlaceCursor { hit, extend });
            assert(actions@ =~= before + seq![Action::PlaceCursor { hit, extend }]);
        },
        None => {
            assert(before + Seq::<Action>::empty() =~= before);
        },
    }
}

fn push_slide(actions: &mut Vec<Action>, at: Option<usize>)
    ensures
        final(actions)@ == old(actions)@ + slide(position(at)),
{
    let ghost before = actions@;
    match at {
        Some(hit) => {
            actions.push(Action::RangePointer { hit });
            assert(actions@ =~= before + seq![Action::RangePointer { hit }]);
        },
        None => {
            assert(before + Seq::<Action>::empty() =~= before);
        },
    }
}

fn push_scrollbar(actions: &mut Vec<Action>, p: InputPointer)
    ensures
        final(actions)@ == old(actions)@ + scrollbar_plan(p),
{
    let ghost before = actions@;
    match p.phase {
        PointerPhase::Down => {
            actions.push(Action::SetHover(None));
            actions.push(Action::SetActive(None));
            if p.button != BTN_RIGHT {
                actions.push(Action::ScrollbarDown);
            }
            actions.push(Action::Remember(Memory::NativeScroll(true)));
        },
        PointerPhase::Motion => {
            actions.push(Action::ScrollbarMove);
            actions.push(Action::SetHover(None));
        },
        PointerPhase::Up => {
            actions.push(Action::Remember(Memory::NativeScroll(false)));
            actions.push(Action::ScrollbarUp);
            actions.push(Action::SetActive(None));
        },
    }
    assert(actions@ =~= before + scrollbar_plan(p));
}

fn push_pseudo(actions: &mut Vec<Action>, p: InputPointer, target: Option<u64>)
    ensures
        final(actions)@ == old(actions)@ + pseudo_plan(p, target),
{
    let ghost before = actions@;
    match p.phase {
        PointerPhase::Motion => {
            actions.push(Action::SetHover(target));
        },
        PointerPhase::Down => {
            if p.button != BTN_RIGHT {
                actions.push(Action::SetActive(target));
            }
        },
        PointerPhase::Up => {
            if p.button != BTN_RIGHT {
                actions.push(Action::SetActive(None));
            }
        },
    }
    assert(actions@ =~= before + pseudo_plan(p, target));
}

fn push_leave_document(actions: &mut Vec<Action>, s: &Interactions)
    ensures
        final(actions)@ == old(actions)@ + leave_document(*s),
{
    let ghost before = actions@;
    let leave = leave_listener(&s.hits, s.hovered);
    push_call(actions, leave, EventKind::Pointer);
    actions.push(Action::Remember(Memory::Hovered(None)));
    actions.push(Action::SetHover(None));
    push_cursor(actions, s.cursor_shape, 0);
    assert(actions@ =~= before + leave_document(*s));
}

fn push_capture_node(actions: &mut Vec<Action>, node: Option<u64>)
    ensures
        final(actions)@ == old(actions)@ + capture_node(node),
{
    let ghost before = actions@;
    if let Some(node_id) = node {
        actions.push(Action::Remember(Memory::Capture(Some(PointerCapture { node_id }))));
    }
    assert(actions@ =~= before + capture_node(node));
}

fn push_press(actions: &mut Vec<Action>, s: &Interactions, p: InputPointer, target: Option<u64>)
    requires
        rooted(s.hits@),
        target == target_at(s.hits@, p.x as int, p.y as int),
    ensures
        final(actions)@ == old(actions)@ + press_plan(*s, p),
{
    let ghost before = actions@;
    let focus = find_topmost(&s.hits, p.x, p.y, Want::Focusable);
    actions.push(Action::SetFocus(node_of(&s.hits, focus)));
    let text = find_topmost(&s.hits, p.x, p.y, Want::Text);
    push_place(actions, text, s.modifiers.shift);
    push_capture_node(actions, node_of(&s.hits, text));
    let range = find_topmost(&s.hits, p.x, p.y, Want::Range);
    push_slide(actions, range);
    push_capture_node(actions, node_of(&s.hits, range));
    let heard = push_bubble(
        actions,
        &s.hits,
        target,
        ListenerKind::PointerDown,
        EventKind::Pointer,
    );
    let taken = if heard && range.is_none() {
        target
    } else {
        None
    };
    push_capture_node(actions, taken);
    assert(actions@ =~= before + press_plan(*s, p));
}

fn push_drag(actions: &mut Vec<Action>, hits: &Vec<HitRegion>, at: usize, kind: ListenerKind)
    requires
        rooted(hits@),
        at < hits@.len(),
    ensures
        final(actions)@ == old(actions)@ + drag_plan(hits@, at as int, kind),
{
    let ghost before = actions@;
    if hits[at].editable.is_some() {
        push_place(actions, Some(at), true);
    }
    if is_live_range(&hits[at]) {
        push_slide(actions, Some(at));
    }
    let _ = push_bubble(actions, hits, Some(hits[at].node_id), kind, EventKind::Pointer);
    assert(actions@ =~= before + drag_plan(hits@, at as int, kind));
}

fn push_capture(actions: &mut Vec<Action>, s: &Interactions, kind: ListenerKind)
    requires
        rooted(s.hits@),
    ensures
        final(actions)@ == old(actions)@ + capture_plan(*s, kind),
{
    let ghost before = actions@;
    assert(before + Seq::<Action>::empty() =~= before);
    if let Some(capture) = s.pointer_capture {
        if let Some(at) = capture.hit(&s.hits) {
            push_drag(actions, &s.hits, at, kind);
        }
    }
}

fn is_double(last: Option<ClickMark>, p: InputPointer, now: u64) -> (result: bool)
    ensures
        result == doubles(last, p, now),
{
    match last {
        Some(mark) => {
            let dx: i64 = mark.x as i64 - p.x as i64;
            let dy: i64 = mark.y as i64 - p.y as i64;
            (now < mark.at || now - mark.at <= DOUBLE_CLICK_NS) && -DOUBLE_CLICK_SLOP <= dx && dx
                <= DOUBLE_CLICK_SLOP && -DOUBLE_CLICK_SLOP <= dy && dy <= DOUBLE_CLICK_SLOP
        },
        None => false,
    }
}

fn push_release(actions: &mut Vec<Action>, s: &Interactions, p: InputPointer, target: Option<u64>)
    requires
        rooted(s.hits@),
        target == target_at(s.hits@, p.x as int, p.y as int),
    ensures
        final(actions)@ == old(actions)@ + release_plan(*s, p),
{
    let ghost before = actions@;
    actions.push(Action::Remember(Memory::Capture(None)));
    push_capture(actions, s, ListenerKind::PointerUp);
    if p.button != BTN_RIGHT {
        let _ = push_bubble(actions, &s.hits, target, ListenerKind::Click, EventKind::Click);
    }
    assert(actions@ =~= before + release_plan(*s, p));
}

fn push_hover(actions: &mut Vec<Action>, s: &Interactions, p: InputPointer, target: Option<u64>)
    requires
        rooted(s.hits@),
        target == target_at(s.hits@, p.x as int, p.y as int),
    ensures
        final(actions)@ == old(actions)@ + hover_plan(*s, p),
{
    let ghost before = actions@;
    let at = find_topmost(&s.hits, p.x, p.y, Want::Hoverable);
    let next = node_of(&s.hits, at);
    if next != s.hovered {
        let leave = leave_listener(&s.hits, s.hovered);
        push_call(actions, leave, EventKind::Pointer);
        let enter = enter_listener(&s.hits, next);
        push_call(actions, enter, EventKind::Pointer);
        actions.push(Action::Remember(Memory::Hovered(next)));
    }
    let _ = push_bubble(actions, &s.hits, target, ListenerKind::PointerMove, EventKind::Pointer);
    let shape: u32 = match find_topmost(&s.hits, p.x, p.y, Want::Any) {
        Some(i) => s.hits[i].cursor,
        None => CURSOR_DEFAULT,
    };
    push_cursor(actions, s.cursor_shape, shape);
    assert(actions@ =~= before + hover_plan(*s, p));
}

/// Routes one pointer event. `over_scrollbar` tells whether a native scrollbar
/// lies at the pointer.
///
/// What later events need to know stands among the actions, each thing where it
/// becomes true: an effect that fails ends the event, and what stands before it
/// has been remembered.
pub fn dispatch_pointer(
    interactions: &Interactions,
    pointer: InputPointer,
    over_scrollbar: bool,
) -> (result: (Vec<Action>, PointerStep))
    requires
        rooted(interactions.hits@),
    ensures
        result.0@ == pointer_plan(*interactions, pointer, over_scrollbar),
        result.1 == pointer_step(*interactions, pointer, over_scrollbar),
{
    let mut actions: Vec<Action> = Vec::new();
    actions.push(Action::Remember(Memory::Position { x: pointer.x, y: pointer.y }));
    if pointer.phase == PointerPhase::Down {
        actions.push(Action::GrantMediaPlayback);
    }
    assert(actions@ =~= arrival(pointer));
    let native = match pointer.phase {
        PointerPhase::Down => over_scrollbar,
        PointerPhase::Motion => interactions.native_scroll_pointer,
        PointerPhase::Up => interactions.native_scroll_pointer,
    };
    if native {
        push_scrollbar(&mut actions, pointer);
        return (actions, PointerStep::Done);
    }
    let top = find_topmost(&interactions.hits, pointer.x, pointer.y, Want::Any);
    let target = node_of(&interactions.hits, top);
    push_pseudo(&mut actions, pointer, target);
    let ghost so_far = arrival(pointer) + pseudo_plan(pointer, target);
    let mut step = PointerStep::Done;
    if over_scrollbar {
        if pointer.phase == PointerPhase::Motion {
            push_leave_document(&mut actions, interactions);
        }
    } else {
        match pointer.phase {
            PointerPhase::Down => {
                if pointer.button == BTN_RIGHT {
                    let _ = push_bubble(
                        &mut actions,
                        &interactions.hits,
                        target,
                        ListenerKind::ContextMenu,
                        EventKind::Pointer,
                    );
                } else {
                    push_press(&mut actions, interactions, pointer, target);
                }
            },
            PointerPhase::Up => {
                push_release(&mut actions, interactions, pointer, target);
                if pointer.button != BTN_RIGHT {
                    step = PointerStep::TimeClick;
                }
            },
            PointerPhase::Motion => {
                if interactions.pointer_capture.is_some() {
                    push_capture(&mut actions, interactions, ListenerKind::PointerMove);
                } else {
                    push_hover(&mut actions, interactions, pointer, target);
                }
            },
        }
    }
    assert(actions@ =~= so_far + document_plan(*interactions, pointer, over_scrollbar));
    assert(actions@ =~= pointer_plan(*interactions, pointer, over_scrollbar));
    (actions, step)
}

/// Completes a release that has clicked. `now` is a monotonic time in
/// nanoseconds, taken when the click is over.
pub fn finish_click(interactions: &Interactions, pointer: InputPointer, now: u64) -> (result: Vec<
    Action,
>)
    requires
        rooted(interactions.hits@),
    ensures
        result@ == click_plan(*interactions, pointer, now),
{
    let mut actions: Vec<Action> = Vec::new();
    let mark = if is_double(interactions.last_click, pointer, now) {
        let top = find_topmost(&interactions.hits, pointer.x, pointer.y, Want::Any);
        let target = node_of(&interactions.hits, top);
        let _ = push_bubble(
            &mut actions,
            &interactions.hits,
            target,
            ListenerKind::DoubleClick,
            EventKind::DoubleClick,
        );
        None
    } else {
        Some(ClickMark { at: now, x: pointer.x, y: pointer.y })
    };
    actions.push(Action::Remember(Memory::Click(mark)));
    assert(actions@ =~= click_plan(*interactions, pointer, now));
    actions
}

/// Routes one wheel event: it bubbles from the topmost region, then scrolls.
pub fn dispatch_scroll(interactions: &Interactions, x: i32, y: i32) -> (result: Vec<Action>)
    requires
        rooted(interactions.hits@),
    ensures
        result@ == bubble(
            interactions.hits@,
            target_at(interactions.hits@, x as int, y as int),
            ListenerKind::Wheel,
            EventKind::Wheel,
        ).push(Action::ScrollWheel),
{
    let mut actions: Vec<Action> = Vec::new();
    let top = find_topmost(&interactions.hits, x, y, Want::Any);
    let target = node_of(&interactions.hits, top);
    let _ = push_bubble(
        &mut actions,
        &interactions.hits,
        target,
        ListenerKind::Wheel,
        EventKind::Wheel,
    );
    actions.push(Action::ScrollWheel);
    assert(actions@ =~= bubble(
        interactions.hits@,
        target,
        ListenerKind::Wheel,
        EventKind::Wheel,
    ).push(Action::ScrollWheel));
    actions
}

/// The action runs script.
pub open spec fn runs_script(action: Action) -> bool {
    action is Listener || action is Bubble
}

/// Drags are effects only.
proof fn drags_are_not_remembered(s: Interactions, t: Interactions, kind: ListenerKind)
    ensures
        after_actions(t, capture_plan(s, kind)) == t,
{
    effects_are_not_remembered(t, capture_plan(s, kind));
}

proof fn captures_are_remembered(t: Interactions, node: Option<u64>)
    ensures
        after_actions(t, capture_node(node)) == (match node {
            Some(node_id) => Interactions {
                pointer_capture: Some(PointerCapture { node_id }),
                ..t
            },
            None => t,
        }),
{
    if let Some(node_id) = node {
        one_thing_is_remembered(t, Memory::Capture(Some(PointerCapture { node_id })));
    }
}

proof fn presses_are_remembered(s: Interactions, t: Interactions, p: InputPointer)
    requires
        t.pointer_capture == s.pointer_capture,
    ensures
        after_actions(t, press_plan(s, p)) == (Interactions {
            pointer_capture: press_capture(s, p),
            ..t
        }),
{
    let x = p.x as int;
    let y = p.y as int;
    let hits = s.hits@;
    let text = topmost(hits, x, y, Want::Text);
    let range = topmost(hits, x, y, Want::Range);
    let target = target_at(hits, x, y);
    let a = seq![Action::SetFocus(node_at(hits, topmost(hits, x, y, Want::Focusable)))] + place(
        text,
        s.modifiers.shift,
    );
    let b = capture_region(hits, text);
    let c = slide(range);
    let d = capture_region(hits, range);
    let e = bubble(hits, target, ListenerKind::PointerDown, EventKind::Pointer);
    let f = capture_node(heard_capture(s, p));
    assert(press_plan(s, p) =~= a + b + c + d + e + f);
    assert(b == capture_node(node_at(hits, text)));
    assert(d == capture_node(node_at(hits, range)));
    actions_in_turn(t, a + b + c + d + e, f);
    actions_in_turn(t, a + b + c + d, e);
    actions_in_turn(t, a + b + c, d);
    actions_in_turn(t, a + b, c);
    actions_in_turn(t, a, b);
    effects_are_not_remembered(t, a);
    captures_are_remembered(t, node_at(hits, text));
    let u = after_actions(t, b);
    effects_are_not_remembered(u, c);
    captures_are_remembered(u, node_at(hits, range));
    let v = after_actions(u, d);
    effects_are_not_remembered(v, e);
    captures_are_remembered(v, heard_capture(s, p));
    no_target_is_not_heard(hits, ListenerKind::PointerDown);
}

proof fn no_target_is_not_heard(hits: Seq<HitRegion>, kind: ListenerKind)
    ensures
        route(hits, None, kind).len() == 0,
{
}

proof fn releases_are_remembered(s: Interactions, t: Interactions, p: InputPointer)
    ensures
        after_actions(t, release_plan(s, p)) == (Interactions { pointer_capture: None, ..t }),
{
    let first = seq![Action::Remember(Memory::Capture(None))];
    let held = capture_plan(s, ListenerKind::PointerUp);
    let click = if p.button == BTN_RIGHT {
        Seq::empty()
    } else {
        bubble(
            s.hits@,
            target_at(s.hits@, p.x as int, p.y as int),
            ListenerKind::Click,
            EventKind::Click,
        )
    };
    assert(release_plan(s, p) =~= first + held + click);
    actions_in_turn(t, first + held, click);
    actions_in_turn(t, first, held);
    one_thing_is_remembered(t, Memory::Capture(None));
    let u = after_actions(t, first);
    drags_are_not_remembered(s, u, ListenerKind::PointerUp);
    effects_are_not_remembered(u, click);
}

proof fn hovers_are_remembered(s: Interactions, t: Interactions, p: InputPointer)
    requires
        t.hovered == s.hovered,
        t.cursor_shape == s.cursor_shape,
    ensures
        after_actions(t, hover_plan(s, p)) == (Interactions {
            hovered: hover_node(s, p),
            cursor_shape: cursor_at(s.hits@, p.x as int, p.y as int),
            ..t
        }),
{
    let next = hover_node(s, p);
    let calls = call(leave_of(s.hits@, s.hovered), EventKind::Pointer) + call(
        enter_of(s.hits@, next),
        EventKind::Pointer,
    );
    let noted = seq![Action::Remember(Memory::Hovered(next))];
    let first = if next != s.hovered {
        calls + noted
    } else {
        Seq::empty()
    };
    let moved = bubble(
        s.hits@,
        target_at(s.hits@, p.x as int, p.y as int),
        ListenerKind::PointerMove,
        EventKind::Pointer,
    );
    let shape = cursor_at(s.hits@, p.x as int, p.y as int);
    let cursor = show_cursor(s.cursor_shape, shape);
    assert(hover_plan(s, p) =~= first + moved + cursor);
    actions_in_turn(t, first + moved, cursor);
    actions_in_turn(t, first, moved);
    let u = Interactions { hovered: next, ..t };
    if next != s.hovered {
        actions_in_turn(t, calls, noted);
        effects_are_not_remembered(t, calls);
        one_thing_is_remembered(t, Memory::Hovered(next));
    }
    assert(after_actions(t, first) == u);
    effects_are_not_remembered(u, moved);
    shown_cursors_are_remembered(u, shape);
}

proof fn leaving_is_remembered(s: Interactions, t: Interactions)
    requires
        t.cursor_shape == s.cursor_shape,
    ensures
        after_actions(t, leave_document(s)) == (Interactions { hovered: None, cursor_shape: 0, ..t }),
{
    let calls = call(leave_of(s.hits@, s.hovered), EventKind::Pointer);
    let noted = seq![Action::Remember(Memory::Hovered(None))];
    let cleared = seq![Action::SetHover(None)];
    let cursor = show_cursor(s.cursor_shape, 0);
    assert(leave_document(s) =~= calls + noted + cleared + cursor);
    actions_in_turn(t, calls + noted + cleared, cursor);
    actions_in_turn(t, calls + noted, cleared);
    actions_in_turn(t, calls, noted);
    effects_are_not_remembered(t, calls);
    one_thing_is_remembered(t, Memory::Hovered(None));
    let u = Interactions { hovered: None, ..t };
    effects_are_not_remembered(u, cleared);
    shown_cursors_are_remembered(u, 0);
}

proof fn arrivals_are_remembered(s: Interactions, p: InputPointer)
    ensures
        after_actions(s, arrival(p)) == (Interactions { pointer_position: Some((p.x, p.y)), ..s }),
{
    let noted = seq![Action::Remember(Memory::Position { x: p.x, y: p.y })];
    actions_in_turn(s, noted, grant(p));
    one_thing_is_remembered(s, Memory::Position { x: p.x, y: p.y });
    effects_are_not_remembered(after_actions(s, noted), grant(p));
}

proof fn scrollbars_are_remembered(t: Interactions, p: InputPointer)
    ensures
        after_actions(t, scrollbar_plan(p)) == (match p.phase {
            PointerPhase::Down => Interactions { native_scroll_pointer: true, ..t },
            PointerPhase::Motion => t,
            PointerPhase::Up => Interactions { native_scroll_pointer: false, ..t },
        }),
{
    let plan = scrollbar_plan(p);
    match p.phase {
        PointerPhase::Down => {
            let noted = seq![Action::Remember(Memory::NativeScroll(true))];
            let effects = plan.drop_last();
            assert(plan =~= effects + noted);
            actions_in_turn(t, effects, noted);
            effects_are_not_remembered(t, effects);
            one_thing_is_remembered(t, Memory::NativeScroll(true));
        },
        PointerPhase::Motion => {
            effects_are_not_remembered(t, plan);
        },
        PointerPhase::Up => {
            let noted = seq![Action::Remember(Memory::NativeScroll(false))];
            let rest = seq![Action::ScrollbarUp, Action::SetActive(None)];
            assert(plan =~= noted + rest);
            actions_in_turn(t, noted, rest);
            one_thing_is_remembered(t, Memory::NativeScroll(false));
            effects_are_not_remembered(after_actions(t, noted), rest);
        },
    }
}

/// Carrying out everything that a pointer event does leaves what the event is
/// remembered by.
pub proof fn events_are_remembered(s: Interactions, p: InputPointer, over_scrollbar: bool)
    ensures
        after_actions(s, pointer_plan(s, p, over_scrollbar)) == pointer_next(s, p, over_scrollbar),
{
    let t = Interactions { pointer_position: Some((p.x, p.y)), ..s };
    arrivals_are_remembered(s, p);
    if on_scrollbar(s, p, over_scrollbar) {
        actions_in_turn(s, arrival(p), scrollbar_plan(p));
        scrollbars_are_remembered(t, p);
    } else {
        let pseudo = pseudo_plan(p, target_at(s.hits@, p.x as int, p.y as int));
        let rest = document_plan(s, p, over_scrollbar);
        actions_in_turn(s, arrival(p), pseudo + rest);
        actions_in_turn(t, pseudo, rest);
        effects_are_not_remembered(t, pseudo);
        if over_scrollbar {
            leaving_is_remembered(s, t);
        } else {
            match p.phase {
                PointerPhase::Down => if p.button == BTN_RIGHT {
                    effects_are_not_remembered(t, rest);
                } else {
                    presses_are_remembered(s, t, p);
                },
                PointerPhase::Up => releases_are_remembered(s, t, p),
                PointerPhase::Motion => if s.pointer_capture is Some {
                    drags_are_not_remembered(s, t, ListenerKind::PointerMove);
                } else {
                    hovers_are_remembered(s, t, p);
                },
            }
        }
    }
}

/// Timing a click leaves it remembered, and nothing else.
pub proof fn clicks_are_remembered(s: Interactions, p: InputPointer, now: u64)
    ensures
        after_actions(s, click_plan(s, p, now)) == (Interactions {
            last_click: click_mark(s.last_click, p, now),
            ..s
        }),
{
    let plan = click_plan(s, p, now);
    let effects = plan.drop_last();
    assert forall|i: int| 0 <= i < effects.len() implies !((#[trigger] effects[i]) is Remember) by {
        assert(effects[i] == plan[i]);
    }
    effects_are_not_remembered(s, effects);
}

/// The node that the pointer entered last stays remembered while one of the
/// listeners for leaving and entering fails.
#[verifier::rlimit(60)]
pub proof fn failed_hovers_keep_the_node(s: Interactions, p: InputPointer, over: bool, n: int)
    requires
        0 <= n < pointer_plan(s, p, over).len(),
        pointer_plan(s, p, over)[n] is Listener,
    ensures
        after_actions(s, pointer_plan(s, p, over).take(n)).hovered == s.hovered,
{
    let plan = pointer_plan(s, p, over);
    let pseudo = pseudo_plan(p, target_at(s.hits@, p.x as int, p.y as int));
    let first = arrival(p) + pseudo;
    let rest = document_plan(s, p, over);
    if !on_scrollbar(s, p, over) {
        assert(plan =~= first + rest);
        assert(rest[n - first.len()] is Listener);
        if over {
            early_calls(s, leave_document(s), n - first.len());
        } else {
            match p.phase {
                PointerPhase::Down => if p.button != BTN_RIGHT {
                    presses_call_no_listener(s, p, n - first.len());
                },
                PointerPhase::Up => {},
                PointerPhase::Motion => if s.pointer_capture is None {
                    early_calls(s, hover_plan(s, p), n - first.len());
                },
            }
        }
        assert(plan.take(n) =~= first + rest.take(n - first.len()));
        assert forall|i: int| 0 <= i < n implies !((
        #[trigger] plan.take(n)[i]) matches Action::Remember(Memory::Hovered(_))) by {
            if i >= first.len() {
                assert(plan.take(n)[i] == rest[i - first.len()]);
                assert(!(rest[i - first.len()] is Remember));
            } else {
                assert(plan.take(n)[i] == first[i]);
            }
        }
        hovered_stays(s, plan.take(n));
    }
}

proof fn early_calls(s: Interactions, plan: Seq<Action>, n: int)
    requires
        plan == leave_document(s) || exists|p: InputPointer| plan == #[trigger] hover_plan(s, p),
        0 <= n < plan.len(),
        plan[n] is Listener,
    ensures
        forall|i: int| 0 <= i < n ==> !((#[trigger] plan[i]) is Remember),
{
}

proof fn presses_call_no_listener(s: Interactions, p: InputPointer, n: int)
    requires
        0 <= n < press_plan(s, p).len(),
    ensures
        !(press_plan(s, p)[n] is Listener),
{
}

proof fn hovered_stays(s: Interactions, actions: Seq<Action>)
    requires
        forall|i: int|
            0 <= i < actions.len() ==> !((#[trigger] actions[i]) matches Action::Remember(
                Memory::Hovered(_),
            )),
    ensures
        after_actions(s, actions).hovered == s.hovered,
    decreases actions.len(),
{
    if actions.len() > 0 {
        let rest = actions.drop_last();
        assert forall|i: int| 0 <= i < rest.len() implies !((
        #[trigger] rest[i]) matches Action::Remember(Memory::Hovered(_))) by {
            assert(rest[i] == actions[i]);
        }
        hovered_stays(s, rest);
        assert(actions.last() == actions[actions.len() - 1]);
    }
}

/// While a native scrollbar has the pointer, no event reaches script, and what
/// the document remembers of capture, hover and clicks stays as it was.
pub proof fn scrollbar_drag_is_invisible_to_script(
    s: Interactions,
    p: InputPointer,
    over_scrollbar: bool,
)
    requires
        on_scrollbar(s, p, over_scrollbar),
    ensures
        forall|i: int|
            0 <= i < pointer_plan(s, p, over_scrollbar).len() ==> !runs_script(
                #[trigger] pointer_plan(s, p, over_scrollbar)[i],
            ),
        pointer_step(s, p, over_scrollbar) is Done,
        pointer_next(s, p, over_scrollbar).pointer_capture == s.pointer_capture,
        pointer_next(s, p, over_scrollbar).hovered == s.hovered,
        pointer_next(s, p, over_scrollbar).last_click == s.last_click,
{
}

/// A scrollbar press holds the pointer until it is released: every later motion
/// goes to the scrollbar, and the release ends the drag.
pub proof fn scrollbar_press_holds_until_release(
    s: Interactions,
    down: InputPointer,
    later: InputPointer,
    over: bool,
)
    requires
        down.phase == PointerPhase::Down,
        later.phase != PointerPhase::Down,
    ensures
        on_scrollbar(pointer_next(s, down, true), later, over),
        later.phase == PointerPhase::Motion ==> pointer_next(
            pointer_next(s, down, true),
            later,
            over,
        ).native_scroll_pointer,
        later.phase == PointerPhase::Up ==> !pointer_next(
            pointer_next(s, down, true),
            later,
            over,
        ).native_scroll_pointer,
{
}

/// The right button neither moves focus, nor captures, nor clicks.
pub proof fn right_button_opens_menus_only(s: Interactions, p: InputPointer, over_scrollbar: bool)
    requires
        p.button == BTN_RIGHT,
        p.phase != PointerPhase::Motion,
    ensures
        forall|i: int|
            0 <= i < pointer_plan(s, p, over_scrollbar).len() ==> !((
            #[trigger] pointer_plan(s, p, over_scrollbar)[i]) is SetFocus),
        pointer_step(s, p, over_scrollbar) is Done,
        p.phase == PointerPhase::Down ==> pointer_next(s, p, over_scrollbar).pointer_capture
            == s.pointer_capture,
        pointer_next(s, p, over_scrollbar).last_click == s.last_click,
{
    let plan = pointer_plan(s, p, over_scrollbar);
    assert forall|i: int| 0 <= i < plan.len() implies !((#[trigger] plan[i]) is SetFocus) by {}
}

/// A release outside a scrollbar drag always ends the capture, also where a
/// listener of the release fails.
pub proof fn release_ends_capture(s: Interactions, p: InputPointer, n: int)
    requires
        p.phase == PointerPhase::Up,
        !s.native_scroll_pointer,
        0 <= n < pointer_plan(s, p, false).len(),
        runs_script(pointer_plan(s, p, false)[n]),
    ensures
        after_actions(s, pointer_plan(s, p, false).take(n)).pointer_capture is None,
        pointer_next(s, p, false).pointer_capture is None,
{
    let plan = pointer_plan(s, p, false);
    let pseudo = pseudo_plan(p, target_at(s.hits@, p.x as int, p.y as int));
    let noted = seq![Action::Remember(Memory::Capture(None))];
    let first = arrival(p) + pseudo + noted;
    assert(plan.take(first.len() as int) =~= first);
    assert(n >= first.len());
    let rest = plan.subrange(first.len() as int, n);
    assert(plan.take(n) =~= first + rest);
    actions_in_turn(s, first, rest);
    actions_in_turn(s, arrival(p) + pseudo, noted);
    one_thing_is_remembered(after_actions(s, arrival(p) + pseudo), Memory::Capture(None));
    effects_are_not_remembered(after_actions(s, first), rest);
}

/// Three clicks in a row make one double click, not two: after a double click
/// the next click starts over.
pub proof fn double_click_starts_over(
    s: Interactions,
    p: InputPointer,
    now: u64,
    next: InputPointer,
    later: u64,
)
    requires
        doubles(s.last_click, p, now),
    ensures
        !doubles(after_actions(s, click_plan(s, p, now)).last_click, next, later),
{
    clicks_are_remembered(s, p, now);
}

} // verus!
