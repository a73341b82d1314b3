//! Where pointer and key events go.

use vstd::prelude::*;
use crate::font::CursorMove;
use crate::input::key::{
    button_plan, field_plan, key_modifiers, key_plan, key_step, range_plan, KeyStep,
};
use crate::input::pointer::{
    arrival, click_mark, click_plan, document_plan, doubles, hover_node, hover_plan, on_scrollbar,
    pointer_next, pointer_plan, pointer_step, press_plan, pseudo_plan, release_plan, PointerStep,
};
use crate::input::{
    bubble, call, cursor_at, enter_of, first_from, leave_of, region_of, remembering, route, route_within,
    show_cursor, target_at, topmost, topmost_of, Action, ClickMark, Editable, EventKind, HitRegion,
    InputKey, InputPointer, Interactions, ListenerKind, Memory, PointerCapture, PointerPhase, Want,
};
use crate::keymap::{Modifiers, TextEdit};

verus! {

/// The position lies in the region.
pub open spec fn under(hit: HitRegion, x: int, y: int) -> bool {
    hit.left <= x && x < hit.right && hit.top <= y && y < hit.bottom
}

/// The region answers this question.
pub open spec fn answers(hit: HitRegion, want: Want) -> bool {
    match want {
        Want::Any => true,
        Want::Text => hit.editable is Some,
        Want::Range => hit.range is Some && !(hit.range->0).disabled,
        Want::Focusable => hit.editable is Some || hit.button || (hit.range is Some
            && !(hit.range->0).disabled),
        Want::Hoverable => hit.pointer_enter is Some || hit.pointer_leave is Some
            || hit.pointer_move is Some,
    }
}

proof fn topmost_prefix(hits: Seq<HitRegion>, n: int, x: int, y: int, want: Want)
    requires
        n <= hits.len(),
    ensures
        topmost_of(hits, n, x, y, want) matches Some(i) ==> {
            &&& 0 <= i < n
            &&& under(hits[i], x, y) && answers(hits[i], want)
            &&& forall|j: int| i < j < n ==> !(under(#[trigger] hits[j], x, y) && answers(hits[j], want))
        },
        topmost_of(hits, n, x, y, want) is None ==> forall|j: int|
            0 <= j < n ==> !(under(#[trigger] hits[j], x, y) && answers(hits[j], want)),
    decreases n,
{
    if n > 0 {
        topmost_prefix(hits, n - 1, x, y, want);
    }
}

/// Looking for a region finds the last painted one under the pointer that
/// answers, and finds one whenever there is one.
pub proof fn the_last_painted_region_is_found(hits: Seq<HitRegion>, x: int, y: int, want: Want)
    ensures
        topmost(hits, x, y, want) matches Some(i) ==> {
            &&& 0 <= i < hits.len()
            &&& under(hits[i], x, y) && answers(hits[i], want)
            &&& forall|j: int|
                i < j < hits.len() ==> !(under(#[trigger] hits[j], x, y) && answers(hits[j], want))
        },
        topmost(hits, x, y, want) is None ==> forall|j: int|
            0 <= j < hits.len() ==> !(under(#[trigger] hits[j], x, y) && answers(hits[j], want)),
{
    topmost_prefix(hits, hits.len() as int, x, y, want);
}

/// The cursor is that of the last painted region under the pointer, and the
/// default one where there is none.
pub proof fn cursors_belong_to_the_region_on_top(hits: Seq<HitRegion>, x: int, y: int, i: int)
    ensures
        0 <= i < hits.len() && under(hits[i], x, y) && (forall|j: int|
            i < j < hits.len() ==> !under(#[trigger] hits[j], x, y)) ==> cursor_at(hits, x, y)
            == hits[i].cursor,
        (forall|j: int| 0 <= j < hits.len() ==> !under(#[trigger] hits[j], x, y)) ==> cursor_at(
            hits,
            x,
            y,
        ) == 0,
{
    the_last_painted_region_is_found(hits, x, y, Want::Any);
}

proof fn first_region_from(hits: Seq<HitRegion>, node: u64, from: int)
    requires
        0 <= from,
    ensures
        first_from(hits, node, from) matches Some(i) ==> from <= i < hits.len() && hits[i].node_id
            == node,
        first_from(hits, node, from) is None ==> forall|k: int|
            from <= k < hits.len() ==> (#[trigger] hits[k]).node_id != node,
    decreases hits.len() - from,
{
    if from < hits.len() && hits[from].node_id != node {
        first_region_from(hits, node, from + 1);
    }
}

/// The listener of a region for an event.
pub open spec fn hears(hit: HitRegion, kind: ListenerKind) -> Option<u64> {
    match kind {
        ListenerKind::Click => hit.click,
        ListenerKind::DoubleClick => hit.double_click,
        ListenerKind::ContextMenu => hit.context_menu,
        ListenerKind::PointerDown => hit.pointer_down,
        ListenerKind::PointerUp => hit.pointer_up,
        ListenerKind::PointerMove => hit.pointer_move,
        ListenerKind::Wheel => hit.wheel,
        ListenerKind::KeyDown => hit.key_down,
    }
}

/// An event reaches the listener of its target first, then those of its parents,
/// and a node that does not listen is passed by.
pub proof fn events_climb_from_their_target(
    hits: Seq<HitRegion>,
    i: int,
    kind: ListenerKind,
    steps: int,
)
    requires
        0 <= i < hits.len(),
        forall|k: int| 0 <= k < i ==> (#[trigger] hits[k]).node_id != hits[i].node_id,
        steps > 0,
    ensures
        route_within(hits, Some(hits[i].node_id), kind, steps) == (match hears(hits[i], kind) {
            Some(listener) => seq![listener],
            None => Seq::empty(),
        }) + route_within(hits, hits[i].parent_node_id, kind, steps - 1),
        route_within(hits, None, kind, steps) == Seq::<u64>::empty(),
{
    first_region_from(hits, hits[i].node_id, 0);
    let k = region_of(hits, hits[i].node_id)->0;
    first_is_least(hits, hits[i].node_id, 0, i);
    let above = route_within(hits, hits[i].parent_node_id, kind, steps - 1);
    assert(Seq::<u64>::empty() + above =~= above);
}

proof fn first_is_least(hits: Seq<HitRegion>, node: u64, from: int, i: int)
    requires
        0 <= from <= i < hits.len(),
        hits[i].node_id == node,
        forall|k: int| from <= k < i ==> (#[trigger] hits[k]).node_id != node,
    ensures
        first_from(hits, node, from) == Some(i),
    decreases i - from,
{
    if from < i {
        first_is_least(hits, node, from + 1, i);
    }
}

/// A release that lands where the last click was makes a double click if at most
/// half a second passed, and none if more passed, or if it lands more than four
/// pixels away, or if there was no click before. The double click goes to the
/// target under the pointer.
pub proof fn double_clicks_are_close_in_time_and_place(
    s: Interactions,
    p: InputPointer,
    now: u64,
    mark: ClickMark,
)
    requires
        route(s.hits@, target_at(s.hits@, p.x as int, p.y as int), ListenerKind::DoubleClick).len()
            > 0,
    ensures
        ({
            let double = Action::Bubble {
                target: target_at(s.hits@, p.x as int, p.y as int)->0,
                kind: ListenerKind::DoubleClick,
                event: EventKind::DoubleClick,
            };
            let plan = click_plan(s, p, now);
            &&& s.last_click == Some(mark) && now - mark.at <= 500_000_000 && -4 <= p.x - mark.x <= 4
                && -4 <= p.y - mark.y <= 4 ==> plan.contains(double) && plan.contains(
                Action::Remember(Memory::Click(None)),
            )
            &&& s.last_click == Some(mark) && (now - mark.at > 500_000_000 || p.x - mark.x > 4 || p.x
                - mark.x < -4 || p.y - mark.y > 4 || p.y - mark.y < -4) ==> !plan.contains(double)
                && plan.contains(
                Action::Remember(Memory::Click(Some(ClickMark { at: now, x: p.x, y: p.y }))),
            )
            &&& s.last_click is None ==> !plan.contains(double) && plan.contains(
                Action::Remember(Memory::Click(Some(ClickMark { at: now, x: p.x, y: p.y }))),
            )
        }),
{
    let plan = click_plan(s, p, now);
    if doubles(s.last_click, p, now) {
        assert(plan.len() == 2);
        assert(plan[0] is Bubble);
        assert(plan[1] == Action::Remember(Memory::Click(None)));
    } else {
        assert(plan.len() == 1);
        assert(plan[0] == Action::Remember(
            Memory::Click(Some(ClickMark { at: now, x: p.x, y: p.y })),
        ));
    }
}

/// Two quick clicks on one spot make one double click; a third one does not make
/// another.
pub proof fn three_clicks_make_one_double_click(
    last: Option<ClickMark>,
    p: InputPointer,
    first: u64,
    second: u64,
    third: u64,
)
    requires
        first <= second <= third,
        third - first <= 500_000_000,
        last is None,
    ensures
        !doubles(last, p, first),
        doubles(click_mark(last, p, first), p, second),
        !doubles(click_mark(click_mark(last, p, first), p, second), p, third),
{
}

/// A press gives focus to the last painted control under the pointer, and takes
/// it away where there is none.
pub proof fn presses_move_focus(s: Interactions, p: InputPointer, i: int)
    ensures
        press_plan(s, p).len() > 0,
        0 <= i < s.hits@.len() && under(s.hits@[i], p.x as int, p.y as int) && answers(
            s.hits@[i],
            Want::Focusable,
        ) && (forall|j: int|
            i < j < s.hits@.len() ==> !(under(#[trigger] s.hits@[j], p.x as int, p.y as int)
                && answers(s.hits@[j], Want::Focusable))) ==> press_plan(s, p)[0]
            == Action::SetFocus(Some(s.hits@[i].node_id)),
        (forall|j: int|
            0 <= j < s.hits@.len() ==> !(under(#[trigger] s.hits@[j], p.x as int, p.y as int)
                && answers(s.hits@[j], Want::Focusable))) ==> press_plan(s, p)[0]
            == Action::SetFocus(None),
{
    the_last_painted_region_is_found(s.hits@, p.x as int, p.y as int, Want::Focusable);
}

/// A press on a range gives the range the pointer, whoever else hears the press.
pub proof fn ranges_take_the_pointer(s: Interactions, p: InputPointer, i: int)
    requires
        0 <= i < s.hits@.len(),
        under(s.hits@[i], p.x as int, p.y as int),
        answers(s.hits@[i], Want::Range),
        forall|j: int|
            i < j < s.hits@.len() ==> !(under(#[trigger] s.hits@[j], p.x as int, p.y as int)
                && answers(s.hits@[j], Want::Range)),
        p.phase == PointerPhase::Down,
        p.button != 273,
        !s.native_scroll_pointer,
    ensures
        pointer_next(s, p, false).pointer_capture == Some(
            PointerCapture { node_id: s.hits@[i].node_id },
        ),
{
    the_last_painted_region_is_found(s.hits@, p.x as int, p.y as int, Want::Range);
}

/// A press that nothing under the pointer takes leaves the capture; one on a text
/// field that no listener hears gives the field the pointer.
pub proof fn unheard_presses_go_to_text_fields(s: Interactions, p: InputPointer, i: int)
    requires
        route(s.hits@, target_at(s.hits@, p.x as int, p.y as int), ListenerKind::PointerDown).len()
            == 0,
        forall|j: int|
            0 <= j < s.hits@.len() ==> !(under(#[trigger] s.hits@[j], p.x as int, p.y as int)
                && answers(s.hits@[j], Want::Range)),
        p.phase == PointerPhase::Down,
        p.button != 273,
    ensures
        0 <= i < s.hits@.len() && under(s.hits@[i], p.x as int, p.y as int) && answers(
            s.hits@[i],
            Want::Text,
        ) && (forall|j: int|
            i < j < s.hits@.len() ==> !(under(#[trigger] s.hits@[j], p.x as int, p.y as int)
                && answers(s.hits@[j], Want::Text))) ==> pointer_next(s, p, false).pointer_capture
            == Some(PointerCapture { node_id: s.hits@[i].node_id }),
        (forall|j: int|
            0 <= j < s.hits@.len() ==> !(under(#[trigger] s.hits@[j], p.x as int, p.y as int)
                && answers(s.hits@[j], Want::Text))) ==> pointer_next(s, p, false).pointer_capture
            == s.pointer_capture,
{
    the_last_painted_region_is_found(s.hits@, p.x as int, p.y as int, Want::Range);
    the_last_painted_region_is_found(s.hits@, p.x as int, p.y as int, Want::Text);
}

/// A heard press outside ranges gives its target the pointer.
pub proof fn heard_presses_capture_their_target(s: Interactions, p: InputPointer)
    requires
        route(s.hits@, target_at(s.hits@, p.x as int, p.y as int), ListenerKind::PointerDown).len()
            > 0,
        forall|j: int|
            0 <= j < s.hits@.len() ==> !(under(#[trigger] s.hits@[j], p.x as int, p.y as int)
                && answers(s.hits@[j], Want::Range)),
        p.phase == PointerPhase::Down,
        p.button != 273,
    ensures
        pointer_next(s, p, false).pointer_capture == Some(
            PointerCapture { node_id: target_at(s.hits@, p.x as int, p.y as int)->0 },
        ),
{
    the_last_painted_region_is_found(s.hits@, p.x as int, p.y as int, Want::Range);
}

/// While a node has the pointer, motion and release go to that node, wherever
/// the pointer is; motion then hovers nothing.
pub proof fn captured_events_go_to_the_captured_node(
    s: Interactions,
    p: InputPointer,
    capture: PointerCapture,
    kind: ListenerKind,
)
    requires
        s.pointer_capture == Some(capture),
        !s.native_scroll_pointer,
        (p.phase == PointerPhase::Motion && kind == ListenerKind::PointerMove) || (p.phase
            == PointerPhase::Up && kind == ListenerKind::PointerUp),
        region_of(s.hits@, capture.node_id) is Some,
        route(s.hits@, Some(capture.node_id), kind).len() > 0,
    ensures
        document_plan(s, p, false).contains(
            Action::Bubble { target: capture.node_id, kind, event: EventKind::Pointer },
        ),
        p.phase == PointerPhase::Motion ==> pointer_next(s, p, false).hovered == s.hovered,
        p.phase == PointerPhase::Motion ==> pointer_next(s, p, false).pointer_capture
            == s.pointer_capture,
{
    first_region_from(s.hits@, capture.node_id, 0);
    let i = region_of(s.hits@, capture.node_id)->0;
    let plan = document_plan(s, p, false);
    let drag = crate::input::pointer::drag_plan(s.hits@, i, kind);
    let sent = Action::Bubble { target: capture.node_id, kind, event: EventKind::Pointer };
    assert(drag[drag.len() - 1] == sent);
    if p.phase == PointerPhase::Motion {
        assert(plan == drag);
    } else {
        assert(plan[1 + (drag.len() - 1)] == sent);
    }
}

/// Motion tells the node that the pointer leaves before the one that it enters,
/// and tells nobody while it stays on one node.
pub proof fn nodes_are_left_before_others_are_entered(s: Interactions, p: InputPointer)
    ensures
        hover_node(s, p) == s.hovered ==> forall|k: int|
            0 <= k < hover_plan(s, p).len() ==> !((#[trigger] hover_plan(s, p)[k]) is Listener),
        hover_node(s, p) != s.hovered && leave_of(s.hits@, s.hovered) is Some && enter_of(
            s.hits@,
            hover_node(s, p),
        ) is Some ==> hover_plan(s, p).len() >= 2 && hover_plan(s, p)[0] == (Action::Listener {
            listener: leave_of(s.hits@, s.hovered)->0,
            event: EventKind::Pointer,
        }) && hover_plan(s, p)[1] == (Action::Listener {
            listener: enter_of(s.hits@, hover_node(s, p))->0,
            event: EventKind::Pointer,
        }),
        pointer_next(
            Interactions { pointer_capture: None, native_scroll_pointer: false, ..s },
            InputPointer { phase: PointerPhase::Motion, ..p },
            false,
        ).hovered == hover_node(s, p),
{
}

/// The listeners for entering and leaving are those of the node itself.
pub proof fn enter_and_leave_are_told_apart(hits: Seq<HitRegion>, i: int)
    requires
        0 <= i < hits.len(),
        forall|k: int| 0 <= k < i ==> (#[trigger] hits[k]).node_id != hits[i].node_id,
    ensures
        enter_of(hits, Some(hits[i].node_id)) == hits[i].pointer_enter,
        leave_of(hits, Some(hits[i].node_id)) == hits[i].pointer_leave,
        enter_of(hits, None) is None,
        leave_of(hits, None) is None,
{
    first_is_least(hits, hits[i].node_id, 0, i);
}

/// A release of any button but the right one clicks the target under the pointer
/// and is timed; one of the right button is neither.
pub proof fn releases_click(s: Interactions, p: InputPointer)
    requires
        p.phase == PointerPhase::Up,
        !s.native_scroll_pointer,
        route(s.hits@, target_at(s.hits@, p.x as int, p.y as int), ListenerKind::Click).len() > 0,
    ensures
        p.button != 273 ==> {
            &&& release_plan(s, p).len() > 0
            &&& release_plan(s, p).last() == (Action::Bubble {
                target: target_at(s.hits@, p.x as int, p.y as int)->0,
                kind: ListenerKind::Click,
                event: EventKind::Click,
            })
            &&& pointer_step(s, p, false) == PointerStep::TimeClick
        },
        p.button == 273 ==> pointer_step(s, p, false) == PointerStep::Done,
        release_plan(s, p).len() > 0,
        release_plan(s, p)[0] == Action::Remember(Memory::Capture(None)),
{
}

/// A press of the right button asks for a menu at the target under the pointer
/// and does nothing else to the document.
pub proof fn right_presses_ask_for_menus(s: Interactions, p: InputPointer)
    requires
        p.phase == PointerPhase::Down,
        p.button == 273,
    ensures
        document_plan(s, p, false) == bubble(
            s.hits@,
            target_at(s.hits@, p.x as int, p.y as int),
            ListenerKind::ContextMenu,
            EventKind::Pointer,
        ),
        forall|k: int|
            0 <= k < document_plan(s, p, false).len() ==> (#[trigger] document_plan(
                s,
                p,
                false,
            )[k]) is Bubble,
{
}

/// The pointer on a native scrollbar reaches the scrollbar and not the document.
pub proof fn scrollbars_shield_the_document(s: Interactions, p: InputPointer)
    ensures
        p.phase == PointerPhase::Down ==> on_scrollbar(s, p, true) && !on_scrollbar(s, p, false),
        p.phase != PointerPhase::Down ==> on_scrollbar(s, p, true) == s.native_scroll_pointer,
        p.phase == PointerPhase::Down && p.button != 273 ==> pointer_plan(s, p, true).contains(
            Action::ScrollbarDown,
        ),
        p.phase == PointerPhase::Motion && s.native_scroll_pointer ==> pointer_plan(
            s,
            p,
            true,
        ).contains(Action::ScrollbarMove),
        p.phase == PointerPhase::Up && s.native_scroll_pointer ==> pointer_plan(
            s,
            p,
            true,
        ).contains(Action::ScrollbarUp),
        p.phase == PointerPhase::Motion && !s.native_scroll_pointer ==> pointer_next(
            s,
            p,
            true,
        ).hovered is None && pointer_next(s, p, true).cursor_shape == 0,
{
    let plan = pointer_plan(s, p, true);
    match p.phase {
        PointerPhase::Down => {
            assert(plan[4] == Action::ScrollbarDown || p.button == 273);
        },
        PointerPhase::Motion => {
            assert(s.native_scroll_pointer ==> plan[1] == Action::ScrollbarMove);
        },
        PointerPhase::Up => {
            assert(s.native_scroll_pointer ==> plan[2] == Action::ScrollbarUp);
        },
    }
}

/// Every event tells where the pointer is, first of all; only a press lets media
/// play.
pub proof fn events_tell_the_position(s: Interactions, p: InputPointer, over: bool)
    ensures
        pointer_plan(s, p, over).len() > 0,
        pointer_plan(s, p, over)[0] == Action::Remember(Memory::Position { x: p.x, y: p.y }),
        p.phase == PointerPhase::Down ==> pointer_plan(s, p, over).len() > 1 && pointer_plan(
            s,
            p,
            over,
        )[1] == Action::GrantMediaPlayback,
        pointer_next(s, p, over).pointer_position == Some((p.x, p.y)),
{
}

/// A changed cursor is shown, an unchanged one is not shown again.
pub proof fn only_new_cursors_are_shown(shown: u32, shape: u32)
    ensures
        shown == shape ==> show_cursor(shown, shape).len() == 0,
        shown != shape ==> show_cursor(shown, shape).len() > 0 && show_cursor(shown, shape)[0]
            == Action::CursorShape(shape),
{
}

/// Enter clicks a focused button when it is pressed, the space bar when it is
/// released, and no other key clicks it; the button looks pressed while one of
/// the two is down.
pub proof fn buttons_click_by_enter_and_space(hit: HitRegion, key: InputKey, listener: u64)
    requires
        hit.click == Some(listener),
    ensures
        ({
            let clicked = Action::Listener { listener, event: EventKind::KeyboardClick };
            let plan = button_plan(hit, key);
            &&& key.code == 28 && key.value == 1 ==> plan.contains(clicked)
            &&& key.code == 57 && key.value == 0 ==> plan.contains(clicked)
            &&& key.code == 28 && key.value != 1 ==> !plan.contains(clicked)
            &&& key.code == 57 && key.value != 0 ==> !plan.contains(clicked)
            &&& key.code != 28 && key.code != 57 ==> plan.len() == 0
            &&& (key.code == 28 || key.code == 57) && key.value != 0 ==> plan[0]
                == Action::SetActive(Some(hit.node_id))
            &&& (key.code == 28 || key.code == 57) && key.value == 0 ==> plan[0]
                == Action::SetActive(None)
        }),
{
    let plan = button_plan(hit, key);
    let clicked = Action::Listener { listener, event: EventKind::KeyboardClick };
    if (key.code == 28 && key.value == 1) || (key.code == 57 && key.value == 0) {
        assert(plan[1] == clicked);
    }
}

/// Up and right raise a focused range, down and left lower it, once for every
/// press or repeat and not for a release; no other key moves it.
pub proof fn arrows_step_ranges(at: int, key: InputKey)
    requires
        0 <= at <= usize::MAX,
    ensures
        key.value != 0 && (key.code == 103 || key.code == 106) ==> range_plan(at, key) == seq![
            Action::RangeStep { hit: at as usize, direction: 1 },
        ],
        key.value != 0 && (key.code == 105 || key.code == 108) ==> range_plan(at, key).len() == 1
            && range_plan(at, key)[0] is RangeStep && range_plan(at, key)[0]->direction == -1,
        key.value == 0 || (key.code != 103 && key.code != 105 && key.code != 106 && key.code != 108)
            ==> range_plan(at, key).len() == 0,
{
}

/// In a text field the left and right arrows move the caret, by words with
/// control, Home and End move it to the two ends, and shift extends the
/// selection. Moving keys never edit.
pub proof fn keys_move_the_caret(m: Modifiers, at: int, field: Editable, key: InputKey)
    requires
        key.value != 0,
        0 <= at <= usize::MAX,
    ensures
        key.code == 105 ==> field_plan(m, at, field, key) == seq![
            Action::MoveCaret {
                hit: at as usize,
                movement: if m.control {
                    CursorMove::PreviousWord
                } else {
                    CursorMove::Previous
                },
                extend: m.shift,
            },
        ],
        key.code == 106 ==> field_plan(m, at, field, key) == seq![
            Action::MoveCaret {
                hit: at as usize,
                movement: if m.control {
                    CursorMove::NextWord
                } else {
                    CursorMove::Next
                },
                extend: m.shift,
            },
        ],
        key.code == 102 ==> field_plan(m, at, field, key) == seq![
            Action::CaretToEdge { hit: at as usize, end: false, extend: m.shift },
        ],
        key.code == 107 ==> field_plan(m, at, field, key) == seq![
            Action::CaretToEdge { hit: at as usize, end: true, extend: m.shift },
        ],
{
}

/// Backspace deletes in a text field that listens, a release does nothing, and a
/// field without a listener is never edited.
pub proof fn keys_edit_listening_fields(
    m: Modifiers,
    at: int,
    field: Editable,
    key: InputKey,
    listener: u64,
)
    requires
        0 <= at <= usize::MAX,
    ensures
        key.value != 0 && key.code == 14 && field.on_input == Some(listener) ==> field_plan(
            m,
            at,
            field,
            key,
        ) == seq![
            Action::Edit { hit: at as usize, edit: TextEdit::Backspace, on_input: listener },
        ],
        key.value == 0 ==> field_plan(m, at, field, key).len() == 0,
        field.on_input is None ==> forall|k: int|
            0 <= k < field_plan(m, at, field, key).len() ==> !((#[trigger] field_plan(
                m,
                at,
                field,
                key,
            )[k]) is Edit),
{
}

/// While no painted region has focus, every key goes to the document's listener
/// and to nothing else.
pub proof fn unfocused_keys_go_to_the_document(
    s: Interactions,
    focused: Option<u64>,
    key: InputKey,
    listener: u64,
)
    requires
        focused is None || forall|k: int|
            0 <= k < s.hits@.len() ==> (#[trigger] s.hits@[k]).node_id != focused->0,
    ensures
        s.key_listener == Some(listener) ==> key_plan(s, focused, key) == seq![
            Action::Listener { listener, event: EventKind::Key },
        ],
        s.key_listener is None ==> key_plan(s, focused, key).len() == 0,
        key_step(s, focused, key) == KeyStep::Done,
        key_modifiers(s, focused, key) == s.modifiers,
{
    if let Some(node) = focused {
        first_region_from(s.hits@, node, 0);
    }
}

/// A key pressed while a text field has focus bubbles from the field and is then
/// offered to it; a released one does not bubble.
pub proof fn focused_fields_are_offered_keys(
    s: Interactions,
    key: InputKey,
    i: int,
)
    requires
        0 <= i < s.hits@.len(),
        forall|k: int| 0 <= k < i ==> (#[trigger] s.hits@[k]).node_id != s.hits@[i].node_id,
        !s.hits@[i].button,
        s.hits@[i].range is None,
        !crate::keymap::modifier_key(key.code),
    ensures
        key_step(s, Some(s.hits@[i].node_id), key) == (KeyStep::OfferShortcut { hit: i as usize }),
        key.value == 0 ==> key_plan(s, Some(s.hits@[i].node_id), key).len() == 0,
        key.value != 0 && route(
            s.hits@,
            Some(s.hits@[i].node_id),
            ListenerKind::KeyDown,
        ).len() > 0 ==> key_plan(s, Some(s.hits@[i].node_id), key) == seq![
            Action::Bubble {
                target: s.hits@[i].node_id,
                kind: ListenerKind::KeyDown,
                event: EventKind::Key,
            },
        ],
{
    first_is_least(s.hits@, s.hits@[i].node_id, 0, i);
    let plan = key_plan(s, Some(s.hits@[i].node_id), key);
    let sent = bubble(s.hits@, Some(s.hits@[i].node_id), ListenerKind::KeyDown, EventKind::Key);
    assert(sent + Seq::<Action>::empty() =~= sent);
}

/// What is remembered replaces what was, and leaves the rest alone.
pub proof fn memories_are_kept(s: Interactions, memory: Memory)
    ensures
        ({
            let after = remembering(s, memory);
            &&& memory matches Memory::Position { x, y } ==> after.pointer_position == Some((x, y))
            &&& memory matches Memory::NativeScroll(held) ==> after.native_scroll_pointer == held
            &&& memory matches Memory::Hovered(node) ==> after.hovered == node
            &&& memory matches Memory::CursorShape(shape) ==> after.cursor_shape == shape
            &&& memory matches Memory::Capture(capture) ==> after.pointer_capture == capture
            &&& memory matches Memory::Click(mark) ==> after.last_click == mark
            &&& !(memory is Hovered) ==> after.hovered == s.hovered
            &&& !(memory is Capture) ==> after.pointer_capture == s.pointer_capture
            &&& !(memory is Click) ==> after.last_click == s.last_click
            &&& !(memory is Position) ==> after.pointer_position == s.pointer_position
            &&& !(memory is CursorShape) ==> after.cursor_shape == s.cursor_shape
            &&& !(memory is NativeScroll) ==> after.native_scroll_pointer == s.native_scroll_pointer
            &&& after.hits == s.hits
            &&& after.modifiers == s.modifiers
        }),
{
}

/// The node under the pointer is hovered by motion and pressed by a press, other
/// than of the right button; a release lets it go.
pub proof fn nodes_are_hovered_and_pressed(s: Interactions, p: InputPointer, over: bool)
    requires
        !s.native_scroll_pointer,
        p.phase == PointerPhase::Down ==> !over,
    ensures
        ({
            let plan = pointer_plan(s, p, over);
            let target = target_at(s.hits@, p.x as int, p.y as int);
            &&& p.phase == PointerPhase::Motion ==> plan.contains(Action::SetHover(target))
            &&& p.phase == PointerPhase::Down && p.button != 273 ==> plan.contains(
                Action::SetActive(target),
            )
            &&& p.phase == PointerPhase::Up && p.button != 273 ==> plan.contains(
                Action::SetActive(None),
            )
        }),
{
    let plan = pointer_plan(s, p, over);
    let first = arrival(p).len() as int;
    let target = target_at(s.hits@, p.x as int, p.y as int);
    let pseudo = pseudo_plan(p, target);
    if p.phase == PointerPhase::Motion || p.button != 273 {
        assert(pseudo.len() == 1);
        assert(plan[first] == pseudo[0]);
    }
}

/// Motion over a scrollbar hovers nothing in the end.
pub proof fn scrollbars_hover_nothing(s: Interactions, p: InputPointer)
    requires
        p.phase == PointerPhase::Motion,
    ensures
        ({
            let plan = pointer_plan(s, p, true);
            exists|k: int|
                0 <= k < plan.len() && #[trigger] plan[k] == Action::SetHover(None) && forall|j: int|
                    k < j < plan.len() ==> !((#[trigger] plan[j]) is SetHover)
        }),
{
    let plan = pointer_plan(s, p, true);
    let first = arrival(p).len() as int;
    if on_scrollbar(s, p, true) {
        assert(plan[first + 1] == Action::SetHover(None));
    } else {
        let leave = call(leave_of(s.hits@, s.hovered), EventKind::Pointer);
        let rest = document_plan(s, p, true);
        let k = leave.len() as int + 1;
        assert(rest[k] == Action::SetHover(None));
        assert(plan[first + 1 + k] == rest[k]);
        assert forall|j: int| first + 1 + k < j < plan.len() implies !((#[trigger] plan[j])
            is SetHover) by {
            assert(plan[j] == rest[j - first - 1]);
            assert(rest[j - first - 1] == show_cursor(s.cursor_shape, 0)[j - first - 2 - k]);
        }
    }
}

/// A text field that has the pointer extends its selection to where the pointer
/// is, and a range that has it follows it.
pub proof fn captured_controls_follow_the_pointer(
    s: Interactions,
    p: InputPointer,
    capture: PointerCapture,
    i: int,
)
    requires
        s.pointer_capture == Some(capture),
        p.phase == PointerPhase::Motion,
        !s.native_scroll_pointer,
        region_of(s.hits@, capture.node_id) == Some(i),
        0 <= i < s.hits@.len() <= usize::MAX,
    ensures
        s.hits@[i].editable is Some ==> document_plan(s, p, false).contains(
            Action::PlaceCursor { hit: i as usize, extend: true },
        ),
        answers(s.hits@[i], Want::Range) ==> document_plan(s, p, false).contains(
            Action::RangePointer { hit: i as usize },
        ),
{
    let plan = document_plan(s, p, false);
    if s.hits@[i].editable is Some {
        assert(plan[0] == (Action::PlaceCursor { hit: i as usize, extend: true }));
        if answers(s.hits@[i], Want::Range) {
            assert(plan[1] == (Action::RangePointer { hit: i as usize }));
        }
    } else if answers(s.hits@[i], Want::Range) {
        assert(plan[0] == (Action::RangePointer { hit: i as usize }));
    }
}

/// A press on a text field puts the caret where it is, extending the selection
/// with shift, and gives the field the pointer; one on a range moves the range.
pub proof fn presses_reach_controls(s: Interactions, p: InputPointer, i: int)
    requires
        0 <= i < s.hits@.len() <= usize::MAX,
    ensures
        topmost(s.hits@, p.x as int, p.y as int, Want::Text) == Some(i) ==> press_plan(
            s,
            p,
        ).contains(Action::PlaceCursor { hit: i as usize, extend: s.modifiers.shift }) && press_plan(
            s,
            p,
        ).contains(
            Action::Remember(
                Memory::Capture(Some(PointerCapture { node_id: s.hits@[i].node_id })),
            ),
        ),
        topmost(s.hits@, p.x as int, p.y as int, Want::Range) == Some(i) ==> press_plan(
            s,
            p,
        ).contains(Action::RangePointer { hit: i as usize }) && press_plan(s, p).contains(
            Action::Remember(
                Memory::Capture(Some(PointerCapture { node_id: s.hits@[i].node_id })),
            ),
        ),
{
    let plan = press_plan(s, p);
    let text = topmost(s.hits@, p.x as int, p.y as int, Want::Text);
    let range = topmost(s.hits@, p.x as int, p.y as int, Want::Range);
    if text == Some(i) {
        assert(plan[1] == (Action::PlaceCursor { hit: i as usize, extend: s.modifiers.shift }));
        assert(plan[2] == Action::Remember(
            Memory::Capture(Some(PointerCapture { node_id: s.hits@[i].node_id })),
        ));
    }
    if range == Some(i) {
        let at: int = if text is Some {
            3
        } else {
            1
        };
        assert(plan[at] == (Action::RangePointer { hit: i as usize }));
        assert(plan[at + 1] == Action::Remember(
            Memory::Capture(Some(PointerCapture { node_id: s.hits@[i].node_id })),
        ));
    }
}

} // verus!
