//! Routing of key events.

use vstd::prelude::*;
use vstd::string::*;
use crate::font::CursorMove;
use crate::input::{
    bubble, call, find_region, push_bubble, push_call, region_of, rooted, Action, Editable,
    EventKind, HitRegion, InputKey, Interactions, ListenerKind,
};
use crate::keymap::{intent, latched, modifier_key, text_edit, Modifiers};

verus! {

/// Evdev code of the Enter key.
pub const KEY_ENTER: u32 = 28;

/// Evdev code of the space bar.
pub const KEY_SPACE: u32 = 57;

/// How far a key event has been decided.
#[derive(Clone, Copy, Debug, PartialEq, Eq, Structural)]
pub enum KeyStep {
    /// The event needs nothing more.
    Done,
    /// The text field of this region offers the key to its clipboard
    /// shortcuts first; [`finish_key`] goes on with the answer.
    OfferShortcut { hit: usize },
}

/// The region that has keyboard focus and is still painted.
pub open spec fn focus_region(s: Interactions, focused: Option<u64>) -> Option<int> {
    match focused {
        Some(node) => region_of(s.hits@, node),
        None => None,
    }
}

/// The key activates buttons.
pub open spec fn activates(code: u32) -> bool {
    code == KEY_ENTER || code == KEY_SPACE
}

/// The key event clicks a button: Enter when pressed, space when released.
pub open spec fn clicks(key: InputKey) -> bool {
    (key.code == KEY_ENTER && key.value == 1) || (key.code == KEY_SPACE && key.value == 0)
}

/// What a key does to a focused button.
pub open spec fn button_plan(hit: HitRegion, key: InputKey) -> Seq<Action> {
    if activates(key.code) {
        seq![
            Action::SetActive(
                if key.value != 0 {
                    Some(hit.node_id)
                } else {
                    None
                },
            ),
        ] + (if clicks(key) {
            call(hit.click, EventKind::KeyboardClick)
        } else {
            Seq::empty()
        })
    } else {
        Seq::empty()
    }
}

/// The direction that a key steps a range in.
pub open spec fn step_direction(code: u32) -> Option<i32> {
    if code == 103 || code == 106 {
        Some(1)
    } else if code == 105 || code == 108 {
        Some(-1int as i32)
    } else {
        None
    }
}

/// What a key does to a focused range.
pub open spec fn range_plan(at: int, key: InputKey) -> Seq<Action> {
    if key.value != 0 && step_direction(key.code) is Some {
        seq![Action::RangeStep { hit: at as usize, direction: step_direction(key.code)->0 }]
    } else {
        Seq::empty()
    }
}

/// What the first step of a key event does.
pub open spec fn key_plan(s: Interactions, focused: Option<u64>, key: InputKey) -> Seq<Action> {
    match focus_region(s, focused) {
        None => call(s.key_listener, EventKind::Key),
        Some(i) => if modifier_key(key.code) {
            Seq::empty()
        } else {
            let hit = s.hits@[i];
            (if key.value != 0 {
                bubble(s.hits@, focused, ListenerKind::KeyDown, EventKind::Key)
            } else {
                Seq::empty()
            }) + (if hit.button {
                button_plan(hit, key)
            } else if hit.range is Some {
                range_plan(i, key)
            } else {
                Seq::empty()
            })
        },
    }
}

/// Whether the key goes on to the text field of the focused region.
pub open spec fn key_step(s: Interactions, focused: Option<u64>, key: InputKey) -> KeyStep {
    match focus_region(s, focused) {
        None => KeyStep::Done,
        Some(i) => if modifier_key(key.code) || s.hits@[i].button || s.hits@[i].range is Some {
            KeyStep::Done
        } else {
            KeyStep::OfferShortcut { hit: i as usize }
        },
    }
}

/// The modifiers after a key event: they are followed while a region has focus.
pub open spec fn key_modifiers(s: Interactions, focused: Option<u64>, key: InputKey) -> Modifiers {
    if focus_region(s, focused) is Some {
        latched(s.modifiers, key.code, key.value)
    } else {
        s.modifiers
    }
}

fn push_button(actions: &mut Vec<Action>, hit: &HitRegion, key: InputKey)
    ensures
        final(actions)@ == old(actions)@ + button_plan(*hit, key),
{
    let ghost before = actions@;
    if key.code == KEY_ENTER || key.code == KEY_SPACE {
        let active: Option<u64> = if key.value != 0 {
            Some(hit.node_id)
        } else {
            None
        };
        actions.push(Action::SetActive(active));
        if (key.code == KEY_ENTER && key.value == 1) || (key.code == KEY_SPACE && key.value == 0) {
            push_call(actions, hit.click, EventKind::KeyboardClick);
        }
    }
    assert(actions@ =~= before + button_plan(*hit, key));
}

fn push_step(actions: &mut Vec<Action>, at: usize, key: InputKey)
    ensures
        final(actions)@ == old(actions)@ + range_plan(at as int, key),
{
    let ghost before = actions@;
    if key.value != 0 {
        let direction: Option<i32> = match key.code {
            103 | 106 => Some(1),
            105 | 108 => Some(-1),
            _ => None,
        };
        if let Some(direction) = direction {
            actions.push(Action::RangeStep { hit: at, direction });
        }
    }
    assert(actions@ =~= before + range_plan(at as int, key));
}

/// Routes one key event up to the text field, if one has focus.
///
/// While a painted region has focus, the event first bubbles from it through
/// its document ancestors and then reaches the region's default action. A
/// commit may have removed the focused region; the event then goes to the
/// global key listener, never to a stale node.
pub fn dispatch_key(interactions: &mut Interactions, focused: Option<u64>, key: InputKey) -> (result: (
    Vec<Action>,
    KeyStep,
))
    requires
        rooted(old(interactions).hits@),
    ensures
        result.0@ == key_plan(*old(interactions), focused, key),
        result.1 == key_step(*old(interactions), focused, key),
        *final(interactions) == (Interactions {
            modifiers: key_modifiers(*old(interactions), focused, key),
            ..*old(interactions)
        }),
{
    let mut actions: Vec<Action> = Vec::new();
    let ghost start = *interactions;
    let found: Option<usize> = match focused {
        Some(node) => find_region(&interactions.hits, node),
        None => None,
    };
    match found {
        None => {
            push_call(&mut actions, interactions.key_listener, EventKind::Key);
            assert(actions@ =~= key_plan(start, focused, key));
            (actions, KeyStep::Done)
        },
        Some(at) => {
            if interactions.modifiers.apply(key.code, key.value) {
                assert(actions@ =~= key_plan(start, focused, key));
                return (actions, KeyStep::Done);
            }
            if key.value != 0 {
                let _ = push_bubble(
                    &mut actions,
                    &interactions.hits,
                    focused,
                    ListenerKind::KeyDown,
                    EventKind::Key,
                );
            }
            let hit = &interactions.hits[at];
            let mut step = KeyStep::Done;
            if hit.button {
                push_button(&mut actions, hit, key);
            } else if hit.range.is_some() {
                push_step(&mut actions, at, key);
            } else {
                step = KeyStep::OfferShortcut { hit: at };
            }
            assert(actions@ =~= key_plan(start, focused, key));
            (actions, step)
        },
    }
}

/// The caret movement of a key.
pub open spec fn caret_movement(code: u32, control: bool) -> Option<CursorMove> {
    if code == 105 {
        Some(
            if control {
                CursorMove::PreviousWord
            } else {
                CursorMove::Previous
            },
        )
    } else if code == 106 {
        Some(
            if control {
                CursorMove::NextWord
            } else {
                CursorMove::Next
            },
        )
    } else {
        None
    }
}

/// What a key does to a focused text field that took it as no shortcut.
pub open spec fn field_plan(m: Modifiers, at: int, field: Editable, key: InputKey) -> Seq<Action> {
    if key.value != 0 && caret_movement(key.code, m.control) is Some {
        seq![
            Action::MoveCaret {
                hit: at as usize,
                movement: caret_movement(key.code, m.control)->0,
                extend: m.shift,
            },
        ]
    } else if key.value != 0 && (key.code == 102 || key.code == 107) {
        seq![Action::CaretToEdge { hit: at as usize, end: key.code == 107, extend: m.shift }]
    } else if intent(key.code, key.value, m) is Some && field.on_input is Some {
        seq![
            Action::Edit {
                hit: at as usize,
                edit: intent(key.code, key.value, m)->0,
                on_input: field.on_input->0,
            },
        ]
    } else {
        Seq::empty()
    }
}

/// Completes a key event at the text field of a region. `taken` tells whether
/// the field took the key as a clipboard shortcut, which only a press can be.
pub fn finish_key(interactions: &Interactions, hit: usize, key: InputKey, taken: bool) -> (result:
    Vec<Action>)
    requires
        hit < interactions.hits@.len(),
        interactions.hits@[hit as int].editable is Some,
    ensures
        result@ == (if taken && key.value != 0 {
            Seq::<Action>::empty()
        } else {
            field_plan(
                interactions.modifiers,
                hit as int,
                interactions.hits@[hit as int].editable->0,
                key,
            )
        }),
{
    let mut actions: Vec<Action> = Vec::new();
    let modifiers = interactions.modifiers;
    if key.value != 0 {
        if taken {
            return actions;
        }
        let movement: Option<CursorMove> = match key.code {
            105 => Some(
                if modifiers.control {
                    CursorMove::PreviousWord
                } else {
                    CursorMove::Previous
                },
            ),
            106 => Some(
                if modifiers.control {
                    CursorMove::NextWord
                } else {
                    CursorMove::Next
                },
            ),
            _ => None,
        };
        if let Some(movement) = movement {
            actions.push(Action::MoveCaret { hit, movement, extend: modifiers.shift });
            return actions;
        }
        if key.code == 102 || key.code == 107 {
            actions.push(
                Action::CaretToEdge { hit, end: key.code == 107, extend: modifiers.shift },
            );
            return actions;
        }
    }
    if let Some(edit) = text_edit(key.code, key.value, modifiers) {
        if let Some(field) = &interactions.hits[hit].editable {
            if let Some(on_input) = field.on_input {
                actions.push(Action::Edit { hit, edit, on_input });
            }
        }
    }
    actions
}

/// A modifier key reaches no listener and no field while a region has focus.
pub proof fn modifiers_stay_silent(s: Interactions, focused: Option<u64>, key: InputKey)
    requires
        focus_region(s, focused) is Some,
        modifier_key(key.code),
    ensures
        key_plan(s, focused, key) == Seq::<Action>::empty(),
        key_step(s, focused, key) == KeyStep::Done,
{
}

/// Holding Enter down clicks once: only the first press is a click, repeats and
/// the release are not. The space bar clicks on release alone.
pub proof fn one_click_per_activation(hit: HitRegion, key: InputKey)
    requires
        hit.click is Some,
    ensures
        button_plan(hit, key).contains(
            Action::Listener { listener: hit.click->0, event: EventKind::KeyboardClick },
        ) <==> clicks(key),
        key.code == KEY_ENTER && key.value != 1 ==> !clicks(key),
        key.code == KEY_SPACE && key.value != 0 ==> !clicks(key),
{
    let plan = button_plan(hit, key);
    if clicks(key) {
        assert(plan[1] == Action::Listener {
            listener: hit.click->0,
            event: EventKind::KeyboardClick,
        });
    } else if activates(key.code) {
        assert(plan.len() == 1);
    }
}

} // verus!
