use lite_runtime::font::CursorMove;
use lite_runtime::host::events::{Configure, InputScroll, Routed};
use lite_runtime::input::key::{dispatch_key, finish_key, KeyStep, KEY_ENTER, KEY_SPACE};
use lite_runtime::input::pointer::{dispatch_pointer, dispatch_scroll, finish_click, PointerStep};
use lite_runtime::input::script::{
    dispatch_script, input_payload, key_payload, keyboard_click_payload, message, pointer_payload,
    signed_text, wheel_payload, PointerMessage,
};
use lite_runtime::input::{
    bubbling_listener_ids, find_region, find_topmost, is_rooted, reconcile_cursor, Action, Editable,
    EventKind, HitRegion, InputKey, InputPointer, Interactions, ListenerKind, PointerCapture, PointerPhase,
    RangeControl, Want, BTN_RIGHT, DOUBLE_CLICK_NS,
};
use lite_runtime::keymap::{Modifiers, TextEdit};
use lite_runtime::text_control::{valid_boundary, State, TextControls};

fn region(node_id: u64, parent: Option<u64>, edges: (i32, i32, i32, i32)) -> HitRegion {
    HitRegion {
        node_id,
        parent_node_id: parent,
        left: edges.0,
        top: edges.1,
        right: edges.2,
        bottom: edges.3,
        click: None,
        double_click: None,
        context_menu: None,
        pointer_down: None,
        pointer_up: None,
        pointer_move: None,
        pointer_enter: None,
        pointer_leave: None,
        wheel: None,
        key_down: None,
        editable: None,
        range: None,
        button: false,
        cursor: 0,
    }
}

fn interactions(hits: Vec<HitRegion>) -> Interactions {
    Interactions {
        hits,
        modifiers: Modifiers {
            shift: false,
            control: false,
            alt: false,
            super_key: false,
            caps: false,
        },
        key_listener: None,
        pointer_position: None,
        native_scroll_pointer: false,
        hovered: None,
        cursor_shape: 0,
        pointer_capture: None,
        last_click: None,
    }
}

fn pointer(phase: PointerPhase, x: i32, y: i32) -> InputPointer {
    InputPointer {
        phase,
        x,
        y,
        button: 272,
        buttons: 0,
        serial: 1,
    }
}

fn key(code: u32, value: i32) -> InputKey {
    InputKey {
        code,
        value,
        modifiers: 0,
    }
}

#[test]
fn the_topmost_region_is_the_last_painted() {
    let mut button = region(2, Some(1), (5, 5, 15, 15));
    button.button = true;
    let hits = vec![region(1, None, (0, 0, 20, 20)), button];
    assert_eq!(find_topmost(&hits, 10, 10, Want::Any), Some(1));
    assert_eq!(find_topmost(&hits, 15, 15, Want::Any), Some(0));
    assert_eq!(find_topmost(&hits, 20, 20, Want::Any), None);
    assert_eq!(find_topmost(&hits, 10, 10, Want::Focusable), Some(1));
    assert_eq!(find_topmost(&hits, 1, 1, Want::Focusable), None);
    assert_eq!(find_region(&hits, 2), Some(1));
    assert_eq!(find_region(&hits, 9), None);
}

/// Remembers what actions say; the effects that are left to carry out.
fn perform(state: &mut Interactions, actions: Vec<Action>) -> Vec<Action> {
    let mut effects = Vec::new();
    for action in actions {
        match action {
            Action::Remember(memory) => state.remember(memory),
            effect => effects.push(effect),
        }
    }
    effects
}

/// Carries one pointer event out; its effects.
fn dispatch(state: &mut Interactions, event: InputPointer, over: bool, now: u64) -> Vec<Action> {
    let (actions, step) = dispatch_pointer(state, event, over);
    let mut effects = perform(state, actions);
    if step == PointerStep::TimeClick {
        let actions = finish_click(state, event, now);
        effects.extend(perform(state, actions));
    }
    effects
}

/// Carries a pointer event out up to the first effect that `fails`.
fn dispatch_until(state: &mut Interactions, event: InputPointer, fails: fn(&Action) -> bool) {
    let (actions, _) = dispatch_pointer(state, event, false);
    let at = actions.iter().position(fails).expect("an effect that fails");
    perform(state, actions[..at].to_vec());
}

fn reconcile(state: &mut Interactions) -> Vec<Action> {
    let actions = reconcile_cursor(state);
    perform(state, actions)
}

#[test]
fn failed_effects_leave_what_came_before_them() {
    let mut target = region(1, None, (0, 0, 10, 10));
    target.pointer_enter = Some(21);
    target.pointer_leave = Some(22);
    target.pointer_move = Some(23);
    target.cursor = 3;
    let mut state = interactions(vec![target]);
    let inside = pointer(PointerPhase::Motion, 5, 5);
    dispatch_until(&mut state, inside, |action| matches!(action, Action::Listener { .. }));
    assert_eq!(state.pointer_position, Some((5, 5)));
    assert_eq!(state.hovered, None);
    dispatch_until(&mut state, inside, |action| matches!(action, Action::Bubble { .. }));
    assert_eq!(state.hovered, Some(1));
    assert_eq!(state.cursor_shape, 0);
    dispatch_until(&mut state, inside, |action| matches!(action, Action::CursorShape(_)));
    assert_eq!(state.cursor_shape, 0);
    dispatch(&mut state, inside, false, 0);
    assert_eq!(state.cursor_shape, 3);

    let mut field = region(1, None, (0, 0, 10, 10));
    field.editable = Some(Editable {
        value: String::new(),
        on_input: None,
        text_origin_x: 0,
    });
    let mut range = region(2, None, (0, 0, 10, 10));
    range.range = Some(RangeControl { disabled: false });
    range.pointer_down = Some(9);
    range.pointer_up = Some(10);
    range.click = Some(11);
    let mut state = interactions(vec![field, range]);
    let press = pointer(PointerPhase::Down, 5, 5);
    let captured = |state: &Interactions| state.pointer_capture.map(|capture| capture.node_id);
    dispatch_until(&mut state, press, |action| matches!(action, Action::RangePointer { .. }));
    assert_eq!(captured(&state), Some(1));
    dispatch_until(&mut state, press, |action| matches!(action, Action::Bubble { .. }));
    assert_eq!(captured(&state), Some(2));
    let release = pointer(PointerPhase::Up, 5, 5);
    dispatch_until(&mut state, release, |action| matches!(action, Action::RangePointer { .. }));
    assert_eq!(captured(&state), None);
    assert_eq!(state.last_click, None);
}

#[test]
fn events_bubble_through_document_ancestors() {
    let mut outer = region(1, None, (0, 0, 20, 20));
    outer.click = Some(11);
    let middle = region(2, Some(1), (0, 0, 20, 20));
    let mut inner = region(3, Some(2), (0, 0, 20, 20));
    inner.click = Some(33);
    let hits = vec![outer, middle, inner];
    assert!(is_rooted(&hits));
    assert_eq!(bubbling_listener_ids(&hits, Some(3), ListenerKind::Click), [33, 11]);
    assert_eq!(bubbling_listener_ids(&hits, Some(2), ListenerKind::Click), [11]);
    assert!(bubbling_listener_ids(&hits, None, ListenerKind::Click).is_empty());
    assert!(bubbling_listener_ids(&hits, Some(3), ListenerKind::Wheel).is_empty());
    let looped = vec![
        region(1, Some(2), (0, 0, 1, 1)),
        region(2, Some(1), (0, 0, 1, 1)),
    ];
    assert!(!is_rooted(&looped));
}

#[test]
fn presses_focus_capture_and_click() {
    let mut button = region(2, None, (0, 0, 20, 20));
    button.button = true;
    button.click = Some(5);
    button.double_click = Some(6);
    button.pointer_down = Some(7);
    button.pointer_up = Some(8);
    let mut state = interactions(vec![button]);
    let down = dispatch(&mut state, pointer(PointerPhase::Down, 4, 4), false, 0);
    assert_eq!(
        down,
        [
            Action::GrantMediaPlayback,
            Action::SetActive(Some(2)),
            Action::SetFocus(Some(2)),
            Action::Bubble {
                target: 2,
                kind: ListenerKind::PointerDown,
                event: EventKind::Pointer
            },
        ]
    );
    assert_eq!(state.pointer_capture.map(|capture| capture.node_id), Some(2));
    let up = dispatch(&mut state, pointer(PointerPhase::Up, 4, 4), false, 10);
    assert_eq!(
        up,
        [
            Action::SetActive(None),
            Action::Bubble {
                target: 2,
                kind: ListenerKind::PointerUp,
                event: EventKind::Pointer
            },
            Action::Bubble {
                target: 2,
                kind: ListenerKind::Click,
                event: EventKind::Click
            },
        ]
    );
    assert!(state.pointer_capture.is_none());
    let again = dispatch(
        &mut state,
        pointer(PointerPhase::Up, 6, 2),
        false,
        10 + DOUBLE_CLICK_NS,
    );
    assert!(again.contains(&Action::Bubble {
        target: 2,
        kind: ListenerKind::DoubleClick,
        event: EventKind::DoubleClick
    }));
    assert!(state.last_click.is_none());
}

#[test]
fn right_presses_only_open_menus() {
    let mut target = region(2, None, (0, 0, 20, 20));
    target.context_menu = Some(9);
    target.button = true;
    let mut state = interactions(vec![target]);
    let press = InputPointer {
        button: BTN_RIGHT,
        ..pointer(PointerPhase::Down, 4, 4)
    };
    assert_eq!(
        dispatch(&mut state, press, false, 0),
        [
            Action::GrantMediaPlayback,
            Action::Bubble {
                target: 2,
                kind: ListenerKind::ContextMenu,
                event: EventKind::Pointer
            },
        ]
    );
}

#[test]
fn hovering_enters_leaves_and_changes_the_cursor() {
    let mut left = region(1, None, (0, 0, 10, 10));
    left.pointer_enter = Some(21);
    left.pointer_leave = Some(22);
    left.cursor = 3;
    let mut state = interactions(vec![left]);
    assert_eq!(
        dispatch(&mut state, pointer(PointerPhase::Motion, 5, 5), false, 0),
        [
            Action::SetHover(Some(1)),
            Action::Listener {
                listener: 21,
                event: EventKind::Pointer
            },
            Action::CursorShape(3),
        ]
    );
    assert_eq!(state.hovered, Some(1));
    assert_eq!(
        dispatch(&mut state, pointer(PointerPhase::Motion, 15, 5), false, 0),
        [
            Action::SetHover(None),
            Action::Listener {
                listener: 22,
                event: EventKind::Pointer
            },
            Action::CursorShape(0),
        ]
    );
    state.pointer_position = Some((5, 5));
    assert_eq!(reconcile(&mut state), [Action::CursorShape(3)]);
    assert!(reconcile(&mut state).is_empty());
}

#[test]
fn scrollbars_take_the_pointer() {
    let mut state = interactions(vec![region(1, None, (0, 0, 10, 10))]);
    assert_eq!(
        dispatch(&mut state, pointer(PointerPhase::Down, 9, 5), true, 0),
        [
            Action::GrantMediaPlayback,
            Action::SetHover(None),
            Action::SetActive(None),
            Action::ScrollbarDown,
        ]
    );
    assert_eq!(
        dispatch(&mut state, pointer(PointerPhase::Motion, 50, 5), false, 0),
        [Action::ScrollbarMove, Action::SetHover(None)]
    );
    assert_eq!(
        dispatch(&mut state, pointer(PointerPhase::Up, 50, 5), false, 0),
        [Action::ScrollbarUp, Action::SetActive(None)]
    );
    assert!(!state.native_scroll_pointer);
    assert_eq!(dispatch_scroll(&state, 5, 5), [Action::ScrollWheel]);
}

#[test]
fn fields_and_ranges_follow_the_drag() {
    let mut field = region(1, None, (0, 0, 10, 10));
    field.editable = Some(Editable {
        value: "abc".to_owned(),
        on_input: Some(4),
        text_origin_x: 0,
    });
    let mut range = region(2, None, (20, 0, 40, 10));
    range.range = Some(RangeControl { disabled: false });
    let mut state = interactions(vec![field, range]);
    let down = dispatch(&mut state, pointer(PointerPhase::Down, 5, 5), false, 0);
    assert!(down.contains(&Action::PlaceCursor {
        hit: 0,
        extend: false
    }));
    let drag = dispatch(&mut state, pointer(PointerPhase::Motion, 90, 5), false, 0);
    assert!(drag.contains(&Action::PlaceCursor {
        hit: 0,
        extend: true
    }));
    dispatch(&mut state, pointer(PointerPhase::Up, 90, 5), false, 0);
    let slide = dispatch(&mut state, pointer(PointerPhase::Down, 30, 5), false, 0);
    assert!(slide.contains(&Action::RangePointer { hit: 1 }));
    assert_eq!(state.pointer_capture.map(|capture| capture.node_id), Some(2));
}

#[test]
fn keys_reach_buttons_ranges_and_fields() {
    let mut button = region(1, None, (0, 0, 10, 10));
    button.button = true;
    button.click = Some(5);
    let mut range = region(2, None, (0, 0, 10, 10));
    range.range = Some(RangeControl { disabled: false });
    let mut field = region(3, None, (0, 0, 10, 10));
    field.editable = Some(Editable {
        value: String::new(),
        on_input: Some(4),
        text_origin_x: 0,
    });
    let mut state = interactions(vec![button, range, field]);
    state.key_listener = Some(8);
    assert_eq!(
        dispatch_key(&mut state, Some(1), key(KEY_ENTER, 1)),
        (
            vec![
                Action::SetActive(Some(1)),
                Action::Listener {
                    listener: 5,
                    event: EventKind::KeyboardClick
                },
            ],
            KeyStep::Done
        )
    );
    assert_eq!(
        dispatch_key(&mut state, Some(1), key(KEY_ENTER, 2)).0,
        [Action::SetActive(Some(1))]
    );
    assert_eq!(
        dispatch_key(&mut state, Some(1), key(KEY_SPACE, 0)).0,
        [
            Action::SetActive(None),
            Action::Listener {
                listener: 5,
                event: EventKind::KeyboardClick
            },
        ]
    );
    assert_eq!(
        dispatch_key(&mut state, Some(2), key(108, 1)).0,
        [Action::RangeStep {
            hit: 1,
            direction: -1
        }]
    );
    assert_eq!(
        dispatch_key(&mut state, None, key(30, 1)).0,
        [Action::Listener {
            listener: 8,
            event: EventKind::Key
        }]
    );
    let (actions, step) = dispatch_key(&mut state, Some(3), key(30, 1));
    assert!(actions.is_empty());
    assert_eq!(step, KeyStep::OfferShortcut { hit: 2 });
    assert!(finish_key(&state, 2, key(30, 1), true).is_empty());
    assert_eq!(
        finish_key(&state, 2, key(30, 1), false),
        [Action::Edit {
            hit: 2,
            edit: TextEdit::Insert('a'),
            on_input: 4
        }]
    );
    dispatch_key(&mut state, Some(3), key(42, 1));
    assert!(state.modifiers.shift);
    assert_eq!(
        finish_key(&state, 2, key(105, 1), false),
        [Action::MoveCaret {
            hit: 2,
            movement: CursorMove::Previous,
            extend: true
        }]
    );
    assert_eq!(
        finish_key(&state, 2, key(107, 1), false),
        [Action::CaretToEdge {
            hit: 2,
            end: true,
            extend: true
        }]
    );
}

#[test]
fn carets_stand_on_character_boundaries() {
    assert_eq!(valid_boundary("aé", 2), 1);
    assert_eq!(valid_boundary("aé", 9), 3);
    let mut controls = TextControls::new();
    let state = controls.control_state(1, "aé");
    assert_eq!((state.anchor, state.focus), (3, 3));
    assert_eq!(State::collapsed(4).ordered(), (4, 4));
    assert!(controls.place_control_cursor(1, "aé", 1, false));
    assert!(!controls.place_control_cursor(1, "aé", 1, false));
    assert!(controls.set_control_focus(1, "aé", 3, true));
    assert_eq!(controls.selected_control_text(1, "aé"), "é");
    assert!(controls.move_control_cursor(1, "aé", CursorMove::Previous, false, 1));
    assert_eq!(controls.control_state(1, "aé").focus, 1);
    controls.set_control_scroll(1, "aé", 7);
    let state = controls.control_state(1, "aé");
    assert_eq!((state.focus, state.scroll_bits), (1, 7));
    assert_eq!(controls.states().len(), 1);
}

#[test]
fn edits_replace_the_selection() {
    let mut controls = TextControls::new();
    assert!(controls.select_all_control(1, "abc"));
    assert_eq!(controls.edit_control(1, "abc", TextEdit::Insert('é'), 0), "é");
    let state = controls.control_state(1, "é");
    assert_eq!((state.anchor, state.focus), (2, 2));
    assert_eq!(controls.paste_control(1, "é", "xy"), "éxy");
    assert_eq!(controls.edit_control(1, "éxy", TextEdit::Backspace, 3), "éx");
    assert_eq!(controls.replace_control_range(1, "éx", 0, 2, "a"), "ax");
    controls.select_all_control(1, "ax");
    assert_eq!(controls.selected_control_text(1, "ax"), "ax");
    assert_eq!(controls.delete_control_selection(1, "ax"), "");
}

#[test]
fn captures_call_the_listeners_of_the_present_scene() {
    let capture = PointerCapture { node_id: 4 };
    let mut held = region(4, None, (0, 0, 1, 1));
    held.pointer_move = Some(1);
    held.pointer_up = Some(2);
    let hits = vec![region(3, None, (0, 0, 1, 1)), held];
    assert_eq!(capture.hit(&hits), Some(1));
    assert_eq!(capture.move_listener(&hits), Some(1));
    assert_eq!(capture.up_listener(&hits), Some(2));
    assert_eq!(capture.move_listener(&Vec::new()), None);
}

#[test]
fn payloads_are_json() {
    let pointer = InputPointer {
        phase: PointerPhase::Down,
        x: -3,
        y: 4,
        button: 272,
        buttons: 1,
        serial: 9,
    };
    assert_eq!(
        pointer_payload(pointer, PointerMessage::Plain),
        "{\"button\":272,\"buttons\":1,\"phase\":\"down\",\"serial\":9,\"type\":\"pointer\",\"x\":-3,\"y\":4}"
    );
    for (kind, name, detail) in [
        (PointerMessage::Click, "click", 1),
        (PointerMessage::DoubleClick, "dblclick", 2),
    ] {
        let payload: serde_json::Value =
            serde_json::from_str(&pointer_payload(pointer, kind)).expect("valid json");
        assert_eq!(payload["type"], serde_json::Value::from(name));
        assert_eq!(payload["detail"], serde_json::Value::from(detail));
        assert_eq!(payload["x"], serde_json::Value::from(-3));
    }
    assert_eq!(
        wheel_payload(InputScroll {
            x: 1,
            y: 2,
            delta_x: 0,
            delta_y: -120
        }),
        "{\"deltaMode\":0,\"deltaX\":0,\"deltaY\":-120,\"type\":\"wheel\",\"x\":1,\"y\":2}"
    );
    assert_eq!(
        key_payload(key(30, 1)),
        "{\"code\":30,\"modifiers\":0,\"type\":\"key\",\"value\":1}"
    );
    assert_eq!(
        keyboard_click_payload(),
        "{\"detail\":0,\"keyboard\":true,\"type\":\"click\"}"
    );
    assert_eq!(
        input_payload("a\"b\n"),
        "{\"type\":\"input\",\"value\":\"a\\\"b\\n\"}"
    );
    assert_eq!(signed_text(i32::MIN), "-2147483648");
}

#[test]
fn routes_enter_script_in_one_call() {
    assert_eq!(dispatch_script(&Vec::new(), "{}"), None);
    assert_eq!(
        dispatch_script(&vec![7], "{}").as_deref(),
        Some("globalThis.__liteDispatch(7,{});")
    );
    assert_eq!(
        dispatch_script(&vec![33, 11, 5], "{}").as_deref(),
        Some("globalThis.__liteDispatch([33,11,5],{});")
    );
}

#[test]
fn display_events_become_messages() {
    let opened = Routed::Opened {
        surface_id: 5,
        app_id: "terminal".to_owned(),
    };
    assert_eq!(
        message(&opened),
        Some((
            "desktop",
            "{\"surface\":{\"appId\":\"terminal\",\"id\":5},\"type\":\"opened\"}".to_owned()
        ))
    );
    let moved = Routed::Moved {
        surface_id: 5,
        x: 0,
        y: 9,
    };
    assert_eq!(
        message(&moved).map(|(_, payload)| payload).as_deref(),
        Some("{\"surfaceId\":5,\"type\":\"moved\",\"x\":0,\"y\":9}")
    );
    let configured = Routed::Configured(Configure {
        width: 1,
        height: 2,
        serial: 3,
    });
    assert_eq!(
        message(&configured),
        Some((
            "display",
            "{\"height\":2,\"serial\":3,\"type\":\"configure\",\"width\":1}".to_owned()
        ))
    );
    let clipboard = Routed::Clipboard {
        request_id: 4,
        text: "\t".to_owned(),
    };
    assert_eq!(
        message(&clipboard).map(|(channel, _)| channel),
        Some("clipboard")
    );
    assert_eq!(message(&Routed::Handled), None);
}
