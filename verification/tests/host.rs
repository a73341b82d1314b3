use lite_runtime::host::events::{
    apply_event, Configure, Event, InputScroll, RequestIds, Routed, StreamRegistry,
};
use lite_runtime::host::operations::{Reply, Service};
use lite_runtime::host::{
    app_metadata, AcceleratorChord, Action, Bounds, Field, HostError, Role, State,
};
use lite_runtime::input::{InputKey, InputPointer, PointerPhase};
use lite_runtime::rect::Size;

fn state() -> State<u8> {
    State::new(Size {
        width: 1504,
        height: 846,
    })
}

fn done(reply: Reply) -> Option<String> {
    match reply {
        Reply::Done(text) => Some(text),
        _ => None,
    }
}

fn refused(reply: Reply) -> Option<HostError> {
    match reply {
        Reply::Refused(error) => Some(error),
        _ => None,
    }
}

fn chord(modifiers: u32, code: u32) -> AcceleratorChord {
    AcceleratorChord { modifiers, code }
}

#[test]
fn accelerator_set_is_validated_at_the_host_boundary() {
    const MAX_ACCELERATORS: usize = 16;
    // Desktop session: a valid table queues one replacement action.
    let mut state = state();
    assert!(matches!(
        state.invoke(Role::Desktop, "desktop.accelerators.set", "[]", 0),
        Reply::Needs(Service::Accelerators)
    ));
    state
        .desktop_accelerators(vec![chord(4, 15), chord(2, 1)], MAX_ACCELERATORS)
        .expect("valid accelerator table");
    let actions = state.take_actions();
    let [Action::SetAccelerators(chords)] = actions.as_slice() else {
        panic!("one accelerator replacement expected");
    };
    assert_eq!(chords, &[chord(4, 15), chord(2, 1)]);
    // Overlong tables are rejected before any wire encode.
    let overlong = vec![chord(4, 15); MAX_ACCELERATORS + 1];
    assert_eq!(
        state.desktop_accelerators(overlong, MAX_ACCELERATORS),
        Err(HostError::AcceleratorLimit)
    );
    assert!(state.take_actions().is_empty());
    // App sessions never reach the handler.
    assert_eq!(
        refused(state.invoke(Role::App, "desktop.accelerators.set", "[]", 0)),
        Some(HostError::Unavailable)
    );
}

#[test]
fn sessions_have_their_own_operations() {
    let mut state = state();
    for (role, operation, service) in [
        (Role::App, "scene.commit", Service::CommitScene),
        (Role::Desktop, "time.now", Service::MonotonicTime),
        (Role::Desktop, "time.clock", Service::WallClock),
        (Role::App, "terminal.paste", Service::TerminalPaste),
        (Role::App, "clipboard.read", Service::ClipboardRead),
        (Role::App, "clipboard.write", Service::ClipboardWrite),
        (Role::App, "fs.list", Service::FsList),
        (Role::App, "fs.read", Service::FsRead),
        (Role::App, "fs.mkdir", Service::FsMkdir),
        (Role::App, "fs.remove", Service::FsRemove),
        (Role::App, "fs.rename", Service::FsRename),
        (Role::App, "fs.copy", Service::FsCopy),
    ] {
        assert!(
            matches!(state.invoke(role, operation, "", 0), Reply::Needs(needed) if needed == service),
            "{operation}"
        );
    }
    assert_eq!(
        done(state.invoke(Role::App, "viewport.get", "", 0)).as_deref(),
        Some("{\"width\":1504,\"height\":846,\"devicePixelRatio\":2}")
    );
    for (role, operation) in [
        (Role::Desktop, "fs.list"),
        (Role::App, "desktop.surfaces"),
        (Role::App, "shell.exec"),
    ] {
        assert_eq!(
            refused(state.invoke(role, operation, "", 0)),
            Some(HostError::Unavailable)
        );
    }
    assert_eq!(
        HostError::Unavailable.message("shell.exec"),
        "operation 'shell.exec' is unavailable in this session"
    );
    assert_eq!(
        HostError::InvalidTimerSet.message("timer.set"),
        "invalid timer set"
    );
    assert!(HostError::InvalidField(Field::TimerId)
        .message("timer.set")
        .starts_with("invalid "));
}

#[test]
fn timers_expire_in_order_and_once() {
    let mut state = state();
    assert_eq!(state.next_timer_delay(0), None);
    assert!(done(state.invoke(Role::App, "timer.set", "1:50", 100)).is_some());
    assert!(done(state.invoke(Role::App, "timer.set", "2:10", 100)).is_some());
    assert_eq!(state.next_timer_delay(100), Some(10_000_000));
    assert!(state.take_expired_timers(10_000_099).is_empty());
    assert_eq!(state.take_expired_timers(60_000_000), [1, 2]);
    assert!(state.take_expired_timers(500_000_000).is_empty());
    assert!(done(state.invoke(Role::App, "timer.set", "3:50", 0)).is_some());
    assert!(done(state.invoke(Role::App, "timer.clear", "3", 0)).is_some());
    assert_eq!(state.next_timer_delay(0), None);
    assert_eq!(
        refused(state.invoke(Role::App, "timer.set", "1:2:3", 0)),
        Some(HostError::InvalidTimerSet)
    );
    assert_eq!(
        refused(state.invoke(Role::App, "timer.set", "x:2", 0)),
        Some(HostError::InvalidField(Field::TimerId))
    );
    assert_eq!(
        refused(state.invoke(Role::App, "timer.set", "1", 0)),
        Some(HostError::InvalidField(Field::TimerDelay))
    );
}

#[test]
fn windows_open_cascade_move_and_close() {
    let mut state = state();
    state.open_surface(5, "terminal".to_owned());
    state.open_surface(6, "unknown".to_owned());
    assert_eq!(state.surfaces().len(), 2);
    assert_eq!(state.surfaces()[0].title, "Terminal");
    assert_eq!(state.surfaces()[1].title, "Application");
    assert_eq!((state.surfaces()[1].bounds.x, state.surfaces()[1].bounds.y), (288, 174));
    let listed = done(state.invoke(Role::Desktop, "desktop.surfaces", "", 0)).unwrap();
    let listed: serde_json::Value = serde_json::from_str(&listed).expect("valid json");
    assert_eq!(listed[0]["appId"], serde_json::Value::from("terminal"));
    assert_eq!(listed[1]["bounds"]["x"], serde_json::Value::from(288));
    assert_eq!(listed.as_array().map(Vec::len), Some(2));
    assert_eq!(app_metadata("music-player"), ("Music", "assets/music.png"));
    state.move_surface(6, 10, 20);
    assert_eq!(
        state.surfaces()[1].bounds,
        Bounds {
            x: 10,
            y: 20,
            ..state.surfaces()[1].bounds
        }
    );
    assert!(done(state.invoke(Role::Desktop, "desktop.move", "5:1:2", 0)).is_some());
    assert_eq!(state.surfaces()[0].bounds.x, 1);
    assert_eq!(
        refused(state.invoke(Role::Desktop, "desktop.move", "5:1", 0)),
        Some(HostError::InvalidField(Field::SurfaceY))
    );
    assert!(done(state.invoke(Role::Desktop, "desktop.focus", "6", 0)).is_some());
    assert_eq!(state.focused_surface(), 6);
    state.close_surface(6);
    assert_eq!(state.surfaces().len(), 1);
    assert!(done(state.invoke(Role::Desktop, "desktop.close", "5", 0)).is_some());
    assert!(matches!(state.take_actions().as_slice(), [Action::Close(5)]));
}

#[test]
fn configures_get_fresh_serials() {
    let mut state = state();
    state.open_surface(5, "terminal".to_owned());
    let first = done(state.invoke(Role::Desktop, "desktop.configure", "5:400:300", 0)).unwrap();
    let second = done(state.invoke(Role::Desktop, "desktop.configure", "5:500:300", 0)).unwrap();
    assert_ne!(first, second);
    let actions = state.take_actions();
    let serials = actions
        .iter()
        .map(|action| match action {
            Action::Configure {
                surface_id: 5,
                serial,
                ..
            } => *serial,
            _ => 0,
        })
        .collect::<Vec<_>>();
    assert_eq!(serials.len(), 2);
    assert!(serials[0] < serials[1]);
    assert_eq!(
        refused(state.invoke(Role::Desktop, "desktop.configure", "5:400", 0)),
        Some(HostError::InvalidField(Field::SurfaceHeight))
    );
    assert!(matches!(
        refused(state.invoke(Role::Desktop, "desktop.configure", "5:1:2:3", 0)),
        Some(HostError::InvalidConfigure)
    ));
}

#[test]
fn moves_begin_inside_their_bounds() {
    let mut state = state();
    assert!(done(state.invoke(Role::Desktop, "desktop.move.begin", "5:9:-1:-2:30:40", 0)).is_some());
    assert!(matches!(
        state.take_actions().as_slice(),
        [Action::BeginMove {
            surface_id: 5,
            serial: 9,
            min_x: -1,
            min_y: -2,
            max_x: 30,
            max_y: 40
        }]
    ));
    assert_eq!(
        refused(state.invoke(Role::Desktop, "desktop.move.begin", "5:9:31:-2:30:40", 0)),
        Some(HostError::InvalidMoveBounds)
    );
}

#[test]
fn terminal_input_is_queued_as_bytes() {
    let mut state = state();
    assert_eq!(
        done(state.invoke(Role::App, "terminal.input", "héllo", 0)).as_deref(),
        Some("")
    );
    let actions = state.take_actions();
    let [Action::TerminalInput(bytes)] = actions.as_slice() else {
        panic!("one terminal input expected");
    };
    assert_eq!(bytes, "héllo".as_bytes());
    assert!(done(state.invoke(Role::App, "terminal.connect", "", 0))
        .unwrap()
        .contains("Connecting to LiteOS terminal..."));
}

#[test]
fn scenes_are_painted_once() {
    let mut state = state();
    assert!(!state.scene_is_dirty());
    state.commit_scene(7);
    assert!(state.scene_is_dirty());
    assert_eq!(state.scene_if_dirty(), Some(&7));
    assert_eq!(state.scene_if_dirty(), None);
    state.invalidate_scene();
    assert_eq!(state.scene_if_dirty(), Some(&7));
    state.invalidate_composition();
    assert!(state.composition_is_dirty());
    assert!(state.take_composition_dirty());
    assert!(!state.take_composition_dirty());
    state.set_pending_move_token(3);
    assert_eq!(state.take_pending_move_token(), 3);
    assert_eq!(state.take_pending_move_token(), 0);
    assert!(!state.playback_granted());
    state.grant_media_playback();
    assert!(state.playback_granted());
    state.push_action(Action::Shutdown);
    assert!(matches!(state.take_actions().as_slice(), [Action::Shutdown]));
}

#[test]
fn display_events_are_routed() {
    let mut state = state();
    assert!(matches!(
        apply_event(
            &mut state,
            Event::AppOpened {
                surface_id: 5,
                app_id: "terminal".to_owned()
            }
        ),
        Routed::Opened { surface_id: 5, .. }
    ));
    assert_eq!(state.surfaces().len(), 1);
    assert!(matches!(
        apply_event(
            &mut state,
            Event::MoveComplete {
                surface_id: 5,
                x: -4,
                y: 9,
                move_token: 11
            }
        ),
        Routed::Moved {
            surface_id: 5,
            x: 0,
            y: 9
        }
    ));
    assert_eq!(state.take_pending_move_token(), 11);
    assert_eq!(state.surfaces()[0].bounds.y, 9);
    assert!(matches!(
        apply_event(&mut state, Event::SurfaceActivated { surface_id: 5 }),
        Routed::Activated { surface_id: 5 }
    ));
    let configure = Configure {
        width: 10,
        height: 20,
        serial: 3,
    };
    assert!(matches!(
        apply_event(&mut state, Event::Configure(configure)),
        Routed::Configured(routed) if routed == configure
    ));
    let pointer = InputPointer {
        phase: PointerPhase::Motion,
        x: 1,
        y: 2,
        button: 0,
        buttons: 0,
        serial: 0,
    };
    assert!(matches!(
        apply_event(&mut state, Event::Pointer(pointer)),
        Routed::Pointer(routed) if routed == pointer
    ));
    let scroll = InputScroll {
        x: 1,
        y: 2,
        delta_x: 0,
        delta_y: 120,
    };
    assert!(matches!(
        apply_event(&mut state, Event::Scroll(scroll)),
        Routed::Scroll(routed) if routed == scroll
    ));
    let key = InputKey {
        code: 30,
        value: 1,
        modifiers: 0,
    };
    assert!(matches!(
        apply_event(&mut state, Event::Key(key)),
        Routed::Key(routed) if routed == key
    ));
    assert!(matches!(
        apply_event(
            &mut state,
            Event::ClipboardData {
                request_id: 2,
                text: "x".to_owned()
            }
        ),
        Routed::Clipboard { request_id: 2, .. }
    ));
    assert!(matches!(
        apply_event(&mut state, Event::AppClosed { surface_id: 5 }),
        Routed::Closed { surface_id: 5 }
    ));
    assert!(state.surfaces().is_empty());
    assert!(matches!(
        apply_event(&mut state, Event::FrameDone),
        Routed::Handled
    ));
}

#[test]
fn request_ids_are_fresh_and_streams_are_found() {
    let mut ids = RequestIds::new();
    assert_eq!(ids.next_request_id(), 1);
    assert_eq!(ids.next_request_id(), 2);
    let mut streams = StreamRegistry::new();
    streams.register_stream(4, "/tmp/a".to_owned(), 1u8);
    streams.register_stream(4, "/tmp/b".to_owned(), 2u8);
    assert_eq!(streams.resolve_stream(4), Some(&("/tmp/b".to_owned(), 2)));
    streams.remove_stream(4);
    assert_eq!(streams.resolve_stream(4), None);
}
