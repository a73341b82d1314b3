//! Routing of display events to host policy and script.

use std::collections::HashMap;
use vstd::prelude::*;
use vstd::string::*;
use crate::host::{
    due_ids, initial_bounds, metadata, moved, pending_timers, surface_from, without_surface, State,
    StateView, SurfaceView, Timer,
};
use crate::input::{InputKey, InputPointer};
use crate::rect::Size;

verus! {

broadcast use vstd::std_specs::hash::group_hash_axioms;

/// A wheel event.
#[derive(Clone, Copy, Debug, PartialEq, Eq, Structural)]
pub struct InputScroll {
    pub x: i32,
    pub y: i32,
    pub delta_x: i32,
    pub delta_y: i32,
}

/// A new size for an app.
#[derive(Clone, Copy, Debug, PartialEq, Eq, Structural)]
pub struct Configure {
    pub width: u32,
    pub height: u32,
    pub serial: u64,
}

/// One exact role-checked event consumed by the event loop.
pub enum Event {
    /// An app published a top-level surface.
    AppOpened { surface_id: u32, app_id: String },
    /// An app removed its top-level surface.
    AppClosed { surface_id: u32 },
    /// A pointer-down hit a foreign surface; the desktop should raise it.
    SurfaceActivated { surface_id: u32 },
    /// A compositor-side move ended at one canonical logical position. The
    /// token is echoed in the scene commit that applies this move, so that the
    /// compositor retires the grab.
    MoveComplete { surface_id: u32, x: i32, y: i32, move_token: u64 },
    /// App pixels for one desktop configure are ready.
    ConfigureReady { surface_id: u32, serial: u64 },
    /// The desktop selected a new app client size.
    Configure(Configure),
    /// The compositor selected a new physical viewport for the desktop.
    OutputConfigure(Size),
    /// The desktop requested app termination.
    Close,
    /// Pointer input routed against the presented scene.
    Pointer(InputPointer),
    /// Wheel scroll routed against the presented scene.
    Scroll(InputScroll),
    /// Keyboard input routed to the presented focused surface.
    Key(InputKey),
    /// Result of one exact plain-text clipboard request.
    ClipboardData { request_id: u64, text: String },
    /// A submit or buffer-release acknowledgement advanced the pipeline.
    FrameDone,
    /// The page flip for this document's latest frame completed.
    Presented { monotonic_ns: u64 },
}

/// What the event loop does with an event after the host has seen it.
pub enum Routed {
    /// Tell script on the desktop channel that a surface opened.
    Opened { surface_id: u32, app_id: String },
    /// Tell script on the desktop channel that a surface closed.
    Closed { surface_id: u32 },
    /// Tell script on the desktop channel that a surface was activated.
    Activated { surface_id: u32 },
    /// Tell script on the desktop channel that a surface was moved.
    Moved { surface_id: u32, x: u32, y: u32 },
    /// Tell script on the display channel about a new size.
    Configured(Configure),
    /// Dispatch a pointer event.
    Pointer(InputPointer),
    /// Dispatch a wheel event.
    Scroll(InputScroll),
    /// Dispatch a key event.
    Key(InputKey),
    /// Offer clipboard data to the focused field, then to script.
    Clipboard { request_id: u64, text: String },
    /// Nothing more.
    Handled,
}

/// A coordinate from a race outside the screen is moved to its edge.
pub open spec fn onto_screen(value: i32) -> u32 {
    if value < 0 {
        0
    } else {
        value as u32
    }
}

/// The host state after an event.
pub open spec fn after_event<S>(s: StateView<S>, event: Event) -> StateView<S> {
    match event {
        Event::AppOpened { surface_id, app_id } => StateView {
            surfaces: s.surfaces.push(
                SurfaceView {
                    id: surface_id,
                    app_id: app_id@,
                    title: metadata(app_id@).0,
                    icon: metadata(app_id@).1,
                    bounds: initial_bounds(app_id@, s.surfaces.len() as int),
                    configure: None,
                },
            ),
            ..s
        },
        Event::AppClosed { surface_id } => StateView {
            surfaces: without_surface(s.surfaces, surface_id, s.surfaces.len() as int),
            focused_surface: if s.focused_surface == surface_id {
                0
            } else {
                s.focused_surface
            },
            ..s
        },
        Event::MoveComplete { surface_id, x, y, move_token } => StateView {
            surfaces: match surface_from(s.surfaces, surface_id, 0) {
                Some(i) => s.surfaces.update(
                    i,
                    moved(s.surfaces[i], onto_screen(x), onto_screen(y)),
                ),
                None => s.surfaces,
            },
            pending_move_token: move_token,
            ..s
        },
        Event::ConfigureReady { .. } => StateView { composition_dirty: true, ..s },
        Event::Key(key) => if key.value != 0 {
            StateView { playback_granted: true, ..s }
        } else {
            s
        },
        _ => s,
    }
}

/// What follows from an event.
pub open spec fn follows(event: Event, routed: Routed) -> bool {
    match event {
        Event::AppOpened { surface_id, app_id } => routed matches Routed::Opened {
            surface_id: id,
            app_id: name,
        } && id == surface_id && name@ == app_id@,
        Event::AppClosed { surface_id } => routed == Routed::Closed { surface_id },
        Event::SurfaceActivated { surface_id } => routed == Routed::Activated { surface_id },
        Event::MoveComplete { surface_id, x, y, .. } => routed == Routed::Moved {
            surface_id,
            x: onto_screen(x),
            y: onto_screen(y),
        },
        Event::Configure(configure) => routed == Routed::Configured(configure),
        Event::Pointer(pointer) => routed == Routed::Pointer(pointer),
        Event::Scroll(scroll) => routed == Routed::Scroll(scroll),
        Event::Key(key) => routed == Routed::Key(key),
        Event::ClipboardData { request_id, text } => routed matches Routed::Clipboard {
            request_id: id,
            text: data,
        } && id == request_id && data@ == text@,
        Event::ConfigureReady { .. } => routed is Handled,
        Event::OutputConfigure(_) => routed is Handled,
        Event::FrameDone => routed is Handled,
        Event::Presented { .. } => routed is Handled,
        Event::Close => false,
    }
}

fn clamp_low(value: i32) -> (result: u32)
    ensures
        result == onto_screen(value),
{
    if value < 0 {
        0
    } else {
        value as u32
    }
}

/// Applies one event to the host and tells what follows from it. The close
/// event ends the session before it gets here.
pub fn apply_event<S>(state: &mut State<S>, event: Event) -> (result: Routed)
    requires
        !(event is Close),
        event is AppOpened ==> 260 + old(state)@.surfaces.len() * 28 <= u32::MAX,
    ensures
        final(state)@ == after_event(old(state)@, event),
        follows(event, result),
{
    match event {
        Event::AppOpened { surface_id, app_id } => {
            let name = app_id.clone();
            state.open_surface(surface_id, name);
            Routed::Opened { surface_id, app_id }
        },
        Event::AppClosed { surface_id } => {
            state.close_surface(surface_id);
            Routed::Closed { surface_id }
        },
        Event::SurfaceActivated { surface_id } => Routed::Activated { surface_id },
        Event::MoveComplete { surface_id, x, y, move_token } => {
            let x: u32 = clamp_low(x);
            let y: u32 = clamp_low(y);
            state.move_surface(surface_id, x, y);
            state.set_pending_move_token(move_token);
            Routed::Moved { surface_id, x, y }
        },
        Event::ConfigureReady { .. } => {
            state.invalidate_composition();
            Routed::Handled
        },
        Event::Configure(configure) => Routed::Configured(configure),
        Event::OutputConfigure(_) => Routed::Handled,
        Event::Pointer(pointer) => Routed::Pointer(pointer),
        Event::Scroll(scroll) => Routed::Scroll(scroll),
        Event::Key(key) => {
            if key.value != 0 {
                state.grant_media_playback();
            }
            Routed::Key(key)
        },
        Event::ClipboardData { request_id, text } => Routed::Clipboard { request_id, text },
        Event::FrameDone => Routed::Handled,
        Event::Presented { .. } => Routed::Handled,
        Event::Close => Routed::Handled,
    }
}

proof fn removed_surfaces(surfaces: Seq<SurfaceView>, id: u32, n: int)
    requires
        0 <= n <= surfaces.len(),
    ensures
        forall|i: int|
            0 <= i < without_surface(surfaces, id, n).len() ==> (#[trigger] without_surface(
                surfaces,
                id,
                n,
            )[i]).id != id,
    decreases n,
{
    if n > 0 {
        removed_surfaces(surfaces, id, n - 1);
    }
}

/// After a surface closed, none with its id is left, and keys do not go to it:
/// the focus is another surface or the desktop.
pub proof fn closed_surface_is_gone<S>(s: StateView<S>, surface_id: u32)
    ensures
        ({
            let after = after_event(s, Event::AppClosed { surface_id });
            &&& forall|i: int|
                0 <= i < after.surfaces.len() ==> (#[trigger] after.surfaces[i]).id != surface_id
            &&& after.focused_surface != surface_id || after.focused_surface == 0
        }),
{
    removed_surfaces(s.surfaces, surface_id, s.surfaces.len() as int);
}

proof fn timers_split(timers: Seq<Timer>, now: int, n: int)
    requires
        0 <= n <= timers.len(),
    ensures
        due_ids(timers, now, n).len() + pending_timers(timers, now, n).len() == n,
        forall|i: int|
            0 <= i < pending_timers(timers, now, n).len() ==> (#[trigger] pending_timers(
                timers,
                now,
                n,
            )[i]).due > now,
    decreases n,
{
    if n > 0 {
        timers_split(timers, now, n - 1);
    }
}

/// Taking expired timers loses none: each one is either handed out or kept,
/// and those kept are not due yet.
pub proof fn every_timer_fires_or_waits(timers: Seq<Timer>, now: int)
    ensures
        due_ids(timers, now, timers.len() as int).len() + pending_timers(
            timers,
            now,
            timers.len() as int,
        ).len() == timers.len(),
        due_ids(
            pending_timers(timers, now, timers.len() as int),
            now,
            pending_timers(timers, now, timers.len() as int).len() as int,
        ).len() == 0,
{
    timers_split(timers, now, timers.len() as int);
    let kept = pending_timers(timers, now, timers.len() as int);
    none_due(kept, now, kept.len() as int);
}

proof fn none_due(timers: Seq<Timer>, now: int, n: int)
    requires
        0 <= n <= timers.len(),
        forall|i: int| 0 <= i < timers.len() ==> (#[trigger] timers[i]).due > now,
    ensures
        due_ids(timers, now, n).len() == 0,
    decreases n,
{
    if n > 0 {
        none_due(timers, now, n - 1);
    }
}

/// A request id counter: ids go up by one and never become zero.
pub struct RequestIds {
    next: u64,
}

impl RequestIds {
    /// The id handed out next.
    pub closed spec fn next(self) -> u64 {
        self.next
    }

    /// Starts at one.
    pub fn new() -> (result: Self)
        ensures
            result.next() == 1,
    {
        RequestIds { next: 1 }
    }

    /// Allocates a fresh request id.
    pub fn next_request_id(&mut self) -> (result: u64)
        ensures
            result == old(self).next(),
            final(self).next() == (if old(self).next() == u64::MAX {
                1
            } else {
                (old(self).next() + 1) as u64
            }),
    {
        let id: u64 = self.next;
        self.next = if id == 0xffff_ffff_ffff_ffff {
            1
        } else {
            id + 1
        };
        id
    }
}

/// Downloads that play while they grow: the path of each temporary file and its
/// shared state, by handle.
pub struct StreamRegistry<S> {
    streams: HashMap<u64, (String, S)>,
}

impl<S> StreamRegistry<S> {
    /// The registered streams.
    pub closed spec fn registered(self) -> Map<u64, (String, S)> {
        self.streams@
    }

    /// No stream is registered.
    pub fn new() -> (result: Self)
        ensures
            result.registered() == Map::<u64, (String, S)>::empty(),
    {
        StreamRegistry { streams: HashMap::new() }
    }

    /// Registers a stream; it takes the place of an earlier one of the same id.
    pub fn register_stream(&mut self, id: u64, path: String, state: S)
        ensures
            final(self).registered() == old(self).registered().insert(id, (path, state)),
    {
        self.streams.insert(id, (path, state));
    }

    /// Drops a stream, if it is registered.
    pub fn remove_stream(&mut self, id: u64)
        ensures
            final(self).registered() == old(self).registered().remove(id),
    {
        self.streams.remove(&id);
    }

    /// The file and the state of a stream.
    pub fn resolve_stream(&self, id: u64) -> (result: Option<&(String, S)>)
        ensures
            match result {
                Some(stream) => self.registered().contains_key(id) && *stream
                    == self.registered()[id],
                None => !self.registered().contains_key(id),
            },
    {
        self.streams.get(&id)
    }
}

} // verus!
