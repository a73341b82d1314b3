//! Native operations exposed to the script bundle.
//!
//! [`State`] is the policy state shared with the event loop; `invoke` decides
//! each operation on it. What an operation needs from outside the process is
//! named by a `Service` for the event loop to perform.

pub mod events;
pub mod filesystem;
pub mod operations;
pub mod path;

use vstd::prelude::*;
use vstd::string::*;
use crate::rect::Size;
use crate::text::{fields, same, views};

verus! {

/// Physical pixels per logical pixel on each axis.
pub const DEVICE_SCALE_FACTOR: u64 = 2;

/// Which operations a session may use.
#[derive(Clone, Copy, Debug, PartialEq, Eq, Structural)]
pub enum Role {
    Desktop,
    App,
}

/// Window bounds in logical pixels.
#[derive(Clone, Copy, Debug, PartialEq, Eq, Structural)]
pub struct Bounds {
    pub x: u32,
    pub y: u32,
    pub width: u32,
    pub height: u32,
}

/// The size last configured for a surface and its serial.
#[derive(Clone, Copy, Debug, PartialEq, Eq, Structural)]
pub struct Configured {
    pub width: u32,
    pub height: u32,
    pub serial: u64,
}

/// A live app surface.
pub struct Surface {
    pub id: u32,
    pub app_id: String,
    pub title: String,
    pub icon: String,
    pub bounds: Bounds,
    pub configure: Option<Configured>,
}

/// What a [`Surface`] holds.
pub struct SurfaceView {
    pub id: u32,
    pub app_id: Seq<char>,
    pub title: Seq<char>,
    pub icon: Seq<char>,
    pub bounds: Bounds,
    pub configure: Option<Configured>,
}

impl View for Surface {
    type V = SurfaceView;

    open spec fn view(&self) -> SurfaceView {
        SurfaceView {
            id: self.id,
            app_id: self.app_id@,
            title: self.title@,
            icon: self.icon@,
            bounds: self.bounds,
            configure: self.configure,
        }
    }
}

/// A global shortcut: modifier mask and key code.
#[derive(Clone, Copy, Debug, PartialEq, Eq, Structural)]
pub struct AcceleratorChord {
    pub modifiers: u32,
    pub code: u32,
}

/// One side effect requested by script and executed after its turn.
pub enum Action {
    /// Launch one checked application registry id.
    Launch(String),
    /// Route a desktop-owned app configure.
    Configure { surface_id: u32, serial: u64, width: u32, height: u32 },
    /// Route an unconditional app close.
    Close(u32),
    /// Authorize one compositor-side move from an exact pointer-down serial.
    BeginMove { surface_id: u32, serial: u64, min_x: i32, min_y: i32, max_x: i32, max_y: i32 },
    /// Atomically replace the compositor's global accelerator table.
    SetAccelerators(Vec<AcceleratorChord>),
    /// Request system shutdown.
    Shutdown,
    /// Send bytes to the terminal helper.
    TerminalInput(Vec<u8>),
    /// Request one asynchronous clipboard read.
    ClipboardRead(u64),
    /// Publish complete text through the clipboard.
    ClipboardWrite(String),
    /// Paste complete text into the terminal.
    TerminalPaste(String),
}

/// What an [`Action`] holds.
pub enum ActionView {
    Launch(Seq<char>),
    Configure { surface_id: u32, serial: u64, width: u32, height: u32 },
    Close(u32),
    BeginMove { surface_id: u32, serial: u64, min_x: i32, min_y: i32, max_x: i32, max_y: i32 },
    SetAccelerators(Seq<AcceleratorChord>),
    Shutdown,
    TerminalInput(Seq<u8>),
    ClipboardRead(u64),
    ClipboardWrite(Seq<char>),
    TerminalPaste(Seq<char>),
}

impl View for Action {
    type V = ActionView;

    open spec fn view(&self) -> ActionView {
        match *self {
            Action::Launch(id) => ActionView::Launch(id@),
            Action::Configure { surface_id, serial, width, height } => ActionView::Configure {
                surface_id,
                serial,
                width,
                height,
            },
            Action::Close(id) => ActionView::Close(id),
            Action::BeginMove { surface_id, serial, min_x, min_y, max_x, max_y } => {
                ActionView::BeginMove { surface_id, serial, min_x, min_y, max_x, max_y }
            },
            Action::SetAccelerators(chords) => ActionView::SetAccelerators(chords@),
            Action::Shutdown => ActionView::Shutdown,
            Action::TerminalInput(bytes) => ActionView::TerminalInput(bytes@),
            Action::ClipboardRead(id) => ActionView::ClipboardRead(id),
            Action::ClipboardWrite(text) => ActionView::ClipboardWrite(text@),
            Action::TerminalPaste(text) => ActionView::TerminalPaste(text@),
        }
    }
}

/// The views of a list of actions.
pub open spec fn action_views(actions: Seq<Action>) -> Seq<ActionView> {
    Seq::new(actions.len(), |i: int| actions[i]@)
}

/// The views of a list of surfaces.
pub open spec fn surface_views(surfaces: Seq<Surface>) -> Seq<SurfaceView> {
    Seq::new(surfaces.len(), |i: int| surfaces[i]@)
}

/// A script timer: its id and the time it is due, in nanoseconds.
#[derive(Clone, Copy, Debug, PartialEq, Eq, Structural)]
pub struct Timer {
    pub id: u64,
    pub due: u128,
}

/// Latest-only scene and deferred native actions shared with the event loop.
/// `S` is a parsed scene.
pub struct State<S> {
    scene: Option<S>,
    scene_dirty: bool,
    composition_dirty: bool,
    actions: Vec<Action>,
    surfaces: Vec<Surface>,
    next_configure: u64,
    focused_surface: u32,
    pending_move_token: u64,
    timers: Vec<Timer>,
    playback_granted: bool,
    viewport: Size,
}

/// What a [`State`] holds.
pub struct StateView<S> {
    pub scene: Option<S>,
    pub scene_dirty: bool,
    pub composition_dirty: bool,
    pub actions: Seq<ActionView>,
    pub surfaces: Seq<SurfaceView>,
    pub next_configure: u64,
    pub focused_surface: u32,
    pub pending_move_token: u64,
    pub timers: Seq<Timer>,
    pub playback_granted: bool,
    pub viewport: Size,
}

impl<S> View for State<S> {
    type V = StateView<S>;

    closed spec fn view(&self) -> StateView<S> {
        StateView {
            scene: self.scene,
            scene_dirty: self.scene_dirty,
            composition_dirty: self.composition_dirty,
            actions: action_views(self.actions@),
            surfaces: surface_views(self.surfaces@),
            next_configure: self.next_configure,
            focused_surface: self.focused_surface,
            pending_move_token: self.pending_move_token,
            timers: self.timers@,
            playback_granted: self.playback_granted,
            viewport: self.viewport,
        }
    }
}

/// Title and icon of a window by its app id.
pub open spec fn metadata(id: Seq<char>) -> (Seq<char>, Seq<char>) {
    if id == "terminal"@ {
        ("Terminal"@, "assets/terminal.png"@)
    } else if id == "my-computer"@ {
        ("Computer"@, "assets/package.png"@)
    } else if id == "file-manager"@ {
        ("Files"@, "assets/files.png"@)
    } else if id == "music-player"@ {
        ("Music"@, "assets/music.png"@)
    } else {
        ("Application"@, "assets/terminal.png"@)
    }
}

/// The window title and chrome icon for a known app id, with a fallback for
/// unknown ones.
pub fn app_metadata(id: &str) -> (result: (&'static str, &'static str))
    ensures
        (result.0@, result.1@) == metadata(id@),
{
    if same(id, "terminal") {
        ("Terminal", "assets/terminal.png")
    } else if same(id, "my-computer") {
        ("Computer", "assets/package.png")
    } else if same(id, "file-manager") {
        ("Files", "assets/files.png")
    } else if same(id, "music-player") {
        ("Music", "assets/music.png")
    } else {
        ("Application", "assets/terminal.png")
    }
}

/// Where a new window opens when `index` surfaces are live.
pub open spec fn initial_bounds(app_id: Seq<char>, index: int) -> Bounds {
    if app_id == "file-manager"@ {
        Bounds { x: 76, y: 124, width: 834, height: 540 }
    } else if app_id == "terminal"@ {
        Bounds { x: 958, y: 414, width: 460, height: 250 }
    } else if app_id == "music-player"@ || app_id == "my-computer"@ {
        Bounds {
            x: (180 + index % 4 * 28) as u32,
            y: (58 + index % 4 * 24) as u32,
            width: 900,
            height: 620,
        }
    } else {
        Bounds {
            x: (260 + index * 28) as u32,
            y: (150 + index * 24) as u32,
            width: 720,
            height: 480,
        }
    }
}

fn open_bounds(app_id: &str, index: u32) -> (result: Bounds)
    requires
        260 + index * 28 <= u32::MAX,
    ensures
        result == initial_bounds(app_id@, index as int),
{
    if same(app_id, "file-manager") {
        Bounds { x: 76, y: 124, width: 834, height: 540 }
    } else if same(app_id, "terminal") {
        Bounds { x: 958, y: 414, width: 460, height: 250 }
    } else if same(app_id, "music-player") || same(app_id, "my-computer") {
        let slot: u32 = index % 4;
        Bounds { x: 180 + slot * 28, y: 58 + slot * 24, width: 900, height: 620 }
    } else {
        Bounds { x: 260 + index * 28, y: 150 + index * 24, width: 720, height: 480 }
    }
}

/// The first surface with an id, from `from` on.
pub open spec fn surface_from(surfaces: Seq<SurfaceView>, id: u32, from: int) -> Option<int>
    decreases surfaces.len() - from,
{
    if from < 0 || from >= surfaces.len() {
        None
    } else if surfaces[from].id == id {
        Some(from)
    } else {
        surface_from(surfaces, id, from + 1)
    }
}

/// The first `n` surfaces without those of an id.
pub open spec fn without_surface(surfaces: Seq<SurfaceView>, id: u32, n: int) -> Seq<SurfaceView>
    decreases n,
{
    if n <= 0 {
        Seq::empty()
    } else if surfaces[n - 1].id == id {
        without_surface(surfaces, id, n - 1)
    } else {
        without_surface(surfaces, id, n - 1).push(surfaces[n - 1])
    }
}

/// The ids of the due timers among the first `n`.
pub open spec fn due_ids(timers: Seq<Timer>, now: int, n: int) -> Seq<u64>
    decreases n,
{
    if n <= 0 {
        Seq::empty()
    } else if timers[n - 1].due <= now {
        due_ids(timers, now, n - 1).push(timers[n - 1].id)
    } else {
        due_ids(timers, now, n - 1)
    }
}

/// The timers that are not due among the first `n`.
pub open spec fn pending_timers(timers: Seq<Timer>, now: int, n: int) -> Seq<Timer>
    decreases n,
{
    if n <= 0 {
        Seq::empty()
    } else if timers[n - 1].due <= now {
        pending_timers(timers, now, n - 1)
    } else {
        pending_timers(timers, now, n - 1).push(timers[n - 1])
    }
}

/// The first `n` timers without those of an id.
pub open spec fn without_timer(timers: Seq<Timer>, id: u64, n: int) -> Seq<Timer>
    decreases n,
{
    if n <= 0 {
        Seq::empty()
    } else if timers[n - 1].id == id {
        without_timer(timers, id, n - 1)
    } else {
        without_timer(timers, id, n - 1).push(timers[n - 1])
    }
}

/// How long until a timer is due.
pub open spec fn wait(timer: Timer, now: int) -> int {
    if timer.due > now {
        timer.due - now
    } else {
        0
    }
}

/// A window that was moved.
pub open spec fn moved(surface: SurfaceView, x: u32, y: u32) -> SurfaceView {
    SurfaceView { bounds: Bounds { x, y, ..surface.bounds }, ..surface }
}

impl<S> State<S> {
    /// A state without scene, surfaces, timers or actions.
    pub fn new(viewport: Size) -> (result: Self)
        ensures
            result@ == (StateView::<S> {
                scene: None,
                scene_dirty: false,
                composition_dirty: false,
                actions: Seq::empty(),
                surfaces: Seq::empty(),
                next_configure: 1,
                focused_surface: 0,
                pending_move_token: 0,
                timers: Seq::empty(),
                playback_granted: false,
                viewport,
            }),
    {
        let state = State {
            scene: None,
            scene_dirty: false,
            composition_dirty: false,
            actions: Vec::new(),
            surfaces: Vec::new(),
            next_configure: 1,
            focused_surface: 0,
            pending_move_token: 0,
            timers: Vec::new(),
            playback_granted: false,
            viewport,
        };
        assert(state@.actions =~= Seq::<ActionView>::empty());
        assert(state@.surfaces =~= Seq::<SurfaceView>::empty());
        assert(state@.timers =~= Seq::<Timer>::empty());
        state
    }

    /// Whether the latest scene still needs one raster pass.
    pub fn scene_is_dirty(&self) -> (result: bool)
        ensures
            result == self@.scene_dirty,
    {
        self.scene_dirty
    }

    /// Whether unchanged desktop pixels need a fresh foreign-surface latch.
    pub fn composition_is_dirty(&self) -> (result: bool)
        ensures
            result == self@.composition_dirty,
    {
        self.composition_dirty
    }

    /// Consumes one pending foreign-surface-only scene latch.
    pub fn take_composition_dirty(&mut self) -> (result: bool)
        ensures
            result == old(self)@.composition_dirty,
            final(self)@ == (StateView { composition_dirty: false, ..old(self)@ }),
    {
        let was = self.composition_dirty;
        self.composition_dirty = false;
        was
    }

    /// Requests a new scene latch without invalidating desktop pixels.
    pub fn invalidate_composition(&mut self)
        ensures
            final(self)@ == (StateView { composition_dirty: true, ..old(self)@ }),
    {
        self.composition_dirty = true;
    }

    /// Hands out the retained scene when it still needs rendering. The scene
    /// stays owned, so that a reconfigure can render it again.
    pub fn scene_if_dirty(&mut self) -> (result: Option<&S>)
        ensures
            final(self)@ == (StateView { scene_dirty: false, ..old(self)@ }),
            match result {
                Some(scene) => old(self)@.scene_dirty && old(self)@.scene == Some(*scene),
                None => !old(self)@.scene_dirty || old(self)@.scene is None,
            },
    {
        if !self.scene_dirty {
            return None;
        }
        self.scene_dirty = false;
        self.scene.as_ref()
    }

    /// Forces the retained scene to render once more.
    pub fn invalidate_scene(&mut self)
        ensures
            final(self)@ == (StateView { scene_dirty: true, ..old(self)@ }),
    {
        self.scene_dirty = true;
    }

    /// Replaces the scene by a newly parsed one.
    pub fn commit_scene(&mut self, scene: S)
        ensures
            final(self)@ == (StateView {
                scene: Some(scene),
                scene_dirty: true,
                composition_dirty: false,
                ..old(self)@
            }),
    {
        self.scene = Some(scene);
        self.scene_dirty = true;
        self.composition_dirty = false;
    }

    /// Takes all actions produced by the completed script turn.
    pub fn take_actions(&mut self) -> (result: Vec<Action>)
        ensures
            action_views(result@) == old(self)@.actions,
            final(self)@ == (StateView { actions: Seq::empty(), ..old(self)@ }),
    {
        let mut taken: Vec<Action> = Vec::new();
        taken.append(&mut self.actions);
        assert(action_views(taken@) =~= old(self)@.actions);
        assert(self@.actions =~= Seq::<ActionView>::empty());
        taken
    }

    /// Queues one action.
    pub fn push_action(&mut self, action: Action)
        ensures
            final(self)@ == (StateView { actions: old(self)@.actions.push(action@), ..old(self)@ }),
    {
        self.actions.push(action);
        assert(self@.actions =~= old(self)@.actions.push(action@));
    }

    /// Takes every timer whose time has come, in the order they were set.
    pub fn take_expired_timers(&mut self, now: u64) -> (result: Vec<u64>)
        ensures
            result@ == due_ids(old(self)@.timers, now as int, old(self)@.timers.len() as int),
            final(self)@ == (StateView {
                timers: pending_timers(
                    old(self)@.timers,
                    now as int,
                    old(self)@.timers.len() as int,
                ),
                ..old(self)@
            }),
    {
        let mut expired: Vec<u64> = Vec::new();
        let mut kept: Vec<Timer> = Vec::new();
        let mut i: usize = 0;
        while i < self.timers.len()
            invariant
                i <= self.timers@.len(),
                *self == *old(self),
                expired@ == due_ids(self.timers@, now as int, i as int),
                kept@ == pending_timers(self.timers@, now as int, i as int),
            decreases self.timers@.len() - i,
        {
            let timer = self.timers[i];
            if timer.due <= now as u128 {
                expired.push(timer.id);
            } else {
                kept.push(timer);
            }
            i = i + 1;
        }
        self.timers = kept;
        expired
    }

    /// How long the event loop may park until the next timer is due.
    pub fn next_timer_delay(&self, now: u64) -> (result: Option<u128>)
        ensures
            match result {
                None => self@.timers.len() == 0,
                Some(delay) => {
                    &&& exists|i: int|
                        0 <= i < self@.timers.len() && delay == wait(
                            #[trigger] self@.timers[i],
                            now as int,
                        )
                    &&& forall|i: int|
                        0 <= i < self@.timers.len() ==> delay <= wait(
                            #[trigger] self@.timers[i],
                            now as int,
                        )
                },
            },
    {
        let mut best: Option<u128> = None;
        let mut i: usize = 0;
        while i < self.timers.len()
            invariant
                i <= self@.timers.len(),
                match best {
                    None => i == 0,
                    Some(delay) => {
                        &&& exists|k: int|
                            0 <= k < i && delay == wait(#[trigger] self@.timers[k], now as int)
                        &&& forall|k: int|
                            0 <= k < i ==> delay <= wait(#[trigger] self@.timers[k], now as int)
                    },
                },
            decreases self@.timers.len() - i,
        {
            let due: u128 = self.timers[i].due;
            let delay: u128 = if due > now as u128 {
                due - now as u128
            } else {
                0
            };
            assert(delay == wait(self@.timers[i as int], now as int));
            best = match best {
                None => Some(delay),
                Some(shortest) => if delay < shortest {
                    Some(delay)
                } else {
                    Some(shortest)
                },
            };
            i = i + 1;
        }
        best
    }

    /// The surface that keys go to.
    pub fn focused_surface(&self) -> (result: u32)
        ensures
            result == self@.focused_surface,
    {
        self.focused_surface
    }

    /// Records the grab token of a completed move, to be echoed once in the
    /// next scene commit.
    pub fn set_pending_move_token(&mut self, token: u64)
        ensures
            final(self)@ == (StateView { pending_move_token: token, ..old(self)@ }),
    {
        self.pending_move_token = token;
    }

    /// Takes the pending grab token, so that exactly one commit carries it.
    pub fn take_pending_move_token(&mut self) -> (result: u64)
        ensures
            result == old(self)@.pending_move_token,
            final(self)@ == (StateView { pending_move_token: 0, ..old(self)@ }),
    {
        let token: u64 = self.pending_move_token;
        self.pending_move_token = 0;
        token
    }

    /// Records one physical input activation.
    pub fn grant_media_playback(&mut self)
        ensures
            final(self)@ == (StateView { playback_granted: true, ..old(self)@ }),
    {
        self.playback_granted = true;
    }

    /// Whether audible playback was granted.
    pub fn playback_granted(&self) -> (result: bool)
        ensures
            result == self@.playback_granted,
    {
        self.playback_granted
    }

    /// Updates the logical viewport that script sees.
    pub fn set_viewport(&mut self, viewport: Size)
        ensures
            final(self)@ == (StateView { viewport, ..old(self)@ }),
    {
        self.viewport = viewport;
    }

    /// The live surfaces.
    pub fn surfaces(&self) -> (result: &Vec<Surface>)
        ensures
            surface_views(result@) == self@.surfaces,
    {
        &self.surfaces
    }

    fn find_surface(&self, id: u32) -> (result: Option<usize>)
        ensures
            match result {
                Some(i) => i < self@.surfaces.len() && surface_from(self@.surfaces, id, 0) == Some(
                    i as int,
                ),
                None => surface_from(self@.surfaces, id, 0) is None,
            },
    {
        let mut i: usize = 0;
        while i < self.surfaces.len()
            invariant
                i <= self.surfaces@.len(),
                surface_from(self@.surfaces, id, 0) == surface_from(self@.surfaces, id, i as int),
            decreases self.surfaces@.len() - i,
        {
            assert(self@.surfaces[i as int].id == self.surfaces@[i as int].id);
            if self.surfaces[i].id == id {
                return Some(i);
            }
            i = i + 1;
        }
        None
    }

    /// Adds one published app surface. Focus and stacking order are script's;
    /// this registry is existence and metadata alone. The window cascades off
    /// the number of live surfaces, so that opening and closing does not walk
    /// new windows off the screen.
    pub fn open_surface(&mut self, id: u32, app_id: String)
        requires
            260 + old(self)@.surfaces.len() * 28 <= u32::MAX,
        ensures
            final(self)@ == (StateView {
                surfaces: old(self)@.surfaces.push(
                    SurfaceView {
                        id,
                        app_id: app_id@,
                        title: metadata(app_id@).0,
                        icon: metadata(app_id@).1,
                        bounds: initial_bounds(app_id@, old(self)@.surfaces.len() as int),
                        configure: None,
                    },
                ),
                ..old(self)@
            }),
    {
        let index: u32 = self.surfaces.len() as u32;
        let (title, icon) = app_metadata(app_id.as_str());
        let bounds = open_bounds(app_id.as_str(), index);
        let surface = Surface {
            id,
            app_id,
            title: title.to_owned(),
            icon: icon.to_owned(),
            bounds,
            configure: None,
        };
        self.surfaces.push(surface);
        assert(self@.surfaces =~= old(self)@.surfaces.push(surface@));
    }

    /// Removes one disconnected app surface. Closing the focused one hands the
    /// keyboard to the desktop, so that no key goes to a dead surface.
    pub fn close_surface(&mut self, id: u32)
        ensures
            final(self)@ == (StateView {
                surfaces: without_surface(
                    old(self)@.surfaces,
                    id,
                    old(self)@.surfaces.len() as int,
                ),
                focused_surface: if old(self)@.focused_surface == id {
                    0
                } else {
                    old(self)@.focused_surface
                },
                ..old(self)@
            }),
    {
        let mut rest: Vec<Surface> = Vec::new();
        let ghost all = self@.surfaces;
        let mut left: Vec<Surface> = Vec::new();
        left.append(&mut self.surfaces);
        assert(surface_views(left@) =~= all);
        let mut kept: Vec<Surface> = Vec::new();
        assert(without_surface(all, id, 0) =~= Seq::<SurfaceView>::empty());
        while left.len() > 0
            invariant
                surface_views(left@) == all.take(left@.len() as int),
                left@.len() <= all.len(),
                without_surface(all, id, all.len() as int) == without_surface(
                    all,
                    id,
                    left@.len() as int,
                ) + surface_views(kept@).reverse(),
            decreases left@.len(),
        {
            let ghost at = left@.len() - 1;
            let ghost before = surface_views(kept@);
            let ghost listed = surface_views(left@);
            assert(listed[at] == all[at]);
            let last = left.pop();
            assert(surface_views(left@) =~= all.take(at));
            if let Some(surface) = last {
                assert(surface@ == all[at]);
                if surface.id != id {
                    kept.push(surface);
                    assert(surface_views(kept@) =~= before.push(surface@));
                    assert(without_surface(all, id, at).push(surface@) + before.reverse()
                        =~= without_surface(all, id, at) + before.push(surface@).reverse());
                }
            }
        }
        let ghost stack = surface_views(kept@);
        assert(without_surface(all, id, all.len() as int) =~= stack.reverse());
        assert(surface_views(rest@) =~= Seq::<SurfaceView>::empty());
        assert(surface_views(rest@) + stack.reverse() =~= stack.reverse());
        while kept.len() > 0
            invariant
                surface_views(rest@) + surface_views(kept@).reverse() == stack.reverse(),
            decreases kept@.len(),
        {
            let ghost done = surface_views(rest@);
            let ghost todo = surface_views(kept@);
            let last = kept.pop();
            if let Some(surface) = last {
                assert(todo.last() == surface@);
                assert(surface_views(kept@) =~= todo.drop_last());
                rest.push(surface);
                assert(surface_views(rest@) =~= done.push(surface@));
                assert(done.push(surface@) + todo.drop_last().reverse() =~= done + todo.reverse());
            }
        }
        assert(surface_views(rest@) =~= stack.reverse());
        self.surfaces = rest;
        if self.focused_surface == id {
            self.focused_surface = 0;
        }
    }

    /// Moves a window. A window whose app has just disconnected may still be
    /// named; that is a recoverable race, and nothing moves.
    pub fn move_surface(&mut self, id: u32, x: u32, y: u32)
        ensures
            final(self)@ == (StateView {
                surfaces: match surface_from(old(self)@.surfaces, id, 0) {
                    Some(i) => old(self)@.surfaces.update(i, moved(old(self)@.surfaces[i], x, y)),
                    None => old(self)@.surfaces,
                },
                ..old(self)@
            }),
    {
        if let Some(i) = self.find_surface(id) {
            let old_bounds = self.surfaces[i].bounds;
            self.surfaces[i].bounds = Bounds {
                x,
                y,
                width: old_bounds.width,
                height: old_bounds.height,
            };
            assert(self@.surfaces =~= old(self)@.surfaces.update(
                i as int,
                moved(old(self)@.surfaces[i as int], x, y),
            ));
        }
    }

    fn set_timer(&mut self, id: u64, due: u128)
        ensures
            final(self)@ == (StateView {
                timers: old(self)@.timers.push(Timer { id, due }),
                ..old(self)@
            }),
    {
        self.timers.push(Timer { id, due });
    }

    fn clear_timer(&mut self, id: u64)
        ensures
            final(self)@ == (StateView {
                timers: without_timer(old(self)@.timers, id, old(self)@.timers.len() as int),
                ..old(self)@
            }),
    {
        let mut kept: Vec<Timer> = Vec::new();
        let mut i: usize = 0;
        while i < self.timers.len()
            invariant
                i <= self.timers@.len(),
                *self == *old(self),
                kept@ == without_timer(self.timers@, id, i as int),
            decreases self.timers@.len() - i,
        {
            let timer = self.timers[i];
            if timer.id != id {
                kept.push(timer);
            }
            i = i + 1;
        }
        self.timers = kept;
    }

    /// Queues one atomic accelerator-table replacement. The list is the
    /// complete shortcut set; one longer than `limit` is refused here, so that
    /// its deferred encoding cannot fail on length.
    pub fn desktop_accelerators(&mut self, chords: Vec<AcceleratorChord>, limit: usize) -> (result:
        Result<(), HostError>)
        ensures
            match result {
                Ok(_) => {
                    &&& chords@.len() <= limit
                    &&& final(self)@ == (StateView {
                        actions: old(self)@.actions.push(ActionView::SetAccelerators(chords@)),
                        ..old(self)@
                    })
                },
                Err(error) => {
                    &&& chords@.len() > limit
                    &&& error == HostError::AcceleratorLimit
                    &&& final(self)@ == old(self)@
                },
            },
    {
        if chords.len() > limit {
            return Err(HostError::AcceleratorLimit);
        }
        self.push_action(Action::SetAccelerators(chords));
        Ok(())
    }
}

/// A payload field that has to be a number.
#[derive(Clone, Copy, Debug, PartialEq, Eq, Structural)]
pub enum Field {
    SurfaceId,
    SurfaceWidth,
    SurfaceHeight,
    TimerId,
    TimerDelay,
    FocusedSurface,
    MovedSurface,
    SurfaceX,
    SurfaceY,
    PointerSerial,
    MinimumX,
    MinimumY,
    MaximumX,
    MaximumY,
    ClosedSurface,
}

/// Why an operation was refused.
#[derive(Clone, Copy, Debug, PartialEq, Eq, Structural)]
pub enum HostError {
    /// A field is missing or no number of its range.
    InvalidField(Field),
    /// A configure with surplus fields or an empty size.
    InvalidConfigure,
    /// No configure serial is left.
    ConfigureExhausted,
    /// The accelerator table exceeds its limit.
    AcceleratorLimit,
    /// A timer with surplus fields.
    InvalidTimerSet,
    /// A move with surplus fields.
    InvalidMove,
    /// Move bounds with surplus fields or a negative extent.
    InvalidMoveBounds,
    /// The session does not offer the operation.
    Unavailable,
}

impl Field {
    /// The name that messages use.
    pub open spec fn label(self) -> Seq<char> {
        match self {
            Field::SurfaceId => "surface id"@,
            Field::SurfaceWidth => "surface width"@,
            Field::SurfaceHeight => "surface height"@,
            Field::TimerId => "timer id"@,
            Field::TimerDelay => "timer delay"@,
            Field::FocusedSurface => "focused surface"@,
            Field::MovedSurface => "moved surface"@,
            Field::SurfaceX => "surface x"@,
            Field::SurfaceY => "surface y"@,
            Field::PointerSerial => "pointer serial"@,
            Field::MinimumX => "minimum x"@,
            Field::MinimumY => "minimum y"@,
            Field::MaximumX => "maximum x"@,
            Field::MaximumY => "maximum y"@,
            Field::ClosedSurface => "closed surface"@,
        }
    }

    fn name(self) -> (result: &'static str)
        ensures
            result@ == self.label(),
    {
        match self {
            Field::SurfaceId => "surface id",
            Field::SurfaceWidth => "surface width",
            Field::SurfaceHeight => "surface height",
            Field::TimerId => "timer id",
            Field::TimerDelay => "timer delay",
            Field::FocusedSurface => "focused surface",
            Field::MovedSurface => "moved surface",
            Field::SurfaceX => "surface x",
            Field::SurfaceY => "surface y",
            Field::PointerSerial => "pointer serial",
            Field::MinimumX => "minimum x",
            Field::MinimumY => "minimum y",
            Field::MaximumX => "maximum x",
            Field::MaximumY => "maximum y",
            Field::ClosedSurface => "closed surface",
        }
    }
}

impl HostError {
    /// The message of the error that `operation` met.
    pub open spec fn text(self, operation: Seq<char>) -> Seq<char> {
        match self {
            HostError::InvalidField(field) => "invalid "@ + field.label(),
            HostError::InvalidConfigure => "invalid desktop configure"@,
            HostError::ConfigureExhausted => "configure identity exhausted"@,
            HostError::AcceleratorLimit => "accelerator table exceeds limit"@,
            HostError::InvalidTimerSet => "invalid timer set"@,
            HostError::InvalidMove => "invalid desktop move"@,
            HostError::InvalidMoveBounds => "invalid desktop move bounds"@,
            HostError::Unavailable => "operation '"@ + operation
                + "' is unavailable in this session"@,
        }
    }

    /// Writes the message of the error that `operation` met.
    pub fn message(self, operation: &str) -> (result: String)
        ensures
            result@ == self.text(operation@),
    {
        match self {
            HostError::InvalidField(field) => {
                let mut out = "invalid ".to_owned();
                out.append(field.name());
                out
            },
            HostError::InvalidConfigure => "invalid desktop configure".to_owned(),
            HostError::ConfigureExhausted => "configure identity exhausted".to_owned(),
            HostError::AcceleratorLimit => "accelerator table exceeds limit".to_owned(),
            HostError::InvalidTimerSet => "invalid timer set".to_owned(),
            HostError::InvalidMove => "invalid desktop move".to_owned(),
            HostError::InvalidMoveBounds => "invalid desktop move bounds".to_owned(),
            HostError::Unavailable => {
                let mut out = "operation '".to_owned();
                out.append(operation);
                out.append("' is unavailable in this session");
                out
            },
        }
    }
}

} // verus!
