//! The dispatch of native operations.

use vstd::prelude::*;
use vstd::string::*;
use crate::host::{
    surface_from, surface_views, without_timer, Action, ActionView, Configured, Field, HostError,
    Role, State, StateView, Surface, SurfaceView, Timer, DEVICE_SCALE_FACTOR,
};
use crate::host::filesystem::{json_string, quote};
use crate::rect::Size;
use crate::text::{
    at_most, decimal, decimal_text, fields, parse_i32, parse_u32, parse_u64, same, signed_value,
    split_fields, unsigned_value, views, within_i32,
};

verus! {

/// What the event loop has to do for an operation.
#[derive(Clone, Copy, Debug, PartialEq, Eq, Structural)]
pub enum Service {
    /// Parse the payload as a scene and commit it.
    CommitScene,
    /// Answer with the milliseconds since the host was started.
    MonotonicTime,
    /// Answer with the seconds of the wall clock.
    WallClock,
    /// Parse the payload as an accelerator table and replace the present one.
    Accelerators,
    /// Paste the payload into the terminal.
    TerminalPaste,
    ClipboardRead,
    ClipboardWrite,
    FsList,
    FsRead,
    FsMkdir,
    FsRemove,
    FsRename,
    FsCopy,
}

/// A native operation.
#[derive(Clone, Copy, Debug, PartialEq, Eq, Structural)]
pub enum Operation {
    Outside(Service),
    ViewportGet,
    Surfaces,
    TimerSet,
    TimerClear,
    Configure,
    Focus,
    Move,
    MoveBegin,
    Close,
    TerminalConnect,
    TerminalInput,
}

/// The answer to an operation.
pub enum Reply {
    /// The operation is done; script gets this text.
    Done(String),
    /// The event loop completes the operation.
    Needs(Service),
    /// The operation was refused.
    Refused(HostError),
}

/// What a [`Reply`] holds.
pub enum ReplyView {
    Done(Seq<char>),
    Needs(Service),
    Refused(HostError),
}

impl View for Reply {
    type V = ReplyView;

    open spec fn view(&self) -> ReplyView {
        match *self {
            Reply::Done(text) => ReplyView::Done(text@),
            Reply::Needs(service) => ReplyView::Needs(service),
            Reply::Refused(error) => ReplyView::Refused(error),
        }
    }
}

/// The operations of every session.
pub open spec fn common_operation(name: Seq<char>) -> Option<Operation> {
    if name == "scene.commit"@ {
        Some(Operation::Outside(Service::CommitScene))
    } else if name == "time.now"@ {
        Some(Operation::Outside(Service::MonotonicTime))
    } else if name == "viewport.get"@ {
        Some(Operation::ViewportGet)
    } else if name == "time.clock"@ {
        Some(Operation::Outside(Service::WallClock))
    } else if name == "timer.set"@ {
        Some(Operation::TimerSet)
    } else if name == "timer.clear"@ {
        Some(Operation::TimerClear)
    } else if name == "clipboard.read"@ {
        Some(Operation::Outside(Service::ClipboardRead))
    } else if name == "clipboard.write"@ {
        Some(Operation::Outside(Service::ClipboardWrite))
    } else {
        None
    }
}

/// The operations of the desktop.
pub open spec fn desktop_operation(name: Seq<char>) -> Option<Operation> {
    if name == "desktop.surfaces"@ {
        Some(Operation::Surfaces)
    } else if name == "desktop.configure"@ {
        Some(Operation::Configure)
    } else if name == "desktop.accelerators.set"@ {
        Some(Operation::Outside(Service::Accelerators))
    } else if name == "desktop.focus"@ {
        Some(Operation::Focus)
    } else if name == "desktop.move"@ {
        Some(Operation::Move)
    } else if name == "desktop.move.begin"@ {
        Some(Operation::MoveBegin)
    } else if name == "desktop.close"@ {
        Some(Operation::Close)
    } else {
        None
    }
}

/// The operations of an app.
pub open spec fn app_operation(name: Seq<char>) -> Option<Operation> {
    if name == "terminal.connect"@ {
        Some(Operation::TerminalConnect)
    } else if name == "terminal.input"@ {
        Some(Operation::TerminalInput)
    } else if name == "terminal.paste"@ {
        Some(Operation::Outside(Service::TerminalPaste))
    } else if name == "fs.list"@ {
        Some(Operation::Outside(Service::FsList))
    } else if name == "fs.read"@ {
        Some(Operation::Outside(Service::FsRead))
    } else if name == "fs.mkdir"@ {
        Some(Operation::Outside(Service::FsMkdir))
    } else if name == "fs.remove"@ {
        Some(Operation::Outside(Service::FsRemove))
    } else if name == "fs.rename"@ {
        Some(Operation::Outside(Service::FsRename))
    } else if name == "fs.copy"@ {
        Some(Operation::Outside(Service::FsCopy))
    } else {
        None
    }
}

/// The operation that a name stands for in a session.
pub open spec fn operation_named(role: Role, name: Seq<char>) -> Option<Operation> {
    let own = match role {
        Role::Desktop => desktop_operation(name),
        Role::App => app_operation(name),
    };
    if common_operation(name) is Some {
        common_operation(name)
    } else {
        own
    }
}

fn find_common(name: &str) -> (result: Option<Operation>)
    ensures
        result == common_operation(name@),
{
    if same(name, "scene.commit") {
        Some(Operation::Outside(Service::CommitScene))
    } else if same(name, "time.now") {
        Some(Operation::Outside(Service::MonotonicTime))
    } else if same(name, "viewport.get") {
        Some(Operation::ViewportGet)
    } else if same(name, "time.clock") {
        Some(Operation::Outside(Service::WallClock))
    } else if same(name, "timer.set") {
        Some(Operation::TimerSet)
    } else if same(name, "timer.clear") {
        Some(Operation::TimerClear)
    } else if same(name, "clipboard.read") {
        Some(Operation::Outside(Service::ClipboardRead))
    } else if same(name, "clipboard.write") {
        Some(Operation::Outside(Service::ClipboardWrite))
    } else {
        None
    }
}

fn find_desktop(name: &str) -> (result: Option<Operation>)
    ensures
        result == desktop_operation(name@),
{
    if same(name, "desktop.surfaces") {
        Some(Operation::Surfaces)
    } else if same(name, "desktop.configure") {
        Some(Operation::Configure)
    } else if same(name, "desktop.accelerators.set") {
        Some(Operation::Outside(Service::Accelerators))
    } else if same(name, "desktop.focus") {
        Some(Operation::Focus)
    } else if same(name, "desktop.move") {
        Some(Operation::Move)
    } else if same(name, "desktop.move.begin") {
        Some(Operation::MoveBegin)
    } else if same(name, "desktop.close") {
        Some(Operation::Close)
    } else {
        None
    }
}

fn find_app(name: &str) -> (result: Option<Operation>)
    ensures
        result == app_operation(name@),
{
    if same(name, "terminal.connect") {
        Some(Operation::TerminalConnect)
    } else if same(name, "terminal.input") {
        Some(Operation::TerminalInput)
    } else if same(name, "terminal.paste") {
        Some(Operation::Outside(Service::TerminalPaste))
    } else if same(name, "fs.list") {
        Some(Operation::Outside(Service::FsList))
    } else if same(name, "fs.read") {
        Some(Operation::Outside(Service::FsRead))
    } else if same(name, "fs.mkdir") {
        Some(Operation::Outside(Service::FsMkdir))
    } else if same(name, "fs.remove") {
        Some(Operation::Outside(Service::FsRemove))
    } else if same(name, "fs.rename") {
        Some(Operation::Outside(Service::FsRename))
    } else if same(name, "fs.copy") {
        Some(Operation::Outside(Service::FsCopy))
    } else {
        None
    }
}

fn find_operation(role: Role, name: &str) -> (result: Option<Operation>)
    ensures
        result == operation_named(role, name@),
{
    if let Some(operation) = find_common(name) {
        return Some(operation);
    }
    match role {
        Role::Desktop => find_desktop(name),
        Role::App => find_app(name),
    }
}

/// An unsigned number in a payload field.
pub open spec fn number_at(parts: Seq<Seq<char>>, at: int, limit: int) -> Option<nat> {
    if 0 <= at < parts.len() {
        at_most(unsigned_value(parts[at]), limit)
    } else {
        None
    }
}

/// A signed number in a payload field.
pub open spec fn signed_at(parts: Seq<Seq<char>>, at: int) -> Option<int> {
    if 0 <= at < parts.len() {
        within_i32(signed_value(parts[at]))
    } else {
        None
    }
}

fn u32_at(parts: &Vec<&str>, at: usize, field: Field) -> (result: Result<u32, HostError>)
    ensures
        match result {
            Ok(n) => number_at(views(parts@), at as int, u32::MAX as int) == Some(n as nat),
            Err(error) => number_at(views(parts@), at as int, u32::MAX as int) is None && error
                == HostError::InvalidField(field),
        },
{
    if at < parts.len() {
        assert(views(parts@)[at as int] == parts@[at as int]@);
        match parse_u32(parts[at]) {
            Some(n) => Ok(n),
            None => Err(HostError::InvalidField(field)),
        }
    } else {
        Err(HostError::InvalidField(field))
    }
}

fn u64_at(parts: &Vec<&str>, at: usize, field: Field) -> (result: Result<u64, HostError>)
    ensures
        match result {
            Ok(n) => number_at(views(parts@), at as int, u64::MAX as int) == Some(n as nat),
            Err(error) => number_at(views(parts@), at as int, u64::MAX as int) is None && error
                == HostError::InvalidField(field),
        },
{
    if at < parts.len() {
        assert(views(parts@)[at as int] == parts@[at as int]@);
        match parse_u64(parts[at]) {
            Some(n) => Ok(n),
            None => Err(HostError::InvalidField(field)),
        }
    } else {
        Err(HostError::InvalidField(field))
    }
}

fn i32_at(parts: &Vec<&str>, at: usize, field: Field) -> (result: Result<i32, HostError>)
    ensures
        match result {
            Ok(n) => signed_at(views(parts@), at as int) == Some(n as int),
            Err(error) => signed_at(views(parts@), at as int) is None && error
                == HostError::InvalidField(field),
        },
{
    if at < parts.len() {
        assert(views(parts@)[at as int] == parts@[at as int]@);
        match parse_i32(parts[at]) {
            Some(n) => Ok(n),
            None => Err(HostError::InvalidField(field)),
        }
    } else {
        Err(HostError::InvalidField(field))
    }
}

/// Surface, width and height of a configure payload.
pub open spec fn configure_request(payload: Seq<char>) -> Result<(u32, u32, u32), HostError> {
    let parts = fields(payload, ':');
    match (
        number_at(parts, 0, u32::MAX as int),
        number_at(parts, 1, u32::MAX as int),
        number_at(parts, 2, u32::MAX as int),
    ) {
        (None, _, _) => Err(HostError::InvalidField(Field::SurfaceId)),
        (_, None, _) => Err(HostError::InvalidField(Field::SurfaceWidth)),
        (_, _, None) => Err(HostError::InvalidField(Field::SurfaceHeight)),
        (Some(id), Some(width), Some(height)) => if parts.len() > 3 || width == 0 || height == 0 {
            Err(HostError::InvalidConfigure)
        } else {
            Ok((id as u32, width as u32, height as u32))
        },
    }
}

fn parse_configure(payload: &str) -> (result: Result<(u32, u32, u32), HostError>)
    ensures
        result == configure_request(payload@),
{
    let parts = split_fields(payload, ':');
    assert(views(parts@).len() == parts@.len());
    let id: u32 = match u32_at(&parts, 0, Field::SurfaceId) {
        Ok(n) => n,
        Err(error) => return Err(error),
    };
    let width: u32 = match u32_at(&parts, 1, Field::SurfaceWidth) {
        Ok(n) => n,
        Err(error) => return Err(error),
    };
    let height: u32 = match u32_at(&parts, 2, Field::SurfaceHeight) {
        Ok(n) => n,
        Err(error) => return Err(error),
    };
    if parts.len() > 3 || width == 0 || height == 0 {
        return Err(HostError::InvalidConfigure);
    }
    Ok((id, width, height))
}

/// The surface has this size configured.
pub open spec fn already(surface: SurfaceView, width: u32, height: u32) -> bool {
    surface.configure matches Some(c) && c.width == width && c.height == height
}

/// A configure of one surface: an unknown surface is answered `0`, the size
/// that is configured already keeps its serial, and a new size gets the next
/// serial and is sent to the app.
pub open spec fn configured<S>(s: StateView<S>, id: u32, width: u32, height: u32) -> (
    StateView<S>,
    ReplyView,
) {
    match surface_from(s.surfaces, id, 0) {
        None => (s, ReplyView::Done("0"@)),
        Some(i) => if already(s.surfaces[i], width, height) {
            (s, ReplyView::Done(decimal(s.surfaces[i].configure->0.serial as nat)))
        } else if s.next_configure == u64::MAX {
            (s, ReplyView::Refused(HostError::ConfigureExhausted))
        } else {
            let serial = s.next_configure;
            (
                StateView {
                    surfaces: s.surfaces.update(
                        i,
                        SurfaceView {
                            configure: Some(Configured { width, height, serial }),
                            ..s.surfaces[i]
                        },
                    ),
                    next_configure: (serial + 1) as u64,
                    actions: s.actions.push(
                        ActionView::Configure { surface_id: id, serial, width, height },
                    ),
                    ..s
                },
                ReplyView::Done(decimal(serial as nat)),
            )
        },
    }
}

/// The outcome of `desktop.configure`.
pub open spec fn configure_outcome<S>(s: StateView<S>, payload: Seq<char>) -> (
    StateView<S>,
    ReplyView,
) {
    match configure_request(payload) {
        Err(error) => (s, ReplyView::Refused(error)),
        Ok((id, width, height)) => configured(s, id, width, height),
    }
}

/// The outcome of `timer.set`.
pub open spec fn timer_outcome<S>(s: StateView<S>, payload: Seq<char>, now: u64) -> (
    StateView<S>,
    ReplyView,
) {
    let parts = fields(payload, ':');
    match (number_at(parts, 0, u64::MAX as int), number_at(parts, 1, u64::MAX as int)) {
        (None, _) => (s, ReplyView::Refused(HostError::InvalidField(Field::TimerId))),
        (_, None) => (s, ReplyView::Refused(HostError::InvalidField(Field::TimerDelay))),
        (Some(id), Some(delay)) => if parts.len() > 2 {
            (s, ReplyView::Refused(HostError::InvalidTimerSet))
        } else {
            (
                StateView {
                    timers: s.timers.push(
                        Timer { id: id as u64, due: (now + delay * 1_000_000) as u128 },
                    ),
                    ..s
                },
                ReplyView::Done(Seq::empty()),
            )
        },
    }
}

/// The outcome of `timer.clear`.
pub open spec fn clear_outcome<S>(s: StateView<S>, payload: Seq<char>) -> (
    StateView<S>,
    ReplyView,
) {
    match at_most(unsigned_value(payload), u64::MAX as int) {
        None => (s, ReplyView::Refused(HostError::InvalidField(Field::TimerId))),
        Some(id) => (
            StateView {
                timers: without_timer(s.timers, id as u64, s.timers.len() as int),
                ..s
            },
            ReplyView::Done(Seq::empty()),
        ),
    }
}

/// The outcome of `desktop.focus`.
pub open spec fn focus_outcome<S>(s: StateView<S>, payload: Seq<char>) -> (
    StateView<S>,
    ReplyView,
) {
    match at_most(unsigned_value(payload), u32::MAX as int) {
        None => (s, ReplyView::Refused(HostError::InvalidField(Field::FocusedSurface))),
        Some(id) => (
            StateView { focused_surface: id as u32, ..s },
            ReplyView::Done(Seq::empty()),
        ),
    }
}

/// The outcome of `desktop.move`.
pub open spec fn move_outcome<S>(s: StateView<S>, payload: Seq<char>) -> (StateView<S>, ReplyView) {
    let parts = fields(payload, ':');
    match (
        number_at(parts, 0, u32::MAX as int),
        number_at(parts, 1, u32::MAX as int),
        number_at(parts, 2, u32::MAX as int),
    ) {
        (None, _, _) => (s, ReplyView::Refused(HostError::InvalidField(Field::MovedSurface))),
        (_, None, _) => (s, ReplyView::Refused(HostError::InvalidField(Field::SurfaceX))),
        (_, _, None) => (s, ReplyView::Refused(HostError::InvalidField(Field::SurfaceY))),
        (Some(id), Some(x), Some(y)) => if parts.len() > 3 {
            (s, ReplyView::Refused(HostError::InvalidMove))
        } else {
            (
                StateView {
                    surfaces: match surface_from(s.surfaces, id as u32, 0) {
                        Some(i) => s.surfaces.update(
                            i,
                            crate::host::moved(s.surfaces[i], x as u32, y as u32),
                        ),
                        None => s.surfaces,
                    },
                    ..s
                },
                ReplyView::Done(Seq::empty()),
            )
        },
    }
}

/// The request of a `desktop.move.begin` payload.
pub open spec fn begin_request(payload: Seq<char>) -> Result<ActionView, HostError> {
    let parts = fields(payload, ':');
    match (
        number_at(parts, 0, u32::MAX as int),
        number_at(parts, 1, u64::MAX as int),
        signed_at(parts, 2),
        signed_at(parts, 3),
        signed_at(parts, 4),
        signed_at(parts, 5),
    ) {
        (None, _, _, _, _, _) => Err(HostError::InvalidField(Field::MovedSurface)),
        (_, None, _, _, _, _) => Err(HostError::InvalidField(Field::PointerSerial)),
        (_, _, None, _, _, _) => Err(HostError::InvalidField(Field::MinimumX)),
        (_, _, _, None, _, _) => Err(HostError::InvalidField(Field::MinimumY)),
        (_, _, _, _, None, _) => Err(HostError::InvalidField(Field::MaximumX)),
        (_, _, _, _, _, None) => Err(HostError::InvalidField(Field::MaximumY)),
        (Some(id), Some(serial), Some(min_x), Some(min_y), Some(max_x), Some(max_y)) => if parts.len()
            > 6 || max_x < min_x || max_y < min_y {
            Err(HostError::InvalidMoveBounds)
        } else {
            Ok(
                ActionView::BeginMove {
                    surface_id: id as u32,
                    serial: serial as u64,
                    min_x: min_x as i32,
                    min_y: min_y as i32,
                    max_x: max_x as i32,
                    max_y: max_y as i32,
                },
            )
        },
    }
}

/// The outcome of `desktop.move.begin`.
pub open spec fn begin_outcome<S>(s: StateView<S>, payload: Seq<char>) -> (
    StateView<S>,
    ReplyView,
) {
    match begin_request(payload) {
        Err(error) => (s, ReplyView::Refused(error)),
        Ok(action) => (
            StateView { actions: s.actions.push(action), ..s },
            ReplyView::Done(Seq::empty()),
        ),
    }
}

/// The outcome of `desktop.close`.
pub open spec fn close_outcome<S>(s: StateView<S>, payload: Seq<char>) -> (
    StateView<S>,
    ReplyView,
) {
    match at_most(unsigned_value(payload), u32::MAX as int) {
        None => (s, ReplyView::Refused(HostError::InvalidField(Field::ClosedSurface))),
        Some(id) => (
            StateView { actions: s.actions.push(ActionView::Close(id as u32)), ..s },
            ReplyView::Done(Seq::empty()),
        ),
    }
}

/// The viewport as script reads it.
pub open spec fn viewport_text(viewport: Size) -> Seq<char> {
    "{\"width\":"@ + decimal(viewport.width as nat) + ",\"height\":"@ + decimal(
        viewport.height as nat,
    ) + ",\"devicePixelRatio\":"@ + decimal(DEVICE_SCALE_FACTOR as nat) + "}"@
}

/// A surface as script reads it.
pub open spec fn surface_text(s: SurfaceView) -> Seq<char> {
    "{\"id\":"@ + decimal(s.id as nat) + ",\"appId\":"@ + json_string(s.app_id) + ",\"title\":"@
        + json_string(s.title) + ",\"icon\":"@ + json_string(s.icon) + ",\"bounds\":{\"x\":"@
        + decimal(s.bounds.x as nat) + ",\"y\":"@ + decimal(s.bounds.y as nat) + ",\"width\":"@
        + decimal(s.bounds.width as nat) + ",\"height\":"@ + decimal(s.bounds.height as nat) + "}}"@
}

/// The first `n` surfaces with commas between them.
pub open spec fn joined_surfaces(surfaces: Seq<SurfaceView>, n: int) -> Seq<char>
    decreases n,
{
    if n <= 0 {
        Seq::empty()
    } else if n == 1 {
        surface_text(surfaces[0])
    } else {
        joined_surfaces(surfaces, n - 1) + ","@ + surface_text(surfaces[n - 1])
    }
}

/// The live surfaces as script reads them.
pub open spec fn surfaces_text(surfaces: Seq<SurfaceView>) -> Seq<char> {
    "["@ + joined_surfaces(surfaces, surfaces.len() as int) + "]"@
}

fn surface_json(surface: &Surface) -> (result: String)
    ensures
        result@ == surface_text(surface@),
{
    let mut out = "{\"id\":".to_owned();
    out.append(decimal_text(surface.id as u64).as_str());
    out.append(",\"appId\":");
    out.append(quote(surface.app_id.as_str()).as_str());
    out.append(",\"title\":");
    out.append(quote(surface.title.as_str()).as_str());
    out.append(",\"icon\":");
    out.append(quote(surface.icon.as_str()).as_str());
    out.append(",\"bounds\":{\"x\":");
    out.append(decimal_text(surface.bounds.x as u64).as_str());
    out.append(",\"y\":");
    out.append(decimal_text(surface.bounds.y as u64).as_str());
    out.append(",\"width\":");
    out.append(decimal_text(surface.bounds.width as u64).as_str());
    out.append(",\"height\":");
    out.append(decimal_text(surface.bounds.height as u64).as_str());
    out.append("}}");
    out
}

fn surfaces_json(surfaces: &Vec<Surface>) -> (result: String)
    ensures
        result@ == surfaces_text(surface_views(surfaces@)),
{
    let ghost all = surface_views(surfaces@);
    let mut out = "[".to_owned();
    let mut i: usize = 0;
    assert("["@ + Seq::<char>::empty() =~= "["@);
    while i < surfaces.len()
        invariant
            i <= surfaces@.len(),
            all == surface_views(surfaces@),
            out@ == "["@ + joined_surfaces(all, i as int),
        decreases surfaces@.len() - i,
    {
        if i > 0 {
            out.append(",");
        }
        assert(all[i as int] == surfaces@[i as int]@);
        let one = surface_json(&surfaces[i]);
        out.append(one.as_str());
        assert(out@ =~= "["@ + joined_surfaces(all, i + 1));
        i = i + 1;
    }
    out.append("]");
    out
}

/// The screen that the terminal shows before its first update.
pub open spec fn connecting_screen() -> Seq<char> {
    "{\"rows\":[[{\"text\":\"Connecting to LiteOS terminal...\",\"fg\":13358561,\"bg\":1053720,\"bold\":false}]],\"cursor\":{\"column\":0,\"row\":0},\"foreground\":13358561,\"background\":1053720}"@
}

/// The outcome of one operation.
pub open spec fn outcome<S>(
    s: StateView<S>,
    operation: Option<Operation>,
    payload: Seq<char>,
    now: u64,
) -> (StateView<S>, ReplyView) {
    match operation {
        None => (s, ReplyView::Refused(HostError::Unavailable)),
        Some(Operation::Outside(service)) => (s, ReplyView::Needs(service)),
        Some(Operation::ViewportGet) => (s, ReplyView::Done(viewport_text(s.viewport))),
        Some(Operation::Surfaces) => (s, ReplyView::Done(surfaces_text(s.surfaces))),
        Some(Operation::TimerSet) => timer_outcome(s, payload, now),
        Some(Operation::TimerClear) => clear_outcome(s, payload),
        Some(Operation::Configure) => configure_outcome(s, payload),
        Some(Operation::Focus) => focus_outcome(s, payload),
        Some(Operation::Move) => move_outcome(s, payload),
        Some(Operation::MoveBegin) => begin_outcome(s, payload),
        Some(Operation::Close) => close_outcome(s, payload),
        Some(Operation::TerminalConnect) => (s, ReplyView::Done(connecting_screen())),
        Some(Operation::TerminalInput) => (
            StateView {
                actions: s.actions.push(
                    ActionView::TerminalInput(vstd::utf8::encode_utf8(payload)),
                ),
                ..s
            },
            ReplyView::Done(Seq::empty()),
        ),
    }
}

fn nothing() -> (result: Reply)
    ensures
        result@ == ReplyView::Done(Seq::empty()),
{
    let text = String::new();
    assert(text@ =~= Seq::<char>::empty());
    Reply::Done(text)
}

fn viewport_json(viewport: Size) -> (result: String)
    ensures
        result@ == viewport_text(viewport),
{
    let mut out = "{\"width\":".to_owned();
    out.append(decimal_text(viewport.width as u64).as_str());
    out.append(",\"height\":");
    out.append(decimal_text(viewport.height as u64).as_str());
    out.append(",\"devicePixelRatio\":");
    out.append(decimal_text(DEVICE_SCALE_FACTOR).as_str());
    out.append("}");
    out
}

impl<S> State<S> {
    /// Configures one surface. The operation is called while script renders and
    /// may name a surface that disconnected one frame ago; a benign serial lets
    /// that last render complete.
    pub fn desktop_configure(&mut self, payload: &str) -> (result: Reply)
        ensures
            (final(self)@, result@) == configure_outcome(old(self)@, payload@),
    {
        let (id, width, height) = match parse_configure(payload) {
            Ok(request) => request,
            Err(error) => return Reply::Refused(error),
        };
        let i: usize = match self.find_surface(id) {
            Some(i) => i,
            None => return Reply::Done("0".to_owned()),
        };
        assert(self@.surfaces[i as int] == self.surfaces@[i as int]@);
        if let Some(present) = self.surfaces[i].configure {
            if present.width == width && present.height == height {
                return Reply::Done(decimal_text(present.serial));
            }
        }
        let serial: u64 = self.next_configure;
        if serial == 0xffff_ffff_ffff_ffff {
            return Reply::Refused(HostError::ConfigureExhausted);
        }
        let ghost before = self@;
        self.next_configure = serial + 1;
        self.surfaces[i].configure = Some(Configured { width, height, serial });
        assert(self@.surfaces =~= before.surfaces.update(
            i as int,
            SurfaceView {
                configure: Some(Configured { width, height, serial }),
                ..before.surfaces[i as int]
            },
        ));
        self.push_action(Action::Configure { surface_id: id, serial, width, height });
        Reply::Done(decimal_text(serial))
    }

    fn timer_set(&mut self, payload: &str, now: u64) -> (result: Reply)
        ensures
            (final(self)@, result@) == timer_outcome(old(self)@, payload@, now),
    {
        let parts = split_fields(payload, ':');
        assert(views(parts@).len() == parts@.len());
        let id: u64 = match u64_at(&parts, 0, Field::TimerId) {
            Ok(n) => n,
            Err(error) => return Reply::Refused(error),
        };
        let delay: u64 = match u64_at(&parts, 1, Field::TimerDelay) {
            Ok(n) => n,
            Err(error) => return Reply::Refused(error),
        };
        if parts.len() > 2 {
            return Reply::Refused(HostError::InvalidTimerSet);
        }
        self.set_timer(id, now as u128 + delay as u128 * 1_000_000);
        nothing()
    }

    fn desktop_move(&mut self, payload: &str) -> (result: Reply)
        ensures
            (final(self)@, result@) == move_outcome(old(self)@, payload@),
    {
        let parts = split_fields(payload, ':');
        assert(views(parts@).len() == parts@.len());
        let id: u32 = match u32_at(&parts, 0, Field::MovedSurface) {
            Ok(n) => n,
            Err(error) => return Reply::Refused(error),
        };
        let x: u32 = match u32_at(&parts, 1, Field::SurfaceX) {
            Ok(n) => n,
            Err(error) => return Reply::Refused(error),
        };
        let y: u32 = match u32_at(&parts, 2, Field::SurfaceY) {
            Ok(n) => n,
            Err(error) => return Reply::Refused(error),
        };
        if parts.len() > 3 {
            return Reply::Refused(HostError::InvalidMove);
        }
        self.move_surface(id, x, y);
        nothing()
    }

    fn desktop_move_begin(&mut self, payload: &str) -> (result: Reply)
        ensures
            (final(self)@, result@) == begin_outcome(old(self)@, payload@),
    {
        match parse_begin(payload) {
            Ok(action) => {
                self.push_action(action);
                nothing()
            },
            Err(error) => Reply::Refused(error),
        }
    }

    /// Decides one native operation. `now` is a monotonic time in nanoseconds.
    pub fn invoke(&mut self, role: Role, operation: &str, payload: &str, now: u64) -> (result: Reply)
        ensures
            (final(self)@, result@) == outcome(
                old(self)@,
                operation_named(role, operation@),
                payload@,
                now,
            ),
    {
        let found: Operation = match find_operation(role, operation) {
            Some(found) => found,
            None => return Reply::Refused(HostError::Unavailable),
        };
        match found {
            Operation::Outside(service) => Reply::Needs(service),
            Operation::ViewportGet => Reply::Done(viewport_json(self.viewport)),
            Operation::Surfaces => Reply::Done(surfaces_json(&self.surfaces)),
            Operation::TimerSet => self.timer_set(payload, now),
            Operation::TimerClear => match parse_u64(payload) {
                Some(id) => {
                    self.clear_timer(id);
                    nothing()
                },
                None => Reply::Refused(HostError::InvalidField(Field::TimerId)),
            },
            Operation::Configure => self.desktop_configure(payload),
            Operation::Focus => match parse_u32(payload) {
                Some(id) => {
                    self.focused_surface = id;
                    nothing()
                },
                None => Reply::Refused(HostError::InvalidField(Field::FocusedSurface)),
            },
            Operation::Move => self.desktop_move(payload),
            Operation::MoveBegin => self.desktop_move_begin(payload),
            Operation::Close => match parse_u32(payload) {
                Some(id) => {
                    self.push_action(Action::Close(id));
                    nothing()
                },
                None => Reply::Refused(HostError::InvalidField(Field::ClosedSurface)),
            },
            Operation::TerminalConnect => Reply::Done(
                "{\"rows\":[[{\"text\":\"Connecting to LiteOS terminal...\",\"fg\":13358561,\"bg\":1053720,\"bold\":false}]],\"cursor\":{\"column\":0,\"row\":0},\"foreground\":13358561,\"background\":1053720}".to_owned(),
            ),
            Operation::TerminalInput => {
                let bytes: Vec<u8> = vstd::slice::slice_to_vec(payload.as_bytes());
                self.push_action(Action::TerminalInput(bytes));
                nothing()
            },
        }
    }
}

fn parse_begin(payload: &str) -> (result: Result<Action, HostError>)
    ensures
        match result {
            Ok(action) => begin_request(payload@) == Ok::<ActionView, HostError>(action@),
            Err(error) => begin_request(payload@) == Err::<ActionView, HostError>(error),
        },
{
    let parts = split_fields(payload, ':');
    assert(views(parts@).len() == parts@.len());
    let surface_id: u32 = match u32_at(&parts, 0, Field::MovedSurface) {
        Ok(n) => n,
        Err(error) => return Err(error),
    };
    let serial: u64 = match u64_at(&parts, 1, Field::PointerSerial) {
        Ok(n) => n,
        Err(error) => return Err(error),
    };
    let min_x: i32 = match i32_at(&parts, 2, Field::MinimumX) {
        Ok(n) => n,
        Err(error) => return Err(error),
    };
    let min_y: i32 = match i32_at(&parts, 3, Field::MinimumY) {
        Ok(n) => n,
        Err(error) => return Err(error),
    };
    let max_x: i32 = match i32_at(&parts, 4, Field::MaximumX) {
        Ok(n) => n,
        Err(error) => return Err(error),
    };
    let max_y: i32 = match i32_at(&parts, 5, Field::MaximumY) {
        Ok(n) => n,
        Err(error) => return Err(error),
    };
    if parts.len() > 6 || max_x < min_x || max_y < min_y {
        return Err(HostError::InvalidMoveBounds);
    }
    Ok(Action::BeginMove { surface_id, serial, min_x, min_y, max_x, max_y })
}

/// Script renders often and configures every surface each time: a repeated
/// configure is answered with the same serial and sends nothing again.
pub proof fn configure_is_idempotent<S>(s: StateView<S>, payload: Seq<char>)
    requires
        configure_outcome(s, payload).1 is Done,
    ensures
        configure_outcome(configure_outcome(s, payload).0, payload).1 == configure_outcome(
            s,
            payload,
        ).1,
        configure_outcome(configure_outcome(s, payload).0, payload).0 == configure_outcome(
            s,
            payload,
        ).0,
{
    let (id, width, height) = configure_request(payload)->Ok_0;
    if let Some(i) = surface_from(s.surfaces, id, 0) {
        found_surface(s.surfaces, id, 0);
        let after = configure_outcome(s, payload).0;
        same_ids_same_surface(s.surfaces, after.surfaces, id, 0);
    }
}

proof fn found_surface(surfaces: Seq<SurfaceView>, id: u32, from: int)
    requires
        0 <= from,
        surface_from(surfaces, id, from) is Some,
    ensures
        from <= surface_from(surfaces, id, from)->0 < surfaces.len(),
        surfaces[surface_from(surfaces, id, from)->0].id == id,
    decreases surfaces.len() - from,
{
    if surfaces[from].id != id {
        found_surface(surfaces, id, from + 1);
    }
}

proof fn same_ids_same_surface(a: Seq<SurfaceView>, b: Seq<SurfaceView>, id: u32, from: int)
    requires
        0 <= from,
        a.len() == b.len(),
        forall|i: int| 0 <= i < a.len() ==> (#[trigger] a[i]).id == b[i].id,
    ensures
        surface_from(a, id, from) == surface_from(b, id, from),
    decreases a.len() - from,
{
    if from < a.len() && a[from].id != id {
        same_ids_same_surface(a, b, id, from + 1);
    }
}

/// Every operation leaves the serial counter where it was or moves it on by
/// one, when the serial it had goes out with a configure action.
pub proof fn serials_never_repeat<S>(
    s: StateView<S>,
    role: Role,
    operation: Seq<char>,
    payload: Seq<char>,
    now: u64,
)
    ensures
        ({
            let after = outcome(s, operation_named(role, operation), payload, now).0;
            ||| after.next_configure == s.next_configure
            ||| {
                &&& after.next_configure == s.next_configure + 1
                &&& after.actions.len() == s.actions.len() + 1
                &&& after.actions.last() matches ActionView::Configure { serial, .. } && serial
                    == s.next_configure
            }
        }),
{
}

/// A session refuses the operations of the other role and changes nothing.
pub proof fn roles_are_separate<S>(
    s: StateView<S>,
    operation: Seq<char>,
    payload: Seq<char>,
    now: u64,
)
    requires
        common_operation(operation) is None,
    ensures
        desktop_operation(operation) is Some && app_operation(operation) is None ==> outcome(
            s,
            operation_named(Role::App, operation),
            payload,
            now,
        ) == (s, ReplyView::Refused(HostError::Unavailable)),
        app_operation(operation) is Some && desktop_operation(operation) is None ==> outcome(
            s,
            operation_named(Role::Desktop, operation),
            payload,
            now,
        ) == (s, ReplyView::Refused(HostError::Unavailable)),
{
}

/// A refused operation changes nothing.
pub proof fn refusal_changes_nothing<S>(
    s: StateView<S>,
    role: Role,
    operation: Seq<char>,
    payload: Seq<char>,
    now: u64,
)
    ensures
        outcome(s, operation_named(role, operation), payload, now).1 is Refused ==> outcome(
            s,
            operation_named(role, operation),
            payload,
            now,
        ).0 == s,
{
}

} // verus!
