//! What the native operations of a session do.

use vstd::prelude::*;
use vstd::string::*;
use crate::host::events::{after_event, Event};
use crate::host::operations::{
    begin_request, close_outcome, configure_request, configured, focus_outcome, move_outcome,
    operation_named, outcome, timer_outcome, Operation, ReplyView, Service,
};
use crate::host::{
    due_ids, initial_bounds, metadata, pending_timers, surface_from, wait, without_surface,
    without_timer, ActionView, Bounds, Configured, Field, HostError, Role, StateView, SurfaceView,
    Timer,
};
use crate::input::InputKey;
use crate::laws::painting::{stated, stated_numbers_are_read};
use crate::laws::reading::separators_end_pieces;
use crate::text::{
    decimal, digit, fields, signed_value, unsigned_value, written_number_is_read_back,
};

verus! {

proof fn written_numbers_hold_no_colon(n: int)
    ensures
        forall|i: int| 0 <= i < stated(n).len() ==> stated(n)[i] != ':',
        n >= 0 ==> unsigned_value(stated(n)) == Some(n as nat),
        signed_value(stated(n)) == Some(n),
{
    stated_numbers_are_read(n);
    let m = (if n < 0 {
        -n
    } else {
        n
    }) as nat;
    digits_hold_no_colon(m);
    if n >= 0 {
        written_number_is_read_back(n as nat);
    } else {
        assert forall|i: int| 0 <= i < stated(n).len() implies stated(n)[i] != ':' by {
            if i > 0 {
                assert(stated(n)[i] == decimal(m)[i - 1]);
            }
        }
    }
}

proof fn digits_hold_no_colon(n: nat)
    ensures
        forall|i: int| 0 <= i < decimal(n).len() ==> decimal(n)[i] != ':',
{
    crate::laws::painting::decimal_is_visible(n);
    assert forall|i: int| 0 <= i < decimal(n).len() implies decimal(n)[i] != ':' by {
        assert(digit(decimal(n)[i]));
        assert(':' as u32 == 58);
    }
}

/// Numbers with colons between them.
pub open spec fn listed(numbers: Seq<int>) -> Seq<char>
    decreases numbers.len(),
{
    if numbers.len() == 0 {
        Seq::empty()
    } else if numbers.len() == 1 {
        stated(numbers[0])
    } else {
        listed(numbers.drop_last()) + seq![':'] + stated(numbers.last())
    }
}

proof fn listed_numbers_are_fields(numbers: Seq<int>)
    requires
        numbers.len() > 0,
    ensures
        fields(listed(numbers), ':').len() == numbers.len(),
        forall|i: int|
            0 <= i < numbers.len() ==> #[trigger] fields(listed(numbers), ':')[i] == stated(
                numbers[i],
            ),
    decreases numbers.len(),
{
    let last = stated(numbers.last());
    written_numbers_hold_no_colon(numbers.last());
    separators_end_pieces(last, ':', Seq::empty());
    assert(fields(last, ':') == seq![last]);
    if numbers.len() > 1 {
        let front = numbers.drop_last();
        listed_numbers_are_fields(front);
        separators_end_pieces(listed(front), ':', last);
        assert forall|i: int| 0 <= i < numbers.len() implies #[trigger] fields(
            listed(numbers),
            ':',
        )[i] == stated(numbers[i]) by {
            if i < front.len() {
                assert(front[i] == numbers[i]);
            }
        }
    }
}

/// A request to size a surface states the surface, the width and the height, in
/// this order; neither may be zero, and nothing may follow.
pub proof fn size_requests_are_read(id: u32, width: u32, height: u32, more: int)
    ensures
        width > 0 && height > 0 ==> configure_request(
            listed(seq![id as int, width as int, height as int]),
        ) == Ok::<(u32, u32, u32), HostError>((id, width, height)),
        width == 0 || height == 0 ==> configure_request(
            listed(seq![id as int, width as int, height as int]),
        ) == Err::<(u32, u32, u32), HostError>(HostError::InvalidConfigure),
        configure_request(listed(seq![id as int, width as int, height as int, more])) == Err::<
            (u32, u32, u32),
            HostError,
        >(HostError::InvalidConfigure),
        configure_request(listed(seq![id as int, width as int])) == Err::<
            (u32, u32, u32),
            HostError,
        >(HostError::InvalidField(Field::SurfaceHeight)),
{
    let three = seq![id as int, width as int, height as int];
    let four = seq![id as int, width as int, height as int, more];
    let two = seq![id as int, width as int];
    listed_numbers_are_fields(three);
    listed_numbers_are_fields(four);
    listed_numbers_are_fields(two);
    written_numbers_hold_no_colon(id as int);
    written_numbers_hold_no_colon(width as int);
    written_numbers_hold_no_colon(height as int);
    assert(three[0] == id && three[1] == width && three[2] == height);
    assert(four[0] == id && four[1] == width && four[2] == height);
    assert(two[0] == id && two[1] == width);
    assert(fields(listed(three), ':')[0] == stated(id as int) && fields(listed(three), ':')[1]
        == stated(width as int) && fields(listed(three), ':')[2] == stated(height as int));
    assert(fields(listed(four), ':')[0] == stated(id as int) && fields(listed(four), ':')[1]
        == stated(width as int) && fields(listed(four), ':')[2] == stated(height as int));
    assert(fields(listed(two), ':')[0] == stated(id as int) && fields(listed(two), ':')[1] == stated(
        width as int,
    ));
}

/// A new size for a surface gets the next serial, is remembered with it, is sent
/// to the app and answered with it; no other surface changes. A size that stands
/// already is answered with the serial that it has, and an unknown surface with
/// zero.
pub proof fn new_sizes_get_new_serials<S>(
    s: StateView<S>,
    i: int,
    width: u32,
    height: u32,
    other: u32,
)
    requires
        0 <= i < s.surfaces.len(),
        forall|k: int| 0 <= k < i ==> (#[trigger] s.surfaces[k]).id != s.surfaces[i].id,
        s.next_configure < u64::MAX,
        forall|k: int| 0 <= k < s.surfaces.len() ==> (#[trigger] s.surfaces[k]).id != other,
    ensures
        ({
            let id = s.surfaces[i].id;
            let old = s.surfaces[i].configure;
            let (after, reply) = configured(s, id, width, height);
            let known = old matches Some(c) && c.width == width && c.height == height;
            &&& known ==> after == s && reply == ReplyView::Done(
                decimal((old->0).serial as nat),
            )
            &&& !known ==> {
                &&& reply == ReplyView::Done(decimal(s.next_configure as nat))
                &&& after.next_configure == s.next_configure + 1
                &&& after.actions == s.actions.push(
                    ActionView::Configure { surface_id: id, serial: s.next_configure, width, height },
                )
                &&& after.surfaces.len() == s.surfaces.len()
                &&& after.surfaces[i].configure == Some(
                    Configured { width, height, serial: s.next_configure },
                )
                &&& after.surfaces[i].bounds == s.surfaces[i].bounds
                &&& forall|k: int|
                    0 <= k < s.surfaces.len() && k != i ==> #[trigger] after.surfaces[k]
                        == s.surfaces[k]
            }
            &&& configured(s, other, width, height).0 == s
            &&& configured(s, other, width, height).1 == ReplyView::Done("0"@)
        }),
{
    first_surface(s.surfaces, s.surfaces[i].id, 0, i);
    no_surface(s.surfaces, other, 0);
}

proof fn first_surface(surfaces: Seq<SurfaceView>, id: u32, from: int, i: int)
    requires
        0 <= from <= i < surfaces.len(),
        surfaces[i].id == id,
        forall|k: int| from <= k < i ==> (#[trigger] surfaces[k]).id != id,
    ensures
        surface_from(surfaces, id, from) == Some(i),
    decreases i - from,
{
    if from < i {
        first_surface(surfaces, id, from + 1, i);
    }
}

proof fn no_surface(surfaces: Seq<SurfaceView>, id: u32, from: int)
    requires
        0 <= from,
        forall|k: int| from <= k < surfaces.len() ==> (#[trigger] surfaces[k]).id != id,
    ensures
        surface_from(surfaces, id, from) is None,
    decreases surfaces.len() - from,
{
    if from < surfaces.len() {
        no_surface(surfaces, id, from + 1);
    }
}

/// A request to move states the surface and its new corner; the window keeps its
/// size, and no other window moves.
pub proof fn windows_move_where_they_are_told<S>(s: StateView<S>, i: int, x: u32, y: u32)
    requires
        0 <= i < s.surfaces.len(),
        forall|k: int| 0 <= k < i ==> (#[trigger] s.surfaces[k]).id != s.surfaces[i].id,
    ensures
        ({
            let payload = listed(seq![s.surfaces[i].id as int, x as int, y as int]);
            let (after, reply) = move_outcome(s, payload);
            &&& reply == ReplyView::Done(Seq::empty())
            &&& after.surfaces[i].bounds.x == x
            &&& after.surfaces[i].bounds.y == y
            &&& after.surfaces[i].bounds.width == s.surfaces[i].bounds.width
            &&& after.surfaces[i].bounds.height == s.surfaces[i].bounds.height
            &&& after.surfaces[i].id == s.surfaces[i].id
            &&& after.surfaces[i].app_id == s.surfaces[i].app_id
            &&& after.surfaces.len() == s.surfaces.len()
            &&& forall|k: int|
                0 <= k < s.surfaces.len() && k != i ==> #[trigger] after.surfaces[k]
                    == s.surfaces[k]
        }),
{
    let id = s.surfaces[i].id;
    let three = seq![id as int, x as int, y as int];
    listed_numbers_are_fields(three);
    written_numbers_hold_no_colon(id as int);
    written_numbers_hold_no_colon(x as int);
    written_numbers_hold_no_colon(y as int);
    assert(three[0] == id && three[1] == x && three[2] == y);
    assert(fields(listed(three), ':')[0] == stated(id as int) && fields(listed(three), ':')[1]
        == stated(x as int) && fields(listed(three), ':')[2] == stated(y as int));
    first_surface(s.surfaces, id, 0, i);
}

/// A request to begin a move states the surface, the serial of the press and the
/// limits of the move, the least corner before the greatest; limits that cross
/// are refused.
pub proof fn move_limits_are_read(
    id: u32,
    serial: u64,
    min_x: i32,
    min_y: i32,
    max_x: i32,
    max_y: i32,
)
    ensures
        ({
            let payload = listed(
                seq![
                    id as int,
                    serial as int,
                    min_x as int,
                    min_y as int,
                    max_x as int,
                    max_y as int,
                ],
            );
            &&& min_x <= max_x && min_y <= max_y ==> begin_request(payload) == Ok::<
                ActionView,
                HostError,
            >(ActionView::BeginMove { surface_id: id, serial, min_x, min_y, max_x, max_y })
            &&& max_x < min_x || max_y < min_y ==> begin_request(payload) == Err::<
                ActionView,
                HostError,
            >(HostError::InvalidMoveBounds)
        }),
{
    let six = seq![
        id as int,
        serial as int,
        min_x as int,
        min_y as int,
        max_x as int,
        max_y as int,
    ];
    listed_numbers_are_fields(six);
    written_numbers_hold_no_colon(id as int);
    written_numbers_hold_no_colon(serial as int);
    written_numbers_hold_no_colon(min_x as int);
    written_numbers_hold_no_colon(min_y as int);
    written_numbers_hold_no_colon(max_x as int);
    written_numbers_hold_no_colon(max_y as int);
    assert(six[0] == id && six[1] == serial && six[2] == min_x && six[3] == min_y && six[4] == max_x
        && six[5] == max_y);
    let parts = fields(listed(six), ':');
    assert(parts[0] == stated(id as int) && parts[1] == stated(serial as int) && parts[2] == stated(
        min_x as int,
    ) && parts[3] == stated(min_y as int) && parts[4] == stated(max_x as int) && parts[5] == stated(
        max_y as int,
    ));
}

/// A timer is due after so many milliseconds from now, and is added behind those
/// that wait.
pub proof fn timers_are_set_in_milliseconds<S>(s: StateView<S>, id: u64, delay: u64, now: u64)
    ensures
        ({
            let (after, reply) = timer_outcome(s, listed(seq![id as int, delay as int]), now);
            &&& reply == ReplyView::Done(Seq::empty())
            &&& after.timers.len() == s.timers.len() + 1
            &&& after.timers.drop_last() == s.timers
            &&& after.timers.last().id == id
            &&& after.timers.last().due == now + delay * 1_000_000
        }),
        timer_outcome(s, listed(seq![id as int]), now).1 == ReplyView::Refused(
            HostError::InvalidField(Field::TimerDelay),
        ),
{
    let two = seq![id as int, delay as int];
    let one = seq![id as int];
    listed_numbers_are_fields(two);
    listed_numbers_are_fields(one);
    written_numbers_hold_no_colon(id as int);
    written_numbers_hold_no_colon(delay as int);
    assert(two[0] == id && two[1] == delay && one[0] == id);
    assert(fields(listed(two), ':')[0] == stated(id as int) && fields(listed(two), ':')[1] == stated(
        delay as int,
    ));
    assert(fields(listed(one), ':')[0] == stated(id as int));
    let after = timer_outcome(s, listed(two), now).0;
    assert(delay * 1_000_000 <= 0xffff_ffff_ffff_ffff * 1_000_000);
    assert(after.timers.drop_last() =~= s.timers);
}

/// Clearing a timer removes every timer of that id and no other; a timer fires
/// exactly if its time has come, and waits otherwise, in the order of setting.
pub proof fn timers_fire_when_due(timers: Seq<Timer>, id: u64, now: int, n: int, k: int)
    requires
        0 <= n <= timers.len(),
        0 <= k < n,
    ensures
        timers[k].due <= now ==> due_ids(timers, now, n).contains(timers[k].id),
        timers[k].due > now ==> pending_timers(timers, now, n).contains(timers[k]),
        timers[k].id != id ==> without_timer(timers, id, n).contains(timers[k]),
        forall|j: int|
            0 <= j < without_timer(timers, id, n).len() ==> (#[trigger] without_timer(
                timers,
                id,
                n,
            )[j]).id != id,
        forall|j: int|
            0 <= j < pending_timers(timers, now, n).len() ==> (#[trigger] pending_timers(
                timers,
                now,
                n,
            )[j]).due > now,
        due_ids(timers, now, n).len() + pending_timers(timers, now, n).len() == n,
    decreases n,
{
    let ids = due_ids(timers, now, n);
    let waiting = pending_timers(timers, now, n);
    let kept = without_timer(timers, id, n);
    if n > 1 {
        timers_fire_when_due(
            timers,
            id,
            now,
            n - 1,
            if k < n - 1 {
                k
            } else {
                0
            },
        );
    }
    let ids0 = due_ids(timers, now, n - 1);
    let waiting0 = pending_timers(timers, now, n - 1);
    let kept0 = without_timer(timers, id, n - 1);
    if k < n - 1 {
        if timers[k].due <= now {
            let j = choose|j: int| 0 <= j < ids0.len() && ids0[j] == timers[k].id;
            assert(ids[j] == timers[k].id);
        } else {
            let j = choose|j: int| 0 <= j < waiting0.len() && waiting0[j] == timers[k];
            assert(waiting[j] == timers[k]);
        }
        if timers[k].id != id {
            let j = choose|j: int| 0 <= j < kept0.len() && kept0[j] == timers[k];
            assert(kept[j] == timers[k]);
        }
    } else {
        if timers[k].due <= now {
            assert(ids[ids0.len() as int] == timers[k].id);
        } else {
            assert(waiting[waiting0.len() as int] == timers[k]);
        }
        if timers[k].id != id {
            assert(kept[kept0.len() as int] == timers[k]);
        }
    }
}

/// A waiting timer waits as long as it is not due, and a due one not at all.
pub proof fn waits_end_when_due(timer: Timer, now: int)
    requires
        0 <= now,
    ensures
        timer.due >= now ==> now + wait(timer, now) == timer.due,
        timer.due <= now ==> wait(timer, now) == 0,
{
}

/// A number names the surface to focus or to close.
pub proof fn surfaces_are_focused_and_closed<S>(s: StateView<S>, id: u32)
    ensures
        focus_outcome(s, stated(id as int)).0 == (StateView { focused_surface: id, ..s }),
        close_outcome(s, stated(id as int)).0 == (StateView {
            actions: s.actions.push(ActionView::Close(id)),
            ..s
        }),
        focus_outcome(s, Seq::empty()).0 == s,
        close_outcome(s, Seq::empty()).0 == s,
{
    written_numbers_hold_no_colon(id as int);
    assert(unsigned_value(Seq::<char>::empty()) is None);
}

/// An operation that belongs to the event loop changes nothing here, and an
/// unknown one is refused.
pub proof fn outside_operations_change_nothing<S>(
    s: StateView<S>,
    service: Service,
    payload: Seq<char>,
    now: u64,
)
    ensures
        outcome(s, Some(Operation::Outside(service)), payload, now) == (
            s,
            ReplyView::Needs(service),
        ),
        outcome(s, None, payload, now) == (s, ReplyView::Refused(HostError::Unavailable)),
        outcome(s, Some(Operation::ViewportGet), payload, now).0 == s,
        outcome(s, Some(Operation::Surfaces), payload, now).0 == s,
{
}

/// Every session has these operations, under these names.
pub proof fn common_operations_have_their_names(role: Role)
    ensures
        operation_named(role, "scene.commit"@) == Some(Operation::Outside(Service::CommitScene)),
        operation_named(role, "time.now"@) == Some(Operation::Outside(Service::MonotonicTime)),
        operation_named(role, "time.clock"@) == Some(Operation::Outside(Service::WallClock)),
        operation_named(role, "viewport.get"@) == Some(Operation::ViewportGet),
        operation_named(role, "timer.set"@) == Some(Operation::TimerSet),
        operation_named(role, "timer.clear"@) == Some(Operation::TimerClear),
        operation_named(role, "clipboard.read"@) == Some(
            Operation::Outside(Service::ClipboardRead),
        ),
        operation_named(role, "clipboard.write"@) == Some(
            Operation::Outside(Service::ClipboardWrite),
        ),
{
    reveal_strlit("scene.commit");
    reveal_strlit("time.now");
    reveal_strlit("viewport.get");
    reveal_strlit("time.clock");
    reveal_strlit("timer.set");
    reveal_strlit("timer.clear");
    reveal_strlit("clipboard.read");
    reveal_strlit("clipboard.write");
    assert("scene.commit"@.len() == 12 && "time.now"@.len() == 8 && "viewport.get"@.len() == 12
        && "time.clock"@.len() == 10 && "timer.set"@.len() == 9 && "timer.clear"@.len() == 11
        && "clipboard.read"@.len() == 14 && "clipboard.write"@.len() == 15);
    assert("scene.commit"@[0] == 's' && "viewport.get"@[0] == 'v');
}

/// Only the desktop has these operations, under these names.
pub proof fn desktop_operations_have_their_names()
    ensures
        operation_named(Role::Desktop, "desktop.surfaces"@) == Some(Operation::Surfaces),
        operation_named(Role::Desktop, "desktop.configure"@) == Some(Operation::Configure),
        operation_named(Role::Desktop, "desktop.accelerators.set"@) == Some(
            Operation::Outside(Service::Accelerators),
        ),
        operation_named(Role::Desktop, "desktop.focus"@) == Some(Operation::Focus),
        operation_named(Role::Desktop, "desktop.move"@) == Some(Operation::Move),
        operation_named(Role::Desktop, "desktop.move.begin"@) == Some(Operation::MoveBegin),
        operation_named(Role::Desktop, "desktop.close"@) == Some(Operation::Close),
        operation_named(Role::App, "desktop.focus"@) is None,
        operation_named(Role::App, "desktop.close"@) is None,
{
    reveal_strlit("scene.commit");
    reveal_strlit("time.now");
    reveal_strlit("viewport.get");
    reveal_strlit("time.clock");
    reveal_strlit("timer.set");
    reveal_strlit("timer.clear");
    reveal_strlit("clipboard.read");
    reveal_strlit("clipboard.write");
    reveal_strlit("desktop.surfaces");
    reveal_strlit("desktop.configure");
    reveal_strlit("desktop.accelerators.set");
    reveal_strlit("desktop.focus");
    reveal_strlit("desktop.move");
    reveal_strlit("desktop.move.begin");
    reveal_strlit("desktop.close");
    reveal_strlit("terminal.connect");
    reveal_strlit("terminal.input");
    reveal_strlit("terminal.paste");
    reveal_strlit("fs.list");
    reveal_strlit("fs.read");
    reveal_strlit("fs.mkdir");
    reveal_strlit("fs.remove");
    reveal_strlit("fs.rename");
    reveal_strlit("fs.copy");
    assert("scene.commit"@.len() == 12 && "time.now"@.len() == 8 && "viewport.get"@.len() == 12
        && "time.clock"@.len() == 10 && "timer.set"@.len() == 9 && "timer.clear"@.len() == 11
        && "clipboard.read"@.len() == 14 && "clipboard.write"@.len() == 15);
    assert("desktop.surfaces"@.len() == 16 && "desktop.configure"@.len() == 17
        && "desktop.accelerators.set"@.len() == 24 && "desktop.focus"@.len() == 13
        && "desktop.move"@.len() == 12 && "desktop.move.begin"@.len() == 18 && "desktop.close"@.len()
        == 13);
    assert("terminal.connect"@.len() == 16 && "terminal.input"@.len() == 14 && "terminal.paste"@.len()
        == 14 && "fs.list"@.len() == 7 && "fs.read"@.len() == 7 && "fs.mkdir"@.len() == 8
        && "fs.remove"@.len() == 9 && "fs.rename"@.len() == 9 && "fs.copy"@.len() == 7);
    assert("scene.commit"@[0] == 's' && "viewport.get"@[0] == 'v' && "desktop.move"@[0] == 'd'
        && "desktop.focus"@[8] == 'f' && "desktop.close"@[8] == 'c');
}

/// Only an app has these operations, under these names.
pub proof fn app_operations_have_their_names()
    ensures
        operation_named(Role::App, "terminal.connect"@) == Some(Operation::TerminalConnect),
        operation_named(Role::App, "terminal.input"@) == Some(Operation::TerminalInput),
        operation_named(Role::App, "terminal.paste"@) == Some(
            Operation::Outside(Service::TerminalPaste),
        ),
        operation_named(Role::App, "fs.list"@) == Some(Operation::Outside(Service::FsList)),
        operation_named(Role::App, "fs.read"@) == Some(Operation::Outside(Service::FsRead)),
        operation_named(Role::App, "fs.mkdir"@) == Some(Operation::Outside(Service::FsMkdir)),
        operation_named(Role::App, "fs.remove"@) == Some(Operation::Outside(Service::FsRemove)),
        operation_named(Role::App, "fs.rename"@) == Some(Operation::Outside(Service::FsRename)),
        operation_named(Role::App, "fs.copy"@) == Some(Operation::Outside(Service::FsCopy)),
{
    reveal_strlit("scene.commit");
    reveal_strlit("time.now");
    reveal_strlit("viewport.get");
    reveal_strlit("time.clock");
    reveal_strlit("timer.set");
    reveal_strlit("timer.clear");
    reveal_strlit("clipboard.read");
    reveal_strlit("clipboard.write");
    reveal_strlit("terminal.connect");
    reveal_strlit("terminal.input");
    reveal_strlit("terminal.paste");
    reveal_strlit("fs.list");
    reveal_strlit("fs.read");
    reveal_strlit("fs.mkdir");
    reveal_strlit("fs.remove");
    reveal_strlit("fs.rename");
    reveal_strlit("fs.copy");
    assert("scene.commit"@.len() == 12 && "time.now"@.len() == 8 && "viewport.get"@.len() == 12
        && "time.clock"@.len() == 10 && "timer.set"@.len() == 9 && "timer.clear"@.len() == 11
        && "clipboard.read"@.len() == 14 && "clipboard.write"@.len() == 15);
    assert("terminal.connect"@.len() == 16 && "terminal.input"@.len() == 14 && "terminal.paste"@.len()
        == 14 && "fs.list"@.len() == 7 && "fs.read"@.len() == 7 && "fs.mkdir"@.len() == 8
        && "fs.remove"@.len() == 9 && "fs.rename"@.len() == 9 && "fs.copy"@.len() == 7);
    assert("clipboard.read"@[0] == 'c' && "terminal.input"@[0] == 't' && "terminal.paste"@[0] == 't'
        && "terminal.input"@[9] == 'i' && "terminal.paste"@[9] == 'p');
    assert("time.now"@[0] == 't' && "fs.mkdir"@[0] == 'f' && "timer.set"@[0] == 't' && "fs.remove"@[0]
        == 'f' && "fs.rename"@[0] == 'f');
    assert("fs.list"@[3] == 'l' && "fs.read"@[3] == 'r' && "fs.copy"@[3] == 'c' && "fs.remove"@[5]
        == 'm' && "fs.rename"@[5] == 'n');
}

/// Closing a surface removes every surface of that id and keeps all others, in
/// their order.
pub proof fn closed_surfaces_leave_the_rest(
    surfaces: Seq<SurfaceView>,
    id: u32,
    n: int,
    k: int,
)
    requires
        0 <= k < n <= surfaces.len(),
    ensures
        surfaces[k].id != id ==> without_surface(surfaces, id, n).contains(surfaces[k]),
        forall|j: int|
            0 <= j < without_surface(surfaces, id, n).len() ==> (#[trigger] without_surface(
                surfaces,
                id,
                n,
            )[j]).id != id,
    decreases n,
{
    let kept = without_surface(surfaces, id, n);
    let kept0 = without_surface(surfaces, id, n - 1);
    if n > 1 {
        closed_surfaces_leave_the_rest(
            surfaces,
            id,
            n - 1,
            if k < n - 1 {
                k
            } else {
                0
            },
        );
    }
    if surfaces[k].id != id {
        if k < n - 1 {
            let j = choose|j: int| 0 <= j < kept0.len() && kept0[j] == surfaces[k];
            assert(kept[j] == surfaces[k]);
        } else {
            assert(kept[kept0.len() as int] == surfaces[k]);
        }
    }
}

/// A new window stands behind all others in the list, with its own identity and
/// nothing configured yet; windows of unknown apps step to the right and down with
/// every window that is open.
pub proof fn new_windows_cascade<S>(s: StateView<S>, surface_id: u32, app_id: String, index: int)
    requires
        0 <= index < 1000,
    ensures
        ({
            let after = after_event(s, Event::AppOpened { surface_id, app_id }).surfaces;
            &&& after.len() == s.surfaces.len() + 1
            &&& after.drop_last() == s.surfaces
            &&& after.last().id == surface_id
            &&& after.last().app_id == app_id@
            &&& after.last().configure is None
        }),
        app_id@ != "file-manager"@ && app_id@ != "terminal"@ && app_id@ != "music-player"@ && app_id@
            != "my-computer"@ ==> {
            let a = initial_bounds(app_id@, index);
            let b = initial_bounds(app_id@, index + 1);
            &&& b.x == a.x + 28
            &&& b.y == a.y + 24
            &&& b.width == a.width && b.height == a.height
            &&& initial_bounds(app_id@, 0) == (Bounds { x: 260, y: 150, width: 720, height: 480 })
        },
        app_id@ == "music-player"@ ==> initial_bounds(app_id@, index) == initial_bounds(
            app_id@,
            index + 4,
        ),
{
    let after = after_event(s, Event::AppOpened { surface_id, app_id }).surfaces;
    assert(after.drop_last() =~= s.surfaces);
}

/// Known apps have their own title and picture.
pub proof fn known_apps_have_titles()
    ensures
        metadata("terminal"@) == ("Terminal"@, "assets/terminal.png"@),
        metadata("my-computer"@) == ("Computer"@, "assets/package.png"@),
        metadata("file-manager"@) == ("Files"@, "assets/files.png"@),
        metadata("music-player"@) == ("Music"@, "assets/music.png"@),
        metadata(""@) == ("Application"@, "assets/terminal.png"@),
        initial_bounds("terminal"@, 0) == (Bounds { x: 958, y: 414, width: 460, height: 250 }),
        initial_bounds("file-manager"@, 0) == (Bounds { x: 76, y: 124, width: 834, height: 540 }),
        initial_bounds("my-computer"@, 1) == (Bounds { x: 208, y: 82, width: 900, height: 620 }),
{
    reveal_strlit("");
    reveal_strlit("terminal");
    reveal_strlit("my-computer");
    reveal_strlit("file-manager");
    reveal_strlit("music-player");
    assert(""@.len() == 0 && "terminal"@.len() == 8 && "my-computer"@.len() == 11
        && "file-manager"@.len() == 12 && "music-player"@.len() == 12);
    assert("file-manager"@[0] == 'f' && "music-player"@[0] == 'm');
}

/// A finished move puts the window where it ended, at the edge where it left the
/// screen, and keeps the token for the next commit.
pub proof fn finished_moves_are_kept<S>(
    s: StateView<S>,
    i: int,
    x: i32,
    y: i32,
    move_token: u64,
)
    requires
        0 <= i < s.surfaces.len(),
        forall|k: int| 0 <= k < i ==> (#[trigger] s.surfaces[k]).id != s.surfaces[i].id,
    ensures
        ({
            let event = Event::MoveComplete { surface_id: s.surfaces[i].id, x, y, move_token };
            let after = after_event(s, event);
            &&& after.pending_move_token == move_token
            &&& x >= 0 ==> after.surfaces[i].bounds.x == x
            &&& y >= 0 ==> after.surfaces[i].bounds.y == y
            &&& x < 0 ==> after.surfaces[i].bounds.x == 0
            &&& y < 0 ==> after.surfaces[i].bounds.y == 0
            &&& after.surfaces[i].bounds.width == s.surfaces[i].bounds.width
            &&& after.surfaces[i].bounds.height == s.surfaces[i].bounds.height
        }),
{
    first_surface(s.surfaces, s.surfaces[i].id, 0, i);
}

/// A pressed key lets media play, a released one does not; an app that is ready
/// asks for a new composition.
pub proof fn events_reach_the_host<S>(s: StateView<S>, key: InputKey, surface_id: u32, serial: u64)
    ensures
        key.value != 0 ==> after_event(s, Event::Key(key)).playback_granted,
        key.value == 0 ==> after_event(s, Event::Key(key)) == s,
        after_event(s, Event::ConfigureReady { surface_id, serial }).composition_dirty,
        after_event(s, Event::AppClosed { surface_id }).focused_surface == (if s.focused_surface
            == surface_id {
            0
        } else {
            s.focused_surface
        }),
{
}

} // verus!
