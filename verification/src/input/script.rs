//! The messages that carry input to script: payloads as JSON with their keys in
//! order, and the calls that deliver them.

use vstd::prelude::*;
use vstd::string::*;
use crate::host::events::{InputScroll, Routed};
use crate::host::filesystem::{json_string, quote};
use crate::input::{InputKey, InputPointer, PointerPhase};
use crate::text::{decimal, decimal_text};

verus! {

/// A number in decimal, with a sign where it is negative.
pub open spec fn signed_decimal(n: int) -> Seq<char> {
    if n < 0 {
        "-"@ + decimal((-n) as nat)
    } else {
        decimal(n as nat)
    }
}

/// Writes a number in decimal.
pub fn signed_text(n: i32) -> (result: String)
    ensures
        result@ == signed_decimal(n as int),
{
    if n < 0 {
        let mut out = "-".to_owned();
        let magnitude: u64 = (-(n as i64)) as u64;
        out.append(decimal_text(magnitude).as_str());
        out
    } else {
        decimal_text(n as u64)
    }
}

/// A message that a pointer event makes.
#[derive(Clone, Copy, Debug, PartialEq, Eq, Structural)]
pub enum PointerMessage {
    /// The event itself.
    Plain,
    Click,
    DoubleClick,
}

/// The name of a phase.
pub open spec fn phase_name(phase: PointerPhase) -> Seq<char> {
    match phase {
        PointerPhase::Motion => "motion"@,
        PointerPhase::Down => "down"@,
        PointerPhase::Up => "up"@,
    }
}

/// What tells the messages of a pointer event apart.
pub open spec fn pointer_detail(message: PointerMessage, phase: PointerPhase) -> Seq<char> {
    match message {
        PointerMessage::Plain => ",\"phase\":\""@ + phase_name(phase) + "\""@,
        PointerMessage::Click => ",\"detail\":1"@,
        PointerMessage::DoubleClick => ",\"detail\":2"@,
    }
}

/// The type of a message.
pub open spec fn pointer_type(message: PointerMessage) -> Seq<char> {
    match message {
        PointerMessage::Plain => "pointer"@,
        PointerMessage::Click => "click"@,
        PointerMessage::DoubleClick => "dblclick"@,
    }
}

/// The payload of a pointer event.
pub open spec fn pointer_json(pointer: InputPointer, message: PointerMessage) -> Seq<char> {
    "{\"button\":"@ + decimal(pointer.button as nat) + ",\"buttons\":"@ + decimal(
        pointer.buttons as nat,
    ) + pointer_detail(message, pointer.phase) + ",\"serial\":"@ + decimal(pointer.serial as nat)
        + ",\"type\":\""@ + pointer_type(message) + "\",\"x\":"@ + signed_decimal(pointer.x as int)
        + ",\"y\":"@ + signed_decimal(pointer.y as int) + "}"@
}

/// Writes the payload of a pointer event.
pub fn pointer_payload(pointer: InputPointer, message: PointerMessage) -> (result: String)
    ensures
        result@ == pointer_json(pointer, message),
{
    let mut detail = match message {
        PointerMessage::Plain => ",\"phase\":\"".to_owned(),
        PointerMessage::Click => ",\"detail\":1".to_owned(),
        PointerMessage::DoubleClick => ",\"detail\":2".to_owned(),
    };
    if message == PointerMessage::Plain {
        let phase = match pointer.phase {
            PointerPhase::Motion => "motion",
            PointerPhase::Down => "down",
            PointerPhase::Up => "up",
        };
        detail.append(phase);
        detail.append("\"");
    }
    assert(detail@ == pointer_detail(message, pointer.phase));
    let kind = match message {
        PointerMessage::Plain => "pointer",
        PointerMessage::Click => "click",
        PointerMessage::DoubleClick => "dblclick",
    };
    let mut out = "{\"button\":".to_owned();
    out.append(decimal_text(pointer.button as u64).as_str());
    out.append(",\"buttons\":");
    out.append(decimal_text(pointer.buttons as u64).as_str());
    out.append(detail.as_str());
    out.append(",\"serial\":");
    out.append(decimal_text(pointer.serial).as_str());
    out.append(",\"type\":\"");
    out.append(kind);
    out.append("\",\"x\":");
    out.append(signed_text(pointer.x).as_str());
    out.append(",\"y\":");
    out.append(signed_text(pointer.y).as_str());
    out.append("}");
    out
}

/// The payload of a wheel event.
pub open spec fn wheel_json(scroll: InputScroll) -> Seq<char> {
    "{\"deltaMode\":0,\"deltaX\":"@ + signed_decimal(scroll.delta_x as int) + ",\"deltaY\":"@
        + signed_decimal(scroll.delta_y as int) + ",\"type\":\"wheel\",\"x\":"@ + signed_decimal(
        scroll.x as int,
    ) + ",\"y\":"@ + signed_decimal(scroll.y as int) + "}"@
}

/// Writes the payload of a wheel event.
pub fn wheel_payload(scroll: InputScroll) -> (result: String)
    ensures
        result@ == wheel_json(scroll),
{
    let mut out = "{\"deltaMode\":0,\"deltaX\":".to_owned();
    out.append(signed_text(scroll.delta_x).as_str());
    out.append(",\"deltaY\":");
    out.append(signed_text(scroll.delta_y).as_str());
    out.append(",\"type\":\"wheel\",\"x\":");
    out.append(signed_text(scroll.x).as_str());
    out.append(",\"y\":");
    out.append(signed_text(scroll.y).as_str());
    out.append("}");
    out
}

/// The payload of a key event.
pub open spec fn key_json(key: InputKey) -> Seq<char> {
    "{\"code\":"@ + decimal(key.code as nat) + ",\"modifiers\":"@ + decimal(key.modifiers as nat)
        + ",\"type\":\"key\",\"value\":"@ + signed_decimal(key.value as int) + "}"@
}

/// Writes the payload of a key event.
pub fn key_payload(key: InputKey) -> (result: String)
    ensures
        result@ == key_json(key),
{
    let mut out = "{\"code\":".to_owned();
    out.append(decimal_text(key.code as u64).as_str());
    out.append(",\"modifiers\":");
    out.append(decimal_text(key.modifiers as u64).as_str());
    out.append(",\"type\":\"key\",\"value\":");
    out.append(signed_text(key.value).as_str());
    out.append("}");
    out
}

/// Writes the payload of a click that a key made.
pub fn keyboard_click_payload() -> (result: String)
    ensures
        result@ == "{\"detail\":0,\"keyboard\":true,\"type\":\"click\"}"@,
{
    "{\"detail\":0,\"keyboard\":true,\"type\":\"click\"}".to_owned()
}

/// Writes the payload of a changed value.
pub fn input_payload(value: &str) -> (result: String)
    ensures
        result@ == "{\"type\":\"input\",\"value\":"@ + json_string(value@) + "}"@,
{
    let mut out = "{\"type\":\"input\",\"value\":".to_owned();
    out.append(quote(value).as_str());
    out.append("}");
    out
}

/// Numbers between commas.
pub open spec fn listed_numbers(list: Seq<u64>) -> Seq<char>
    decreases list.len(),
{
    if list.len() == 0 {
        Seq::empty()
    } else if list.len() == 1 {
        decimal(list[0] as nat)
    } else {
        listed_numbers(list.drop_last()) + ","@ + decimal(list.last() as nat)
    }
}

/// The listeners of a route as an argument: one alone, or an array.
pub open spec fn route_argument(route: Seq<u64>) -> Seq<char> {
    if route.len() == 1 {
        decimal(route[0] as nat)
    } else {
        "["@ + listed_numbers(route) + "]"@
    }
}

/// The call that delivers a payload along a route.
pub open spec fn dispatch_call(route: Seq<u64>, payload: Seq<char>) -> Seq<char> {
    "globalThis.__liteDispatch("@ + route_argument(route) + ","@ + payload + ");"@
}

fn number_list(list: &Vec<u64>) -> (result: String)
    ensures
        result@ == listed_numbers(list@),
{
    let mut out = String::new();
    let mut i: usize = 0;
    assert(list@.take(0) =~= Seq::<u64>::empty());
    assert(out@ =~= listed_numbers(list@.take(0)));
    while i < list.len()
        invariant
            i <= list@.len(),
            out@ == listed_numbers(list@.take(i as int)),
        decreases list@.len() - i,
    {
        let ghost before = out@;
        assert(list@.take(i + 1).drop_last() =~= list@.take(i as int));
        assert(list@.take(i + 1).last() == list@[i as int]);
        if i > 0 {
            out.append(",");
        }
        out.append(decimal_text(list[i]).as_str());
        assert(i == 0 ==> out@ =~= decimal(list@[0] as nat));
        assert(i == 0 ==> list@.take(1)[0] == list@[0]);
        i = i + 1;
    }
    assert(list@.take(i as int) =~= list@);
    out
}

/// Writes the call that delivers a payload along a route, deepest listener
/// first. The whole route enters script at once, so that a listener can stop
/// the event; without a listener there is no call.
pub fn dispatch_script(route: &Vec<u64>, payload: &str) -> (result: Option<String>)
    ensures
        match result {
            Some(script) => route@.len() > 0 && script@ == dispatch_call(route@, payload@),
            None => route@.len() == 0,
        },
{
    if route.len() == 0 {
        return None;
    }
    let argument = if route.len() == 1 {
        decimal_text(route[0])
    } else {
        let mut list = "[".to_owned();
        list.append(number_list(route).as_str());
        list.append("]");
        list
    };
    let mut out = "globalThis.__liteDispatch(".to_owned();
    out.append(argument.as_str());
    out.append(",");
    out.append(payload);
    out.append(");");
    Some(out)
}

/// The channel and the payload of what follows from a display event, where
/// script is told of it.
pub open spec fn routed_message(routed: Routed) -> Option<(Seq<char>, Seq<char>)> {
    match routed {
        Routed::Opened { surface_id, app_id } => Some(
            (
                "desktop"@,
                "{\"surface\":{\"appId\":"@ + json_string(app_id@) + ",\"id\":"@ + decimal(
                    surface_id as nat,
                ) + "},\"type\":\"opened\"}"@,
            ),
        ),
        Routed::Closed { surface_id } => Some(
            (
                "desktop"@,
                "{\"surfaceId\":"@ + decimal(surface_id as nat) + ",\"type\":\"closed\"}"@,
            ),
        ),
        Routed::Activated { surface_id } => Some(
            (
                "desktop"@,
                "{\"surfaceId\":"@ + decimal(surface_id as nat) + ",\"type\":\"activated\"}"@,
            ),
        ),
        Routed::Moved { surface_id, x, y } => Some(
            (
                "desktop"@,
                "{\"surfaceId\":"@ + decimal(surface_id as nat) + ",\"type\":\"moved\",\"x\":"@
                    + decimal(x as nat) + ",\"y\":"@ + decimal(y as nat) + "}"@,
            ),
        ),
        Routed::Configured(configure) => Some(
            (
                "display"@,
                "{\"height\":"@ + decimal(configure.height as nat) + ",\"serial\":"@ + decimal(
                    configure.serial as nat,
                ) + ",\"type\":\"configure\",\"width\":"@ + decimal(configure.width as nat) + "}"@,
            ),
        ),
        Routed::Clipboard { request_id, text } => Some(
            (
                "clipboard"@,
                "{\"requestId\":"@ + decimal(request_id as nat) + ",\"text\":"@ + json_string(text@)
                    + "}"@,
            ),
        ),
        _ => None,
    }
}

fn surface_payload(surface_id: u32, tail: &str) -> (result: String)
    ensures
        result@ == "{\"surfaceId\":"@ + decimal(surface_id as nat) + tail@,
{
    let mut out = "{\"surfaceId\":".to_owned();
    out.append(decimal_text(surface_id as u64).as_str());
    out.append(tail);
    out
}

/// Writes the message that tells script what followed from a display event.
pub fn message(routed: &Routed) -> (result: Option<(&'static str, String)>)
    ensures
        routed_message(*routed) == (match result {
            Some((channel, payload)) => Some((channel@, payload@)),
            None => None,
        }),
{
    match routed {
        Routed::Opened { surface_id, app_id } => {
            let mut out = "{\"surface\":{\"appId\":".to_owned();
            out.append(quote(app_id.as_str()).as_str());
            out.append(",\"id\":");
            out.append(decimal_text(*surface_id as u64).as_str());
            out.append("},\"type\":\"opened\"}");
            Some(("desktop", out))
        },
        Routed::Closed { surface_id } => Some(
            ("desktop", surface_payload(*surface_id, ",\"type\":\"closed\"}")),
        ),
        Routed::Activated { surface_id } => Some(
            ("desktop", surface_payload(*surface_id, ",\"type\":\"activated\"}")),
        ),
        Routed::Moved { surface_id, x, y } => {
            let mut out = surface_payload(*surface_id, ",\"type\":\"moved\",\"x\":");
            out.append(decimal_text(*x as u64).as_str());
            out.append(",\"y\":");
            out.append(decimal_text(*y as u64).as_str());
            out.append("}");
            Some(("desktop", out))
        },
        Routed::Configured(configure) => {
            let mut out = "{\"height\":".to_owned();
            out.append(decimal_text(configure.height as u64).as_str());
            out.append(",\"serial\":");
            out.append(decimal_text(configure.serial).as_str());
            out.append(",\"type\":\"configure\",\"width\":");
            out.append(decimal_text(configure.width as u64).as_str());
            out.append("}");
            Some(("display", out))
        },
        Routed::Clipboard { request_id, text } => {
            let mut out = "{\"requestId\":".to_owned();
            out.append(decimal_text(*request_id).as_str());
            out.append(",\"text\":");
            out.append(quote(text.as_str()).as_str());
            out.append("}");
            Some(("clipboard", out))
        },
        _ => None,
    }
}

} // verus!
