//! What is told to script.

use vstd::prelude::*;
use vstd::string::*;
use crate::host::filesystem::{
    bool_text, capacity_text, content_text, descriptor_text, entries_text, entry_text,
    joined_entries, json_string, part_bytes, total_bytes, type_of_path, EntryKind, EntryView,
    Statistics,
};
use crate::host::operations::{
    joined_surfaces, surface_text, surfaces_text, viewport_text,
};
use crate::host::path::path_file_name;
use crate::host::events::{Configure, InputScroll, Routed};
use crate::host::{SurfaceView, DEVICE_SCALE_FACTOR};
use crate::input::script::{
    dispatch_call, key_json, listed_numbers, phase_name, pointer_detail, pointer_json,
    pointer_type, route_argument, routed_message, signed_decimal, wheel_json, PointerMessage,
};
use crate::input::{InputKey, InputPointer, PointerPhase};
use crate::rect::Size;
use crate::text::decimal;

verus! {

/// A text holds a piece at a place.
pub open spec fn says_at(text: Seq<char>, from: int, piece: Seq<char>) -> bool {
    0 <= from && from + piece.len() <= text.len() && text.subrange(from, from + piece.len())
        == piece
}

/// A text gives a value directly behind a name.
pub open spec fn tells(text: Seq<char>, name: Seq<char>, value: Seq<char>) -> bool {
    exists|from: int| #[trigger] says_at(text, from, name + value)
}

proof fn the_end_is_told(before: Seq<char>, name: Seq<char>, value: Seq<char>)
    ensures
        tells(before + name + value, name, value),
{
    let text = before + name + value;
    let from = before.len() as int;
    assert(text.subrange(from, from + (name + value).len()) =~= name + value);
    assert(says_at(text, from, name + value));
}

proof fn more_is_told(text: Seq<char>, more: Seq<char>, name: Seq<char>, value: Seq<char>)
    ensures
        tells(text, name, value) ==> tells(text + more, name, value),
{
    if tells(text, name, value) {
        let piece = name + value;
        let from = choose|from: int| #[trigger] says_at(text, from, piece);
        assert((text + more).subrange(from, from + piece.len()) =~= text.subrange(
            from,
            from + piece.len(),
        ));
        assert(says_at(text + more, from, piece));
    }
}

/// A pointer event tells its buttons, its serial, what it is and where it is.
pub proof fn pointer_events_tell_what_happened(p: InputPointer, message: PointerMessage)
    ensures
        tells(pointer_json(p, message), "{\"button\":"@, decimal(p.button as nat)),
        tells(pointer_json(p, message), ",\"buttons\":"@, decimal(p.buttons as nat)),
        tells(pointer_json(p, message), ",\"serial\":"@, decimal(p.serial as nat)),
        tells(pointer_json(p, message), ",\"type\":\""@, pointer_type(message)),
        tells(pointer_json(p, message), "\",\"x\":"@, signed_decimal(p.x as int)),
        tells(pointer_json(p, message), ",\"y\":"@, signed_decimal(p.y as int)),
{
    the_end_is_told(Seq::empty(), "{\"button\":"@, decimal(p.button as nat));
    let t1 = "{\"button\":"@ + decimal(p.button as nat);
    assert(Seq::<char>::empty() + "{\"button\":"@ + decimal(p.button as nat) =~= t1);
    let t2 = t1 + ",\"buttons\":"@ + decimal(p.buttons as nat);
    the_end_is_told(t1, ",\"buttons\":"@, decimal(p.buttons as nat));
    more_is_told(t1, ",\"buttons\":"@, "{\"button\":"@, decimal(p.button as nat));
    more_is_told(t1 + ",\"buttons\":"@, decimal(p.buttons as nat), "{\"button\":"@, decimal(p.button as nat));
    let t3 = t2 + pointer_detail(message, p.phase);
    more_is_told(t2, pointer_detail(message, p.phase), "{\"button\":"@, decimal(p.button as nat));
    more_is_told(t2, pointer_detail(message, p.phase), ",\"buttons\":"@, decimal(p.buttons as nat));
    let t4 = t3 + ",\"serial\":"@ + decimal(p.serial as nat);
    the_end_is_told(t3, ",\"serial\":"@, decimal(p.serial as nat));
    more_is_told(t3, ",\"serial\":"@, "{\"button\":"@, decimal(p.button as nat));
    more_is_told(t3 + ",\"serial\":"@, decimal(p.serial as nat), "{\"button\":"@, decimal(p.button as nat));
    more_is_told(t3, ",\"serial\":"@, ",\"buttons\":"@, decimal(p.buttons as nat));
    more_is_told(t3 + ",\"serial\":"@, decimal(p.serial as nat), ",\"buttons\":"@, decimal(p.buttons as nat));
    let t5 = t4 + ",\"type\":\""@ + pointer_type(message);
    the_end_is_told(t4, ",\"type\":\""@, pointer_type(message));
    more_is_told(t4, ",\"type\":\""@, "{\"button\":"@, decimal(p.button as nat));
    more_is_told(t4 + ",\"type\":\""@, pointer_type(message), "{\"button\":"@, decimal(p.button as nat));
    more_is_told(t4, ",\"type\":\""@, ",\"buttons\":"@, decimal(p.buttons as nat));
    more_is_told(t4 + ",\"type\":\""@, pointer_type(message), ",\"buttons\":"@, decimal(p.buttons as nat));
    more_is_told(t4, ",\"type\":\""@, ",\"serial\":"@, decimal(p.serial as nat));
    more_is_told(t4 + ",\"type\":\""@, pointer_type(message), ",\"serial\":"@, decimal(p.serial as nat));
    let t6 = t5 + "\",\"x\":"@ + signed_decimal(p.x as int);
    the_end_is_told(t5, "\",\"x\":"@, signed_decimal(p.x as int));
    more_is_told(t5, "\",\"x\":"@, "{\"button\":"@, decimal(p.button as nat));
    more_is_told(t5 + "\",\"x\":"@, signed_decimal(p.x as int), "{\"button\":"@, decimal(p.button as nat));
    more_is_told(t5, "\",\"x\":"@, ",\"buttons\":"@, decimal(p.buttons as nat));
    more_is_told(t5 + "\",\"x\":"@, signed_decimal(p.x as int), ",\"buttons\":"@, decimal(p.buttons as nat));
    more_is_told(t5, "\",\"x\":"@, ",\"serial\":"@, decimal(p.serial as nat));
    more_is_told(t5 + "\",\"x\":"@, signed_decimal(p.x as int), ",\"serial\":"@, decimal(p.serial as nat));
    more_is_told(t5, "\",\"x\":"@, ",\"type\":\""@, pointer_type(message));
    more_is_told(t5 + "\",\"x\":"@, signed_decimal(p.x as int), ",\"type\":\""@, pointer_type(message));
    let t7 = t6 + ",\"y\":"@ + signed_decimal(p.y as int);
    the_end_is_told(t6, ",\"y\":"@, signed_decimal(p.y as int));
    more_is_told(t6, ",\"y\":"@, "{\"button\":"@, decimal(p.button as nat));
    more_is_told(t6 + ",\"y\":"@, signed_decimal(p.y as int), "{\"button\":"@, decimal(p.button as nat));
    more_is_told(t6, ",\"y\":"@, ",\"buttons\":"@, decimal(p.buttons as nat));
    more_is_told(t6 + ",\"y\":"@, signed_decimal(p.y as int), ",\"buttons\":"@, decimal(p.buttons as nat));
    more_is_told(t6, ",\"y\":"@, ",\"serial\":"@, decimal(p.serial as nat));
    more_is_told(t6 + ",\"y\":"@, signed_decimal(p.y as int), ",\"serial\":"@, decimal(p.serial as nat));
    more_is_told(t6, ",\"y\":"@, ",\"type\":\""@, pointer_type(message));
    more_is_told(t6 + ",\"y\":"@, signed_decimal(p.y as int), ",\"type\":\""@, pointer_type(message));
    more_is_told(t6, ",\"y\":"@, "\",\"x\":"@, signed_decimal(p.x as int));
    more_is_told(t6 + ",\"y\":"@, signed_decimal(p.y as int), "\",\"x\":"@, signed_decimal(p.x as int));
    let t8 = t7 + "}"@;
    more_is_told(t7, "}"@, "{\"button\":"@, decimal(p.button as nat));
    more_is_told(t7, "}"@, ",\"buttons\":"@, decimal(p.buttons as nat));
    more_is_told(t7, "}"@, ",\"serial\":"@, decimal(p.serial as nat));
    more_is_told(t7, "}"@, ",\"type\":\""@, pointer_type(message));
    more_is_told(t7, "}"@, "\",\"x\":"@, signed_decimal(p.x as int));
    more_is_told(t7, "}"@, ",\"y\":"@, signed_decimal(p.y as int));
    assert(pointer_json(p, message) == t8);
}

/// A wheel event tells how far it scrolls and where it is.
pub proof fn wheel_events_tell_what_happened(w: InputScroll)
    ensures
        tells(wheel_json(w), "{\"deltaMode\":0,\"deltaX\":"@, signed_decimal(w.delta_x as int)),
        tells(wheel_json(w), ",\"deltaY\":"@, signed_decimal(w.delta_y as int)),
        tells(wheel_json(w), ",\"type\":\"wheel\",\"x\":"@, signed_decimal(w.x as int)),
        tells(wheel_json(w), ",\"y\":"@, signed_decimal(w.y as int)),
{
    the_end_is_told(Seq::empty(), "{\"deltaMode\":0,\"deltaX\":"@, signed_decimal(w.delta_x as int));
    let t1 = "{\"deltaMode\":0,\"deltaX\":"@ + signed_decimal(w.delta_x as int);
    assert(Seq::<char>::empty() + "{\"deltaMode\":0,\"deltaX\":"@ + signed_decimal(w.delta_x as int) =~= t1);
    let t2 = t1 + ",\"deltaY\":"@ + signed_decimal(w.delta_y as int);
    the_end_is_told(t1, ",\"deltaY\":"@, signed_decimal(w.delta_y as int));
    more_is_told(t1, ",\"deltaY\":"@, "{\"deltaMode\":0,\"deltaX\":"@, signed_decimal(w.delta_x as int));
    more_is_told(t1 + ",\"deltaY\":"@, signed_decimal(w.delta_y as int), "{\"deltaMode\":0,\"deltaX\":"@, signed_decimal(w.delta_x as int));
    let t3 = t2 + ",\"type\":\"wheel\",\"x\":"@ + signed_decimal(w.x as int);
    the_end_is_told(t2, ",\"type\":\"wheel\",\"x\":"@, signed_decimal(w.x as int));
    more_is_told(t2, ",\"type\":\"wheel\",\"x\":"@, "{\"deltaMode\":0,\"deltaX\":"@, signed_decimal(w.delta_x as int));
    more_is_told(t2 + ",\"type\":\"wheel\",\"x\":"@, signed_decimal(w.x as int), "{\"deltaMode\":0,\"deltaX\":"@, signed_decimal(w.delta_x as int));
    more_is_told(t2, ",\"type\":\"wheel\",\"x\":"@, ",\"deltaY\":"@, signed_decimal(w.delta_y as int));
    more_is_told(t2 + ",\"type\":\"wheel\",\"x\":"@, signed_decimal(w.x as int), ",\"deltaY\":"@, signed_decimal(w.delta_y as int));
    let t4 = t3 + ",\"y\":"@ + signed_decimal(w.y as int);
    the_end_is_told(t3, ",\"y\":"@, signed_decimal(w.y as int));
    more_is_told(t3, ",\"y\":"@, "{\"deltaMode\":0,\"deltaX\":"@, signed_decimal(w.delta_x as int));
    more_is_told(t3 + ",\"y\":"@, signed_decimal(w.y as int), "{\"deltaMode\":0,\"deltaX\":"@, signed_decimal(w.delta_x as int));
    more_is_told(t3, ",\"y\":"@, ",\"deltaY\":"@, signed_decimal(w.delta_y as int));
    more_is_told(t3 + ",\"y\":"@, signed_decimal(w.y as int), ",\"deltaY\":"@, signed_decimal(w.delta_y as int));
    more_is_told(t3, ",\"y\":"@, ",\"type\":\"wheel\",\"x\":"@, signed_decimal(w.x as int));
    more_is_told(t3 + ",\"y\":"@, signed_decimal(w.y as int), ",\"type\":\"wheel\",\"x\":"@, signed_decimal(w.x as int));
    let t5 = t4 + "}"@;
    more_is_told(t4, "}"@, "{\"deltaMode\":0,\"deltaX\":"@, signed_decimal(w.delta_x as int));
    more_is_told(t4, "}"@, ",\"deltaY\":"@, signed_decimal(w.delta_y as int));
    more_is_told(t4, "}"@, ",\"type\":\"wheel\",\"x\":"@, signed_decimal(w.x as int));
    more_is_told(t4, "}"@, ",\"y\":"@, signed_decimal(w.y as int));
    assert(wheel_json(w) == t5);
}

/// A key event tells its key, the modifiers that are held and what was done with it.
pub proof fn key_events_tell_what_happened(key: InputKey)
    ensures
        tells(key_json(key), "{\"code\":"@, decimal(key.code as nat)),
        tells(key_json(key), ",\"modifiers\":"@, decimal(key.modifiers as nat)),
        tells(key_json(key), ",\"type\":\"key\",\"value\":"@, signed_decimal(key.value as int)),
{
    the_end_is_told(Seq::empty(), "{\"code\":"@, decimal(key.code as nat));
    let t1 = "{\"code\":"@ + decimal(key.code as nat);
    assert(Seq::<char>::empty() + "{\"code\":"@ + decimal(key.code as nat) =~= t1);
    let t2 = t1 + ",\"modifiers\":"@ + decimal(key.modifiers as nat);
    the_end_is_told(t1, ",\"modifiers\":"@, decimal(key.modifiers as nat));
    more_is_told(t1, ",\"modifiers\":"@, "{\"code\":"@, decimal(key.code as nat));
    more_is_told(t1 + ",\"modifiers\":"@, decimal(key.modifiers as nat), "{\"code\":"@, decimal(key.code as nat));
    let t3 = t2 + ",\"type\":\"key\",\"value\":"@ + signed_decimal(key.value as int);
    the_end_is_told(t2, ",\"type\":\"key\",\"value\":"@, signed_decimal(key.value as int));
    more_is_told(t2, ",\"type\":\"key\",\"value\":"@, "{\"code\":"@, decimal(key.code as nat));
    more_is_told(t2 + ",\"type\":\"key\",\"value\":"@, signed_decimal(key.value as int), "{\"code\":"@, decimal(key.code as nat));
    more_is_told(t2, ",\"type\":\"key\",\"value\":"@, ",\"modifiers\":"@, decimal(key.modifiers as nat));
    more_is_told(t2 + ",\"type\":\"key\",\"value\":"@, signed_decimal(key.value as int), ",\"modifiers\":"@, decimal(key.modifiers as nat));
    let t4 = t3 + "}"@;
    more_is_told(t3, "}"@, "{\"code\":"@, decimal(key.code as nat));
    more_is_told(t3, "}"@, ",\"modifiers\":"@, decimal(key.modifiers as nat));
    more_is_told(t3, "}"@, ",\"type\":\"key\",\"value\":"@, signed_decimal(key.value as int));
    assert(key_json(key) == t4);
}

/// A file is told with its path, its name, its size, its type and its time.
pub proof fn files_are_described(path: Seq<char>, name: Seq<char>, size: u64, modified: u64)
    requires
        path_file_name(path) == Some(name),
    ensures
        tells(descriptor_text(path, size, modified), "{\"path\":"@, json_string(path)),
        tells(descriptor_text(path, size, modified), ",\"name\":"@, json_string(name)),
        tells(descriptor_text(path, size, modified), ",\"size\":"@, decimal(size as nat)),
        tells(descriptor_text(path, size, modified), ",\"type\":"@, json_string(type_of_path(path))),
        tells(descriptor_text(path, size, modified), ",\"lastModified\":"@, decimal(modified as nat)),
{
    the_end_is_told(Seq::empty(), "{\"path\":"@, json_string(path));
    let t1 = "{\"path\":"@ + json_string(path);
    assert(Seq::<char>::empty() + "{\"path\":"@ + json_string(path) =~= t1);
    let t2 = t1 + ",\"name\":"@ + json_string(name);
    the_end_is_told(t1, ",\"name\":"@, json_string(name));
    more_is_told(t1, ",\"name\":"@, "{\"path\":"@, json_string(path));
    more_is_told(t1 + ",\"name\":"@, json_string(name), "{\"path\":"@, json_string(path));
    let t3 = t2 + ",\"size\":"@ + decimal(size as nat);
    the_end_is_told(t2, ",\"size\":"@, decimal(size as nat));
    more_is_told(t2, ",\"size\":"@, "{\"path\":"@, json_string(path));
    more_is_told(t2 + ",\"size\":"@, decimal(size as nat), "{\"path\":"@, json_string(path));
    more_is_told(t2, ",\"size\":"@, ",\"name\":"@, json_string(name));
    more_is_told(t2 + ",\"size\":"@, decimal(size as nat), ",\"name\":"@, json_string(name));
    let t4 = t3 + ",\"type\":"@ + json_string(type_of_path(path));
    the_end_is_told(t3, ",\"type\":"@, json_string(type_of_path(path)));
    more_is_told(t3, ",\"type\":"@, "{\"path\":"@, json_string(path));
    more_is_told(t3 + ",\"type\":"@, json_string(type_of_path(path)), "{\"path\":"@, json_string(path));
    more_is_told(t3, ",\"type\":"@, ",\"name\":"@, json_string(name));
    more_is_told(t3 + ",\"type\":"@, json_string(type_of_path(path)), ",\"name\":"@, json_string(name));
    more_is_told(t3, ",\"type\":"@, ",\"size\":"@, decimal(size as nat));
    more_is_told(t3 + ",\"type\":"@, json_string(type_of_path(path)), ",\"size\":"@, decimal(size as nat));
    let t5 = t4 + ",\"lastModified\":"@ + decimal(modified as nat);
    the_end_is_told(t4, ",\"lastModified\":"@, decimal(modified as nat));
    more_is_told(t4, ",\"lastModified\":"@, "{\"path\":"@, json_string(path));
    more_is_told(t4 + ",\"lastModified\":"@, decimal(modified as nat), "{\"path\":"@, json_string(path));
    more_is_told(t4, ",\"lastModified\":"@, ",\"name\":"@, json_string(name));
    more_is_told(t4 + ",\"lastModified\":"@, decimal(modified as nat), ",\"name\":"@, json_string(name));
    more_is_told(t4, ",\"lastModified\":"@, ",\"size\":"@, decimal(size as nat));
    more_is_told(t4 + ",\"lastModified\":"@, decimal(modified as nat), ",\"size\":"@, decimal(size as nat));
    more_is_told(t4, ",\"lastModified\":"@, ",\"type\":"@, json_string(type_of_path(path)));
    more_is_told(t4 + ",\"lastModified\":"@, decimal(modified as nat), ",\"type\":"@, json_string(type_of_path(path)));
    let t6 = t5 + "}"@;
    more_is_told(t5, "}"@, "{\"path\":"@, json_string(path));
    more_is_told(t5, "}"@, ",\"name\":"@, json_string(name));
    more_is_told(t5, "}"@, ",\"size\":"@, decimal(size as nat));
    more_is_told(t5, "}"@, ",\"type\":"@, json_string(type_of_path(path)));
    more_is_told(t5, "}"@, ",\"lastModified\":"@, decimal(modified as nat));
    assert(descriptor_text(path, size, modified) == t6);
}

/// An entry of a directory is told with its name, its kind, its size and its time.
pub proof fn entries_are_described(e: EntryView)
    ensures
        tells(entry_text(e), "{\"name\":"@, json_string(e.name)),
        tells(entry_text(e), ",\"kind\":"@, json_string(e.kind.label())),
        tells(entry_text(e), ",\"size\":"@, decimal(e.size as nat)),
        tells(entry_text(e), ",\"mtime\":"@, decimal(e.mtime as nat)),
{
    the_end_is_told(Seq::empty(), "{\"name\":"@, json_string(e.name));
    let t1 = "{\"name\":"@ + json_string(e.name);
    assert(Seq::<char>::empty() + "{\"name\":"@ + json_string(e.name) =~= t1);
    let t2 = t1 + ",\"kind\":"@ + json_string(e.kind.label());
    the_end_is_told(t1, ",\"kind\":"@, json_string(e.kind.label()));
    more_is_told(t1, ",\"kind\":"@, "{\"name\":"@, json_string(e.name));
    more_is_told(t1 + ",\"kind\":"@, json_string(e.kind.label()), "{\"name\":"@, json_string(e.name));
    let t3 = t2 + ",\"size\":"@ + decimal(e.size as nat);
    the_end_is_told(t2, ",\"size\":"@, decimal(e.size as nat));
    more_is_told(t2, ",\"size\":"@, "{\"name\":"@, json_string(e.name));
    more_is_told(t2 + ",\"size\":"@, decimal(e.size as nat), "{\"name\":"@, json_string(e.name));
    more_is_told(t2, ",\"size\":"@, ",\"kind\":"@, json_string(e.kind.label()));
    more_is_told(t2 + ",\"size\":"@, decimal(e.size as nat), ",\"kind\":"@, json_string(e.kind.label()));
    let t4 = t3 + ",\"mtime\":"@ + decimal(e.mtime as nat);
    the_end_is_told(t3, ",\"mtime\":"@, decimal(e.mtime as nat));
    more_is_told(t3, ",\"mtime\":"@, "{\"name\":"@, json_string(e.name));
    more_is_told(t3 + ",\"mtime\":"@, decimal(e.mtime as nat), "{\"name\":"@, json_string(e.name));
    more_is_told(t3, ",\"mtime\":"@, ",\"kind\":"@, json_string(e.kind.label()));
    more_is_told(t3 + ",\"mtime\":"@, decimal(e.mtime as nat), ",\"kind\":"@, json_string(e.kind.label()));
    more_is_told(t3, ",\"mtime\":"@, ",\"size\":"@, decimal(e.size as nat));
    more_is_told(t3 + ",\"mtime\":"@, decimal(e.mtime as nat), ",\"size\":"@, decimal(e.size as nat));
    let t5 = t4 + "}"@;
    more_is_told(t4, "}"@, "{\"name\":"@, json_string(e.name));
    more_is_told(t4, "}"@, ",\"kind\":"@, json_string(e.kind.label()));
    more_is_told(t4, "}"@, ",\"size\":"@, decimal(e.size as nat));
    more_is_told(t4, "}"@, ",\"mtime\":"@, decimal(e.mtime as nat));
    assert(entry_text(e) == t5);
}

/// The content of a file is told with its path and whether it is cut.
pub proof fn contents_are_described(path: Seq<char>, content: Seq<char>, truncated: bool)
    ensures
        tells(content_text(path, content, truncated), "{\"path\":"@, json_string(path)),
        tells(content_text(path, content, truncated), ",\"content\":"@, json_string(content)),
        tells(content_text(path, content, truncated), ",\"truncated\":"@, bool_text(truncated)),
{
    the_end_is_told(Seq::empty(), "{\"path\":"@, json_string(path));
    let t1 = "{\"path\":"@ + json_string(path);
    assert(Seq::<char>::empty() + "{\"path\":"@ + json_string(path) =~= t1);
    let t2 = t1 + ",\"content\":"@ + json_string(content);
    the_end_is_told(t1, ",\"content\":"@, json_string(content));
    more_is_told(t1, ",\"content\":"@, "{\"path\":"@, json_string(path));
    more_is_told(t1 + ",\"content\":"@, json_string(content), "{\"path\":"@, json_string(path));
    let t3 = t2 + ",\"truncated\":"@ + bool_text(truncated);
    the_end_is_told(t2, ",\"truncated\":"@, bool_text(truncated));
    more_is_told(t2, ",\"truncated\":"@, "{\"path\":"@, json_string(path));
    more_is_told(t2 + ",\"truncated\":"@, bool_text(truncated), "{\"path\":"@, json_string(path));
    more_is_told(t2, ",\"truncated\":"@, ",\"content\":"@, json_string(content));
    more_is_told(t2 + ",\"truncated\":"@, bool_text(truncated), ",\"content\":"@, json_string(content));
    let t4 = t3 + "}"@;
    more_is_told(t3, "}"@, "{\"path\":"@, json_string(path));
    more_is_told(t3, "}"@, ",\"content\":"@, json_string(content));
    more_is_told(t3, "}"@, ",\"truncated\":"@, bool_text(truncated));
    assert(content_text(path, content, truncated) == t4);
}

/// A listing is told with its path, its entries and whether it is cut.
pub proof fn listings_are_described(path: Seq<char>, entries: Seq<EntryView>, truncated: bool)
    ensures
        tells(entries_text(path, entries, truncated), "{\"path\":"@, json_string(path)),
        tells(entries_text(path, entries, truncated), ",\"entries\":["@, joined_entries(entries, entries.len() as int)),
        tells(entries_text(path, entries, truncated), "],\"truncated\":"@, bool_text(truncated)),
{
    the_end_is_told(Seq::empty(), "{\"path\":"@, json_string(path));
    let t1 = "{\"path\":"@ + json_string(path);
    assert(Seq::<char>::empty() + "{\"path\":"@ + json_string(path) =~= t1);
    let t2 = t1 + ",\"entries\":["@ + joined_entries(entries, entries.len() as int);
    the_end_is_told(t1, ",\"entries\":["@, joined_entries(entries, entries.len() as int));
    more_is_told(t1, ",\"entries\":["@, "{\"path\":"@, json_string(path));
    more_is_told(t1 + ",\"entries\":["@, joined_entries(entries, entries.len() as int), "{\"path\":"@, json_string(path));
    let t3 = t2 + "],\"truncated\":"@ + bool_text(truncated);
    the_end_is_told(t2, "],\"truncated\":"@, bool_text(truncated));
    more_is_told(t2, "],\"truncated\":"@, "{\"path\":"@, json_string(path));
    more_is_told(t2 + "],\"truncated\":"@, bool_text(truncated), "{\"path\":"@, json_string(path));
    more_is_told(t2, "],\"truncated\":"@, ",\"entries\":["@, joined_entries(entries, entries.len() as int));
    more_is_told(t2 + "],\"truncated\":"@, bool_text(truncated), ",\"entries\":["@, joined_entries(entries, entries.len() as int));
    let t4 = t3 + "}"@;
    more_is_told(t3, "}"@, "{\"path\":"@, json_string(path));
    more_is_told(t3, "}"@, ",\"entries\":["@, joined_entries(entries, entries.len() as int));
    more_is_told(t3, "}"@, "],\"truncated\":"@, bool_text(truncated));
    assert(entries_text(path, entries, truncated) == t4);
}

/// The room on a disk is told in all, as used and as available.
pub proof fn room_is_described(path: Seq<char>, s: Statistics)
    requires
        path.len() > 0 && path[0] == '/' && !path.contains('\0'),
    ensures
        tells(capacity_text(path, Ok(s)), "{\"path\":"@, json_string(path)),
        tells(capacity_text(path, Ok(s)), ",\"totalBytes\":"@, decimal(total_bytes(s) as nat)),
        tells(capacity_text(path, Ok(s)), ",\"usedBytes\":"@, decimal((total_bytes(s) - part_bytes(s, s.free_blocks)) as nat)),
        tells(capacity_text(path, Ok(s)), ",\"availableBytes\":"@, decimal(part_bytes(s, s.available_blocks) as nat)),
{
    the_end_is_told(Seq::empty(), "{\"path\":"@, json_string(path));
    let t1 = "{\"path\":"@ + json_string(path);
    assert(Seq::<char>::empty() + "{\"path\":"@ + json_string(path) =~= t1);
    let t2 = t1 + ",\"totalBytes\":"@ + decimal(total_bytes(s) as nat);
    the_end_is_told(t1, ",\"totalBytes\":"@, decimal(total_bytes(s) as nat));
    more_is_told(t1, ",\"totalBytes\":"@, "{\"path\":"@, json_string(path));
    more_is_told(t1 + ",\"totalBytes\":"@, decimal(total_bytes(s) as nat), "{\"path\":"@, json_string(path));
    let t3 = t2 + ",\"usedBytes\":"@ + decimal((total_bytes(s) - part_bytes(s, s.free_blocks)) as nat);
    the_end_is_told(t2, ",\"usedBytes\":"@, decimal((total_bytes(s) - part_bytes(s, s.free_blocks)) as nat));
    more_is_told(t2, ",\"usedBytes\":"@, "{\"path\":"@, json_string(path));
    more_is_told(t2 + ",\"usedBytes\":"@, decimal((total_bytes(s) - part_bytes(s, s.free_blocks)) as nat), "{\"path\":"@, json_string(path));
    more_is_told(t2, ",\"usedBytes\":"@, ",\"totalBytes\":"@, decimal(total_bytes(s) as nat));
    more_is_told(t2 + ",\"usedBytes\":"@, decimal((total_bytes(s) - part_bytes(s, s.free_blocks)) as nat), ",\"totalBytes\":"@, decimal(total_bytes(s) as nat));
    let t4 = t3 + ",\"availableBytes\":"@ + decimal(part_bytes(s, s.available_blocks) as nat);
    the_end_is_told(t3, ",\"availableBytes\":"@, decimal(part_bytes(s, s.available_blocks) as nat));
    more_is_told(t3, ",\"availableBytes\":"@, "{\"path\":"@, json_string(path));
    more_is_told(t3 + ",\"availableBytes\":"@, decimal(part_bytes(s, s.available_blocks) as nat), "{\"path\":"@, json_string(path));
    more_is_told(t3, ",\"availableBytes\":"@, ",\"totalBytes\":"@, decimal(total_bytes(s) as nat));
    more_is_told(t3 + ",\"availableBytes\":"@, decimal(part_bytes(s, s.available_blocks) as nat), ",\"totalBytes\":"@, decimal(total_bytes(s) as nat));
    more_is_told(t3, ",\"availableBytes\":"@, ",\"usedBytes\":"@, decimal((total_bytes(s) - part_bytes(s, s.free_blocks)) as nat));
    more_is_told(t3 + ",\"availableBytes\":"@, decimal(part_bytes(s, s.available_blocks) as nat), ",\"usedBytes\":"@, decimal((total_bytes(s) - part_bytes(s, s.free_blocks)) as nat));
    let t5 = t4 + "}"@;
    more_is_told(t4, "}"@, "{\"path\":"@, json_string(path));
    more_is_told(t4, "}"@, ",\"totalBytes\":"@, decimal(total_bytes(s) as nat));
    more_is_told(t4, "}"@, ",\"usedBytes\":"@, decimal((total_bytes(s) - part_bytes(s, s.free_blocks)) as nat));
    more_is_told(t4, "}"@, ",\"availableBytes\":"@, decimal(part_bytes(s, s.available_blocks) as nat));
    assert(capacity_text(path, Ok(s)) == t5);
}

/// The screen is told by its width and its height.
pub proof fn screens_are_described(size: Size)
    ensures
        tells(viewport_text(size), "{\"width\":"@, decimal(size.width as nat)),
        tells(viewport_text(size), ",\"height\":"@, decimal(size.height as nat)),
{
    the_end_is_told(Seq::empty(), "{\"width\":"@, decimal(size.width as nat));
    let t1 = "{\"width\":"@ + decimal(size.width as nat);
    assert(Seq::<char>::empty() + "{\"width\":"@ + decimal(size.width as nat) =~= t1);
    let t2 = t1 + ",\"height\":"@ + decimal(size.height as nat);
    the_end_is_told(t1, ",\"height\":"@, decimal(size.height as nat));
    more_is_told(t1, ",\"height\":"@, "{\"width\":"@, decimal(size.width as nat));
    more_is_told(t1 + ",\"height\":"@, decimal(size.height as nat), "{\"width\":"@, decimal(size.width as nat));
    let t3 = t2 + ",\"devicePixelRatio\":"@;
    more_is_told(t2, ",\"devicePixelRatio\":"@, "{\"width\":"@, decimal(size.width as nat));
    more_is_told(t2, ",\"devicePixelRatio\":"@, ",\"height\":"@, decimal(size.height as nat));
    let t4 = t3 + decimal(DEVICE_SCALE_FACTOR as nat);
    more_is_told(t3, decimal(DEVICE_SCALE_FACTOR as nat), "{\"width\":"@, decimal(size.width as nat));
    more_is_told(t3, decimal(DEVICE_SCALE_FACTOR as nat), ",\"height\":"@, decimal(size.height as nat));
    let t5 = t4 + "}"@;
    more_is_told(t4, "}"@, "{\"width\":"@, decimal(size.width as nat));
    more_is_told(t4, "}"@, ",\"height\":"@, decimal(size.height as nat));
    assert(viewport_text(size) == t5);
}

/// A surface is told with its identity, its app, its title, its icon and its place.
pub proof fn surfaces_are_described(s: SurfaceView)
    ensures
        tells(surface_text(s), "{\"id\":"@, decimal(s.id as nat)),
        tells(surface_text(s), ",\"appId\":"@, json_string(s.app_id)),
        tells(surface_text(s), ",\"title\":"@, json_string(s.title)),
        tells(surface_text(s), ",\"icon\":"@, json_string(s.icon)),
        tells(surface_text(s), ",\"bounds\":{\"x\":"@, decimal(s.bounds.x as nat)),
        tells(surface_text(s), ",\"y\":"@, decimal(s.bounds.y as nat)),
        tells(surface_text(s), ",\"width\":"@, decimal(s.bounds.width as nat)),
        tells(surface_text(s), ",\"height\":"@, decimal(s.bounds.height as nat)),
{
    the_end_is_told(Seq::empty(), "{\"id\":"@, decimal(s.id as nat));
    let t1 = "{\"id\":"@ + decimal(s.id as nat);
    assert(Seq::<char>::empty() + "{\"id\":"@ + decimal(s.id as nat) =~= t1);
    let t2 = t1 + ",\"appId\":"@ + json_string(s.app_id);
    the_end_is_told(t1, ",\"appId\":"@, json_string(s.app_id));
    more_is_told(t1, ",\"appId\":"@, "{\"id\":"@, decimal(s.id as nat));
    more_is_told(t1 + ",\"appId\":"@, json_string(s.app_id), "{\"id\":"@, decimal(s.id as nat));
    let t3 = t2 + ",\"title\":"@ + json_string(s.title);
    the_end_is_told(t2, ",\"title\":"@, json_string(s.title));
    more_is_told(t2, ",\"title\":"@, "{\"id\":"@, decimal(s.id as nat));
    more_is_told(t2 + ",\"title\":"@, json_string(s.title), "{\"id\":"@, decimal(s.id as nat));
    more_is_told(t2, ",\"title\":"@, ",\"appId\":"@, json_string(s.app_id));
    more_is_told(t2 + ",\"title\":"@, json_string(s.title), ",\"appId\":"@, json_string(s.app_id));
    let t4 = t3 + ",\"icon\":"@ + json_string(s.icon);
    the_end_is_told(t3, ",\"icon\":"@, json_string(s.icon));
    more_is_told(t3, ",\"icon\":"@, "{\"id\":"@, decimal(s.id as nat));
    more_is_told(t3 + ",\"icon\":"@, json_string(s.icon), "{\"id\":"@, decimal(s.id as nat));
    more_is_told(t3, ",\"icon\":"@, ",\"appId\":"@, json_string(s.app_id));
    more_is_told(t3 + ",\"icon\":"@, json_string(s.icon), ",\"appId\":"@, json_string(s.app_id));
    more_is_told(t3, ",\"icon\":"@, ",\"title\":"@, json_string(s.title));
    more_is_told(t3 + ",\"icon\":"@, json_string(s.icon), ",\"title\":"@, json_string(s.title));
    let t5 = t4 + ",\"bounds\":{\"x\":"@ + decimal(s.bounds.x as nat);
    the_end_is_told(t4, ",\"bounds\":{\"x\":"@, decimal(s.bounds.x as nat));
    more_is_told(t4, ",\"bounds\":{\"x\":"@, "{\"id\":"@, decimal(s.id as nat));
    more_is_told(t4 + ",\"bounds\":{\"x\":"@, decimal(s.bounds.x as nat), "{\"id\":"@, decimal(s.id as nat));
    more_is_told(t4, ",\"bounds\":{\"x\":"@, ",\"appId\":"@, json_string(s.app_id));
    more_is_told(t4 + ",\"bounds\":{\"x\":"@, decimal(s.bounds.x as nat), ",\"appId\":"@, json_string(s.app_id));
    more_is_told(t4, ",\"bounds\":{\"x\":"@, ",\"title\":"@, json_string(s.title));
    more_is_told(t4 + ",\"bounds\":{\"x\":"@, decimal(s.bounds.x as nat), ",\"title\":"@, json_string(s.title));
    more_is_told(t4, ",\"bounds\":{\"x\":"@, ",\"icon\":"@, json_string(s.icon));
    more_is_told(t4 + ",\"bounds\":{\"x\":"@, decimal(s.bounds.x as nat), ",\"icon\":"@, json_string(s.icon));
    let t6 = t5 + ",\"y\":"@ + decimal(s.bounds.y as nat);
    the_end_is_told(t5, ",\"y\":"@, decimal(s.bounds.y as nat));
    more_is_told(t5, ",\"y\":"@, "{\"id\":"@, decimal(s.id as nat));
    more_is_told(t5 + ",\"y\":"@, decimal(s.bounds.y as nat), "{\"id\":"@, decimal(s.id as nat));
    more_is_told(t5, ",\"y\":"@, ",\"appId\":"@, json_string(s.app_id));
    more_is_told(t5 + ",\"y\":"@, decimal(s.bounds.y as nat), ",\"appId\":"@, json_string(s.app_id));
    more_is_told(t5, ",\"y\":"@, ",\"title\":"@, json_string(s.title));
    more_is_told(t5 + ",\"y\":"@, decimal(s.bounds.y as nat), ",\"title\":"@, json_string(s.title));
    more_is_told(t5, ",\"y\":"@, ",\"icon\":"@, json_string(s.icon));
    more_is_told(t5 + ",\"y\":"@, decimal(s.bounds.y as nat), ",\"icon\":"@, json_string(s.icon));
    more_is_told(t5, ",\"y\":"@, ",\"bounds\":{\"x\":"@, decimal(s.bounds.x as nat));
    more_is_told(t5 + ",\"y\":"@, decimal(s.bounds.y as nat), ",\"bounds\":{\"x\":"@, decimal(s.bounds.x as nat));
    let t7 = t6 + ",\"width\":"@ + decimal(s.bounds.width as nat);
    the_end_is_told(t6, ",\"width\":"@, decimal(s.bounds.width as nat));
    more_is_told(t6, ",\"width\":"@, "{\"id\":"@, decimal(s.id as nat));
    more_is_told(t6 + ",\"width\":"@, decimal(s.bounds.width as nat), "{\"id\":"@, decimal(s.id as nat));
    more_is_told(t6, ",\"width\":"@, ",\"appId\":"@, json_string(s.app_id));
    more_is_told(t6 + ",\"width\":"@, decimal(s.bounds.width as nat), ",\"appId\":"@, json_string(s.app_id));
    more_is_told(t6, ",\"width\":"@, ",\"title\":"@, json_string(s.title));
    more_is_told(t6 + ",\"width\":"@, decimal(s.bounds.width as nat), ",\"title\":"@, json_string(s.title));
    more_is_told(t6, ",\"width\":"@, ",\"icon\":"@, json_string(s.icon));
    more_is_told(t6 + ",\"width\":"@, decimal(s.bounds.width as nat), ",\"icon\":"@, json_string(s.icon));
    more_is_told(t6, ",\"width\":"@, ",\"bounds\":{\"x\":"@, decimal(s.bounds.x as nat));
    more_is_told(t6 + ",\"width\":"@, decimal(s.bounds.width as nat), ",\"bounds\":{\"x\":"@, decimal(s.bounds.x as nat));
    more_is_told(t6, ",\"width\":"@, ",\"y\":"@, decimal(s.bounds.y as nat));
    more_is_told(t6 + ",\"width\":"@, decimal(s.bounds.width as nat), ",\"y\":"@, decimal(s.bounds.y as nat));
    let t8 = t7 + ",\"height\":"@ + decimal(s.bounds.height as nat);
    the_end_is_told(t7, ",\"height\":"@, decimal(s.bounds.height as nat));
    more_is_told(t7, ",\"height\":"@, "{\"id\":"@, decimal(s.id as nat));
    more_is_told(t7 + ",\"height\":"@, decimal(s.bounds.height as nat), "{\"id\":"@, decimal(s.id as nat));
    more_is_told(t7, ",\"height\":"@, ",\"appId\":"@, json_string(s.app_id));
    more_is_told(t7 + ",\"height\":"@, decimal(s.bounds.height as nat), ",\"appId\":"@, json_string(s.app_id));
    more_is_told(t7, ",\"height\":"@, ",\"title\":"@, json_string(s.title));
    more_is_told(t7 + ",\"height\":"@, decimal(s.bounds.height as nat), ",\"title\":"@, json_string(s.title));
    more_is_told(t7, ",\"height\":"@, ",\"icon\":"@, json_string(s.icon));
    more_is_told(t7 + ",\"height\":"@, decimal(s.bounds.height as nat), ",\"icon\":"@, json_string(s.icon));
    more_is_told(t7, ",\"height\":"@, ",\"bounds\":{\"x\":"@, decimal(s.bounds.x as nat));
    more_is_told(t7 + ",\"height\":"@, decimal(s.bounds.height as nat), ",\"bounds\":{\"x\":"@, decimal(s.bounds.x as nat));
    more_is_told(t7, ",\"height\":"@, ",\"y\":"@, decimal(s.bounds.y as nat));
    more_is_told(t7 + ",\"height\":"@, decimal(s.bounds.height as nat), ",\"y\":"@, decimal(s.bounds.y as nat));
    more_is_told(t7, ",\"height\":"@, ",\"width\":"@, decimal(s.bounds.width as nat));
    more_is_told(t7 + ",\"height\":"@, decimal(s.bounds.height as nat), ",\"width\":"@, decimal(s.bounds.width as nat));
    let t9 = t8 + "}}"@;
    more_is_told(t8, "}}"@, "{\"id\":"@, decimal(s.id as nat));
    more_is_told(t8, "}}"@, ",\"appId\":"@, json_string(s.app_id));
    more_is_told(t8, "}}"@, ",\"title\":"@, json_string(s.title));
    more_is_told(t8, "}}"@, ",\"icon\":"@, json_string(s.icon));
    more_is_told(t8, "}}"@, ",\"bounds\":{\"x\":"@, decimal(s.bounds.x as nat));
    more_is_told(t8, "}}"@, ",\"y\":"@, decimal(s.bounds.y as nat));
    more_is_told(t8, "}}"@, ",\"width\":"@, decimal(s.bounds.width as nat));
    more_is_told(t8, "}}"@, ",\"height\":"@, decimal(s.bounds.height as nat));
    assert(surface_text(s) == t9);
}

/// A moved window is told with where it is.
pub proof fn moved_windows_are_told(id: u32, x: u32, y: u32)
    ensures
        tells((routed_message(Routed::Moved { surface_id: id, x, y })->0).1, "{\"surfaceId\":"@, decimal(id as nat)),
        tells((routed_message(Routed::Moved { surface_id: id, x, y })->0).1, ",\"type\":\"moved\",\"x\":"@, decimal(x as nat)),
        tells((routed_message(Routed::Moved { surface_id: id, x, y })->0).1, ",\"y\":"@, decimal(y as nat)),
{
    the_end_is_told(Seq::empty(), "{\"surfaceId\":"@, decimal(id as nat));
    let t1 = "{\"surfaceId\":"@ + decimal(id as nat);
    assert(Seq::<char>::empty() + "{\"surfaceId\":"@ + decimal(id as nat) =~= t1);
    let t2 = t1 + ",\"type\":\"moved\",\"x\":"@ + decimal(x as nat);
    the_end_is_told(t1, ",\"type\":\"moved\",\"x\":"@, decimal(x as nat));
    more_is_told(t1, ",\"type\":\"moved\",\"x\":"@, "{\"surfaceId\":"@, decimal(id as nat));
    more_is_told(t1 + ",\"type\":\"moved\",\"x\":"@, decimal(x as nat), "{\"surfaceId\":"@, decimal(id as nat));
    let t3 = t2 + ",\"y\":"@ + decimal(y as nat);
    the_end_is_told(t2, ",\"y\":"@, decimal(y as nat));
    more_is_told(t2, ",\"y\":"@, "{\"surfaceId\":"@, decimal(id as nat));
    more_is_told(t2 + ",\"y\":"@, decimal(y as nat), "{\"surfaceId\":"@, decimal(id as nat));
    more_is_told(t2, ",\"y\":"@, ",\"type\":\"moved\",\"x\":"@, decimal(x as nat));
    more_is_told(t2 + ",\"y\":"@, decimal(y as nat), ",\"type\":\"moved\",\"x\":"@, decimal(x as nat));
    let t4 = t3 + "}"@;
    more_is_told(t3, "}"@, "{\"surfaceId\":"@, decimal(id as nat));
    more_is_told(t3, "}"@, ",\"type\":\"moved\",\"x\":"@, decimal(x as nat));
    more_is_told(t3, "}"@, ",\"y\":"@, decimal(y as nat));
    assert((routed_message(Routed::Moved { surface_id: id, x, y })->0).1 == t4);
}

/// A new size of the screen is told with its serial.
pub proof fn new_screen_sizes_are_told(c: Configure)
    ensures
        tells((routed_message(Routed::Configured(c))->0).1, "{\"height\":"@, decimal(c.height as nat)),
        tells((routed_message(Routed::Configured(c))->0).1, ",\"serial\":"@, decimal(c.serial as nat)),
        tells((routed_message(Routed::Configured(c))->0).1, ",\"type\":\"configure\",\"width\":"@, decimal(c.width as nat)),
{
    the_end_is_told(Seq::empty(), "{\"height\":"@, decimal(c.height as nat));
    let t1 = "{\"height\":"@ + decimal(c.height as nat);
    assert(Seq::<char>::empty() + "{\"height\":"@ + decimal(c.height as nat) =~= t1);
    let t2 = t1 + ",\"serial\":"@ + decimal(c.serial as nat);
    the_end_is_told(t1, ",\"serial\":"@, decimal(c.serial as nat));
    more_is_told(t1, ",\"serial\":"@, "{\"height\":"@, decimal(c.height as nat));
    more_is_told(t1 + ",\"serial\":"@, decimal(c.serial as nat), "{\"height\":"@, decimal(c.height as nat));
    let t3 = t2 + ",\"type\":\"configure\",\"width\":"@ + decimal(c.width as nat);
    the_end_is_told(t2, ",\"type\":\"configure\",\"width\":"@, decimal(c.width as nat));
    more_is_told(t2, ",\"type\":\"configure\",\"width\":"@, "{\"height\":"@, decimal(c.height as nat));
    more_is_told(t2 + ",\"type\":\"configure\",\"width\":"@, decimal(c.width as nat), "{\"height\":"@, decimal(c.height as nat));
    more_is_told(t2, ",\"type\":\"configure\",\"width\":"@, ",\"serial\":"@, decimal(c.serial as nat));
    more_is_told(t2 + ",\"type\":\"configure\",\"width\":"@, decimal(c.width as nat), ",\"serial\":"@, decimal(c.serial as nat));
    let t4 = t3 + "}"@;
    more_is_told(t3, "}"@, "{\"height\":"@, decimal(c.height as nat));
    more_is_told(t3, "}"@, ",\"serial\":"@, decimal(c.serial as nat));
    more_is_told(t3, "}"@, ",\"type\":\"configure\",\"width\":"@, decimal(c.width as nat));
    assert((routed_message(Routed::Configured(c))->0).1 == t4);
}

/// Clicks are told apart from the events that lead to them, and events from each
/// other by their phase.
pub proof fn events_are_told_apart()
    ensures
        pointer_type(PointerMessage::Plain) == "pointer"@,
        pointer_type(PointerMessage::Click) == "click"@,
        pointer_type(PointerMessage::DoubleClick) == "dblclick"@,
        phase_name(PointerPhase::Motion) == "motion"@,
        phase_name(PointerPhase::Down) == "down"@,
        phase_name(PointerPhase::Up) == "up"@,
        forall|phase: PointerPhase|
            pointer_detail(PointerMessage::Click, phase) != #[trigger] pointer_detail(
                PointerMessage::DoubleClick,
                phase,
            ),
        forall|phase: PointerPhase|
            tells(
                #[trigger] pointer_detail(PointerMessage::Plain, phase),
                ",\"phase\":\""@,
                phase_name(phase),
            ),
{
    reveal_strlit(",\"detail\":1");
    reveal_strlit(",\"detail\":2");
    assert(",\"detail\":1"@[10] == '1' && ",\"detail\":2"@[10] == '2');
    assert forall|phase: PointerPhase|
        tells(
            #[trigger] pointer_detail(PointerMessage::Plain, phase),
            ",\"phase\":\""@,
            phase_name(phase),
        ) by {
        let name = ",\"phase\":\""@;
        the_end_is_told(Seq::empty(), name, phase_name(phase));
        assert(Seq::<char>::empty() + name + phase_name(phase) =~= name + phase_name(phase));
        more_is_told(name + phase_name(phase), "\""@, name, phase_name(phase));
    }
}

/// Numbers below zero are written with a sign.
pub proof fn negative_numbers_have_a_sign(n: nat)
    ensures
        signed_decimal(n as int) == decimal(n),
        n > 0 ==> signed_decimal(-(n as int)) == seq!['-'] + decimal(n),
{
    reveal_strlit("-");
    assert("-"@ =~= seq!['-']);
}

/// The listeners on a route are given in order with commas between them, in
/// brackets unless there is only one.
pub proof fn routes_are_listed(route: Seq<u64>, next: u64, payload: Seq<char>)
    ensures
        listed_numbers(seq![next]) == decimal(next as nat),
        route.len() > 0 ==> listed_numbers(route.push(next)) == listed_numbers(route) + ","@
            + decimal(next as nat),
        route_argument(seq![next]) == decimal(next as nat),
        route.len() > 1 ==> route_argument(route) == "["@ + listed_numbers(route) + "]"@,
        tells(dispatch_call(route, payload), ","@, payload),
        tells(dispatch_call(route, payload), "globalThis.__liteDispatch("@, route_argument(route)),
{
    if route.len() > 0 {
        assert(route.push(next).drop_last() =~= route);
    }
    let name = "globalThis.__liteDispatch("@;
    let argument = route_argument(route);
    the_end_is_told(Seq::empty(), name, argument);
    assert(Seq::<char>::empty() + name + argument =~= name + argument);
    more_is_told(name + argument, ","@, name, argument);
    more_is_told(name + argument + ","@, payload, name, argument);
    more_is_told(name + argument + ","@ + payload, ");"@, name, argument);
    the_end_is_told(name + argument, ","@, payload);
    more_is_told(name + argument + ","@ + payload, ");"@, ","@, payload);
}

/// News of windows go to the desktop, sizes to the display and texts to the
/// clipboard.
pub proof fn news_go_to_their_channel(routed: Routed)
    ensures
        routed is Opened || routed is Closed || routed is Activated || routed is Moved ==> (
        routed_message(routed) matches Some(message) && message.0 == "desktop"@),
        routed is Configured ==> (routed_message(routed) matches Some(message) && message.0
            == "display"@),
        routed is Clipboard ==> (routed_message(routed) matches Some(message) && message.0
            == "clipboard"@),
        routed matches Routed::Closed { surface_id } ==> tells(
            (routed_message(routed)->0).1,
            "{\"surfaceId\":"@,
            decimal(surface_id as nat),
        ),
        routed matches Routed::Activated { surface_id } ==> tells(
            (routed_message(routed)->0).1,
            "{\"surfaceId\":"@,
            decimal(surface_id as nat),
        ),
        routed matches Routed::Closed { surface_id } ==> routed_message(routed) != routed_message(
            Routed::Activated { surface_id },
        ),
{
    if let Routed::Closed { surface_id } = routed {
        about_a_surface(surface_id, ",\"type\":\"closed\"}"@);
        reveal_strlit(",\"type\":\"closed\"}");
        reveal_strlit(",\"type\":\"activated\"}");
        let closed = (routed_message(routed)->0).1;
        let activated = (routed_message(Routed::Activated { surface_id })->0).1;
        assert(closed.len() != activated.len());
    }
    if let Routed::Activated { surface_id } = routed {
        about_a_surface(surface_id, ",\"type\":\"activated\"}"@);
    }
}

proof fn about_a_surface(id: u32, rest: Seq<char>)
    ensures
        tells(
            "{\"surfaceId\":"@ + decimal(id as nat) + rest,
            "{\"surfaceId\":"@,
            decimal(id as nat),
        ),
{
    let name = "{\"surfaceId\":"@;
    let value = decimal(id as nat);
    the_end_is_told(Seq::empty(), name, value);
    assert(Seq::<char>::empty() + name + value =~= name + value);
    more_is_told(name + value, rest, name, value);
}

/// Lists are given in order with commas between them.
pub proof fn lists_are_joined(
    entries: Seq<EntryView>,
    entry: EntryView,
    surfaces: Seq<SurfaceView>,
    surface: SurfaceView,
    n: int,
)
    ensures
        joined_entries(seq![entry], 1) == entry_text(entry),
        0 < n < entries.len() ==> joined_entries(entries, n + 1) == joined_entries(entries, n)
            + ","@ + entry_text(entries[n]),
        joined_surfaces(seq![surface], 1) == surface_text(surface),
        0 < n < surfaces.len() ==> joined_surfaces(surfaces, n + 1) == joined_surfaces(surfaces, n)
            + ","@ + surface_text(surfaces[n]),
        tells(surfaces_text(surfaces), "["@, joined_surfaces(surfaces, surfaces.len() as int)),
        EntryKind::File.label() == "file"@,
        EntryKind::Directory.label() == "dir"@,
        EntryKind::Symlink.label() == "symlink"@,
        EntryKind::Other.label() == "other"@,
        bool_text(true) == "true"@,
        bool_text(false) == "false"@,
{
    let all = joined_surfaces(surfaces, surfaces.len() as int);
    the_end_is_told(Seq::empty(), "["@, all);
    assert(Seq::<char>::empty() + "["@ + all =~= "["@ + all);
    more_is_told("["@ + all, "]"@, "["@, all);
}

} // verus!
