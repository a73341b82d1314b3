//! Kernel object events.

use vstd::prelude::*;

verus! {

/// `start..end` is one field of a datagram: it stands between zero bytes or the
/// ends, and holds none.
pub open spec fn field_at(bytes: Seq<u8>, start: int, end: int) -> bool {
    &&& 0 <= start <= end <= bytes.len()
    &&& start == 0 || bytes[start - 1] == 0
    &&& end == bytes.len() || bytes[end] == 0
    &&& forall|k: int| start <= k < end ==> bytes[k] != 0
}

/// The datagram has a field with this text.
pub open spec fn has_field(bytes: Seq<u8>, text: Seq<u8>) -> bool {
    exists|start: int, end: int|
        #[trigger] field_at(bytes, start, end) && bytes.subrange(start, end) == text
}

/// The bytes of `SUBSYSTEM=drm`.
pub open spec fn drm_field() -> Seq<u8> {
    seq![83u8, 85, 66, 83, 89, 83, 84, 69, 77, 61, 100, 114, 109]
}

/// The bytes of `HOTPLUG=1`.
pub open spec fn hotplug_field() -> Seq<u8> {
    seq![72u8, 79, 84, 80, 76, 85, 71, 61, 49]
}

fn equals(bytes: &[u8], start: usize, end: usize, text: &[u8]) -> (result: bool)
    requires
        start <= end <= bytes@.len(),
    ensures
        result == (bytes@.subrange(start as int, end as int) == text@),
{
    if end - start != text.len() {
        return false;
    }
    let length: usize = bytes.len();
    let mut i: usize = 0;
    while i < text.len()
        invariant
            end - start == text@.len(),
            start <= end <= bytes@.len(),
            bytes@.len() == length,
            i <= text@.len(),
            forall|k: int| 0 <= k < i ==> bytes@[start + k] == text@[k],
        decreases text@.len() - i,
    {
        if bytes[start + i] != text[i] {
            assert(bytes@.subrange(start as int, end as int)[i as int] != text@[i as int]);
            return false;
        }
        i = i + 1;
    }
    assert(bytes@.subrange(start as int, end as int) =~= text@);
    true
}

proof fn fields_are_unique(bytes: Seq<u8>, start: int, end: int, other: int)
    requires
        field_at(bytes, start, end),
        field_at(bytes, start, other),
    ensures
        end == other,
{
    if end < other {
        assert(bytes[end] != 0);
    } else if other < end {
        assert(bytes[other] != 0);
    }
}

/// No field with this text begins before `start`.
pub open spec fn absent_before(bytes: Seq<u8>, text: Seq<u8>, start: int) -> bool {
    forall|s: int, e: int|
        #[trigger] field_at(bytes, s, e) && s < start ==> bytes.subrange(s, e) != text
}

fn find_field(bytes: &[u8], text: &[u8]) -> (result: bool)
    ensures
        result == has_field(bytes@, text@),
{
    let length: usize = bytes.len();
    let mut start: usize = 0;
    loop
        invariant
            bytes@.len() == length,
            start <= length,
            start == 0 || bytes@[start - 1] == 0,
            absent_before(bytes@, text@, start as int),
        decreases length - start,
    {
        let mut end: usize = start;
        while end < length && bytes[end] != 0
            invariant
                bytes@.len() == length,
                start <= end <= length,
                forall|k: int| start <= k < end ==> bytes@[k] != 0,
            decreases length - end,
        {
            end = end + 1;
        }
        assert(field_at(bytes@, start as int, end as int));
        if equals(bytes, start, end, text) {
            return true;
        }
        proof {
            assert forall|s: int, e: int|
                #[trigger] field_at(bytes@, s, e) && s < end + 1 implies bytes@.subrange(s, e)
                != text@ by {
                if s == start {
                    fields_are_unique(bytes@, s, e, end as int);
                } else if s > start {
                    assert(bytes@[s - 1] != 0);
                }
            }
        }
        if end == length {
            assert(absent_before(bytes@, text@, length + 1));
            return false;
        }
        start = end + 1;
    }
}

/// Whether a datagram reports a DRM hotplug: it has both standard fields,
/// exactly.
pub fn is_drm_hotplug(bytes: &[u8]) -> (result: bool)
    ensures
        result == (has_field(bytes@, drm_field()) && has_field(bytes@, hotplug_field())),
{
    let drm: [u8; 13] = [83, 85, 66, 83, 89, 83, 84, 69, 77, 61, 100, 114, 109];
    let hotplug: [u8; 9] = [72, 79, 84, 80, 76, 85, 71, 61, 49];
    assert(drm@ =~= drm_field());
    assert(hotplug@ =~= hotplug_field());
    let has_drm = find_field(bytes, drm.as_slice());
    let has_hotplug = find_field(bytes, hotplug.as_slice());
    has_drm && has_hotplug
}

} // verus!
