//! What two frames differ in, as damage.

use std::collections::HashMap;
use vstd::prelude::*;
use crate::damage::{bounding, covers_all, listed, same_rects_same_cover};
use crate::overflow::{modes_of, overflow_modes};
use crate::paint::RenderOutput;
use crate::rect::PhysicalRect;
use crate::retained::{
    backdrop, collect_fixed_signatures, collect_local_changes, document_nodes, document_of, fixed,
    fixed_of, has_backdrop, local_changes, retained_views, same_documents, same_retained,
    signature_map, RetainedNode,
};
use crate::style::value_of;
use crate::styled::{render_views, render_views_in_order, RenderNode, RenderView};
use crate::text_control::State;

verus! {

broadcast use vstd::std_specs::hash::group_hash_axioms;

/// How far a container is scrolled, each axis as single-precision bits.
#[derive(Clone, Copy, Debug, PartialEq, Eq, Structural)]
pub struct ScrollOffset {
    pub x: u32,
    pub y: u32,
}

/// What is remembered of a painted frame.
pub struct RetainedGpuFrame {
    pub document: Vec<RetainedNode>,
    pub bounds: HashMap<u64, PhysicalRect>,
    pub scroll_bounds: HashMap<u64, PhysicalRect>,
    pub scroll_offsets: HashMap<u64, ScrollOffset>,
    pub fixed: HashMap<u64, RetainedNode>,
    pub fixed_bounds: HashMap<u64, PhysicalRect>,
    pub focused: Option<u64>,
    pub text_controls: HashMap<u64, State>,
    pub width: usize,
    pub height: usize,
    /// What the frame gave beside its picture, once it was painted.
    pub output: Option<RenderOutput>,
}

/// How a frame is painted.
#[derive(Clone, Copy, Debug, PartialEq, Eq, Structural)]
pub enum GpuPaint {
    /// The previous frame stays.
    Reuse,
    /// One rectangle is painted over the previous frame.
    Partial(PhysicalRect),
    /// Everything is painted.
    Full(PhysicalRect),
}

/// The value of a key, where there is one.
pub open spec fn entry<V>(map: Map<u64, V>, id: u64) -> Option<V> {
    if map.contains_key(id) {
        Some(map[id])
    } else {
        None
    }
}

/// Single-precision bits that stand for no number.
pub open spec fn no_number(bits: u32) -> bool {
    bits % 0x8000_0000 > 0x7f80_0000
}

/// Two single-precision bit patterns stand for the same number. The two zeros
/// are equal, and what is no number equals nothing.
pub open spec fn same_number(a: u32, b: u32) -> bool {
    &&& !no_number(a)
    &&& !no_number(b)
    &&& a == b || (a % 0x8000_0000 == 0 && b % 0x8000_0000 == 0)
}

fn equal_numbers(a: u32, b: u32) -> (result: bool)
    ensures
        result == same_number(a, b),
{
    a % 0x8000_0000 <= 0x7f80_0000 && b % 0x8000_0000 <= 0x7f80_0000 && (a == b || (a % 0x8000_0000
        == 0 && b % 0x8000_0000 == 0))
}

/// A container has the same offset in both frames, or in neither.
pub open spec fn same_offset(a: Option<ScrollOffset>, b: Option<ScrollOffset>) -> bool {
    match (a, b) {
        (Some(a), Some(b)) => same_number(a.x, b.x) && same_number(a.y, b.y),
        (None, None) => true,
        _ => false,
    }
}

fn equal_offsets(a: Option<ScrollOffset>, b: Option<ScrollOffset>) -> (result: bool)
    ensures
        result == same_offset(a, b),
{
    match (a, b) {
        (Some(a), Some(b)) => equal_numbers(a.x, b.x) && equal_numbers(a.y, b.y),
        (None, None) => true,
        _ => false,
    }
}

/// A control has the same editing state in both frames, or in neither.
pub open spec fn same_control(a: Option<State>, b: Option<State>) -> bool {
    match (a, b) {
        (Some(a), Some(b)) => {
            &&& a.anchor == b.anchor
            &&& a.focus == b.focus
            &&& same_number(a.scroll_bits, b.scroll_bits)
        },
        (None, None) => true,
        _ => false,
    }
}

fn equal_controls(a: Option<State>, b: Option<State>) -> (result: bool)
    ensures
        result == same_control(a, b),
{
    match (a, b) {
        (Some(a), Some(b)) => {
            a.anchor == b.anchor && a.focus == b.focus && equal_numbers(a.scroll_bits, b.scroll_bits)
        },
        (None, None) => true,
        _ => false,
    }
}

fn rect_at(map: &HashMap<u64, PhysicalRect>, id: u64) -> (result: Option<PhysicalRect>)
    ensures
        result == entry(map@, id),
{
    match map.get(&id) {
        Some(rect) => Some(*rect),
        None => None,
    }
}

fn keys_of<V>(map: &HashMap<u64, V>) -> (result: Vec<u64>)
    ensures
        forall|id: u64| result@.contains(id) <==> map@.contains_key(id),
{
    let mut keys: Vec<u64> = Vec::new();
    for id in walk: map.keys()
        invariant
            walk.seq().unref().to_set() == map@.dom(),
            forall|k: int| 0 <= k < keys@.len() ==> map@.contains_key(#[trigger] keys@[k]),
            forall|key: u64| #[trigger]
                map@.contains_key(key) ==> keys@.contains(key) || exists|k: int|
                    walk.index() <= k < walk.seq().len() && *#[trigger] walk.seq()[k] == key,
    {
        let ghost before = keys@;
        keys.push(*id);
        proof {
            let all = walk.seq().unref();
            assert(all[walk.index()] == *id);
            assert(all.to_set().contains(*id));
            assert(keys@[before.len() as int] == *id);
            assert forall|key: u64| before.contains(key) implies #[trigger] keys@.contains(key) by {
                let k = choose|k: int| 0 <= k < before.len() && before[k] == key;
                assert(keys@[k] == key);
            }
        }
    }
    keys
}

/// The rectangle of a node in a frame, in the document or in fixed chrome.
pub open spec fn frame_bounds(frame: RetainedGpuFrame, id: u64) -> Option<PhysicalRect> {
    if frame.bounds@.contains_key(id) {
        Some(frame.bounds@[id])
    } else {
        entry(frame.fixed_bounds@, id)
    }
}

/// The rectangle of a node in a frame.
pub fn retained_bounds(frame: &RetainedGpuFrame, id: u64) -> (result: Option<PhysicalRect>)
    ensures
        result == frame_bounds(*frame, id),
{
    match rect_at(&frame.bounds, id) {
        Some(rect) => Some(rect),
        None => rect_at(&frame.fixed_bounds, id),
    }
}

/// A node that did not change locally has another rectangle, or none.
pub open spec fn unexplained(
    old: Map<u64, PhysicalRect>,
    new: Map<u64, PhysicalRect>,
    changed: Seq<u64>,
    moved: Seq<u64>,
) -> bool {
    exists|id: u64| #[trigger]
        old.contains_key(id) && !changed.contains(id) && !moved.contains(id) && entry(new, id)
            != Some(old[id])
}

/// The rectangle that a changed node damages: where it was and where it is.
pub open spec fn change_rect(
    old: Map<u64, PhysicalRect>,
    new: Map<u64, PhysicalRect>,
    id: u64,
) -> Option<PhysicalRect> {
    match (entry(old, id), entry(new, id)) {
        (Some(a), Some(b)) => Some(a.join(b)),
        (Some(a), None) => Some(a),
        (None, Some(b)) => Some(b),
        (None, None) => None,
    }
}

/// The rectangle that a moved node damages, unless it stayed in place.
pub open spec fn move_rect(
    old: Map<u64, PhysicalRect>,
    new: Map<u64, PhysicalRect>,
    id: u64,
) -> Option<PhysicalRect> {
    match (entry(old, id), entry(new, id)) {
        (Some(a), Some(b)) => if a != b {
            Some(a.join(b))
        } else {
            None
        },
        _ => None,
    }
}

/// The rectangles that local changes damage.
pub open spec fn local_rects(
    old: Map<u64, PhysicalRect>,
    new: Map<u64, PhysicalRect>,
    changed: Seq<u64>,
    moved: Seq<u64>,
) -> spec_fn(PhysicalRect) -> bool {
    |r: PhysicalRect|
        !r.void() && {
            ||| exists|id: u64| #[trigger]
                changed.contains(id) && change_rect(old, new, id) == Some(r)
            ||| exists|id: u64| #[trigger] moved.contains(id) && move_rect(old, new, id) == Some(r)
        }
}

fn note(rects: &mut Vec<PhysicalRect>, rect: Option<PhysicalRect>)
    ensures
        forall|r: PhysicalRect|
            #![trigger final(rects)@.contains(r)]
            final(rects)@.contains(r) <==> old(rects)@.contains(r) || (rect == Some(r)
                && !r.void()),
{
    let ghost before = rects@;
    if let Some(rect) = rect {
        if !rect.is_empty() {
            rects.push(rect);
            proof {
                assert(rects@[before.len() as int] == rect);
                assert forall|r: PhysicalRect| before.contains(r) implies rects@.contains(r) by {
                    let k = choose|k: int| 0 <= k < before.len() && before[k] == r;
                    assert(rects@[k] == r);
                }
                assert forall|r: PhysicalRect| rects@.contains(r) && r != rect implies before.contains(
                    r,
                ) by {
                    let k = choose|k: int| 0 <= k < rects@.len() && rects@[k] == r;
                    assert(before[k] == r);
                }
            }
        }
    }
}

fn listed_id(list: &Vec<u64>, id: u64) -> (result: bool)
    ensures
        result == list@.contains(id),
{
    let mut i: usize = 0;
    while i < list.len()
        invariant
            i <= list@.len(),
            forall|k: int| 0 <= k < i ==> list@[k] != id,
        decreases list@.len() - i,
    {
        if list[i] == id {
            assert(list@[i as int] == id);
            return true;
        }
        i = i + 1;
    }
    false
}

fn explained(
    old: &HashMap<u64, PhysicalRect>,
    new: &HashMap<u64, PhysicalRect>,
    changed: &Vec<u64>,
    moved: &Vec<u64>,
) -> (result: bool)
    ensures
        result == !unexplained(old@, new@, changed@, moved@),
{
    let ids = keys_of(old);
    let mut i: usize = 0;
    while i < ids.len()
        invariant
            i <= ids@.len(),
            forall|id: u64| ids@.contains(id) <==> old@.contains_key(id),
            forall|k: int|
                0 <= k < i ==> {
                    let id = #[trigger] ids@[k];
                    changed@.contains(id) || moved@.contains(id) || entry(new@, id) == Some(old@[id])
                },
        decreases ids@.len() - i,
    {
        let id: u64 = ids[i];
        assert(ids@.contains(id));
        if !listed_id(changed, id) && !listed_id(moved, id) && rect_at(new, id) != rect_at(old, id) {
            return false;
        }
        i = i + 1;
    }
    proof {
        assert forall|id: u64| #[trigger]
            old@.contains_key(id) && !changed@.contains(id) && !moved@.contains(id) implies entry(
            new@,
            id,
        ) == Some(old@[id]) by {
            assert(ids@.contains(id));
            let k = choose|k: int| 0 <= k < ids@.len() && ids@[k] == id;
            assert(ids@[k] == id);
        }
    }
    true
}

/// The damage of local changes: nothing where the rectangles of other nodes
/// changed too, or where no pixel is damaged.
pub fn partial_damage(
    old: &HashMap<u64, PhysicalRect>,
    new: &HashMap<u64, PhysicalRect>,
    changed: &Vec<u64>,
    moved: &Vec<u64>,
) -> (result: Option<PhysicalRect>)
    ensures
        if old@.dom().len() != new@.dom().len() || unexplained(old@, new@, changed@, moved@) {
            result is None
        } else {
            covers_all(local_rects(old@, new@, changed@, moved@), result)
        },
{
    if old.len() != new.len() || !explained(old, new, changed, moved) {
        return None;
    }
    let mut rects: Vec<PhysicalRect> = Vec::new();
    let mut i: usize = 0;
    while i < changed.len()
        invariant
            i <= changed@.len(),
            forall|r: PhysicalRect| #[trigger]
                rects@.contains(r) <==> !r.void() && exists|k: int|
                    0 <= k < i && change_rect(old@, new@, #[trigger] changed@[k]) == Some(r),
        decreases changed@.len() - i,
    {
        let id: u64 = changed[i];
        let rect = match (rect_at(old, id), rect_at(new, id)) {
            (Some(a), Some(b)) => Some(a.union(b)),
            (Some(a), None) => Some(a),
            (None, Some(b)) => Some(b),
            (None, None) => None,
        };
        assert(rect == change_rect(old@, new@, changed@[i as int]));
        note(&mut rects, rect);
        i = i + 1;
    }
    let ghost first = rects@;
    let mut j: usize = 0;
    while j < moved.len()
        invariant
            j <= moved@.len(),
            forall|r: PhysicalRect| #[trigger]
                rects@.contains(r) <==> first.contains(r) || (!r.void() && exists|k: int|
                    0 <= k < j && move_rect(old@, new@, #[trigger] moved@[k]) == Some(r)),
        decreases moved@.len() - j,
    {
        let id: u64 = moved[j];
        let rect = match (rect_at(old, id), rect_at(new, id)) {
            (Some(a), Some(b)) => if a != b {
                Some(a.union(b))
            } else {
                None
            },
            _ => None,
        };
        assert(rect == move_rect(old@, new@, moved@[j as int]));
        note(&mut rects, rect);
        j = j + 1;
    }
    let cover = bounding(&rects);
    proof {
        let wanted = local_rects(old@, new@, changed@, moved@);
        assert forall|r: PhysicalRect| #[trigger] listed(rects@)(r) <==> wanted(r) by {
            if rects@.contains(r) {
                if first.contains(r) {
                    let k = choose|k: int|
                        0 <= k < i && change_rect(old@, new@, #[trigger] changed@[k]) == Some(r);
                    assert(changed@.contains(changed@[k]));
                } else {
                    let k = choose|k: int|
                        0 <= k < j && move_rect(old@, new@, #[trigger] moved@[k]) == Some(r);
                    assert(moved@.contains(moved@[k]));
                }
            }
            if wanted(r) {
                if exists|id: u64| #[trigger]
                    changed@.contains(id) && change_rect(old@, new@, id) == Some(r) {
                    let id = choose|id: u64| #[trigger]
                        changed@.contains(id) && change_rect(old@, new@, id) == Some(r);
                    let k = choose|k: int| 0 <= k < changed@.len() && changed@[k] == id;
                    assert(change_rect(old@, new@, changed@[k]) == Some(r));
                    assert(first.contains(r));
                } else {
                    let id = choose|id: u64| #[trigger]
                        moved@.contains(id) && move_rect(old@, new@, id) == Some(r);
                    let k = choose|k: int| 0 <= k < moved@.len() && moved@[k] == id;
                    assert(move_rect(old@, new@, moved@[k]) == Some(r));
                }
            }
        }
        same_rects_same_cover(listed(rects@), wanted, cover);
    }
    cover
}

/// A container's offset changed.
pub open spec fn scrolled(old: RetainedGpuFrame, new: RetainedGpuFrame, id: u64) -> bool {
    !same_offset(entry(old.scroll_offsets@, id), entry(new.scroll_offsets@, id))
}

/// A scrolled container has no known scrollport in one of the frames.
pub open spec fn scrollport_missing(old: RetainedGpuFrame, new: RetainedGpuFrame) -> bool {
    exists|id: u64| #[trigger]
        scrolled(old, new, id) && !(old.scroll_bounds@.contains_key(id)
            && new.scroll_bounds@.contains_key(id))
}

/// The scrollports of scrolled containers, in both frames. A scroll moves every
/// descendant but cannot paint outside the scrollport.
pub open spec fn scroll_rects(
    old: RetainedGpuFrame,
    new: RetainedGpuFrame,
) -> spec_fn(PhysicalRect) -> bool {
    |r: PhysicalRect|
        exists|id: u64| #[trigger]
            scrolled(old, new, id) && r == old.scroll_bounds@[id].join(new.scroll_bounds@[id])
}

fn offset_at(map: &HashMap<u64, ScrollOffset>, id: u64) -> (result: Option<ScrollOffset>)
    ensures
        result == entry(map@, id),
{
    match map.get(&id) {
        Some(offset) => Some(*offset),
        None => None,
    }
}

fn both_keys<V>(a: &HashMap<u64, V>, b: &HashMap<u64, V>) -> (result: Vec<u64>)
    ensures
        forall|id: u64| #[trigger]
            result@.contains(id) <==> a@.contains_key(id) || b@.contains_key(id),
{
    let mut ids = keys_of(a);
    let mut more = keys_of(b);
    let ghost x = ids@;
    let ghost y = more@;
    ids.append(&mut more);
    proof {
        assert forall|id: u64| #[trigger] ids@.contains(id) <==> a@.contains_key(id)
            || b@.contains_key(id) by {
            if ids@.contains(id) {
                let k = choose|k: int| 0 <= k < ids@.len() && ids@[k] == id;
                if k < x.len() {
                    assert(x[k] == id);
                    assert(x.contains(id));
                } else {
                    assert(y[k - x.len()] == id);
                    assert(y.contains(id));
                }
            }
            if a@.contains_key(id) {
                assert(x.contains(id));
                let k = choose|k: int| 0 <= k < x.len() && x[k] == id;
                assert(ids@[k] == id);
            }
            if b@.contains_key(id) {
                assert(y.contains(id));
                let k = choose|k: int| 0 <= k < y.len() && y[k] == id;
                assert(ids@[x.len() + k] == id);
            }
        }
    }
    ids
}

/// The damage of scrolling. It cannot be told where a scrollport is not known.
pub fn changed_scroll_damage(old: &RetainedGpuFrame, new: &RetainedGpuFrame) -> (result: Result<
    Option<PhysicalRect>,
    (),
>)
    ensures
        match result {
            Ok(cover) => !scrollport_missing(*old, *new) && covers_all(
                scroll_rects(*old, *new),
                cover,
            ),
            Err(_) => scrollport_missing(*old, *new),
        },
{
    let ids = both_keys(&old.scroll_offsets, &new.scroll_offsets);
    let mut rects: Vec<PhysicalRect> = Vec::new();
    let mut i: usize = 0;
    while i < ids.len()
        invariant
            i <= ids@.len(),
            forall|id: u64| #[trigger]
                ids@.contains(id) <==> old.scroll_offsets@.contains_key(id)
                    || new.scroll_offsets@.contains_key(id),
            forall|k: int|
                0 <= k < i && scrolled(*old, *new, #[trigger] ids@[k])
                    ==> old.scroll_bounds@.contains_key(ids@[k])
                    && new.scroll_bounds@.contains_key(ids@[k]),
            forall|r: PhysicalRect| #[trigger]
                rects@.contains(r) <==> exists|k: int|
                    0 <= k < i && scrolled(*old, *new, #[trigger] ids@[k]) && r
                        == old.scroll_bounds@[ids@[k]].join(new.scroll_bounds@[ids@[k]]),
        decreases ids@.len() - i,
    {
        let id: u64 = ids[i];
        let ghost before = rects@;
        if !equal_offsets(offset_at(&old.scroll_offsets, id), offset_at(&new.scroll_offsets, id)) {
            assert(scrolled(*old, *new, ids@[i as int]));
            match (rect_at(&old.scroll_bounds, id), rect_at(&new.scroll_bounds, id)) {
                (Some(a), Some(b)) => {
                    let added = a.union(b);
                    rects.push(added);
                    proof {
                        assert(rects@[before.len() as int] == added);
                        assert forall|r: PhysicalRect| before.contains(r) implies rects@.contains(
                            r,
                        ) by {
                            let k = choose|k: int| 0 <= k < before.len() && before[k] == r;
                            assert(rects@[k] == r);
                        }
                        assert forall|r: PhysicalRect| rects@.contains(r) && r
                            != added implies before.contains(r) by {
                            let k = choose|k: int| 0 <= k < rects@.len() && rects@[k] == r;
                            assert(before[k] == r);
                        }
                    }
                },
                _ => {
                    assert(scrollport_missing(*old, *new));
                    return Err(());
                },
            }
        }
        proof {
            assert forall|r: PhysicalRect| #[trigger]
                rects@.contains(r) implies exists|k: int|
                0 <= k < i + 1 && scrolled(*old, *new, #[trigger] ids@[k]) && r
                    == old.scroll_bounds@[ids@[k]].join(new.scroll_bounds@[ids@[k]]) by {
                if before.contains(r) {
                    let k = choose|k: int|
                        0 <= k < i && scrolled(*old, *new, #[trigger] ids@[k]) && r
                            == old.scroll_bounds@[ids@[k]].join(new.scroll_bounds@[ids@[k]]);
                    assert(scrolled(*old, *new, ids@[k]));
                } else {
                    assert(scrolled(*old, *new, ids@[i as int]));
                }
            }
            assert forall|r: PhysicalRect, k: int|
                0 <= k < i + 1 && scrolled(*old, *new, #[trigger] ids@[k]) && r
                    == old.scroll_bounds@[ids@[k]].join(
                    new.scroll_bounds@[ids@[k]],
                ) implies #[trigger] rects@.contains(r) by {
                if k < i {
                    assert(before.contains(r));
                }
            }
        }
        i = i + 1;
    }
    let cover = bounding(&rects);
    proof {
        assert forall|id: u64| #[trigger] scrolled(*old, *new, id) implies exists|k: int|
            0 <= k < ids@.len() && ids@[k] == id by {
            assert(ids@.contains(id));
        }
        let wanted = scroll_rects(*old, *new);
        assert forall|r: PhysicalRect| #[trigger] listed(rects@)(r) <==> wanted(r) by {
            if wanted(r) {
                let id = choose|id: u64| #[trigger]
                    scrolled(*old, *new, id) && r == old.scroll_bounds@[id].join(
                        new.scroll_bounds@[id],
                    );
                let k = choose|k: int| 0 <= k < ids@.len() && ids@[k] == id;
                assert(scrolled(*old, *new, ids@[k]));
                assert(rects@.contains(r));
            }
        }
        same_rects_same_cover(listed(rects@), wanted, cover);
    }
    Ok(cover)
}

/// Fixed chrome appeared, vanished, moved or changed.
pub open spec fn rechromed(old: RetainedGpuFrame, new: RetainedGpuFrame, id: u64) -> bool {
    &&& old.fixed@.contains_key(id) || new.fixed@.contains_key(id)
    &&& entry(signature_map(old.fixed@), id) != entry(signature_map(new.fixed@), id) || entry(
        old.fixed_bounds@,
        id,
    ) != entry(new.fixed_bounds@, id)
}

/// Where changed fixed chrome was and is.
pub open spec fn fixed_rects(
    old: RetainedGpuFrame,
    new: RetainedGpuFrame,
) -> spec_fn(PhysicalRect) -> bool {
    |r: PhysicalRect|
        !r.void() && exists|id: u64| #[trigger]
            rechromed(old, new, id) && (entry(old.fixed_bounds@, id) == Some(r) || entry(
                new.fixed_bounds@,
                id,
            ) == Some(r))
}

fn is_rechromed(old: &RetainedGpuFrame, new: &RetainedGpuFrame, id: u64) -> (result: bool)
    requires
        old.fixed@.contains_key(id) || new.fixed@.contains_key(id),
    ensures
        result == rechromed(*old, *new, id),
{
    let same_tree = match (old.fixed.get(&id), new.fixed.get(&id)) {
        (Some(a), Some(b)) => same_retained(a, b),
        (None, None) => true,
        _ => false,
    };
    !same_tree || rect_at(&old.fixed_bounds, id) != rect_at(&new.fixed_bounds, id)
}

fn fixed_damage(old: &RetainedGpuFrame, new: &RetainedGpuFrame) -> (result: Option<PhysicalRect>)
    ensures
        covers_all(fixed_rects(*old, *new), result),
{
    let ids = both_keys(&old.fixed, &new.fixed);
    let mut rects: Vec<PhysicalRect> = Vec::new();
    let mut i: usize = 0;
    while i < ids.len()
        invariant
            i <= ids@.len(),
            forall|id: u64| #[trigger]
                ids@.contains(id) <==> old.fixed@.contains_key(id) || new.fixed@.contains_key(id),
            forall|r: PhysicalRect| #[trigger]
                rects@.contains(r) <==> !r.void() && exists|k: int|
                    0 <= k < i && rechromed(*old, *new, #[trigger] ids@[k]) && (entry(
                        old.fixed_bounds@,
                        ids@[k],
                    ) == Some(r) || entry(new.fixed_bounds@, ids@[k]) == Some(r)),
        decreases ids@.len() - i,
    {
        let id: u64 = ids[i];
        assert(ids@.contains(id));
        if is_rechromed(old, new, id) {
            note(&mut rects, rect_at(&old.fixed_bounds, id));
            note(&mut rects, rect_at(&new.fixed_bounds, id));
        }
        i = i + 1;
    }
    let cover = bounding(&rects);
    proof {
        let wanted = fixed_rects(*old, *new);
        assert forall|r: PhysicalRect| #[trigger] listed(rects@)(r) <==> wanted(r) by {
            if wanted(r) {
                let id = choose|id: u64| #[trigger]
                    rechromed(*old, *new, id) && (entry(old.fixed_bounds@, id) == Some(r) || entry(
                        new.fixed_bounds@,
                        id,
                    ) == Some(r));
                assert(ids@.contains(id));
                let k = choose|k: int| 0 <= k < ids@.len() && ids@[k] == id;
                assert(rechromed(*old, *new, ids@[k]));
                assert(rects@.contains(r));
            }
        }
        same_rects_same_cover(listed(rects@), wanted, cover);
    }
    cover
}

/// The caret, selection or focus of a control changed.
pub open spec fn recontrolled(old: RetainedGpuFrame, new: RetainedGpuFrame, id: u64) -> bool {
    !same_control(entry(old.text_controls@, id), entry(new.text_controls@, id)) || (old.focused
        == Some(id)) != (new.focused == Some(id))
}

/// Where changed controls were and are.
pub open spec fn control_rects(
    old: RetainedGpuFrame,
    new: RetainedGpuFrame,
) -> spec_fn(PhysicalRect) -> bool {
    |r: PhysicalRect|
        !r.void() && exists|id: u64| #[trigger]
            recontrolled(old, new, id) && (frame_bounds(old, id) == Some(r) || frame_bounds(new, id)
                == Some(r))
}

fn control_at(map: &HashMap<u64, State>, id: u64) -> (result: Option<State>)
    ensures
        result == entry(map@, id),
{
    match map.get(&id) {
        Some(state) => Some(*state),
        None => None,
    }
}

fn control_damage(old: &RetainedGpuFrame, new: &RetainedGpuFrame) -> (result: Option<PhysicalRect>)
    ensures
        covers_all(control_rects(*old, *new), result),
{
    let mut ids = both_keys(&old.text_controls, &new.text_controls);
    let ghost base = ids@;
    if let Some(id) = old.focused {
        ids.push(id);
    }
    if let Some(id) = new.focused {
        ids.push(id);
    }
    proof {
        assert forall|id: u64| base.contains(id) implies #[trigger] ids@.contains(id) by {
            let k = choose|k: int| 0 <= k < base.len() && base[k] == id;
            assert(ids@[k] == id);
        }
        assert forall|id: u64| #[trigger] recontrolled(*old, *new, id) implies ids@.contains(id) by {
            if !same_control(entry(old.text_controls@, id), entry(new.text_controls@, id)) {
                assert(base.contains(id));
            } else if old.focused == Some(id) {
                assert(ids@[base.len() as int] == id);
            } else {
                assert(ids@[ids@.len() - 1] == id);
            }
        }
    }
    let mut rects: Vec<PhysicalRect> = Vec::new();
    let mut i: usize = 0;
    while i < ids.len()
        invariant
            i <= ids@.len(),
            forall|r: PhysicalRect| #[trigger]
                rects@.contains(r) <==> !r.void() && exists|k: int|
                    0 <= k < i && recontrolled(*old, *new, #[trigger] ids@[k]) && (frame_bounds(
                        *old,
                        ids@[k],
                    ) == Some(r) || frame_bounds(*new, ids@[k]) == Some(r)),
        decreases ids@.len() - i,
    {
        let id: u64 = ids[i];
        let was = match old.focused {
            Some(focused) => focused == id,
            None => false,
        };
        let is = match new.focused {
            Some(focused) => focused == id,
            None => false,
        };
        let steady = equal_controls(
            control_at(&old.text_controls, id),
            control_at(&new.text_controls, id),
        );
        if !steady || was != is {
            assert(recontrolled(*old, *new, ids@[i as int]));
            note(&mut rects, retained_bounds(old, id));
            note(&mut rects, retained_bounds(new, id));
        }
        i = i + 1;
    }
    let cover = bounding(&rects);
    proof {
        let wanted = control_rects(*old, *new);
        assert forall|r: PhysicalRect| #[trigger] listed(rects@)(r) <==> wanted(r) by {
            if wanted(r) {
                let id = choose|id: u64| #[trigger]
                    recontrolled(*old, *new, id) && (frame_bounds(*old, id) == Some(r)
                        || frame_bounds(*new, id) == Some(r));
                assert(ids@.contains(id));
                let k = choose|k: int| 0 <= k < ids@.len() && ids@[k] == id;
                assert(recontrolled(*old, *new, ids@[k]));
                assert(rects@.contains(r));
            }
        }
        same_rects_same_cover(listed(rects@), wanted, cover);
    }
    cover
}

/// Either kind of rectangle.
pub open spec fn either(
    a: spec_fn(PhysicalRect) -> bool,
    b: spec_fn(PhysicalRect) -> bool,
) -> spec_fn(PhysicalRect) -> bool {
    |r: PhysicalRect| a(r) || b(r)
}

fn joined(
    a: Option<PhysicalRect>,
    b: Option<PhysicalRect>,
    Ghost(x): Ghost<spec_fn(PhysicalRect) -> bool>,
    Ghost(y): Ghost<spec_fn(PhysicalRect) -> bool>,
) -> (result: Option<PhysicalRect>)
    requires
        covers_all(x, a),
        covers_all(y, b),
    ensures
        covers_all(either(x, y), result),
{
    proof {
        let both = either(x, y);
        assert forall|r: PhysicalRect| x(r) || y(r) implies #[trigger] both(r) by {}
        if let Some(c) = a {
            assert(both(choose|r: PhysicalRect| #[trigger] x(r) && r.x1 == c.x1));
            assert(both(choose|r: PhysicalRect| #[trigger] x(r) && r.y1 == c.y1));
            assert(both(choose|r: PhysicalRect| #[trigger] x(r) && r.x2 == c.x2));
            assert(both(choose|r: PhysicalRect| #[trigger] x(r) && r.y2 == c.y2));
        }
        if let Some(c) = b {
            assert(both(choose|r: PhysicalRect| #[trigger] y(r) && r.x1 == c.x1));
            assert(both(choose|r: PhysicalRect| #[trigger] y(r) && r.y1 == c.y1));
            assert(both(choose|r: PhysicalRect| #[trigger] y(r) && r.x2 == c.x2));
            assert(both(choose|r: PhysicalRect| #[trigger] y(r) && r.y2 == c.y2));
        }
    }
    match (a, b) {
        (Some(p), Some(q)) => Some(p.union(q)),
        (Some(p), None) => Some(p),
        (None, Some(q)) => Some(q),
        (None, None) => None,
    }
}

/// No rectangle.
pub open spec fn nothing() -> spec_fn(PhysicalRect) -> bool {
    |r: PhysicalRect| false
}

/// The document changed.
pub open spec fn redocumented(old: RetainedGpuFrame, new: RetainedGpuFrame) -> bool {
    retained_views(old.document@) != retained_views(new.document@)
}

/// The document's changes are local: nothing reads what is behind it, every
/// change is local, no other node moved, and some pixel is damaged.
pub open spec fn local_document(old: RetainedGpuFrame, new: RetainedGpuFrame) -> bool {
    let changes = local_changes(retained_views(old.document@), retained_views(new.document@));
    &&& !backdrop(retained_views(new.document@))
    &&& changes is Some
    &&& old.bounds@.dom().len() == new.bounds@.dom().len()
    &&& !unexplained(old.bounds@, new.bounds@, (changes->0).0, (changes->0).1)
    &&& exists|r: PhysicalRect| #[trigger] document_rects(old, new)(r)
}

/// The rectangles that the document's changes damage.
pub open spec fn document_rects(
    old: RetainedGpuFrame,
    new: RetainedGpuFrame,
) -> spec_fn(PhysicalRect) -> bool {
    let changes = local_changes(retained_views(old.document@), retained_views(new.document@));
    if redocumented(old, new) {
        local_rects(old.bounds@, new.bounds@, (changes->0).0, (changes->0).1)
    } else {
        nothing()
    }
}

/// Everything has to be painted.
pub open spec fn needs_full(old: Option<RetainedGpuFrame>, new: RetainedGpuFrame) -> bool {
    match old {
        None => true,
        Some(old) => {
            ||| old.width != new.width
            ||| old.height != new.height
            ||| scrollport_missing(old, new)
            ||| redocumented(old, new) && !local_document(old, new)
        },
    }
}

/// All rectangles that differ between two frames.
pub open spec fn changed_rects(
    old: RetainedGpuFrame,
    new: RetainedGpuFrame,
) -> spec_fn(PhysicalRect) -> bool {
    either(
        either(document_rects(old, new), fixed_rects(old, new)),
        either(control_rects(old, new), scroll_rects(old, new)),
    )
}

/// `paint` is how a frame is painted over the previous one: in full where that
/// is needed, else what covers all that differs, or nothing.
pub open spec fn classified(
    old: Option<RetainedGpuFrame>,
    new: RetainedGpuFrame,
    paint: GpuPaint,
) -> bool {
    match paint {
        GpuPaint::Full(rect) => needs_full(old, new) && rect == (PhysicalRect {
            x1: 0,
            y1: 0,
            x2: new.width,
            y2: new.height,
        }),
        GpuPaint::Reuse => !needs_full(old, new) && covers_all(changed_rects(old->0, new), None),
        GpuPaint::Partial(rect) => !needs_full(old, new) && covers_all(
            changed_rects(old->0, new),
            Some(rect),
        ),
    }
}

/// Decides how a frame is painted over the previous one.
pub fn classify_gpu_paint(previous: Option<&RetainedGpuFrame>, current: &RetainedGpuFrame) -> (result:
    GpuPaint)
    ensures
        classified(
            match previous {
                Some(frame) => Some(*frame),
                None => None,
            },
            *current,
            result,
        ),
{
    let full = PhysicalRect { x1: 0, y1: 0, x2: current.width, y2: current.height };
    let old = match previous {
        Some(old) => old,
        None => return GpuPaint::Full(full),
    };
    if old.width != current.width || old.height != current.height {
        return GpuPaint::Full(full);
    }
    let scroll = match changed_scroll_damage(old, current) {
        Ok(scroll) => scroll,
        Err(_) => return GpuPaint::Full(full),
    };
    let document = if same_documents(&old.document, &current.document) {
        assert(covers_all(nothing(), None));
        None
    } else {
        if has_backdrop(&current.document) {
            return GpuPaint::Full(full);
        }
        let changes = match collect_local_changes(&old.document, &current.document) {
            Some(changes) => changes,
            None => return GpuPaint::Full(full),
        };
        let damage = partial_damage(&old.bounds, &current.bounds, &changes.changed, &changes.moved);
        if damage.is_none() {
            return GpuPaint::Full(full);
        }
        proof {
            let wanted = document_rects(*old, *current);
            let c = damage->0;
            let r = choose|r: PhysicalRect|
                #[trigger] local_rects(old.bounds@, current.bounds@, changes.changed@, changes.moved@)(
                    r,
                ) && r.x1 == c.x1;
            assert(wanted(r));
        }
        damage
    };
    let fixed = fixed_damage(old, current);
    let control = control_damage(old, current);
    let upper = joined(
        document,
        fixed,
        Ghost(document_rects(*old, *current)),
        Ghost(fixed_rects(*old, *current)),
    );
    let lower = joined(
        control,
        scroll,
        Ghost(control_rects(*old, *current)),
        Ghost(scroll_rects(*old, *current)),
    );
    let damage = joined(
        upper,
        lower,
        Ghost(either(document_rects(*old, *current), fixed_rects(*old, *current))),
        Ghost(either(control_rects(*old, *current), scroll_rects(*old, *current))),
    );
    match damage {
        None => GpuPaint::Reuse,
        Some(damage) => GpuPaint::Partial(damage),
    }
}

/// A frame that is reused differs from the previous one in no pixel: the
/// document is the same, and nothing visible of fixed chrome, controls or
/// scrollports changed.
pub proof fn reuse_means_nothing_changed(old: RetainedGpuFrame, new: RetainedGpuFrame, id: u64)
    requires
        !needs_full(Some(old), new),
        covers_all(changed_rects(old, new), None),
    ensures
        retained_views(old.document@) == retained_views(new.document@),
        !scrolled(old, new, id),
        rechromed(old, new, id) ==> (entry(old.fixed_bounds@, id) matches Some(r) ==> r.void()) && (
        entry(new.fixed_bounds@, id) matches Some(r) ==> r.void()),
        recontrolled(old, new, id) ==> (frame_bounds(old, id) matches Some(r) ==> r.void()) && (
        frame_bounds(new, id) matches Some(r) ==> r.void()),
{
    let all = changed_rects(old, new);
    if redocumented(old, new) {
        let r = choose|r: PhysicalRect| #[trigger] document_rects(old, new)(r);
        assert(all(r));
    }
    if scrolled(old, new, id) {
        assert(all(old.scroll_bounds@[id].join(new.scroll_bounds@[id])));
    }
    if rechromed(old, new, id) {
        if let Some(r) = entry(old.fixed_bounds@, id) {
            assert(!all(r));
        }
        if let Some(r) = entry(new.fixed_bounds@, id) {
            assert(!all(r));
        }
    }
    if recontrolled(old, new, id) {
        if let Some(r) = frame_bounds(old, id) {
            assert(!all(r));
        }
        if let Some(r) = frame_bounds(new, id) {
            assert(!all(r));
        }
    }
}

/// Where nothing changed, the previous frame is reused.
pub proof fn unchanged_scenes_are_reused(
    old: RetainedGpuFrame,
    new: RetainedGpuFrame,
    paint: GpuPaint,
)
    requires
        classified(Some(old), new, paint),
        old.width == new.width,
        old.height == new.height,
        retained_views(old.document@) == retained_views(new.document@),
        forall|id: u64| !scrolled(old, new, id),
        forall|id: u64| !rechromed(old, new, id),
        forall|id: u64| !recontrolled(old, new, id),
    ensures
        paint is Reuse,
{
    let all = changed_rects(old, new);
    assert forall|r: PhysicalRect| !(#[trigger] all(r)) by {}
}

/// A frame builds on the previous paint only where there is one: the first frame
/// is painted whole.
pub proof fn first_frames_are_painted_whole(new: RetainedGpuFrame, paint: GpuPaint)
    requires
        classified(None, new, paint),
    ensures
        paint == GpuPaint::Full(
            PhysicalRect { x1: 0, y1: 0, x2: new.width, y2: new.height },
        ),
{
}

/// A partial repaint covers every pixel where a changed node was or is.
pub proof fn partial_paint_covers_changes(
    old: RetainedGpuFrame,
    new: RetainedGpuFrame,
    cover: PhysicalRect,
    id: u64,
    x: int,
    y: int,
)
    requires
        !needs_full(Some(old), new),
        covers_all(changed_rects(old, new), Some(cover)),
        recontrolled(old, new, id),
        (frame_bounds(old, id) matches Some(r) && r.holds(x, y)) || (frame_bounds(
            new,
            id,
        ) matches Some(q) && q.holds(x, y)),
    ensures
        cover.holds(x, y),
{
    let all = changed_rects(old, new);
    if let Some(r) = frame_bounds(old, id) {
        if r.holds(x, y) {
            assert(all(r));
        }
    }
    if let Some(r) = frame_bounds(new, id) {
        if r.holds(x, y) {
            assert(all(r));
        }
    }
}

/// The rectangles of a laid-out node.
#[derive(Clone, Copy, Debug, PartialEq, Eq, Structural)]
pub struct NodeRects {
    /// Everything that the node paints, effects among it.
    pub paint: PhysicalRect,
    /// The box inside its border.
    pub port: PhysicalRect,
}

/// Where the rectangles of a frame are remembered.
pub struct BoundsView {
    pub document: Map<u64, PhysicalRect>,
    pub scroll: Map<u64, PhysicalRect>,
    pub fixed: Map<u64, PhysicalRect>,
}

/// The rectangles under a list of nodes, on top of what is known. Hidden trees
/// have none. The outermost fixed node stands for its tree; scrollports are
/// remembered wherever they are.
pub open spec fn bounds_of(
    nodes: Seq<RenderView>,
    rects: Map<u64, NodeRects>,
    fixed_context: bool,
    known: BoundsView,
) -> BoundsView
    decreases nodes,
{
    if nodes.len() == 0 {
        known
    } else {
        let last = nodes.last();
        let before = bounds_of(nodes.drop_last(), rects, fixed_context, known);
        let id = last.source.id;
        let here = rects[id];
        if value_of(last.computed, "display"@) == Some("none"@) || !rects.contains_key(id) {
            before
        } else {
            let modes = modes_of(last.computed);
            let after = BoundsView {
                document: if fixed(last.computed) || fixed_context {
                    before.document
                } else {
                    before.document.insert(id, here.paint)
                },
                scroll: if modes.0.scrolling() || modes.1.scrolling() {
                    before.scroll.insert(id, here.port)
                } else {
                    before.scroll
                },
                fixed: if fixed(last.computed) {
                    before.fixed.insert(id, here.paint)
                } else {
                    before.fixed
                },
            };
            bounds_of(last.children, rects, fixed_context || fixed(last.computed), after)
        }
    }
}

/// The rectangles of a frame.
pub struct FrameBounds {
    pub document: HashMap<u64, PhysicalRect>,
    pub scroll: HashMap<u64, PhysicalRect>,
    pub fixed: HashMap<u64, PhysicalRect>,
}

impl View for FrameBounds {
    type V = BoundsView;

    open spec fn view(&self) -> BoundsView {
        BoundsView {
            document: self.document@,
            scroll: self.scroll@,
            fixed: self.fixed@,
        }
    }
}

/// Remembers the rectangles under a list of nodes. A node that the layout did
/// not reach has none.
pub fn collect_bounds(
    nodes: &Vec<RenderNode>,
    rects: &HashMap<u64, NodeRects>,
    fixed_context: bool,
    bounds: &mut FrameBounds,
)
    ensures
        final(bounds)@ == bounds_of(render_views(nodes@), rects@, fixed_context, old(bounds)@),
    decreases nodes,
{
    let ghost all = render_views(nodes@);
    let ghost known = bounds@;
    proof {
        render_views_in_order(nodes@);
    }
    let mut i: usize = 0;
    while i < nodes.len()
        invariant
            i <= nodes@.len(),
            all == render_views(nodes@),
            all.len() == nodes@.len(),
            forall|k: int| 0 <= k < nodes@.len() ==> #[trigger] all[k] == nodes@[k]@,
            bounds@ == bounds_of(all.take(i as int), rects@, fixed_context, known),
        decreases nodes@.len() - i,
    {
        let node = &nodes[i];
        proof {
            assert(all.take(i + 1).drop_last() =~= all.take(i as int));
            assert(all.take(i + 1).last() == node@);
        }
        let id: u64 = node.source.id;
        if !node.computed.is("display", "none") {
            if let Some(here) = rects.get(&id) {
                let here = *here;
                let is_fixed = node.computed.is("position", "fixed");
                let modes = overflow_modes(&node.computed);
                if is_fixed {
                    bounds.fixed.insert(id, here.paint);
                } else if !fixed_context {
                    bounds.document.insert(id, here.paint);
                }
                if modes.0.scrolls() || modes.1.scrolls() {
                    bounds.scroll.insert(id, here.port);
                }
                collect_bounds(&node.children, rects, fixed_context || is_fixed, bounds);
            }
        }
        i = i + 1;
    }
    assert(all.take(i as int) =~= all);
}

/// Remembers a frame: its document, its fixed chrome, and where everything is.
pub fn snapshot_gpu_frame(
    nodes: &Vec<RenderNode>,
    rects: &HashMap<u64, NodeRects>,
    scroll_offsets: HashMap<u64, ScrollOffset>,
    focused: Option<u64>,
    text_controls: HashMap<u64, State>,
    width: usize,
    height: usize,
) -> (result: RetainedGpuFrame)
    ensures
        retained_views(result.document@) == document_of(render_views(nodes@)),
        signature_map(result.fixed@) == fixed_of(render_views(nodes@), Map::empty()),
        ({
            let bounds = bounds_of(
                render_views(nodes@),
                rects@,
                false,
                BoundsView { document: Map::empty(), scroll: Map::empty(), fixed: Map::empty() },
            );
            &&& result.bounds@ == bounds.document
            &&& result.scroll_bounds@ == bounds.scroll
            &&& result.fixed_bounds@ == bounds.fixed
        }),
        result.scroll_offsets@ == scroll_offsets@,
        result.focused == focused,
        result.text_controls@ == text_controls@,
        result.width == width,
        result.height == height,
        result.output is None,
{
    let document = document_nodes(nodes);
    let mut fixed: HashMap<u64, RetainedNode> = HashMap::new();
    assert(signature_map(fixed@) =~= Map::empty());
    collect_fixed_signatures(nodes, &mut fixed);
    let mut bounds = FrameBounds {
        document: HashMap::new(),
        scroll: HashMap::new(),
        fixed: HashMap::new(),
    };
    assert(bounds@.document =~= Map::empty() && bounds@.scroll =~= Map::empty() && bounds@.fixed
        =~= Map::empty());
    collect_bounds(nodes, rects, false, &mut bounds);
    RetainedGpuFrame {
        document,
        bounds: bounds.document,
        scroll_bounds: bounds.scroll,
        scroll_offsets,
        fixed,
        fixed_bounds: bounds.fixed,
        focused,
        text_controls,
        width,
        height,
        output: None,
    }
}

} // verus!
