//! What a repaint owes the screen.

use vstd::prelude::*;
use vstd::string::*;
use crate::damage::covers_all;
use crate::rect::PhysicalRect;
use crate::retained::frame::{
    bounds_of, change_rect, changed_rects, classified, control_rects, document_rects, fixed_rects,
    local_rects, move_rect, nothing, recontrolled, redocumented, same_number, scroll_rects, scrolled,
    unexplained, BoundsView, GpuPaint, NodeRects, RetainedGpuFrame,
};
use crate::retained::{
    backdrop, descendant_ids, local_changes, local_paint_properties, node_change, retained_views,
    retransformed, RetainedView,
};
use crate::style::{agree_outside, value_of};
use crate::styled::RenderView;
use crate::tree::{kept, left_out, prop_of};

verus! {

/// The pixel lies in the rectangle.
pub open spec fn pixel_in(r: PhysicalRect, x: int, y: int) -> bool {
    r.x1 <= x && x < r.x2 && r.y1 <= y && y < r.y2
}

/// The pixel lies in the rectangle of a node, where it has one.
pub open spec fn node_pixel(rects: Map<u64, PhysicalRect>, id: u64, x: int, y: int) -> bool {
    rects.contains_key(id) && pixel_in(rects[id], x, y)
}

/// Local damage holds every pixel where a changed node was and every pixel where
/// it is.
pub proof fn changed_nodes_are_erased_and_drawn(
    old: Map<u64, PhysicalRect>,
    new: Map<u64, PhysicalRect>,
    changed: Seq<u64>,
    moved: Seq<u64>,
    cover: Option<PhysicalRect>,
    id: u64,
    x: int,
    y: int,
)
    requires
        covers_all(local_rects(old, new, changed, moved), cover),
        changed.contains(id),
        node_pixel(old, id, x, y) || node_pixel(new, id, x, y),
    ensures
        cover is Some,
        pixel_in(cover->0, x, y),
{
    let wanted = local_rects(old, new, changed, moved);
    let r = change_rect(old, new, id);
    assert(r is Some);
    assert(wanted(r->0));
}

/// Local damage holds every pixel where a node that moved with its ancestor was
/// and every pixel where it is.
pub proof fn moved_nodes_are_erased_and_drawn(
    old: Map<u64, PhysicalRect>,
    new: Map<u64, PhysicalRect>,
    changed: Seq<u64>,
    moved: Seq<u64>,
    cover: Option<PhysicalRect>,
    id: u64,
    x: int,
    y: int,
)
    requires
        covers_all(local_rects(old, new, changed, moved), cover),
        moved.contains(id),
        old.contains_key(id),
        new.contains_key(id),
        old[id] != new[id],
        node_pixel(old, id, x, y) || node_pixel(new, id, x, y),
    ensures
        cover is Some,
        pixel_in(cover->0, x, y),
{
    let wanted = local_rects(old, new, changed, moved);
    let r = move_rect(old, new, id);
    assert(r is Some);
    assert(wanted(r->0));
}

/// Local damage is no larger than it has to be: each of its sides is the side of
/// a rectangle that a changed or moved node has in one of the frames.
pub proof fn local_damage_is_tight(
    old: Map<u64, PhysicalRect>,
    new: Map<u64, PhysicalRect>,
    changed: Seq<u64>,
    moved: Seq<u64>,
    cover: PhysicalRect,
)
    requires
        covers_all(local_rects(old, new, changed, moved), Some(cover)),
    ensures
        exists|id: u64|
            (#[trigger] changed.contains(id) || moved.contains(id)) && ((old.contains_key(id)
                && old[id].x1 == cover.x1) || (new.contains_key(id) && new[id].x1 == cover.x1)),
        exists|id: u64|
            (#[trigger] changed.contains(id) || moved.contains(id)) && ((old.contains_key(id)
                && old[id].y1 == cover.y1) || (new.contains_key(id) && new[id].y1 == cover.y1)),
        exists|id: u64|
            (#[trigger] changed.contains(id) || moved.contains(id)) && ((old.contains_key(id)
                && old[id].x2 == cover.x2) || (new.contains_key(id) && new[id].x2 == cover.x2)),
        exists|id: u64|
            (#[trigger] changed.contains(id) || moved.contains(id)) && ((old.contains_key(id)
                && old[id].y2 == cover.y2) || (new.contains_key(id) && new[id].y2 == cover.y2)),
{
    let wanted = local_rects(old, new, changed, moved);
    let left = choose|r: PhysicalRect| #[trigger] wanted(r) && r.x1 == cover.x1;
    let top = choose|r: PhysicalRect| #[trigger] wanted(r) && r.y1 == cover.y1;
    let right = choose|r: PhysicalRect| #[trigger] wanted(r) && r.x2 == cover.x2;
    let bottom = choose|r: PhysicalRect| #[trigger] wanted(r) && r.y2 == cover.y2;
    let a = damaging_node(old, new, changed, moved, left);
    let b = damaging_node(old, new, changed, moved, top);
    let c = damaging_node(old, new, changed, moved, right);
    let d = damaging_node(old, new, changed, moved, bottom);
    assert(changed.contains(a) || moved.contains(a));
    assert(changed.contains(b) || moved.contains(b));
    assert(changed.contains(c) || moved.contains(c));
    assert(changed.contains(d) || moved.contains(d));
}

proof fn damaging_node(
    old: Map<u64, PhysicalRect>,
    new: Map<u64, PhysicalRect>,
    changed: Seq<u64>,
    moved: Seq<u64>,
    r: PhysicalRect,
) -> (id: u64)
    requires
        local_rects(old, new, changed, moved)(r),
    ensures
        changed.contains(id) || moved.contains(id),
        change_rect(old, new, id) == Some(r),
{
    if exists|id: u64| #[trigger] changed.contains(id) && change_rect(old, new, id) == Some(r) {
        choose|id: u64| #[trigger] changed.contains(id) && change_rect(old, new, id) == Some(r)
    } else {
        choose|id: u64| #[trigger] moved.contains(id) && move_rect(old, new, id) == Some(r)
    }
}

/// A partial repaint erases and draws every node of the document whose rectangle
/// is not the same in both frames.
pub proof fn partial_repaints_follow_the_layout(
    old: RetainedGpuFrame,
    new: RetainedGpuFrame,
    cover: PhysicalRect,
    id: u64,
    x: int,
    y: int,
)
    requires
        classified(Some(old), new, GpuPaint::Partial(cover)),
        redocumented(old, new),
        old.bounds@.contains_key(id),
        new.bounds@.contains_key(id),
        old.bounds@[id] != new.bounds@[id],
        node_pixel(old.bounds@, id, x, y) || node_pixel(new.bounds@, id, x, y),
    ensures
        pixel_in(cover, x, y),
{
    let changes = local_changes(retained_views(old.document@), retained_views(new.document@))->0;
    let all = changed_rects(old, new);
    let wanted = document_rects(old, new);
    assert(changes.0.contains(id) || changes.1.contains(id)) by {
        if !changes.0.contains(id) && !changes.1.contains(id) {
            assert(unexplained(old.bounds@, new.bounds@, changes.0, changes.1));
        }
    }
    let r = change_rect(old.bounds@, new.bounds@, id)->0;
    if changes.0.contains(id) {
        assert(wanted(r));
    } else {
        assert(move_rect(old.bounds@, new.bounds@, id) == Some(r));
        assert(wanted(r));
    }
    assert(all(r));
}

/// A partial repaint erases and draws every node that changed locally, also
/// where it kept its rectangle.
pub proof fn partial_repaints_draw_changed_nodes(
    old: RetainedGpuFrame,
    new: RetainedGpuFrame,
    cover: PhysicalRect,
    id: u64,
    x: int,
    y: int,
)
    requires
        classified(Some(old), new, GpuPaint::Partial(cover)),
        redocumented(old, new),
        (local_changes(retained_views(old.document@), retained_views(new.document@))->0).0.contains(
            id,
        ),
        node_pixel(old.bounds@, id, x, y) || node_pixel(new.bounds@, id, x, y),
    ensures
        pixel_in(cover, x, y),
{
    let all = changed_rects(old, new);
    let wanted = document_rects(old, new);
    let r = change_rect(old.bounds@, new.bounds@, id)->0;
    assert(wanted(r));
    assert(all(r));
}

/// Every node that looks different is among the changed ones, in every place of
/// the document, and the trees have the same shape.
pub proof fn every_difference_is_found(old: Seq<RetainedView>, new: Seq<RetainedView>, i: int)
    requires
        local_changes(old, new) is Some,
        0 <= i < old.len(),
    ensures
        new.len() == old.len(),
        old[i].source.id == new[i].source.id,
        old[i].source.kind == new[i].source.kind,
        old[i].children.len() == new[i].children.len(),
        old[i].computed != new[i].computed || old[i].paint_text != new[i].paint_text
            || old[i].source != new[i].source ==> (local_changes(old, new)->0).0.contains(
            new[i].source.id,
        ),
        local_changes(old[i].children, new[i].children) is Some,
        forall|id: u64|
            (local_changes(old[i].children, new[i].children)->0).0.contains(id) ==> (
            #[trigger] (local_changes(old, new)->0).0.contains(id)),
        forall|id: u64|
            (local_changes(old[i].children, new[i].children)->0).1.contains(id) ==> (
            #[trigger] (local_changes(old, new)->0).1.contains(id)),
        value_of(old[i].computed, "transform"@) != value_of(new[i].computed, "transform"@)
            ==> forall|id: u64|
            descendant_ids(new[i].children).contains(id) ==> (#[trigger] (local_changes(
                old,
                new,
            )->0).1.contains(id)),
    decreases old.len(),
{
    let n = old.len() - 1;
    let before = local_changes(old.drop_last(), new.drop_last())->0;
    let all = local_changes(old, new)->0;
    let last = old.last();
    let next = new.last();
    let below = local_changes(last.children, next.children)->0;
    let changes = node_change(last, next)->0;
    let own = if changes {
        before.0.push(next.source.id)
    } else {
        before.0
    };
    let moving = if changes && retransformed(last, next) {
        before.1 + descendant_ids(next.children)
    } else {
        before.1
    };
    assert(all == (own + below.0, moving + below.1));
    assert forall|id: u64| before.0.contains(id) || below.0.contains(id) implies all.0.contains(
        id,
    ) by {
        if before.0.contains(id) {
            let k = choose|k: int| 0 <= k < before.0.len() && before.0[k] == id;
            assert(all.0[k] == id);
        } else {
            let k = choose|k: int| 0 <= k < below.0.len() && below.0[k] == id;
            assert(all.0[own.len() + k] == id);
        }
    }
    assert forall|id: u64| before.1.contains(id) || below.1.contains(id) implies all.1.contains(
        id,
    ) by {
        if before.1.contains(id) {
            let k = choose|k: int| 0 <= k < before.1.len() && before.1[k] == id;
            assert(all.1[k] == id);
        } else {
            let k = choose|k: int| 0 <= k < below.1.len() && below.1[k] == id;
            assert(all.1[moving.len() + k] == id);
        }
    }
    if i < n {
        every_difference_is_found(old.drop_last(), new.drop_last(), i);
        assert(old.drop_last()[i] == old[i]);
        assert(new.drop_last()[i] == new[i]);
        if value_of(old[i].computed, "transform"@) != value_of(new[i].computed, "transform"@) {
            assert forall|id: u64| descendant_ids(new[i].children).contains(id) implies (
            #[trigger] all.1.contains(id)) by {
                assert(before.1.contains(id));
            }
        }
    } else {
        if changes {
            assert(own[before.0.len() as int] == next.source.id);
            assert(all.0[before.0.len() as int] == next.source.id);
        }
        if value_of(last.computed, "transform"@) != value_of(next.computed, "transform"@) {
            assert forall|id: u64| descendant_ids(next.children).contains(id) implies (
            #[trigger] all.1.contains(id)) by {
                let ids = descendant_ids(next.children);
                let k = choose|k: int| 0 <= k < ids.len() && ids[k] == id;
                assert(all.1[before.1.len() + k] == id);
            }
        }
    }
}

/// The nodes under a list, at every depth, are among its descendants.
pub proof fn descendants_are_complete(nodes: Seq<RetainedView>, i: int)
    requires
        0 <= i < nodes.len(),
    ensures
        descendant_ids(nodes).contains(nodes[i].source.id),
        forall|id: u64| #[trigger]
            descendant_ids(nodes[i].children).contains(id) ==> descendant_ids(nodes).contains(id),
    decreases nodes.len(),
{
    let front = descendant_ids(nodes.drop_last());
    let own = front.push(nodes.last().source.id);
    let below = descendant_ids(nodes.last().children);
    let all = descendant_ids(nodes);
    assert(all == own + below);
    assert forall|id: u64| front.contains(id) implies all.contains(id) by {
        let k = choose|k: int| 0 <= k < front.len() && front[k] == id;
        assert(all[k] == id);
    }
    if i < nodes.len() - 1 {
        descendants_are_complete(nodes.drop_last(), i);
        assert(nodes.drop_last()[i] == nodes[i]);
    } else {
        assert(all[front.len() as int] == nodes.last().source.id);
        assert forall|id: u64| #[trigger] below.contains(id) implies all.contains(id) by {
            let k = choose|k: int| 0 <= k < below.len() && below[k] == id;
            assert(all[own.len() + k] == id);
        }
    }
}

/// A node that looks the same in both frames is not among the changed ones,
/// unless another node has its identity.
pub proof fn equal_documents_have_no_changes(nodes: Seq<RetainedView>)
    ensures
        local_changes(nodes, nodes) == Some((Seq::<u64>::empty(), Seq::<u64>::empty())),
    decreases nodes,
{
    if nodes.len() > 0 {
        equal_documents_have_no_changes(nodes.drop_last());
        equal_documents_have_no_changes(nodes.last().children);
        let none = Seq::<u64>::empty();
        assert(none + none =~= none);
    }
}

/// Properties that reach beyond one box.
pub open spec fn reaches_others(name: Seq<char>) -> bool {
    ||| name == "display"@
    ||| name == "position"@
    ||| name == "opacity"@
    ||| name == "z-index"@
    ||| name == "overflow"@
    ||| name == "padding"@
    ||| name == "margin"@
    ||| name == "font-size"@
    ||| name == "font-family"@
    ||| name == "font-weight"@
    ||| name == "line-height"@
    ||| name == "white-space"@
    ||| name == "flex-direction"@
    ||| name == "flex-grow"@
    ||| name == "gap"@
    ||| name == "border-width"@
    ||| name == "backdrop-filter"@
}

/// A change of a property that reaches other boxes is never local.
pub proof fn far_reaching_changes_are_not_local(
    old: RetainedView,
    new: RetainedView,
    name: Seq<char>,
)
    requires
        reaches_others(name),
        value_of(old.computed, name) != value_of(new.computed, name),
    ensures
        node_change(old, new) is None,
{
    let list = local_paint_properties();
    assert(!list.contains(name)) by {
        if list.contains(name) {
            let k = choose|k: int| 0 <= k < list.len() && list[k] == name;
            names_differ(list[k]);
        }
    }
    assert(!agree_outside(old.computed, new.computed, list));
    assert(old.computed != new.computed);
}

proof fn names_differ(name: Seq<char>)
    requires
        local_paint_properties().contains(name),
    ensures
        !reaches_others(name),
{
    reveal_strlit("accent-color");
    reveal_strlit("background-color");
    reveal_strlit("background-image");
    reveal_strlit("background-position");
    reveal_strlit("background-repeat");
    reveal_strlit("background-size");
    reveal_strlit("border-color");
    reveal_strlit("border-style");
    reveal_strlit("border-top-color");
    reveal_strlit("border-top-style");
    reveal_strlit("border-right-color");
    reveal_strlit("border-right-style");
    reveal_strlit("border-bottom-color");
    reveal_strlit("border-bottom-style");
    reveal_strlit("border-left-color");
    reveal_strlit("border-left-style");
    reveal_strlit("border-radius");
    reveal_strlit("box-shadow");
    reveal_strlit("color");
    reveal_strlit("cursor");
    reveal_strlit("image-rendering");
    reveal_strlit("left");
    reveal_strlit("top");
    reveal_strlit("right");
    reveal_strlit("bottom");
    reveal_strlit("pointer-events");
    reveal_strlit("text-shadow");
    reveal_strlit("transform");
    reveal_strlit("width");
    reveal_strlit("height");
    reveal_strlit("display");
    reveal_strlit("position");
    reveal_strlit("opacity");
    reveal_strlit("z-index");
    reveal_strlit("overflow");
    reveal_strlit("padding");
    reveal_strlit("margin");
    reveal_strlit("font-size");
    reveal_strlit("font-family");
    reveal_strlit("font-weight");
    reveal_strlit("line-height");
    reveal_strlit("white-space");
    reveal_strlit("flex-direction");
    reveal_strlit("flex-grow");
    reveal_strlit("gap");
    reveal_strlit("border-width");
    reveal_strlit("backdrop-filter");
    let list = local_paint_properties();
    let k = choose|k: int| 0 <= k < list.len() && list[k] == name;
    assert(list[k] == name);
    assert("margin"@[0] == 'm' && "cursor"@[0] == 'c' && "bottom"@[0] == 'b' && "height"@[0]
        == 'h');
    assert("font-size"@[0] == 'f' && "flex-grow"@[0] == 'f' && "transform"@[0] == 't');
    assert("font-family"@[0] == 'f' && "font-weight"@[0] == 'f' && "line-height"@[0] == 'l'
        && "white-space"@[0] == 'w' && "text-shadow"@[0] == 't');
    assert("flex-direction"@[0] == 'f' && "pointer-events"@[0] == 'p');
    assert("gap"@[0] == 'g' && "top"@[0] == 't');
    assert("border-width"@[7] == 'w' && "accent-color"@[7] == 'c' && "border-color"@[7] == 'c'
        && "border-style"@[7] == 's');
    assert("backdrop-filter"@[4] == 'd' && "background-size"@[4] == 'g' && "image-rendering"@[4]
        == 'e');
    assert(name.len() == list[k].len());
}

/// Properties that only a box's own paint and place depend on.
pub open spec fn stays_local(name: Seq<char>) -> bool {
    ||| name == "color"@
    ||| name == "background-color"@
    ||| name == "background-image"@
    ||| name == "border-color"@
    ||| name == "box-shadow"@
    ||| name == "text-shadow"@
    ||| name == "transform"@
    ||| name == "left"@
    ||| name == "top"@
    ||| name == "width"@
    ||| name == "height"@
    ||| name == "cursor"@
}

/// A change of one local property, and of nothing else, is local.
pub proof fn paint_changes_are_local(old: RetainedView, new: RetainedView, name: Seq<char>)
    requires
        stays_local(name),
        old.source == new.source,
        old.paint_text == new.paint_text,
        old.children.len() == new.children.len(),
        old.computed != new.computed,
        forall|other: Seq<char>|
            other != name ==> value_of(old.computed, other) == #[trigger] value_of(
                new.computed,
                other,
            ),
    ensures
        node_change(old, new) == Some(true),
{
    let list = local_paint_properties();
    assert(list[18] == "color"@ && list[1] == "background-color"@ && list[2] == "background-image"@
        && list[6] == "border-color"@ && list[17] == "box-shadow"@ && list[26] == "text-shadow"@
        && list[27] == "transform"@ && list[21] == "left"@ && list[22] == "top"@ && list[28]
        == "width"@ && list[29] == "height"@ && list[19] == "cursor"@);
    assert(list.contains(name));
    assert(agree_outside(old.computed, new.computed, list));
}

/// A scrolled container is repainted wherever its scrollport was and is.
pub proof fn scrolled_ports_are_repainted(
    old: RetainedGpuFrame,
    new: RetainedGpuFrame,
    cover: PhysicalRect,
    id: u64,
    x: int,
    y: int,
)
    requires
        classified(Some(old), new, GpuPaint::Partial(cover)),
        old.scroll_offsets@.contains_key(id),
        new.scroll_offsets@.contains_key(id),
        ({
            let a = old.scroll_offsets@[id];
            let b = new.scroll_offsets@[id];
            (a.x != b.x && (a.x % 0x8000_0000 != 0 || b.x % 0x8000_0000 != 0)) || (a.y != b.y && (a.y
                % 0x8000_0000 != 0 || b.y % 0x8000_0000 != 0))
        }),
        node_pixel(old.scroll_bounds@, id, x, y) || node_pixel(new.scroll_bounds@, id, x, y),
    ensures
        pixel_in(cover, x, y),
{
    let all = changed_rects(old, new);
    assert(scrolled(old, new, id));
    assert(old.scroll_bounds@.contains_key(id) && new.scroll_bounds@.contains_key(id));
    let r = old.scroll_bounds@[id].join(new.scroll_bounds@[id]);
    assert(scroll_rects(old, new)(r));
    assert(all(r));
}

/// A container whose scrolling cannot be placed on the screen is never repainted
/// in part.
pub proof fn unplaced_scrolling_repaints_everything(
    old: RetainedGpuFrame,
    new: RetainedGpuFrame,
    paint: GpuPaint,
    id: u64,
)
    requires
        classified(Some(old), new, paint),
        old.scroll_offsets@.contains_key(id) != new.scroll_offsets@.contains_key(id),
        !old.scroll_bounds@.contains_key(id) || !new.scroll_bounds@.contains_key(id),
    ensures
        paint is Full,
{
    assert(scrolled(old, new, id));
}

/// A control that gains or loses focus is repainted, and so is one whose caret or
/// selection moved.
pub proof fn changed_controls_are_repainted(
    old: RetainedGpuFrame,
    new: RetainedGpuFrame,
    cover: PhysicalRect,
    id: u64,
    x: int,
    y: int,
)
    requires
        classified(Some(old), new, GpuPaint::Partial(cover)),
        ({
            ||| (old.focused == Some(id) && new.focused != Some(id))
            ||| (old.focused != Some(id) && new.focused == Some(id))
            ||| (old.text_controls@.contains_key(id) && new.text_controls@.contains_key(id) && (
            old.text_controls@[id].anchor != new.text_controls@[id].anchor
                || old.text_controls@[id].focus != new.text_controls@[id].focus))
            ||| (old.text_controls@.contains_key(id) != new.text_controls@.contains_key(id))
        }),
        node_pixel(old.bounds@, id, x, y) || node_pixel(new.bounds@, id, x, y),
    ensures
        pixel_in(cover, x, y),
{
    let all = changed_rects(old, new);
    assert(recontrolled(old, new, id));
    if node_pixel(old.bounds@, id, x, y) {
        assert(control_rects(old, new)(old.bounds@[id]));
        assert(all(old.bounds@[id]));
    } else {
        assert(control_rects(old, new)(new.bounds@[id]));
        assert(all(new.bounds@[id]));
    }
}

/// Fixed chrome that appears, vanishes or moves is repainted where it was and
/// where it is.
pub proof fn changed_chrome_is_repainted(
    old: RetainedGpuFrame,
    new: RetainedGpuFrame,
    cover: PhysicalRect,
    id: u64,
    x: int,
    y: int,
)
    requires
        classified(Some(old), new, GpuPaint::Partial(cover)),
        ({
            ||| (old.fixed@.contains_key(id) != new.fixed@.contains_key(id))
            ||| (old.fixed@.contains_key(id) && new.fixed@.contains_key(id) && old.fixed@[id]@
                != new.fixed@[id]@)
            ||| (old.fixed@.contains_key(id) && old.fixed_bounds@.contains_key(id)
                && new.fixed_bounds@.contains_key(id) && old.fixed_bounds@[id]
                != new.fixed_bounds@[id])
        }),
        node_pixel(old.fixed_bounds@, id, x, y) || node_pixel(new.fixed_bounds@, id, x, y),
    ensures
        pixel_in(cover, x, y),
{
    let all = changed_rects(old, new);
    assert(crate::retained::frame::rechromed(old, new, id)) by {
        let a = crate::retained::signature_map(old.fixed@);
        let b = crate::retained::signature_map(new.fixed@);
        assert(a.contains_key(id) == old.fixed@.contains_key(id));
        assert(b.contains_key(id) == new.fixed@.contains_key(id));
    }
    if node_pixel(old.fixed_bounds@, id, x, y) {
        assert(fixed_rects(old, new)(old.fixed_bounds@[id]));
        assert(all(old.fixed_bounds@[id]));
    } else {
        assert(fixed_rects(old, new)(new.fixed_bounds@[id]));
        assert(all(new.fixed_bounds@[id]));
    }
}

/// A frame of another size, or one that changes under something that reads what
/// is behind it, is painted whole: the repaint holds every pixel of the screen
/// and no other.
pub proof fn whole_frames_are_whole(
    old: RetainedGpuFrame,
    new: RetainedGpuFrame,
    paint: GpuPaint,
    x: int,
    y: int,
)
    requires
        classified(Some(old), new, paint),
        ({
            ||| old.width != new.width
            ||| old.height != new.height
            ||| (retained_views(old.document@) != retained_views(new.document@) && backdrop(
                retained_views(new.document@),
            ))
        }),
    ensures
        paint is Full,
        pixel_in(paint->Full_0, x, y) <==> 0 <= x < new.width && 0 <= y < new.height,
{
}

/// A node with a backdrop filter reads what is behind it, wherever it stands.
pub proof fn backdrops_are_found(nodes: Seq<RetainedView>, i: int)
    requires
        0 <= i < nodes.len(),
    ensures
        nodes[i].computed.contains_key("backdrop-filter"@) ==> backdrop(nodes),
        backdrop(nodes[i].children) ==> backdrop(nodes),
    decreases nodes.len(),
{
    if i < nodes.len() - 1 {
        backdrops_are_found(nodes.drop_last(), i);
        assert(nodes.drop_last()[i] == nodes[i]);
    }
}

/// The remembered rectangles are those of the layout: the painted box for the
/// document and for fixed chrome, the box inside the border for scrollports.
pub proof fn remembered_rectangles_are_laid_out(
    nodes: Seq<RenderView>,
    rects: Map<u64, NodeRects>,
    context: bool,
    known: BoundsView,
    id: u64,
)
    ensures
        ({
            let out = bounds_of(nodes, rects, context, known);
            &&& out.document.contains_key(id) ==> (rects.contains_key(id) && out.document[id]
                == rects[id].paint) || (known.document.contains_key(id) && known.document[id]
                == out.document[id])
            &&& out.scroll.contains_key(id) ==> (rects.contains_key(id) && out.scroll[id]
                == rects[id].port) || (known.scroll.contains_key(id) && known.scroll[id]
                == out.scroll[id])
            &&& out.fixed.contains_key(id) ==> (rects.contains_key(id) && out.fixed[id]
                == rects[id].paint) || (known.fixed.contains_key(id) && known.fixed[id]
                == out.fixed[id])
            &&& known.document.contains_key(id) ==> out.document.contains_key(id)
            &&& known.scroll.contains_key(id) ==> out.scroll.contains_key(id)
            &&& known.fixed.contains_key(id) ==> out.fixed.contains_key(id)
        }),
    decreases nodes,
{
    if nodes.len() > 0 {
        let last = nodes.last();
        let before = bounds_of(nodes.drop_last(), rects, context, known);
        remembered_rectangles_are_laid_out(nodes.drop_last(), rects, context, known, id);
        let own = last.source.id;
        if value_of(last.computed, "display"@) != Some("none"@) && rects.contains_key(own) {
            let fixed = crate::retained::fixed(last.computed);
            let modes = crate::overflow::modes_of(last.computed);
            let after = BoundsView {
                document: if fixed || context {
                    before.document
                } else {
                    before.document.insert(own, rects[own].paint)
                },
                scroll: if modes.0.scrolling() || modes.1.scrolling() {
                    before.scroll.insert(own, rects[own].port)
                } else {
                    before.scroll
                },
                fixed: if fixed {
                    before.fixed.insert(own, rects[own].paint)
                } else {
                    before.fixed
                },
            };
            remembered_rectangles_are_laid_out(last.children, rects, context || fixed, after, id);
        }
    }
}

/// Every shown node of a list is remembered: in the document, or as fixed chrome.
pub proof fn shown_nodes_are_remembered(
    nodes: Seq<RenderView>,
    rects: Map<u64, NodeRects>,
    known: BoundsView,
    i: int,
)
    requires
        0 <= i < nodes.len(),
        value_of(nodes[i].computed, "display"@) != Some("none"@),
        rects.contains_key(nodes[i].source.id),
    ensures
        value_of(nodes[i].computed, "position"@) == Some("fixed"@) ==> bounds_of(
            nodes,
            rects,
            false,
            known,
        ).fixed.contains_key(nodes[i].source.id),
        value_of(nodes[i].computed, "position"@) != Some("fixed"@) ==> bounds_of(
            nodes,
            rects,
            false,
            known,
        ).document.contains_key(nodes[i].source.id),
    decreases nodes.len(),
{
    let id = nodes[i].source.id;
    let last = nodes.last();
    let before = bounds_of(nodes.drop_last(), rects, false, known);
    if i < nodes.len() - 1 {
        shown_nodes_are_remembered(nodes.drop_last(), rects, known, i);
        assert(nodes.drop_last()[i] == nodes[i]);
    }
    let own = last.source.id;
    if value_of(last.computed, "display"@) != Some("none"@) && rects.contains_key(own) {
        let fixed = crate::retained::fixed(last.computed);
        let modes = crate::overflow::modes_of(last.computed);
        let after = BoundsView {
            document: if fixed {
                before.document
            } else {
                before.document.insert(own, rects[own].paint)
            },
            scroll: if modes.0.scrolling() || modes.1.scrolling() {
                before.scroll.insert(own, rects[own].port)
            } else {
                before.scroll
            },
            fixed: if fixed {
                before.fixed.insert(own, rects[own].paint)
            } else {
                before.fixed
            },
        };
        remembered_rectangles_are_laid_out(last.children, rects, fixed, after, id);
    }
}

/// Numbers are compared as numbers: the two zeros are equal, any other number
/// equals itself alone, and a pattern that is no number (a full exponent with a
/// fraction) equals nothing.
pub proof fn numbers_are_compared_as_numbers(a: u32, b: u32)
    ensures
        a / 0x80_0000 % 256 == 255 && a % 0x80_0000 != 0 ==> !same_number(a, b) && !same_number(b, a),
        !(a / 0x80_0000 % 256 == 255 && a % 0x80_0000 != 0) ==> same_number(a, a),
        same_number(0, 0x8000_0000),
        a % 0x8000_0000 != 0 && a != b ==> !same_number(a, b) && !same_number(b, a),
{
    let low = a % 0x8000_0000;
    assert(a / 0x80_0000 % 256 == low / 0x80_0000);
    assert(a % 0x80_0000 == low % 0x80_0000);
}

/// A field whose value alone is another one is painted anew.
pub proof fn new_values_are_painted(old: RetainedView, new: RetainedView)
    requires
        old.source.kind == "input"@,
        new.source.kind == "input"@,
        old.source.id == new.source.id,
        old.source.text == new.source.text,
        old.source.children == new.source.children,
        old.children.len() == new.children.len(),
        old.computed == new.computed,
        old.paint_text == new.paint_text,
        prop_of(old.source.props, "value"@) != prop_of(new.source.props, "value"@),
        kept(old.source.props, left_out(true, false)) == kept(
            new.source.props,
            left_out(true, false),
        ),
    ensures
        node_change(old, new) == Some(true),
{
}

} // verus!
