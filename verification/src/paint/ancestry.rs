//! The input regions of a scene form a forest: climbing from a region to its
//! parents always ends.

use vstd::prelude::*;
use crate::input::{climbs, first_from, region_of, rooted, HitRegion};
use crate::paint::frame::{empty_output_view, phase_of, root_walk, walked};
use crate::paint::hit::{HitView, PaintedHit};
use crate::paint::order::order_is_stable;
use crate::paint::{
    after_hit, after_metadata, after_scrolling, child_order, child_walk, in_turn, levels,
    out_of_sight, paint_list, paint_node, OutputView, PaintPhase, PaintView, RenderOutput, WalkView,
};
use crate::retained::fixed;
use crate::style::value_of;

verus! {

/// The ids of the nodes of some trees, in document order.
pub open spec fn tree_ids(nodes: Seq<PaintView>) -> Seq<u64>
    decreases nodes,
{
    if nodes.len() == 0 {
        Seq::empty()
    } else {
        tree_ids(nodes.drop_last()) + seq![nodes.last().source.id] + tree_ids(nodes.last().children)
    }
}

/// The ids of the nodes that are painted in a phase, in document order.
pub open spec fn phase_ids(nodes: Seq<PaintView>, phase: PaintPhase, fixed_context: bool) -> Seq<u64>
    decreases nodes,
{
    if nodes.len() == 0 {
        Seq::empty()
    } else {
        phase_ids(nodes.drop_last(), phase, fixed_context) + node_ids(
            nodes.last(),
            phase,
            fixed_context,
        )
    }
}

/// The ids of a tree's nodes that are painted in a phase, in document order.
pub open spec fn node_ids(node: PaintView, phase: PaintPhase, fixed_context: bool) -> Seq<u64>
    decreases node, 0int,
{
    let in_fixed = fixed_context || fixed(node.computed);
    (if in_fixed == (phase == PaintPhase::Fixed) {
        seq![node.source.id]
    } else {
        Seq::empty()
    }) + phase_ids(node.children, phase, in_fixed)
}

/// The ids of one tree, in document order.
pub open spec fn own_ids(node: PaintView) -> Seq<u64> {
    seq![node.source.id] + tree_ids(node.children)
}

proof fn ids_belong_to_trees(nodes: Seq<PaintView>, id: u64)
    ensures
        tree_ids(nodes).contains(id) <==> exists|i: int|
            0 <= i < nodes.len() && own_ids(#[trigger] nodes[i]).contains(id),
    decreases nodes,
{
    if nodes.len() > 0 {
        let front = nodes.drop_last();
        let last = nodes.last();
        let ids = tree_ids(nodes);
        ids_belong_to_trees(front, id);
        assert(ids =~= tree_ids(front) + own_ids(last));
        contained_in_either(tree_ids(front), own_ids(last), id);
        if tree_ids(front).contains(id) {
            let k = choose|k: int| 0 <= k < front.len() && own_ids(#[trigger] front[k]).contains(id);
            assert(own_ids(nodes[k]).contains(id));
        }
        if own_ids(last).contains(id) {
            assert(own_ids(nodes[nodes.len() - 1]).contains(id));
        }
        if exists|k: int| 0 <= k < nodes.len() && own_ids(#[trigger] nodes[k]).contains(id) {
            let k = choose|k: int| 0 <= k < nodes.len() && own_ids(#[trigger] nodes[k]).contains(id);
            if k < front.len() {
                assert(own_ids(front[k]).contains(id));
            }
        }
    }
}

proof fn contained_in_either(a: Seq<u64>, b: Seq<u64>, id: u64)
    ensures
        (a + b).contains(id) <==> a.contains(id) || b.contains(id),
{
    let all = a + b;
    if all.contains(id) {
        let k = choose|k: int| 0 <= k < all.len() && all[k] == id;
        if k < a.len() {
            assert(a[k] == id);
        } else {
            assert(b[k - a.len()] == id);
        }
    }
    if a.contains(id) {
        let k = choose|k: int| 0 <= k < a.len() && a[k] == id;
        assert(all[k] == id);
    }
    if b.contains(id) {
        let k = choose|k: int| 0 <= k < b.len() && b[k] == id;
        assert(all[a.len() + k] == id);
    }
}

proof fn parts_are_distinct(a: Seq<u64>, b: Seq<u64>)
    requires
        (a + b).no_duplicates(),
    ensures
        a.no_duplicates(),
        b.no_duplicates(),
        forall|id: u64| !(#[trigger] a.contains(id) && b.contains(id)),
{
    let all = a + b;
    assert forall|i: int, j: int| 0 <= i < a.len() && 0 <= j < a.len() && i != j implies a[i]
        != a[j] by {
        assert(all[i] != all[j]);
    }
    assert forall|i: int, j: int| 0 <= i < b.len() && 0 <= j < b.len() && i != j implies b[i]
        != b[j] by {
        assert(all[a.len() + i] != all[a.len() + j]);
    }
    assert forall|id: u64| !(#[trigger] a.contains(id) && b.contains(id)) by {
        if a.contains(id) && b.contains(id) {
            let i = choose|i: int| 0 <= i < a.len() && a[i] == id;
            let j = choose|j: int| 0 <= j < b.len() && b[j] == id;
            assert(all[i] != all[a.len() + j]);
        }
    }
}

proof fn trees_are_distinct(nodes: Seq<PaintView>)
    requires
        tree_ids(nodes).no_duplicates(),
    ensures
        forall|i: int| 0 <= i < nodes.len() ==> own_ids(#[trigger] nodes[i]).no_duplicates(),
        forall|i: int, j: int, id: u64|
            0 <= i < nodes.len() && 0 <= j < nodes.len() && i != j && own_ids(nodes[i]).contains(id)
                ==> !(#[trigger] own_ids(nodes[i]).contains(id) && #[trigger] own_ids(
                nodes[j],
            ).contains(id)),
    decreases nodes,
{
    if nodes.len() > 0 {
        let front = nodes.drop_last();
        let last = nodes.last();
        assert(tree_ids(nodes) =~= tree_ids(front) + own_ids(last));
        parts_are_distinct(tree_ids(front), own_ids(last));
        trees_are_distinct(front);
        assert forall|i: int| 0 <= i < nodes.len() implies own_ids(
            #[trigger] nodes[i],
        ).no_duplicates() by {
            if i < front.len() {
                assert(front[i] == nodes[i]);
            }
        }
        assert forall|i: int, j: int, id: u64|
            0 <= i < nodes.len() && 0 <= j < nodes.len() && i != j && own_ids(
                nodes[i],
            ).contains(id) implies !(#[trigger] own_ids(nodes[i]).contains(id)
            && #[trigger] own_ids(nodes[j]).contains(id)) by {
            ids_belong_to_trees(front, id);
            if i < front.len() {
                assert(front[i] == nodes[i]);
                assert(own_ids(front[i]).contains(id));
                assert(tree_ids(front).contains(id));
            }
            if j < front.len() {
                assert(front[j] == nodes[j]);
                if own_ids(nodes[j]).contains(id) {
                    assert(own_ids(front[j]).contains(id));
                    assert(tree_ids(front).contains(id));
                }
            }
        }
    }
}

proof fn phases_belong_to_nodes(nodes: Seq<PaintView>, phase: PaintPhase, context: bool, id: u64)
    ensures
        phase_ids(nodes, phase, context).contains(id) <==> exists|i: int|
            0 <= i < nodes.len() && node_ids(#[trigger] nodes[i], phase, context).contains(id),
    decreases nodes,
{
    if nodes.len() > 0 {
        let front = nodes.drop_last();
        let last = nodes.last();
        phases_belong_to_nodes(front, phase, context, id);
        contained_in_either(phase_ids(front, phase, context), node_ids(last, phase, context), id);
        if phase_ids(front, phase, context).contains(id) {
            let k = choose|k: int|
                0 <= k < front.len() && node_ids(#[trigger] front[k], phase, context).contains(id);
            assert(node_ids(nodes[k], phase, context).contains(id));
        }
        if node_ids(last, phase, context).contains(id) {
            assert(node_ids(nodes[nodes.len() - 1], phase, context).contains(id));
        }
        if exists|k: int|
            0 <= k < nodes.len() && node_ids(#[trigger] nodes[k], phase, context).contains(id) {
            let k = choose|k: int|
                0 <= k < nodes.len() && node_ids(#[trigger] nodes[k], phase, context).contains(id);
            if k < front.len() {
                assert(node_ids(front[k], phase, context).contains(id));
            }
        }
    }
}

proof fn phases_lie_in_trees(nodes: Seq<PaintView>, phase: PaintPhase, context: bool, id: u64)
    requires
        phase_ids(nodes, phase, context).contains(id),
    ensures
        tree_ids(nodes).contains(id),
    decreases nodes,
{
    phases_belong_to_nodes(nodes, phase, context, id);
    let k = choose|k: int|
        0 <= k < nodes.len() && node_ids(#[trigger] nodes[k], phase, context).contains(id);
    phase_lies_in_its_tree(nodes[k], phase, context, id);
    ids_belong_to_trees(nodes, id);
}

proof fn phase_lies_in_its_tree(node: PaintView, phase: PaintPhase, context: bool, id: u64)
    requires
        node_ids(node, phase, context).contains(id),
    ensures
        own_ids(node).contains(id),
    decreases node, 0int,
{
    let in_fixed = context || fixed(node.computed);
    let own = if in_fixed == (phase == PaintPhase::Fixed) {
        seq![node.source.id]
    } else {
        Seq::empty()
    };
    contained_in_either(own, phase_ids(node.children, phase, in_fixed), id);
    contained_in_either(seq![node.source.id], tree_ids(node.children), id);
    if own.contains(id) {
        assert(seq![node.source.id][0] == id);
        assert(seq![node.source.id].contains(id));
    } else {
        phases_lie_in_trees(node.children, phase, in_fixed, id);
    }
}

proof fn phases_are_apart(nodes: Seq<PaintView>, context: bool, id: u64)
    requires
        tree_ids(nodes).no_duplicates(),
    ensures
        !(phase_ids(nodes, PaintPhase::Document, context).contains(id) && phase_ids(
            nodes,
            PaintPhase::Fixed,
            context,
        ).contains(id)),
    decreases nodes,
{
    let document = phase_ids(nodes, PaintPhase::Document, context);
    let chrome = phase_ids(nodes, PaintPhase::Fixed, context);
    if document.contains(id) && chrome.contains(id) {
        phases_belong_to_nodes(nodes, PaintPhase::Document, context, id);
        phases_belong_to_nodes(nodes, PaintPhase::Fixed, context, id);
        let i = choose|i: int|
            0 <= i < nodes.len() && node_ids(
                #[trigger] nodes[i],
                PaintPhase::Document,
                context,
            ).contains(id);
        let j = choose|j: int|
            0 <= j < nodes.len() && node_ids(
                #[trigger] nodes[j],
                PaintPhase::Fixed,
                context,
            ).contains(id);
        phase_lies_in_its_tree(nodes[i], PaintPhase::Document, context, id);
        phase_lies_in_its_tree(nodes[j], PaintPhase::Fixed, context, id);
        trees_are_distinct(nodes);
        assert(i == j);
        let node = nodes[i];
        let in_fixed = context || fixed(node.computed);
        let below_document = phase_ids(node.children, PaintPhase::Document, in_fixed);
        let below_chrome = phase_ids(node.children, PaintPhase::Fixed, in_fixed);
        let own = seq![node.source.id];
        parts_are_distinct(own, tree_ids(node.children));
        contained_in_either(own, below_document, id);
        contained_in_either(own, below_chrome, id);
        contained_in_either(Seq::empty(), below_document, id);
        contained_in_either(Seq::empty(), below_chrome, id);
        phases_are_apart(node.children, in_fixed, id);
        if below_document.contains(id) {
            phases_lie_in_trees(node.children, PaintPhase::Document, in_fixed, id);
        } else {
            phases_lie_in_trees(node.children, PaintPhase::Fixed, in_fixed, id);
        }
    }
}

/// No region comes before that of its parent.
pub open spec fn parents_first(hits: Seq<HitView>) -> bool {
    forall|i: int, j: int|
        0 <= i < hits.len() && 0 <= j < hits.len() && (#[trigger] hits[i]).parent_node_id == Some(
            (#[trigger] hits[j]).node_id,
        ) ==> j < i
}

/// No region has one of these nodes for a parent.
pub open spec fn childless(hits: Seq<HitView>, ids: Seq<u64>) -> bool {
    forall|i: int|
        0 <= i < hits.len() ==> ((#[trigger] hits[i]).parent_node_id matches Some(id) ==> !ids.contains(
            id,
        ))
}

/// The regions of `after` are those of `before` and new ones, whose parents are
/// `parent` or among `ids`.
pub open spec fn adds(
    before: Seq<HitView>,
    after: Seq<HitView>,
    parent: Option<u64>,
    ids: spec_fn(u64) -> bool,
) -> bool {
    &&& before.len() <= after.len()
    &&& after.take(before.len() as int) == before
    &&& forall|i: int|
        before.len() <= i < after.len() ==> {
            ||| (#[trigger] after[i]).parent_node_id is None
            ||| after[i].parent_node_id == parent
            ||| ids(after[i].parent_node_id->0)
        }
}

/// The ids of the first `n` nodes of an order.
spec fn listed_ids(nodes: Seq<PaintView>, order: Seq<int>, n: int, walk: WalkView) -> spec_fn(
    u64,
) -> bool {
    |id: u64|
        exists|k: int|
            0 <= k < n && 0 <= #[trigger] order[k] < nodes.len() && node_ids(
                nodes[order[k]],
                walk.phase,
                walk.fixed_context,
            ).contains(id)
}

spec fn among(ids: Seq<u64>) -> spec_fn(u64) -> bool {
    |id: u64| ids.contains(id)
}

proof fn list_keeps_parents_first(
    nodes: Seq<PaintView>,
    order: Seq<int>,
    n: int,
    groups: bool,
    walk: WalkView,
    out: OutputView,
)
    requires
        0 <= n <= order.len(),
        forall|i: int, j: int|
            0 <= i < j < order.len() ==> #[trigger] order[i] != #[trigger] order[j],
        tree_ids(nodes).no_duplicates(),
        parents_first(out.hits),
        childless(out.hits, phase_ids(nodes, walk.phase, walk.fixed_context)),
        walk.parent_node_id matches Some(id) ==> !phase_ids(
            nodes,
            walk.phase,
            walk.fixed_context,
        ).contains(id),
    ensures
        ({
            let after = paint_list(nodes, order, n, groups, walk, out).1.hits;
            &&& parents_first(after)
            &&& adds(out.hits, after, walk.parent_node_id, listed_ids(nodes, order, n, walk))
        }),
    decreases nodes, n,
{
    let all = phase_ids(nodes, walk.phase, walk.fixed_context);
    if n == 0 {
        assert(out.hits.take(out.hits.len() as int) =~= out.hits);
    } else {
        list_keeps_parents_first(nodes, order, n - 1, groups, walk, out);
        let before = paint_list(nodes, order, n - 1, groups, walk, out);
        let position = order[n - 1];
        let earlier = listed_ids(nodes, order, n - 1, walk);
        let later = listed_ids(nodes, order, n, walk);
        assert forall|id: u64| #[trigger] earlier(id) implies later(id) by {}
        if 0 <= position < nodes.len() {
            let node = nodes[position];
            let ids = node_ids(node, walk.phase, walk.fixed_context);
            let hits = before.1.hits;
            trees_are_distinct(nodes);
            assert forall|id: u64| ids.contains(id) implies #[trigger] all.contains(id) by {
                phases_belong_to_nodes(nodes, walk.phase, walk.fixed_context, id);
                assert(node_ids(nodes[position], walk.phase, walk.fixed_context).contains(id));
            }
            assert forall|i: int| 0 <= i < hits.len() implies ((
            #[trigger] hits[i]).parent_node_id matches Some(id) ==> !ids.contains(id)) by {
                if let Some(id) = hits[i].parent_node_id {
                    if ids.contains(id) {
                        assert(all.contains(id));
                        if i < out.hits.len() {
                            assert(hits.take(out.hits.len() as int)[i] == hits[i]);
                            assert(out.hits[i] == hits[i]);
                        } else if hits[i].parent_node_id != walk.parent_node_id {
                            assert(earlier(id));
                            let k = choose|k: int|
                                0 <= k < n - 1 && 0 <= #[trigger] order[k] < nodes.len()
                                    && node_ids(
                                    nodes[order[k]],
                                    walk.phase,
                                    walk.fixed_context,
                                ).contains(id);
                            phase_lies_in_its_tree(
                                nodes[order[k]],
                                walk.phase,
                                walk.fixed_context,
                                id,
                            );
                            phase_lies_in_its_tree(node, walk.phase, walk.fixed_context, id);
                            assert(order[k] != order[n - 1]);
                            assert(own_ids(nodes[order[k]]).contains(id) && own_ids(
                                nodes[position],
                            ).contains(id));
                        }
                    }
                }
            }
            node_keeps_parents_first(node, walk, before.1);
            let after = paint_node(node, walk, before.1).1.hits;
            assert(after.take(out.hits.len() as int) =~= out.hits) by {
                assert forall|i: int| 0 <= i < out.hits.len() implies after[i] == out.hits[i] by {
                    assert(after.take(hits.len() as int)[i] == hits[i]);
                    assert(hits.take(out.hits.len() as int)[i] == out.hits[i]);
                }
            }
            assert forall|i: int| out.hits.len() <= i < after.len() implies {
                ||| (#[trigger] after[i]).parent_node_id is None
                ||| after[i].parent_node_id == walk.parent_node_id
                ||| later(after[i].parent_node_id->0)
            } by {
                if i < hits.len() {
                    assert(after.take(hits.len() as int)[i] == hits[i]);
                    assert(hits[i].parent_node_id is None || hits[i].parent_node_id
                        == walk.parent_node_id || earlier(hits[i].parent_node_id->0));
                } else if among(ids)(after[i].parent_node_id->0) {
                    assert(order[n - 1] == position);
                }
            }
        }
    }
}

proof fn node_keeps_parents_first(node: PaintView, walk: WalkView, out: OutputView)
    requires
        own_ids(node).no_duplicates(),
        parents_first(out.hits),
        childless(out.hits, node_ids(node, walk.phase, walk.fixed_context)),
        walk.parent_node_id matches Some(id) ==> !node_ids(
            node,
            walk.phase,
            walk.fixed_context,
        ).contains(id),
    ensures
        ({
            let after = paint_node(node, walk, out).1.hits;
            &&& parents_first(after)
            &&& adds(
                out.hits,
                after,
                walk.parent_node_id,
                among(node_ids(node, walk.phase, walk.fixed_context)),
            )
        }),
    decreases node, 0int,
{
    let in_fixed = walk.fixed_context || fixed(node.computed);
    let ids = node_ids(node, walk.phase, walk.fixed_context);
    let below = phase_ids(node.children, walk.phase, in_fixed);
    let count = node.children.len();
    let own = seq![node.source.id];
    let painted = in_fixed == (walk.phase == PaintPhase::Fixed);
    assert(out.hits.take(out.hits.len() as int) =~= out.hits);
    parts_are_distinct(own, tree_ids(node.children));
    assert forall|id: u64| below.contains(id) implies #[trigger] ids.contains(id) by {
        contained_in_either(
            if painted {
                own
            } else {
                Seq::empty()
            },
            below,
            id,
        );
    }
    if value_of(node.computed, "display"@) == Some("none"@) || (walk.phase == PaintPhase::Document
        && in_fixed) {
    } else if walk.phase == PaintPhase::Fixed && !in_fixed {
        let order = in_turn(count);
        list_keeps_parents_first(node.children, order, count as int, false, walk, out);
        let after = paint_list(node.children, order, count as int, false, walk, out).1.hits;
        let listed = listed_ids(node.children, order, count as int, walk);
        assert forall|id: u64| #[trigger] listed(id) implies among(ids)(id) by {
            listed_ids_lie_below(node.children, order, count as int, walk, id);
        }
        assert(paint_node(node, walk, out).1.hits == after);
    } else if out_of_sight(node.laid, walk.clip) {
    } else {
        let noted = after_scrolling(node, after_metadata(node, walk, after_hit(node, walk, out)));
        let inner = child_walk(node, walk);
        let order = child_order(node);
        children_stand_once(node);
        contained_in_either(own, below, node.source.id);
        assert(own[0] == node.source.id);
        assert(ids.contains(node.source.id));
        let hits = noted.hits;
        assert(hits.take(out.hits.len() as int) =~= out.hits);
        assert forall|i: int, j: int|
            0 <= i < hits.len() && 0 <= j < hits.len() && (#[trigger] hits[i]).parent_node_id
                == Some((#[trigger] hits[j]).node_id) implies j < i by {
            if i < out.hits.len() && j < out.hits.len() {
                assert(hits[i] == out.hits[i] && hits[j] == out.hits[j]);
            } else if i < out.hits.len() {
                assert(hits[i] == out.hits[i]);
                assert(hits[j].node_id == node.source.id);
            } else {
                assert(hits[i].parent_node_id == walk.parent_node_id);
            }
        }
        assert forall|i: int| 0 <= i < hits.len() implies ((
        #[trigger] hits[i]).parent_node_id matches Some(id) ==> !below.contains(id)) by {
            if i < out.hits.len() {
                assert(hits[i] == out.hits[i]);
            }
        }
        assert(!below.contains(node.source.id)) by {
            if below.contains(node.source.id) {
                phases_lie_in_trees(node.children, walk.phase, in_fixed, node.source.id);
                assert(own.contains(node.source.id));
            }
        }
        list_keeps_parents_first(node.children, order, count as int, true, inner, noted);
        let after = paint_list(node.children, order, count as int, true, inner, noted).1.hits;
        let listed = listed_ids(node.children, order, count as int, inner);
        assert(paint_node(node, walk, out).1.hits == after);
        assert(after.take(out.hits.len() as int) =~= out.hits) by {
            assert forall|i: int| 0 <= i < out.hits.len() implies after[i] == out.hits[i] by {
                assert(after.take(hits.len() as int)[i] == hits[i]);
                assert(hits[i] == out.hits[i]);
            }
        }
        assert forall|i: int| out.hits.len() <= i < after.len() implies {
            ||| (#[trigger] after[i]).parent_node_id is None
            ||| after[i].parent_node_id == walk.parent_node_id
            ||| among(ids)(after[i].parent_node_id->0)
        } by {
            if i < hits.len() {
                assert(after.take(hits.len() as int)[i] == hits[i]);
                assert(hits[i].parent_node_id == walk.parent_node_id);
            } else if after[i].parent_node_id is Some && after[i].parent_node_id
                != inner.parent_node_id {
                let id = after[i].parent_node_id->0;
                assert(listed(id));
                listed_ids_lie_below(node.children, order, count as int, inner, id);
            }
        }
    }
}

proof fn listed_ids_lie_below(
    nodes: Seq<PaintView>,
    order: Seq<int>,
    n: int,
    walk: WalkView,
    id: u64,
)
    requires
        listed_ids(nodes, order, n, walk)(id),
    ensures
        phase_ids(nodes, walk.phase, walk.fixed_context).contains(id),
{
    let k = choose|k: int|
        0 <= k < n && 0 <= #[trigger] order[k] < nodes.len() && node_ids(
            nodes[order[k]],
            walk.phase,
            walk.fixed_context,
        ).contains(id);
    let position = order[k];
    assert(node_ids(nodes[position], walk.phase, walk.fixed_context).contains(id));
    phases_belong_to_nodes(nodes, walk.phase, walk.fixed_context, id);
}

proof fn children_stand_once(node: PaintView)
    ensures
        child_order(node).len() == node.children.len(),
        forall|i: int, j: int|
            0 <= i < j < child_order(node).len() ==> #[trigger] child_order(node)[i]
                != #[trigger] child_order(node)[j],
{
    let flex = value_of(node.computed, "display"@) == Some("flex"@);
    let keys = levels(node.children, flex);
    order_is_stable(keys, keys.len() as int);
}

/// In a scene whose node ids are distinct, every region is painted after the
/// region of its parent.
pub proof fn regions_follow_their_parents(roots: Seq<PaintView>, focused: Option<u64>)
    requires
        tree_ids(roots).no_duplicates(),
    ensures
        parents_first(walked(roots, focused).1.hits),
{
    let start = empty_output_view(focused);
    let order = in_turn(roots.len());
    let count = roots.len() as int;
    let document = phase_of(roots, PaintPhase::Document, start);
    let walk = root_walk(PaintPhase::Document);
    list_keeps_parents_first(roots, order, count, false, walk, start);
    let chrome = phase_ids(roots, PaintPhase::Fixed, false);
    let hits = document.1.hits;
    assert forall|i: int| 0 <= i < hits.len() implies ((
    #[trigger] hits[i]).parent_node_id matches Some(id) ==> !chrome.contains(id)) by {
        if let Some(id) = hits[i].parent_node_id {
            assert(listed_ids(roots, order, count, walk)(id));
            listed_ids_lie_below(roots, order, count, walk, id);
            phases_are_apart(roots, false, id);
        }
    }
    list_keeps_parents_first(
        roots,
        order,
        count,
        false,
        root_walk(PaintPhase::Fixed),
        document.1,
    );
}

proof fn parents_first_climbs(hits: Seq<HitRegion>, from: Option<u64>, steps: int)
    requires
        forall|i: int, j: int|
            0 <= i < hits.len() && 0 <= j < hits.len() && (#[trigger] hits[i]).parent_node_id
                == Some((#[trigger] hits[j]).node_id) ==> j < i,
        from matches Some(id) ==> (region_of(hits, id) matches Some(i) ==> i < steps),
    ensures
        climbs(hits, from, steps),
    decreases steps,
{
    if let Some(id) = from {
        if let Some(i) = region_of(hits, id) {
            first_region(hits, id, 0);
            if let Some(parent) = hits[i].parent_node_id {
                first_region(hits, parent, 0);
            }
            parents_first_climbs(hits, hits[i].parent_node_id, steps - 1);
        }
    }
}

proof fn first_region(hits: Seq<HitRegion>, id: u64, from: int)
    requires
        0 <= from,
    ensures
        first_from(hits, id, from) matches Some(i) ==> from <= i < hits.len() && hits[i].node_id
            == id,
    decreases hits.len() - from,
{
    if from < hits.len() && hits[from].node_id != id {
        first_region(hits, id, from + 1);
    }
}

/// The regions of an output as the dispatchers take them.
pub open spec fn regions(hits: Seq<PaintedHit>) -> Seq<HitRegion> {
    Seq::new(hits.len(), |i: int| hits[i].region)
}

/// The dispatchers can route input by every walk over a scene whose node ids are
/// distinct: no parents lead in a circle.
pub proof fn painted_regions_are_rooted(
    roots: Seq<PaintView>,
    focused: Option<u64>,
    output: RenderOutput,
)
    requires
        tree_ids(roots).no_duplicates(),
        output@.hits == walked(roots, focused).1.hits,
    ensures
        rooted(regions(output.hits@)),
{
    let hits = regions(output.hits@);
    let views = output@.hits;
    regions_follow_their_parents(roots, focused);
    assert forall|i: int| 0 <= i < hits.len() implies (#[trigger] hits[i]).node_id
        == views[i].node_id && hits[i].parent_node_id == views[i].parent_node_id by {
        assert(views[i] == output.hits@[i]@);
    }
    assert forall|i: int, j: int|
        0 <= i < hits.len() && 0 <= j < hits.len() && (#[trigger] hits[i]).parent_node_id == Some(
            (#[trigger] hits[j]).node_id,
        ) implies j < i by {
        assert(views[i].parent_node_id == Some(views[j].node_id));
    }
    assert forall|from: Option<u64>| #[trigger] climbs(hits, from, hits.len() as int) by {
        if let Some(id) = from {
            first_region(hits, id, 0);
        }
        parents_first_climbs(hits, from, hits.len() as int);
    }
}

} // verus!
