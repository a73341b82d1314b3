//! What the paint walk promises of order, clips and input.

use vstd::prelude::*;
use vstd::string::*;
use crate::laws::frames::pixel_in;
use crate::overflow::{modes_of, OverflowMode};
use crate::paint::frame::{
    desktop_input_of, empty_output_view, phase_of, root_walk, settled, takes_pointer, walked,
};
use crate::paint::hit::{focusable, hit_of, logical_edge, HitView};
use crate::paint::order::{level_of, order_is_stable, order_of, order_of_first, placed};
use crate::paint::{
    after_hit, after_metadata, after_scrolling, box_steps, child_order, child_walk, clipped,
    closing_steps, foreign_of, grouped, in_turn, levels, opening_steps, out_of_sight, own_group,
    paint_list, paint_node, port_mask, step_if, styled, Laid, Op, OutputView, PaintPhase,
    PaintView, Step, WalkView,
};
use crate::rect::{PhysicalRect, Rect};
use crate::retained::fixed;
use crate::style::value_of;
use crate::text::{
    decimal, digit, signed_value, trimmed, white, within_i32, written_number_is_read_back,
};
use crate::tree::{prop_of, string_of, surface_node, text_leaf, NodeView, PropView};

verus! {

/// A whole number as a style sheet states it.
pub open spec fn stated(n: int) -> Seq<char> {
    if n < 0 {
        seq!['-'] + decimal((-n) as nat)
    } else {
        decimal(n as nat)
    }
}

/// A written number ends in its last digit, behind what the other digits state.
pub proof fn digits_stand_by_weight(n: nat)
    ensures
        decimal(n).len() > 0,
        decimal(n).last() as u32 == 48 + n % 10,
        n < 10 ==> decimal(n).len() == 1,
        n >= 10 ==> decimal(n).drop_last() == decimal(n / 10),
{
    if n >= 10 {
        assert(decimal(n).drop_last() =~= decimal(n / 10));
    }
}

/// A written number is made of digits.
pub proof fn decimal_is_visible(n: nat)
    ensures
        decimal(n).len() > 0,
        forall|i: int| 0 <= i < decimal(n).len() ==> digit(#[trigger] decimal(n)[i]),
    decreases n,
{
    if n >= 10 {
        decimal_is_visible(n / 10);
    }
}

/// Numbers are read back as they are stated, with their sign, also between white
/// space.
pub proof fn stated_numbers_are_read(n: int)
    ensures
        trimmed(stated(n)) == stated(n),
        signed_value(stated(n)) == Some(n),
        within_i32(Some(n)) == (if -0x8000_0000 <= n <= 0x7fff_ffff {
            Some(n)
        } else {
            None
        }),
{
    let text = stated(n);
    let digits = decimal((if n < 0 {
        -n
    } else {
        n
    }) as nat);
    decimal_is_visible((if n < 0 {
        -n
    } else {
        n
    }) as nat);
    written_number_is_read_back((if n < 0 {
        -n
    } else {
        n
    }) as nat);
    if n < 0 {
        assert(text.subrange(1, text.len() as int) =~= digits);
        assert(text[0] == '-');
        assert(digits[0] != '+');
        assert(crate::text::unsigned_value(digits) == Some((-n) as nat));
        assert(text.last() == digits.last());
    } else {
        assert(digits[0] != '-');
    }
    assert(digit(digits.last()));
    assert(!white(text[0]));
    assert(!white(text.last()));
}

/// A positioned box, or a flex item, stacks by the number that its style states.
pub proof fn stated_levels_count(style: Map<Seq<char>, Seq<char>>, n: int, flex_item: bool)
    requires
        -0x8000_0000 <= n <= 0x7fff_ffff,
        value_of(style, "z-index"@) == Some(stated(n)),
        ({
            ||| value_of(style, "position"@) == Some("relative"@)
            ||| value_of(style, "position"@) == Some("absolute"@)
            ||| value_of(style, "position"@) == Some("fixed"@)
            ||| flex_item
        }),
    ensures
        level_of(style, flex_item) == n,
{
    stated_numbers_are_read(n);
}

/// A box that is neither positioned nor a flex item stacks with the document,
/// whatever its style states, and so does one that states nothing.
pub proof fn other_boxes_stack_with_the_document(
    style: Map<Seq<char>, Seq<char>>,
    flex_item: bool,
)
    requires
        value_of(style, "z-index"@) is None || (!flex_item && (value_of(style, "position"@) is None
            || value_of(style, "position"@) == Some("static"@))),
    ensures
        level_of(style, flex_item) == 0,
{
    reveal_strlit("static");
    reveal_strlit("relative");
    reveal_strlit("absolute");
    reveal_strlit("fixed");
    assert("static"@.len() == 6 && "fixed"@.len() == 5 && "relative"@.len() == 8
        && "absolute"@.len() == 8);
}

proof fn placed_holds_all(order: Seq<int>, keys: Seq<i32>, position: int, p: int)
    requires
        order.contains(p) || p == position,
    ensures
        placed(order, keys, position).contains(p),
    decreases order.len(),
{
    let result = placed(order, keys, position);
    if order.len() > 0 && keys[order.last()] > keys[position] {
        let front = order.drop_last();
        if p == position || front.contains(p) {
            placed_holds_all(front, keys, position, p);
            let inner = placed(front, keys, position);
            let k = choose|k: int| 0 <= k < inner.len() && inner[k] == p;
            assert(result[k] == p);
        } else {
            let k = choose|k: int| 0 <= k < order.len() && order[k] == p;
            if k < front.len() {
                assert(front[k] == p);
            }
            assert(result[result.len() - 1] == p);
        }
    } else if p == position {
        assert(result[order.len() as int] == p);
    } else {
        let k = choose|k: int| 0 <= k < order.len() && order[k] == p;
        assert(result[k] == p);
    }
}

proof fn order_holds_all(keys: Seq<i32>, n: int, p: int)
    requires
        0 <= p < n <= keys.len(),
    ensures
        order_of_first(keys, n).contains(p),
    decreases n,
{
    if p < n - 1 {
        order_holds_all(keys, n - 1, p);
    }
    placed_holds_all(order_of_first(keys, n - 1), keys, n - 1, p);
}

/// `a` stands before `b` in an order.
pub open spec fn stands_before(order: Seq<int>, a: int, b: int) -> bool {
    exists|i: int, j: int|
        0 <= i < j < order.len() && #[trigger] order[i] == a && #[trigger] order[j] == b
}

/// Sorting keeps every position once, puts smaller keys first, and keeps the
/// order of equal ones.
pub proof fn sorting_is_by_key_and_stable(keys: Seq<i32>, a: int, b: int)
    requires
        0 <= a < keys.len(),
        0 <= b < keys.len(),
        keys[a] < keys[b] || (keys[a] == keys[b] && a < b),
    ensures
        order_of(keys).len() == keys.len(),
        stands_before(order_of(keys), a, b),
        !stands_before(order_of(keys), b, a),
{
    let order = order_of(keys);
    order_is_stable(keys, keys.len() as int);
    order_holds_all(keys, keys.len() as int, a);
    order_holds_all(keys, keys.len() as int, b);
    let i = choose|i: int| 0 <= i < order.len() && order[i] == a;
    let j = choose|j: int| 0 <= j < order.len() && order[j] == b;
    if j < i {
        assert(keys[order[j]] < keys[order[i]] || (keys[order[j]] == keys[order[i]] && order[j]
            < order[i]));
    }
    assert(i < j);
    assert(order[i] == a && order[j] == b);
    if stands_before(order, b, a) {
        let (p, q) = choose|p: int, q: int|
            0 <= p < q < order.len() && #[trigger] order[p] == b && #[trigger] order[q] == a;
        assert(keys[order[p]] < keys[order[q]] || (keys[order[p]] == keys[order[q]] && order[p]
            < order[q]));
    }
}

/// Of two positioned children the one with the greater stated number is painted
/// later, wherever it stands in the document; with equal numbers the later one
/// is.
pub proof fn greater_levels_are_painted_later(node: PaintView, a: int, b: int, m: int, n: int)
    requires
        0 <= a < node.children.len(),
        0 <= b < node.children.len(),
        -0x8000_0000 <= m <= 0x7fff_ffff,
        -0x8000_0000 <= n <= 0x7fff_ffff,
        value_of(node.children[a].computed, "position"@) == Some("absolute"@) || value_of(
            node.children[a].computed,
            "position"@,
        ) == Some("relative"@),
        value_of(node.children[b].computed, "position"@) == Some("absolute"@) || value_of(
            node.children[b].computed,
            "position"@,
        ) == Some("relative"@),
        value_of(node.children[a].computed, "z-index"@) == Some(stated(m)),
        value_of(node.children[b].computed, "z-index"@) == Some(stated(n)),
        m < n || (m == n && a < b),
    ensures
        stands_before(child_order(node), a, b),
        !stands_before(child_order(node), b, a),
{
    let flex = value_of(node.computed, "display"@) == Some("flex"@);
    let keys = levels(node.children, flex);
    stated_levels_count(node.children[a].computed, m, flex);
    stated_levels_count(node.children[b].computed, n, flex);
    assert(keys[a] == m && keys[b] == n);
    sorting_is_by_key_and_stable(keys, a, b);
}

/// Children of a flex container stack by their stated numbers too, positioned or
/// not.
pub proof fn flex_items_stack(node: PaintView, a: int, b: int, m: int, n: int)
    requires
        0 <= a < node.children.len(),
        0 <= b < node.children.len(),
        -0x8000_0000 <= m < n <= 0x7fff_ffff,
        value_of(node.computed, "display"@) == Some("flex"@),
        value_of(node.children[a].computed, "z-index"@) == Some(stated(m)),
        value_of(node.children[b].computed, "z-index"@) == Some(stated(n)),
    ensures
        stands_before(child_order(node), a, b),
{
    let keys = levels(node.children, true);
    stated_levels_count(node.children[a].computed, m, true);
    stated_levels_count(node.children[b].computed, n, true);
    assert(keys[a] == m && keys[b] == n);
    sorting_is_by_key_and_stable(keys, a, b);
}

/// Whatever stands earlier in an order is painted earlier: its steps and regions
/// are those that the list began with, and the rest comes behind them.
pub proof fn earlier_paint_stays_below(
    nodes: Seq<PaintView>,
    order: Seq<int>,
    i: int,
    n: int,
    groups: bool,
    walk: WalkView,
    out: OutputView,
)
    requires
        0 <= i <= n,
    ensures
        ({
            let some = paint_list(nodes, order, i, groups, walk, out);
            let all = paint_list(nodes, order, n, groups, walk, out);
            &&& some.0.len() <= all.0.len()
            &&& all.0.take(some.0.len() as int) == some.0
            &&& some.1.hits.len() <= all.1.hits.len()
            &&& all.1.hits.take(some.1.hits.len() as int) == some.1.hits
        }),
    decreases nodes, n,
{
    let some = paint_list(nodes, order, i, groups, walk, out);
    let all = paint_list(nodes, order, n, groups, walk, out);
    if i == n {
        assert(all.0.take(some.0.len() as int) =~= some.0);
        assert(all.1.hits.take(some.1.hits.len() as int) =~= some.1.hits);
    } else {
        earlier_paint_stays_below(nodes, order, i, n - 1, groups, walk, out);
        let before = paint_list(nodes, order, n - 1, groups, walk, out);
        let position = order[n - 1];
        if 0 <= position < nodes.len() {
            regions_are_only_added(nodes[position], walk, before.1);
        }
        assert(all.0.take(some.0.len() as int) =~= some.0) by {
            assert forall|k: int| 0 <= k < some.0.len() implies all.0[k] == some.0[k] by {
                assert(before.0.take(some.0.len() as int)[k] == some.0[k]);
            }
        }
        assert(all.1.hits.take(some.1.hits.len() as int) =~= some.1.hits) by {
            assert forall|k: int| 0 <= k < some.1.hits.len() implies all.1.hits[k]
                == some.1.hits[k] by {
                assert(before.1.hits.take(some.1.hits.len() as int)[k] == some.1.hits[k]);
                assert(all.1.hits.take(before.1.hits.len() as int)[k] == before.1.hits[k]);
            }
        }
    }
}

/// Painting a node keeps the regions painted before it, in their order.
pub proof fn regions_are_only_added(node: PaintView, walk: WalkView, out: OutputView)
    ensures
        out.hits.len() <= paint_node(node, walk, out).1.hits.len(),
        paint_node(node, walk, out).1.hits.take(out.hits.len() as int) == out.hits,
    decreases node, 0int,
{
    let count = node.children.len() as int;
    let after = paint_node(node, walk, out).1.hits;
    let in_fixed = walk.fixed_context || fixed(node.computed);
    assert(out.hits.take(out.hits.len() as int) =~= out.hits);
    if value_of(node.computed, "display"@) == Some("none"@) || (walk.phase == PaintPhase::Document
        && in_fixed) {
    } else if walk.phase == PaintPhase::Fixed && !in_fixed {
        earlier_paint_stays_below(node.children, in_turn(count as nat), 0, count, false, walk, out);
    } else if out_of_sight(node.laid, walk.clip) {
    } else {
        let noted = after_scrolling(node, after_metadata(node, walk, after_hit(node, walk, out)));
        let below = child_walk(node, walk);
        earlier_paint_stays_below(node.children, child_order(node), 0, count, true, below, noted);
        assert(after.take(out.hits.len() as int) =~= out.hits) by {
            assert forall|k: int| 0 <= k < out.hits.len() implies after[k] == out.hits[k] by {
                assert(after.take(noted.hits.len() as int)[k] == noted.hits[k]);
            }
        }
    }
}

/// A node that lets input through has no region, and neither has anything below
/// it.
pub proof fn deaf_trees_have_no_regions(node: PaintView, walk: WalkView, out: OutputView)
    requires
        !walk.hits_enabled || (value_of(node.computed, "pointer-events"@) == Some("none"@)
            && walk.phase == PaintPhase::Document),
    ensures
        paint_node(node, walk, out).1.hits == out.hits,
    decreases node, 0int,
{
    let count = node.children.len() as int;
    let in_fixed = walk.fixed_context || fixed(node.computed);
    if value_of(node.computed, "display"@) == Some("none"@) || (walk.phase == PaintPhase::Document
        && in_fixed) {
    } else if walk.phase == PaintPhase::Fixed && !in_fixed {
        deaf_lists_have_no_regions(node.children, in_turn(count as nat), count, false, walk, out);
    } else if out_of_sight(node.laid, walk.clip) {
    } else {
        let noted = after_scrolling(node, after_metadata(node, walk, after_hit(node, walk, out)));
        deaf_lists_have_no_regions(
            node.children,
            child_order(node),
            count,
            true,
            child_walk(node, walk),
            noted,
        );
    }
}

proof fn deaf_lists_have_no_regions(
    nodes: Seq<PaintView>,
    order: Seq<int>,
    n: int,
    groups: bool,
    walk: WalkView,
    out: OutputView,
)
    requires
        !walk.hits_enabled,
    ensures
        paint_list(nodes, order, n, groups, walk, out).1.hits == out.hits,
    decreases nodes, n,
{
    if n > 0 {
        deaf_lists_have_no_regions(nodes, order, n - 1, groups, walk, out);
        let before = paint_list(nodes, order, n - 1, groups, walk, out);
        let position = order[n - 1];
        if 0 <= position < nodes.len() {
            deaf_trees_have_no_regions(nodes[position], walk, before.1);
        }
    }
}

/// The clip `inner` lets no pixel through that `outer` stops.
pub open spec fn clips_within(inner: Option<PhysicalRect>, outer: Option<PhysicalRect>) -> bool {
    match outer {
        None => true,
        Some(o) => inner matches Some(c) && forall|x: int, y: int|
            #[trigger] pixel_in(c, x, y) ==> pixel_in(o, x, y),
    }
}

/// Nothing below a node is painted where the node's own clip stops it.
pub proof fn ancestors_clip_their_trees(node: PaintView, walk: WalkView, out: OutputView, i: int)
    requires
        0 <= i < paint_node(node, walk, out).0.len(),
    ensures
        clips_within(paint_node(node, walk, out).0[i].clip, walk.clip),
    decreases node, 0int,
{
    let count = node.children.len() as int;
    let in_fixed = walk.fixed_context || fixed(node.computed);
    if value_of(node.computed, "display"@) == Some("none"@) || (walk.phase == PaintPhase::Document
        && in_fixed) {
    } else if walk.phase == PaintPhase::Fixed && !in_fixed {
        clipped_lists(node.children, in_turn(count as nat), count, false, walk, out, i);
    } else if out_of_sight(node.laid, walk.clip) {
    } else {
        let noted = after_scrolling(node, after_metadata(node, walk, after_hit(node, walk, out)));
        let inner = child_walk(node, walk);
        let own = box_steps(node, walk) + opening_steps(node, walk);
        let below = paint_list(node.children, child_order(node), count, true, inner, noted).0;
        let last = closing_steps(node, walk);
        let all = paint_node(node, walk, out).0;
        assert(all == own + below + last);
        own_steps_keep_the_clip(node, walk);
        if i < own.len() {
            assert(all[i] == own[i]);
        } else if i < own.len() + below.len() {
            assert(all[i] == below[i - own.len()]);
            clipped_lists(
                node.children,
                child_order(node),
                count,
                true,
                inner,
                noted,
                i - own.len(),
            );
            children_are_clipped(node, walk);
        } else {
            assert(all[i] == last[i - own.len() - below.len()]);
        }
    }
}

/// All steps have this clip.
#[verifier::opaque]
spec fn share_a_clip(steps: Seq<Step>, clip: Option<PhysicalRect>) -> bool {
    forall|i: int| 0 <= i < steps.len() ==> (#[trigger] steps[i]).clip == clip
}

proof fn one_more_clip(steps: Seq<Step>, condition: bool, node: PaintView, walk: WalkView, op: Op)
    requires
        share_a_clip(steps, walk.clip),
    ensures
        share_a_clip(steps + step_if(condition, node, walk, op), walk.clip),
{
    reveal(share_a_clip);
}

proof fn clips_together(a: Seq<Step>, b: Seq<Step>, clip: Option<PhysicalRect>)
    requires
        share_a_clip(a, clip),
        share_a_clip(b, clip),
    ensures
        share_a_clip(a + b, clip),
{
    reveal(share_a_clip);
}

proof fn box_steps_keep_the_clip(node: PaintView, walk: WalkView)
    ensures
        share_a_clip(box_steps(node, walk), walk.clip),
{
    let field = node.source.kind == "input"@;
    let group = own_group(node.source);
    let shadows = styled(node, "box-shadow"@);
    let mono = Op::Text { monospace: value_of(node.computed, "font-family"@) == Some("monospace"@) };
    let s0 = Seq::<Step>::empty();
    assert(share_a_clip(s0, walk.clip)) by {
        reveal(share_a_clip);
    }
    one_more_clip(s0, group is Some, node, walk, Op::PushGroup(group->0));
    let s1 = s0 + step_if(group is Some, node, walk, Op::PushGroup(group->0));
    one_more_clip(s1, styled(node, "backdrop-filter"@), node, walk, Op::Backdrop);
    let s2 = s1 + step_if(styled(node, "backdrop-filter"@), node, walk, Op::Backdrop);
    one_more_clip(s2, shadows, node, walk, Op::Shadows { inset: false });
    let s3 = s2 + step_if(shadows, node, walk, Op::Shadows { inset: false });
    one_more_clip(s3, styled(node, "background-color"@), node, walk, Op::BackgroundColor);
    let s4 = s3 + step_if(styled(node, "background-color"@), node, walk, Op::BackgroundColor);
    one_more_clip(s4, styled(node, "background-image"@), node, walk, Op::BackgroundImage);
    let s5 = s4 + step_if(styled(node, "background-image"@), node, walk, Op::BackgroundImage);
    one_more_clip(s5, shadows, node, walk, Op::Shadows { inset: true });
    let s6 = s5 + step_if(shadows, node, walk, Op::Shadows { inset: true });
    one_more_clip(s6, true, node, walk, Op::Border);
    let s7 = s6 + step_if(true, node, walk, Op::Border);
    let picture = node.source.kind == "img"@ && string_of(node.source.props, "src"@) is Some;
    one_more_clip(s7, picture, node, walk, Op::Picture);
    let s8 = s7 + step_if(picture, node, walk, Op::Picture);
    one_more_clip(s8, field && node.laid.range is Some, node, walk, Op::Range);
    let s9 = s8 + step_if(field && node.laid.range is Some, node, walk, Op::Range);
    one_more_clip(s9, field && node.laid.range is None, node, walk, Op::Field);
    let s10 = s9 + step_if(field && node.laid.range is None, node, walk, Op::Field);
    one_more_clip(s10, text_leaf(node.source), node, walk, mono);
    assert(box_steps(node, walk) == s10 + step_if(text_leaf(node.source), node, walk, mono));
}

proof fn own_steps_keep_the_clip(node: PaintView, walk: WalkView)
    ensures
        forall|i: int|
            0 <= i < (box_steps(node, walk) + opening_steps(node, walk)).len() ==> (#[trigger] (
            box_steps(node, walk) + opening_steps(node, walk))[i]).clip == walk.clip,
        forall|i: int|
            0 <= i < closing_steps(node, walk).len() ==> (#[trigger] closing_steps(
                node,
                walk,
            )[i]).clip == walk.clip,
{
    box_steps_keep_the_clip(node, walk);
    assert(share_a_clip(opening_steps(node, walk), walk.clip)) by {
        reveal(share_a_clip);
    }
    clips_together(box_steps(node, walk), opening_steps(node, walk), walk.clip);
    reveal(share_a_clip);
}

proof fn clipped_lists(
    nodes: Seq<PaintView>,
    order: Seq<int>,
    n: int,
    groups: bool,
    walk: WalkView,
    out: OutputView,
    i: int,
)
    requires
        0 <= i < paint_list(nodes, order, n, groups, walk, out).0.len(),
    ensures
        clips_within(paint_list(nodes, order, n, groups, walk, out).0[i].clip, walk.clip),
    decreases nodes, n,
{
    if n > 0 {
        let before = paint_list(nodes, order, n - 1, groups, walk, out);
        let all = paint_list(nodes, order, n, groups, walk, out).0;
        let position = order[n - 1];
        if i < before.0.len() {
            clipped_lists(nodes, order, n - 1, groups, walk, out, i);
            assert(all[i] == before.0[i]);
        } else {
            let node = nodes[position];
            let painted = paint_node(node, walk, before.1).0;
            let k = i - before.0.len();
            if groups && painted.len() > 0 && node.laid.translucent {
                if 0 < k <= painted.len() {
                    ancestors_clip_their_trees(node, walk, before.1, k - 1);
                    assert(all[i] == painted[k - 1]);
                }
            } else {
                ancestors_clip_their_trees(node, walk, before.1, k);
                assert(all[i] == painted[k]);
            }
        }
    }
}

/// Below a box that cuts off its content, the clip lets exactly those pixels
/// through that lie inside the box and inside the clip around it; below another
/// box the clip stays.
pub proof fn children_are_clipped(node: PaintView, walk: WalkView)
    ensures
        clips_within(child_walk(node, walk).clip, walk.clip),
        modes_of(node.computed).0 != OverflowMode::Visible || modes_of(node.computed).1
            != OverflowMode::Visible ==> {
            &&& clips_within(child_walk(node, walk).clip, Some(node.laid.port))
            &&& forall|x: int, y: int|
                pixel_in(node.laid.port, x, y) && (walk.clip matches Some(o) ==> pixel_in(o, x, y))
                    ==> #[trigger] pixel_in(child_walk(node, walk).clip->0, x, y)
        },
        modes_of(node.computed).0 == OverflowMode::Visible && modes_of(node.computed).1
            == OverflowMode::Visible ==> child_walk(node, walk).clip == walk.clip,
{
}

/// A tree that is not displayed, or whose box has no pixel inside the clip,
/// paints nothing and takes no input.
pub proof fn unseen_trees_leave_no_trace(node: PaintView, walk: WalkView, out: OutputView)
    requires
        value_of(node.computed, "display"@) == Some("none"@) || (walk.phase == PaintPhase::Document
            && forall|x: int, y: int|
            !(#[trigger] pixel_in(node.laid.bounds, x, y) && (walk.clip matches Some(c) ==> pixel_in(
                c,
                x,
                y,
            )))),
    ensures
        paint_node(node, walk, out) == (Seq::<Step>::empty(), out),
{
    let b = node.laid.bounds;
    if value_of(node.computed, "display"@) != Some("none"@) {
        match walk.clip {
            Some(c) => {
                let m = clipped(b, walk.clip);
                assert(!(pixel_in(b, m.x1 as int, m.y1 as int) && pixel_in(
                    c,
                    m.x1 as int,
                    m.y1 as int,
                )));
            },
            None => {
                assert(!pixel_in(b, b.x1 as int, b.y1 as int));
            },
        }
    }
}

/// How far to the front a step of a box lies.
pub open spec fn depth(op: Op) -> int {
    match op {
        Op::PushGroup(_) => 0,
        Op::Backdrop => 1,
        Op::Shadows { inset } => if inset {
            5
        } else {
            2
        },
        Op::BackgroundColor => 3,
        Op::BackgroundImage => 4,
        Op::Border => 6,
        Op::Picture => 7,
        Op::Range => 8,
        Op::Field => 9,
        Op::Text { monospace: _ } => 10,
        _ => 11,
    }
}

/// The steps lie behind one another, all behind `front`.
#[verifier::opaque]
pub open spec fn back_to_front(steps: Seq<Step>, front: int) -> bool {
    &&& forall|i: int| 0 <= i < steps.len() ==> depth((#[trigger] steps[i]).op) < front
    &&& forall|i: int, j: int|
        0 <= i < j < steps.len() ==> depth((#[trigger] steps[i]).op) < depth(
            (#[trigger] steps[j]).op,
        )
}

/// Some step does this.
#[verifier::opaque]
pub open spec fn paints(steps: Seq<Step>, op: Op) -> bool {
    exists|i: int| 0 <= i < steps.len() && (#[trigger] steps[i]).op == op
}

proof fn one_more_step(
    steps: Seq<Step>,
    condition: bool,
    node: PaintView,
    walk: WalkView,
    op: Op,
    front: int,
)
    requires
        back_to_front(steps, front),
        depth(op) == front,
    ensures
        back_to_front(steps + step_if(condition, node, walk, op), front + 1),
        paints(steps + step_if(condition, node, walk, op), op) == condition,
        forall|other: Op|
            other != op ==> #[trigger] paints(steps + step_if(condition, node, walk, op), other)
                == paints(steps, other),
{
    reveal(back_to_front);
    reveal(paints);
    let all = steps + step_if(condition, node, walk, op);
    if condition {
        assert(all[steps.len() as int].op == op);
    }
    assert forall|i: int| 0 <= i < steps.len() implies all[i] == #[trigger] steps[i] by {}
    assert forall|other: Op| other != op implies #[trigger] paints(all, other) == paints(
        steps,
        other,
    ) by {
        if paints(all, other) {
            let i = choose|i: int| 0 <= i < all.len() && (#[trigger] all[i]).op == other;
            assert(i < steps.len());
            assert(steps[i].op == other);
        }
        if paints(steps, other) {
            let i = choose|i: int| 0 <= i < steps.len() && (#[trigger] steps[i]).op == other;
            assert(all[i].op == other);
        }
    }
    if !condition {
        assert(all =~= steps);
    }
}

/// The steps of a box that do not come from its content.
#[verifier::opaque]
spec fn frame_steps(node: PaintView, walk: WalkView) -> Seq<Step> {
    let group = own_group(node.source);
    let shadows = styled(node, "box-shadow"@);
    Seq::<Step>::empty() + step_if(group is Some, node, walk, Op::PushGroup(group->0)) + step_if(
        styled(node, "backdrop-filter"@),
        node,
        walk,
        Op::Backdrop,
    ) + step_if(shadows, node, walk, Op::Shadows { inset: false }) + step_if(
        styled(node, "background-color"@),
        node,
        walk,
        Op::BackgroundColor,
    ) + step_if(styled(node, "background-image"@), node, walk, Op::BackgroundImage) + step_if(
        shadows,
        node,
        walk,
        Op::Shadows { inset: true },
    ) + step_if(true, node, walk, Op::Border)
}

#[verifier::rlimit(40)]
proof fn frames_are_painted_back_to_front(node: PaintView, walk: WalkView)
    ensures
        back_to_front(frame_steps(node, walk), 7),
        paints(frame_steps(node, walk), Op::Backdrop) == styled(node, "backdrop-filter"@),
        paints(frame_steps(node, walk), Op::Shadows { inset: false }) == styled(
            node,
            "box-shadow"@,
        ),
        paints(frame_steps(node, walk), Op::Shadows { inset: true }) == styled(
            node,
            "box-shadow"@,
        ),
        paints(frame_steps(node, walk), Op::BackgroundColor) == styled(node, "background-color"@),
        paints(frame_steps(node, walk), Op::BackgroundImage) == styled(node, "background-image"@),
        paints(frame_steps(node, walk), Op::Border),
        !paints(frame_steps(node, walk), Op::Picture),
        !paints(frame_steps(node, walk), Op::Range),
        !paints(frame_steps(node, walk), Op::Field),
        !paints(frame_steps(node, walk), Op::Text { monospace: true }),
        !paints(frame_steps(node, walk), Op::Text { monospace: false }),
{
    let group = own_group(node.source);
    let shadows = styled(node, "box-shadow"@);
    let s0 = Seq::<Step>::empty();
    assert(back_to_front(s0, 0)) by {
        reveal(back_to_front);
    }
    assert(forall|op: Op| !#[trigger] paints(s0, op)) by {
        reveal(paints);
    }
    one_more_step(s0, group is Some, node, walk, Op::PushGroup(group->0), 0);
    let s1 = s0 + step_if(group is Some, node, walk, Op::PushGroup(group->0));
    one_more_step(s1, styled(node, "backdrop-filter"@), node, walk, Op::Backdrop, 1);
    let s2 = s1 + step_if(styled(node, "backdrop-filter"@), node, walk, Op::Backdrop);
    one_more_step(s2, shadows, node, walk, Op::Shadows { inset: false }, 2);
    let s3 = s2 + step_if(shadows, node, walk, Op::Shadows { inset: false });
    one_more_step(s3, styled(node, "background-color"@), node, walk, Op::BackgroundColor, 3);
    let s4 = s3 + step_if(styled(node, "background-color"@), node, walk, Op::BackgroundColor);
    one_more_step(s4, styled(node, "background-image"@), node, walk, Op::BackgroundImage, 4);
    let s5 = s4 + step_if(styled(node, "background-image"@), node, walk, Op::BackgroundImage);
    one_more_step(s5, shadows, node, walk, Op::Shadows { inset: true }, 5);
    let s6 = s5 + step_if(shadows, node, walk, Op::Shadows { inset: true });
    one_more_step(s6, true, node, walk, Op::Border, 6);
    assert(frame_steps(node, walk) == s6 + step_if(true, node, walk, Op::Border)) by {
        reveal(frame_steps);
    }
}

/// A box is painted from back to front: filter, outer shadow, color, image, inner
/// shadow, border, content. Each part is painted exactly if the style or the node
/// has it.
#[verifier::rlimit(40)]
pub proof fn boxes_are_painted_back_to_front(node: PaintView, walk: WalkView)
    ensures
        back_to_front(box_steps(node, walk), 11),
        paints(box_steps(node, walk), Op::Backdrop) == node.computed.contains_key(
            "backdrop-filter"@,
        ),
        paints(box_steps(node, walk), Op::Shadows { inset: false }) == node.computed.contains_key(
            "box-shadow"@,
        ),
        paints(box_steps(node, walk), Op::Shadows { inset: true }) == node.computed.contains_key(
            "box-shadow"@,
        ),
        paints(box_steps(node, walk), Op::BackgroundColor) == node.computed.contains_key(
            "background-color"@,
        ),
        paints(box_steps(node, walk), Op::BackgroundImage) == node.computed.contains_key(
            "background-image"@,
        ),
        paints(box_steps(node, walk), Op::Border),
        paints(box_steps(node, walk), Op::Picture) == (node.source.kind == "img"@ && string_of(
            node.source.props,
            "src"@,
        ) is Some),
        paints(box_steps(node, walk), Op::Range) == (node.source.kind == "input"@
            && node.laid.range is Some),
        paints(box_steps(node, walk), Op::Field) == (node.source.kind == "input"@
            && node.laid.range is None),
        paints(box_steps(node, walk), Op::Text { monospace: true }) == (text_leaf(node.source)
            && value_of(node.computed, "font-family"@) == Some("monospace"@)),
        paints(box_steps(node, walk), Op::Text { monospace: false }) == (text_leaf(node.source)
            && value_of(node.computed, "font-family"@) != Some("monospace"@)),
{
    let field = node.source.kind == "input"@;
    let mono = Op::Text { monospace: value_of(node.computed, "font-family"@) == Some("monospace"@) };
    frames_are_painted_back_to_front(node, walk);
    let s7 = frame_steps(node, walk);
    let picture = node.source.kind == "img"@ && string_of(node.source.props, "src"@) is Some;
    one_more_step(s7, picture, node, walk, Op::Picture, 7);
    let s8 = s7 + step_if(picture, node, walk, Op::Picture);
    one_more_step(s8, field && node.laid.range is Some, node, walk, Op::Range, 8);
    let s9 = s8 + step_if(field && node.laid.range is Some, node, walk, Op::Range);
    one_more_step(s9, field && node.laid.range is None, node, walk, Op::Field, 9);
    let s10 = s9 + step_if(field && node.laid.range is None, node, walk, Op::Field);
    one_more_step(s10, text_leaf(node.source), node, walk, mono, 10);
    assert(box_steps(node, walk) == s10 + step_if(text_leaf(node.source), node, walk, mono)) by {
        reveal(frame_steps);
    }
}

/// A translucent child is blended as one group, and an opaque one is not.
pub proof fn translucent_children_are_blended(child: PaintView, walk: WalkView, steps: Seq<Step>)
    requires
        steps.len() > 0,
    ensures
        child.laid.translucent ==> {
            let all = grouped(child, walk, steps);
            &&& all.len() == steps.len() + 2
            &&& all.first().op == Op::OpenOpacity
            &&& all.last().op == Op::CloseOpacity
            &&& all.subrange(1, all.len() - 1) == steps
        },
        !child.laid.translucent ==> grouped(child, walk, steps) == steps,
{
    let all = grouped(child, walk, steps);
    if child.laid.translucent {
        assert(all.subrange(1, all.len() - 1) =~= steps);
    }
}

/// A scrollbar of an axis is shown if the axis always scrolls, or if it scrolls
/// when needed and its content does not fit; never otherwise.
pub proof fn scrollbars_follow_the_content(node: PaintView, walk: WalkView, i: int)
    requires
        0 <= i < closing_steps(node, walk).len(),
    ensures
        closing_steps(node, walk)[i].op matches Op::Scrollbar { horizontal, .. } ==> {
            let mode = if horizontal {
                modes_of(node.computed).0
            } else {
                modes_of(node.computed).1
            };
            let overflows = if horizontal {
                node.laid.overflows_x
            } else {
                node.laid.overflows_y
            };
            mode == OverflowMode::Scroll || (mode == OverflowMode::Auto && overflows)
        },
{
}

/// The region of a node covers a logical position exactly if the node shows the
/// physical pixel of that position.
pub proof fn regions_are_what_is_seen(
    node: NodeView,
    laid: Laid,
    parent: Option<u64>,
    group: Option<u32>,
    visible: PhysicalRect,
    x: int,
    y: int,
)
    requires
        visible.x1 <= 0x7fff_ffff,
        visible.y1 <= 0x7fff_ffff,
        visible.x2 <= 0x7fff_ffff,
        visible.y2 <= 0x7fff_ffff,
    ensures
        ({
            let hit = hit_of(node, laid, parent, group, visible);
            (hit.left <= x < hit.right && hit.top <= y < hit.bottom) <==> pixel_in(
                visible,
                2 * x,
                2 * y,
            )
        }),
{
    crate::paint::hit::logical_edges_are_exact(visible.x1, visible.x2, x);
    crate::paint::hit::logical_edges_are_exact(visible.y1, visible.y2, y);
}

/// Each listener of a region is the number that the node's own property of that
/// name holds; only a disabled button lacks some.
pub proof fn listeners_come_from_their_properties(
    node: NodeView,
    laid: Laid,
    parent: Option<u64>,
    group: Option<u32>,
    visible: PhysicalRect,
    n: u64,
)
    requires
        node.kind != "button"@,
    ensures
        ({
            let hit = hit_of(node, laid, parent, group, visible);
            &&& prop_of(node.props, "onClick"@) == Some(PropView::Number(n)) ==> hit.click == Some(n)
            &&& prop_of(node.props, "onDoubleClick"@) == Some(PropView::Number(n))
                ==> hit.double_click == Some(n)
            &&& prop_of(node.props, "onContextMenu"@) == Some(PropView::Number(n))
                ==> hit.context_menu == Some(n)
            &&& prop_of(node.props, "onPointerDown"@) == Some(PropView::Number(n))
                ==> hit.pointer_down == Some(n)
            &&& prop_of(node.props, "onPointerUp"@) == Some(PropView::Number(n)) ==> hit.pointer_up
                == Some(n)
            &&& prop_of(node.props, "onPointerMove"@) == Some(PropView::Number(n))
                ==> hit.pointer_move == Some(n)
            &&& prop_of(node.props, "onPointerEnter"@) == Some(PropView::Number(n))
                ==> hit.pointer_enter == Some(n)
            &&& prop_of(node.props, "onPointerLeave"@) == Some(PropView::Number(n))
                ==> hit.pointer_leave == Some(n)
            &&& prop_of(node.props, "onWheel"@) == Some(PropView::Number(n)) ==> hit.wheel == Some(n)
            &&& prop_of(node.props, "onKeyDown"@) == Some(PropView::Number(n)) ==> hit.key_down
                == Some(n)
            &&& prop_of(node.props, "onClick"@) is None ==> hit.click is None
            &&& prop_of(node.props, "onPointerDown"@) is None ==> hit.pointer_down is None
            &&& prop_of(node.props, "onWheel"@) is None ==> hit.wheel is None
            &&& hit.node_id == node.id
            &&& hit.parent_node_id == parent
            &&& hit.window_group == group
            &&& hit.cursor == laid.cursor
        }),
{
}

/// An enabled button takes focus and keys, a disabled one neither.
pub proof fn buttons_are_enabled_or_not(
    node: NodeView,
    laid: Laid,
    parent: Option<u64>,
    group: Option<u32>,
    visible: PhysicalRect,
)
    requires
        node.kind == "button"@,
    ensures
        prop_of(node.props, "disabled"@) == Some(PropView::Flag(true)) ==> {
            let hit = hit_of(node, laid, parent, group, visible);
            !hit.button && hit.click is None && hit.pointer_down is None && !focusable(node, laid)
        },
        prop_of(node.props, "disabled"@) is None ==> {
            let hit = hit_of(node, laid, parent, group, visible);
            hit.button && focusable(node, laid)
        },
{
    reveal_strlit("button");
    reveal_strlit("input");
    assert("button"@.len() == 6 && "input"@.len() == 5);
}

/// Overlays come out in ascending stacking order, the first of two equal ones
/// first, and all of them come out.
pub proof fn overlays_come_in_stacking_order(out: OutputView, a: int, b: int)
    requires
        0 <= a < out.overlays.len(),
        0 <= b < out.overlays.len(),
        out.overlays[a].z_index < out.overlays[b].z_index || (out.overlays[a].z_index
            == out.overlays[b].z_index && a < b),
    ensures
        settled(out).overlays.len() == out.overlays.len(),
        exists|i: int, j: int|
            0 <= i < j < settled(out).overlays.len() && #[trigger] settled(out).overlays[i]
                == out.overlays[a] && #[trigger] settled(out).overlays[j] == out.overlays[b],
        settled(out).hits == out.hits,
        settled(out).windows == out.windows,
        settled(out).focused == out.focused,
        settled(out).key_listener == out.key_listener,
{
    let keys = Seq::new(out.overlays.len(), |i: int| out.overlays[i].z_index);
    sorting_is_by_key_and_stable(keys, a, b);
    let order = order_of(keys);
    let (i, j) = choose|i: int, j: int|
        0 <= i < j < order.len() && #[trigger] order[i] == a && #[trigger] order[j] == b;
    assert(settled(out).overlays[i] == out.overlays[a]);
    assert(settled(out).overlays[j] == out.overlays[b]);
}

/// The desktop keeps the input of a window's own chrome over its client: of every
/// clickable region of the window that was painted after the client, and of no
/// region painted before it or of another window.
pub proof fn chrome_over_a_client_takes_input(
    hits: Seq<HitView>,
    start: int,
    surface: u32,
    n: int,
    k: int,
)
    requires
        0 <= start,
        n <= hits.len(),
    ensures
        0 <= start <= k < n && hits[k].window_group == Some(surface) && hits[k].click is Some
            && hits[k].visible.placed().width > 0 && hits[k].visible.placed().height > 0
            ==> desktop_input_of(hits, start, surface, n).contains(hits[k].visible.placed()),
        forall|r: Rect| #[trigger]
            desktop_input_of(hits, start, surface, n).contains(r) ==> exists|j: int|
                start <= j < n && (#[trigger] hits[j]).window_group == Some(surface)
                    && hits[j].visible.placed() == r && r.width > 0 && r.height > 0,
    decreases n,
{
    if n > start && n > 0 {
        chrome_over_a_client_takes_input(hits, start, surface, n - 1, k);
        let before = desktop_input_of(hits, start, surface, n - 1);
        let all = desktop_input_of(hits, start, surface, n);
        let own = hits[n - 1];
        assert forall|r: Rect| before.contains(r) implies all.contains(r) by {
            let i = choose|i: int| 0 <= i < before.len() && before[i] == r;
            assert(all[i] == r);
        }
        if all.len() > before.len() {
            assert(all[before.len() as int] == own.visible.placed());
        }
        assert forall|r: Rect| #[trigger] all.contains(r) implies exists|j: int|
            start <= j < n && (#[trigger] hits[j]).window_group == Some(surface)
                && hits[j].visible.placed() == r && r.width > 0 && r.height > 0 by {
            if before.contains(r) {
                let j = choose|j: int|
                    start <= j < n - 1 && (#[trigger] hits[j]).window_group == Some(surface)
                        && hits[j].visible.placed() == r && r.width > 0 && r.height > 0;
                assert(hits[j].window_group == Some(surface));
            } else {
                let i = choose|i: int| 0 <= i < all.len() && all[i] == r;
                if i < before.len() {
                    assert(before[i] == r);
                }
                assert(hits[n - 1].window_group == Some(surface));
            }
        }
    }
}

/// Every step of a phase belongs to a node of that phase: fixed chrome is painted
/// in its own phase only, and the document never is.
pub proof fn phases_paint_their_own(node: PaintView, walk: WalkView, out: OutputView)
    requires
        walk.phase == PaintPhase::Document,
        value_of(node.computed, "position"@) == Some("fixed"@),
    ensures
        paint_node(node, walk, out) == (Seq::<Step>::empty(), out),
{
}

/// A window's content and a fixed tree are known by their walk: everything below
/// a node has it for a parent, in the node's own window, or in that around it.
pub proof fn walks_carry_what_is_around(node: PaintView, walk: WalkView, n: u64)
    ensures
        child_walk(node, walk).parent_node_id == Some(node.source.id),
        child_walk(node, walk).phase == walk.phase,
        prop_of(node.source.props, "data-lite-window"@) is None ==> child_walk(
            node,
            walk,
        ).window_group == walk.window_group,
        prop_of(node.source.props, "data-lite-window"@) == Some(PropView::Number(n)) && n
            <= 0xffff_ffff ==> child_walk(node, walk).window_group == Some(n as u32),
        value_of(node.computed, "position"@) == Some("fixed"@) ==> child_walk(
            node,
            walk,
        ).fixed_context,
        walk.fixed_context ==> child_walk(node, walk).fixed_context,
        !walk.hits_enabled ==> !child_walk(node, walk).hits_enabled,
{
}

/// A painted node with a number for its window is that window's frame, with its
/// own box, and fixed chrome is an overlay with its own stacking number.
pub proof fn windows_and_chrome_are_noted(
    node: PaintView,
    walk: WalkView,
    out: OutputView,
    n: u64,
)
    requires
        prop_of(node.source.props, "data-lite-window"@) == Some(PropView::Number(n)),
        n <= 0xffff_ffff,
    ensures
        ({
            let windows = after_metadata(node, walk, out).windows;
            &&& windows.len() == out.windows.len() + 1
            &&& windows.drop_last() == out.windows
            &&& windows.last().surface_id == n
            &&& windows.last().frame == node.laid.surface
            &&& windows.last().clip_mask.rect == node.laid.surface
            &&& windows.last().clip_mask.radii == node.laid.radii
        }),
        value_of(node.computed, "position"@) == Some("fixed"@) <==> after_metadata(
            node,
            walk,
            out,
        ).overlays.len() == out.overlays.len() + 1,
        value_of(node.computed, "position"@) != Some("fixed"@) ==> after_metadata(
            node,
            walk,
            out,
        ).overlays == out.overlays,
{
    let windows = after_metadata(node, walk, out).windows;
    assert(windows.drop_last() =~= out.windows);
}

/// Fixed chrome is painted over the whole document: first everything is painted
/// that moves with the document, then everything that stays on the screen.
pub proof fn chrome_is_painted_over_the_document(roots: Seq<PaintView>, focused: Option<u64>)
    ensures
        ({
            let start = root_walk(PaintPhase::Document);
            let document = paint_list(
                roots,
                in_turn(roots.len()),
                roots.len() as int,
                false,
                start,
                empty_output_view(focused),
            );
            let chrome = paint_list(
                roots,
                in_turn(roots.len()),
                roots.len() as int,
                false,
                WalkView { phase: PaintPhase::Fixed, ..start },
                document.1,
            );
            let steps = walked(roots, focused).0;
            &&& steps.take(document.0.len() as int) == document.0
            &&& steps.skip(document.0.len() as int) == chrome.0
            &&& walked(roots, focused).1 == chrome.1
        }),
{
    let start = root_walk(PaintPhase::Document);
    assert(WalkView { phase: PaintPhase::Fixed, ..start } == root_walk(PaintPhase::Fixed));
    let document = phase_of(roots, PaintPhase::Document, empty_output_view(focused));
    let chrome = phase_of(roots, PaintPhase::Fixed, document.1);
    let steps = walked(roots, focused).0;
    assert(steps.take(document.0.len() as int) =~= document.0);
    assert(steps.skip(document.0.len() as int) =~= chrome.0);
}

/// A walk starts outside of everything, with input; nothing is there before it.
pub proof fn walks_start_with_nothing(phase: PaintPhase, focused: Option<u64>)
    ensures
        root_walk(phase).parent_node_id is None,
        root_walk(phase).window_group is None,
        root_walk(phase).clip is None,
        root_walk(phase).clip_masks.len() == 0,
        root_walk(phase).hits_enabled,
        root_walk(phase).phase == phase,
        !root_walk(phase).fixed_context,
        empty_output_view(focused).focused == focused,
        empty_output_view(focused).hits.len() == 0,
        empty_output_view(focused).foreign.len() == 0,
        empty_output_view(focused).windows.len() == 0,
        empty_output_view(focused).overlays.len() == 0,
        empty_output_view(focused).scrolling.len() == 0,
        empty_output_view(focused).damage.len() == 0,
        empty_output_view(focused).key_listener is None,
{
}

/// A text field offers its value and its listener where its text starts; a field
/// with a range offers the range instead.
pub proof fn fields_offer_what_they_hold(
    node: NodeView,
    laid: Laid,
    parent: Option<u64>,
    group: Option<u32>,
    visible: PhysicalRect,
    value: Seq<char>,
    n: u64,
)
    requires
        node.kind == "input"@,
    ensures
        ({
            let hit = hit_of(node, laid, parent, group, visible);
            &&& laid.range is Some ==> hit.editable is None && hit.range == laid.range
            &&& laid.range is None ==> hit.range is None && (hit.editable matches Some(field)
                && field.text_origin_x == laid.text_origin_x && (prop_of(node.props, "value"@)
                == Some(PropView::Text(value)) ==> field.value == value) && (prop_of(
                node.props,
                "value"@,
            ) is None ==> field.value.len() == 0) && (prop_of(node.props, "onInput"@) == Some(
                PropView::Number(n),
            ) ==> field.on_input == Some(n)) && (prop_of(node.props, "onInput"@) is None
                ==> field.on_input is None))
            &&& hit.left == logical_edge(visible.x1)
            &&& hit.top == logical_edge(visible.y1)
            &&& hit.right == logical_edge(visible.x2)
            &&& hit.bottom == logical_edge(visible.y2)
        }),
{
}

/// Other nodes than fields offer neither text nor a range.
pub proof fn other_nodes_hold_no_field(
    node: NodeView,
    laid: Laid,
    parent: Option<u64>,
    group: Option<u32>,
    visible: PhysicalRect,
)
    requires
        node.kind != "input"@,
    ensures
        hit_of(node, laid, parent, group, visible).editable is None,
        hit_of(node, laid, parent, group, visible).range is None,
{
}

/// The surface of a client is placed where its box is, within the clip around it,
/// and known by its number and its serial.
pub proof fn surfaces_are_placed_in_their_box(node: PaintView, walk: WalkView, hits: nat, n: u64, s: u64)
    requires
        surface_node(node.source),
        hits <= usize::MAX,
    ensures
        prop_of(node.source.props, "data-surface-id"@) == Some(PropView::Number(n)) && n
            <= 0xffff_ffff && prop_of(node.source.props, "data-configure-serial"@) == Some(
            PropView::Number(s),
        ) ==> (foreign_of(node, walk, hits) matches Some(surface) && surface.surface_id == n
            && surface.configure_serial == s && surface.bounds == node.laid.surface
            && surface.clip_masks == walk.clip_masks && surface.desktop_hit_start == hits
            && surface.desktop_input.len() == 0 && (walk.clip is None ==> surface.clip
            == node.laid.surface) && (walk.clip matches Some(clip) ==> surface.clip
            == clip.placed())),
        prop_of(node.source.props, "data-surface-id"@) is None ==> foreign_of(node, walk, hits)
            is None,
        prop_of(node.source.props, "data-configure-serial"@) is None ==> foreign_of(
            node,
            walk,
            hits,
        ) is None,
{
}

/// A region takes the pointer if it listens to it in any way, or shows a cursor of
/// its own.
pub proof fn listening_regions_take_the_pointer(hit: HitView)
    ensures
        hit.click is Some ==> takes_pointer(hit),
        hit.double_click is Some ==> takes_pointer(hit),
        hit.context_menu is Some ==> takes_pointer(hit),
        hit.pointer_down is Some ==> takes_pointer(hit),
        hit.pointer_move is Some ==> takes_pointer(hit),
        hit.pointer_up is Some ==> takes_pointer(hit),
        hit.wheel is Some ==> takes_pointer(hit),
        hit.cursor != 0 ==> takes_pointer(hit),
        hit.click is None && hit.double_click is None && hit.context_menu is None
            && hit.pointer_down is None && hit.pointer_move is None && hit.pointer_up is None
            && hit.wheel is None && hit.cursor == 0 ==> !takes_pointer(hit),
{
}

/// The shape that children are cut to is the box inside the border, with the
/// corners of the node.
pub proof fn children_are_cut_to_the_inner_box(laid: Laid)
    requires
        laid.port.x1 <= laid.port.x2 <= 0x7fff_ffff,
        laid.port.y1 <= laid.port.y2 <= 0x7fff_ffff,
    ensures
        port_mask(laid).rect.x == laid.port.x1,
        port_mask(laid).rect.y == laid.port.y1,
        port_mask(laid).rect.width == laid.port.x2 - laid.port.x1,
        port_mask(laid).rect.height == laid.port.y2 - laid.port.y1,
        port_mask(laid).radii == laid.radii,
{
}

} // verus!
