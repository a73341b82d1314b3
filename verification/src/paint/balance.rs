//! Every group, clip and blend that a walk opens is closed again, in turn.

use vstd::prelude::*;
use crate::overflow::modes_of;
use crate::paint::{
    after_hit, after_metadata, after_scrolling, bar_shown, box_steps, child_order, child_walk,
    closing_steps, grouped, in_turn, opening_steps, out_of_sight, own_group, paint_list, paint_node,
    port_mask, step_if, styled, Op, OutputView, PaintPhase, PaintView, Step, WalkView,
};
use crate::retained::fixed;
use crate::style::value_of;
use crate::tree::{string_of, text_leaf};

verus! {

/// What can be open.
pub enum Bracket {
    Group,
    Clip,
    Opacity,
}

/// What is open after one step; nothing where the step closes what is not the
/// innermost.
pub open spec fn after_op(open: Option<Seq<Bracket>>, op: Op) -> Option<Seq<Bracket>> {
    match open {
        None => None,
        Some(list) => match op {
            Op::PushGroup(_) => Some(list.push(Bracket::Group)),
            Op::PushClip(_) => Some(list.push(Bracket::Clip)),
            Op::OpenOpacity => Some(list.push(Bracket::Opacity)),
            Op::PopGroup => if list.len() > 0 && list.last() == Bracket::Group {
                Some(list.drop_last())
            } else {
                None
            },
            Op::PopClip => if list.len() > 0 && list.last() == Bracket::Clip {
                Some(list.drop_last())
            } else {
                None
            },
            Op::CloseOpacity => if list.len() > 0 && list.last() == Bracket::Opacity {
                Some(list.drop_last())
            } else {
                None
            },
            _ => Some(list),
        },
    }
}

/// What is open after a list of steps.
pub open spec fn after_steps(steps: Seq<Step>, open: Option<Seq<Bracket>>) -> Option<Seq<Bracket>>
    decreases steps.len(),
{
    if steps.len() == 0 {
        open
    } else {
        after_op(after_steps(steps.drop_last(), open), steps.last().op)
    }
}

proof fn steps_in_turn(a: Seq<Step>, b: Seq<Step>, open: Option<Seq<Bracket>>)
    ensures
        after_steps(a + b, open) == after_steps(b, after_steps(a, open)),
    decreases b.len(),
{
    if b.len() == 0 {
        assert(a + b =~= a);
    } else {
        assert((a + b).drop_last() =~= a + b.drop_last());
        steps_in_turn(a, b.drop_last(), open);
    }
}

proof fn one_step(
    before: Seq<Step>,
    condition: bool,
    node: PaintView,
    walk: WalkView,
    op: Op,
    open: Option<Seq<Bracket>>,
)
    ensures
        after_steps(before + step_if(condition, node, walk, op), open) == (if condition {
            after_op(after_steps(before, open), op)
        } else {
            after_steps(before, open)
        }),
{
    let step = step_if(condition, node, walk, op);
    steps_in_turn(before, step, open);
    if condition {
        assert(step.drop_last() =~= Seq::empty());
        reveal_with_fuel(after_steps, 2);
    }
}

proof fn box_opens_its_group(node: PaintView, walk: WalkView, open: Seq<Bracket>)
    ensures
        after_steps(box_steps(node, walk), Some(open)) == Some(
            if own_group(node.source) is Some {
                open.push(Bracket::Group)
            } else {
                open
            },
        ),
{
    let start = Some(open);
    let field = node.source.kind == "input"@;
    let group = own_group(node.source);
    let text = Op::Text {
        monospace: value_of(node.computed, "font-family"@) == Some("monospace"@),
    };
    let a = Seq::<Step>::empty();
    one_step(a, group is Some, node, walk, Op::PushGroup(group->0), start);
    let b = a + step_if(group is Some, node, walk, Op::PushGroup(group->0));
    one_step(b, styled(node, "backdrop-filter"@), node, walk, Op::Backdrop, start);
    let c = b + step_if(styled(node, "backdrop-filter"@), node, walk, Op::Backdrop);
    one_step(c, styled(node, "box-shadow"@), node, walk, Op::Shadows { inset: false }, start);
    let d = c + step_if(styled(node, "box-shadow"@), node, walk, Op::Shadows { inset: false });
    one_step(d, styled(node, "background-color"@), node, walk, Op::BackgroundColor, start);
    let e = d + step_if(styled(node, "background-color"@), node, walk, Op::BackgroundColor);
    one_step(e, styled(node, "background-image"@), node, walk, Op::BackgroundImage, start);
    let f = e + step_if(styled(node, "background-image"@), node, walk, Op::BackgroundImage);
    one_step(f, styled(node, "box-shadow"@), node, walk, Op::Shadows { inset: true }, start);
    let g = f + step_if(styled(node, "box-shadow"@), node, walk, Op::Shadows { inset: true });
    one_step(g, true, node, walk, Op::Border, start);
    let h = g + step_if(true, node, walk, Op::Border);
    let picture = node.source.kind == "img"@ && string_of(node.source.props, "src"@) is Some;
    one_step(h, picture, node, walk, Op::Picture, start);
    let i = h + step_if(picture, node, walk, Op::Picture);
    one_step(i, field && node.laid.range is Some, node, walk, Op::Range, start);
    let j = i + step_if(field && node.laid.range is Some, node, walk, Op::Range);
    one_step(j, field && node.laid.range is None, node, walk, Op::Field, start);
    let k = j + step_if(field && node.laid.range is None, node, walk, Op::Field);
    one_step(k, text_leaf(node.source), node, walk, text, start);
    assert(box_steps(node, walk) == k + step_if(text_leaf(node.source), node, walk, text));
}

proof fn opening_opens_the_clip(node: PaintView, walk: WalkView, open: Seq<Bracket>)
    ensures
        after_steps(opening_steps(node, walk), Some(open)) == Some(
            if modes_of(node.computed).0.cuts() || modes_of(node.computed).1.cuts() {
                open.push(Bracket::Clip)
            } else {
                open
            },
        ),
{
    let modes = modes_of(node.computed);
    let scrolls = (modes.0.scrolling() || modes.1.scrolling()) && walk.hits_enabled;
    let a = step_if(scrolls, node, walk, Op::ScrollRegion);
    assert(Seq::<Step>::empty() + a =~= a);
    one_step(Seq::empty(), scrolls, node, walk, Op::ScrollRegion, Some(open));
    one_step(
        a,
        modes.0.cuts() || modes.1.cuts(),
        node,
        walk,
        Op::PushClip(port_mask(node.laid)),
        Some(open),
    );
}

proof fn closing_closes_both(node: PaintView, walk: WalkView, open: Seq<Bracket>)
    ensures
        ({
            let modes = modes_of(node.computed);
            let grouped = if own_group(node.source) is Some {
                open.push(Bracket::Group)
            } else {
                open
            };
            let inner = if modes.0.cuts() || modes.1.cuts() {
                grouped.push(Bracket::Clip)
            } else {
                grouped
            };
            after_steps(closing_steps(node, walk), Some(inner)) == Some(open)
        }),
{
    let modes = modes_of(node.computed);
    let cuts = modes.0.cuts() || modes.1.cuts();
    let has_group = own_group(node.source) is Some;
    let grouped = if has_group {
        open.push(Bracket::Group)
    } else {
        open
    };
    let inner = if cuts {
        grouped.push(Bracket::Clip)
    } else {
        grouped
    };
    let below = child_walk(node, walk);
    let x = bar_shown(modes.0, node.laid.overflows_x);
    let y = bar_shown(modes.1, node.laid.overflows_y);
    let bar_x = Op::Scrollbar { horizontal: true, corner: y, hit: below.hits_enabled };
    let bar_y = Op::Scrollbar { horizontal: false, corner: x, hit: below.hits_enabled };
    let start = Some(inner);
    assert(grouped.push(Bracket::Clip).drop_last() =~= grouped);
    assert(open.push(Bracket::Group).drop_last() =~= open);
    let a = step_if(cuts, node, walk, Op::PopClip);
    assert(Seq::<Step>::empty() + a =~= a);
    one_step(Seq::empty(), cuts, node, walk, Op::PopClip, start);
    assert(after_steps(a, start) == Some(grouped));
    one_step(a, x, node, walk, bar_x, start);
    let b = a + step_if(x, node, walk, bar_x);
    one_step(b, y, node, walk, bar_y, start);
    let c = b + step_if(y, node, walk, bar_y);
    one_step(c, x && y, node, walk, Op::ScrollCorner, start);
    let d = c + step_if(x && y, node, walk, Op::ScrollCorner);
    one_step(d, has_group, node, walk, Op::PopGroup, start);
}

proof fn groups_close(child: PaintView, walk: WalkView, steps: Seq<Step>, open: Seq<Bracket>)
    requires
        forall|list: Seq<Bracket>| #[trigger] after_steps(steps, Some(list)) == Some(list),
    ensures
        after_steps(grouped(child, walk, steps), Some(open)) == Some(open),
{
    let opening = seq![Step { node: child.source.id, clip: walk.clip, op: Op::OpenOpacity }];
    let closing = seq![Step { node: child.source.id, clip: walk.clip, op: Op::CloseOpacity }];
    assert(after_steps(steps, Some(open)) == Some(open));
    if steps.len() > 0 && child.laid.translucent {
        let inner = open.push(Bracket::Opacity);
        assert(opening.drop_last() =~= Seq::empty());
        assert(closing.drop_last() =~= Seq::empty());
        reveal_with_fuel(after_steps, 2);
        assert(after_steps(opening, Some(open)) == Some(inner));
        steps_in_turn(opening, steps, Some(open));
        assert(after_steps(steps, Some(inner)) == Some(inner));
        steps_in_turn(opening + steps, closing, Some(open));
        assert(inner.drop_last() =~= open);
    }
}

proof fn list_is_balanced(
    nodes: Seq<PaintView>,
    order: Seq<int>,
    n: int,
    groups: bool,
    walk: WalkView,
    out: OutputView,
)
    ensures
        forall|open: Seq<Bracket>| #[trigger]
            after_steps(paint_list(nodes, order, n, groups, walk, out).0, Some(open)) == Some(open),
    decreases nodes, n,
{
    if n > 0 {
        list_is_balanced(nodes, order, n - 1, groups, walk, out);
        let before = paint_list(nodes, order, n - 1, groups, walk, out);
        let position = order[n - 1];
        if 0 <= position < nodes.len() {
            let node = nodes[position];
            let painted = paint_node(node, walk, before.1);
            walk_is_balanced(node, walk, before.1);
            let added = if groups {
                grouped(node, walk, painted.0)
            } else {
                painted.0
            };
            assert forall|open: Seq<Bracket>| #[trigger]
                after_steps(
                    paint_list(nodes, order, n, groups, walk, out).0,
                    Some(open),
                ) == Some(open) by {
                steps_in_turn(before.0, added, Some(open));
                assert(after_steps(before.0, Some(open)) == Some(open));
                groups_close(node, walk, painted.0, open);
                assert(after_steps(painted.0, Some(open)) == Some(open));
            }
        }
    }
}

/// The steps of a node close everything that they open, each in its turn, and
/// nothing else.
pub proof fn walk_is_balanced(node: PaintView, walk: WalkView, out: OutputView)
    ensures
        forall|open: Seq<Bracket>| #[trigger]
            after_steps(paint_node(node, walk, out).0, Some(open)) == Some(open),
    decreases node, 0int,
{
    let in_fixed = walk.fixed_context || fixed(node.computed);
    let count = node.children.len();
    if value_of(node.computed, "display"@) == Some("none"@) || (walk.phase == PaintPhase::Document
        && in_fixed) {
    } else if walk.phase == PaintPhase::Fixed && !in_fixed {
        list_is_balanced(node.children, in_turn(count), count as int, false, walk, out);
    } else if out_of_sight(node.laid, walk.clip) {
    } else {
        let noted = after_scrolling(node, after_metadata(node, walk, after_hit(node, walk, out)));
        let inner_walk = child_walk(node, walk);
        list_is_balanced(node.children, child_order(node), count as int, true, inner_walk, noted);
        let below = paint_list(
            node.children,
            child_order(node),
            count as int,
            true,
            inner_walk,
            noted,
        );
        let first = box_steps(node, walk);
        let second = opening_steps(node, walk);
        let last = closing_steps(node, walk);
        let modes = modes_of(node.computed);
        assert forall|open: Seq<Bracket>| #[trigger]
            after_steps(paint_node(node, walk, out).0, Some(open)) == Some(open) by {
            let grouped = if own_group(node.source) is Some {
                open.push(Bracket::Group)
            } else {
                open
            };
            let inner = if modes.0.cuts() || modes.1.cuts() {
                grouped.push(Bracket::Clip)
            } else {
                grouped
            };
            box_opens_its_group(node, walk, open);
            opening_opens_the_clip(node, walk, grouped);
            closing_closes_both(node, walk, open);
            steps_in_turn(first, second, Some(open));
            steps_in_turn(first + second, below.0, Some(open));
            steps_in_turn(first + second + below.0, last, Some(open));
            assert(after_steps(below.0, Some(inner)) == Some(inner));
        }
    }
}

/// A whole scene leaves nothing open.
pub proof fn scene_is_balanced(roots: Seq<PaintView>, focused: Option<u64>)
    ensures
        after_steps(crate::paint::frame::walked(roots, focused).0, Some(Seq::empty())) == Some(
            Seq::<Bracket>::empty(),
        ),
{
    let start = crate::paint::frame::empty_output_view(focused);
    let document = crate::paint::frame::phase_of(roots, PaintPhase::Document, start);
    let count = roots.len();
    list_is_balanced(
        roots,
        in_turn(count),
        count as int,
        false,
        crate::paint::frame::root_walk(PaintPhase::Document),
        start,
    );
    list_is_balanced(
        roots,
        in_turn(count),
        count as int,
        false,
        crate::paint::frame::root_walk(PaintPhase::Fixed),
        document.1,
    );
    let chrome = crate::paint::frame::phase_of(roots, PaintPhase::Fixed, document.1);
    let none = Seq::<Bracket>::empty();
    steps_in_turn(document.0, chrome.0, Some(none));
    assert(after_steps(document.0, Some(none)) == Some(none));
    assert(after_steps(chrome.0, Some(none)) == Some(none));
}

} // verus!
