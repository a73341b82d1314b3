//! Retained identity of painted frames and classification of local damage.

pub mod frame;

use std::collections::HashMap;
use vstd::prelude::*;
use vstd::string::*;
use crate::style::{agree_outside, text_view, value_of, Computed};
use crate::styled::{render_views, render_views_in_order, RenderNode, RenderView};
use crate::text::{same, views};
use crate::tree::{
    copied_props, kept, left_out, node_views, prop, prop_of, same_node, same_nodes, same_props,
    same_value, text_content, text_leaf, text_of, Node, NodeView, PropValue,
};

verus! {

broadcast use vstd::std_specs::hash::group_hash_axioms;

/// A painted node as it is remembered. Its source has no children of its own.
pub struct RetainedNode {
    pub source: Node,
    pub paint_text: String,
    pub computed: Computed,
    pub children: Vec<RetainedNode>,
}

/// What a [`RetainedNode`] holds.
pub struct RetainedView {
    pub source: NodeView,
    pub paint_text: Seq<char>,
    pub computed: Map<Seq<char>, Seq<char>>,
    pub children: Seq<RetainedView>,
}

/// The views of a list of nodes.
pub open spec fn retained_views(nodes: Seq<RetainedNode>) -> Seq<RetainedView>
    decreases nodes,
{
    if nodes.len() == 0 {
        Seq::empty()
    } else {
        let last = nodes.last();
        retained_views(nodes.drop_last()).push(
            RetainedView {
                source: last.source@,
                paint_text: last.paint_text@,
                computed: last.computed@,
                children: retained_views(last.children@),
            },
        )
    }
}

impl View for RetainedNode {
    type V = RetainedView;

    open spec fn view(&self) -> RetainedView {
        RetainedView {
            source: self.source@,
            paint_text: self.paint_text@,
            computed: self.computed@,
            children: retained_views(self.children@),
        }
    }
}

/// Views keep the order of their nodes.
pub proof fn retained_views_in_order(nodes: Seq<RetainedNode>)
    ensures
        retained_views(nodes).len() == nodes.len(),
        forall|i: int| 0 <= i < nodes.len() ==> #[trigger] retained_views(nodes)[i] == nodes[i]@,
    decreases nodes,
{
    if nodes.len() > 0 {
        retained_views_in_order(nodes.drop_last());
        assert forall|i: int| 0 <= i < nodes.len() implies #[trigger] retained_views(nodes)[i]
            == nodes[i]@ by {
            if i < nodes.len() - 1 {
                assert(retained_views(nodes)[i] == retained_views(nodes.drop_last())[i]);
                assert(nodes.drop_last()[i] == nodes[i]);
            }
        }
    }
}

/// A node without its children.
pub open spec fn bare(node: NodeView) -> NodeView {
    NodeView { children: Seq::empty(), ..node }
}

fn bare_copy(node: &Node) -> (result: Node)
    ensures
        result@ == bare(node@),
{
    let result = Node {
        id: node.id,
        kind: node.kind.clone(),
        props: copied_props(&node.props),
        text: node.text.clone(),
        children: Vec::new(),
    };
    assert(node_views(result.children@) =~= Seq::empty());
    result
}

/// The node is fixed global chrome.
pub open spec fn fixed(style: Map<Seq<char>, Seq<char>>) -> bool {
    value_of(style, "position"@) == Some("fixed"@)
}

/// The document under a list of nodes: everything that is not fixed chrome.
pub open spec fn document_of(nodes: Seq<RenderView>) -> Seq<RetainedView>
    decreases nodes,
{
    if nodes.len() == 0 {
        Seq::empty()
    } else {
        let last = nodes.last();
        let before = document_of(nodes.drop_last());
        if fixed(last.computed) {
            before
        } else {
            before.push(
                RetainedView {
                    source: bare(last.source),
                    paint_text: if text_leaf(last.source) {
                        text_of(last.source)
                    } else {
                        Seq::empty()
                    },
                    computed: last.computed,
                    children: document_of(last.children),
                },
            )
        }
    }
}

/// Remembers the document under a list of nodes.
pub fn document_nodes(nodes: &Vec<RenderNode>) -> (result: Vec<RetainedNode>)
    ensures
        retained_views(result@) == document_of(render_views(nodes@)),
    decreases nodes,
{
    let ghost all = render_views(nodes@);
    proof {
        render_views_in_order(nodes@);
    }
    let mut out: Vec<RetainedNode> = Vec::new();
    let mut i: usize = 0;
    assert(retained_views(out@) =~= document_of(all.take(0)));
    while i < nodes.len()
        invariant
            i <= nodes@.len(),
            all == render_views(nodes@),
            all.len() == nodes@.len(),
            forall|k: int| 0 <= k < nodes@.len() ==> #[trigger] all[k] == nodes@[k]@,
            retained_views(out@) == document_of(all.take(i as int)),
        decreases nodes@.len() - i,
    {
        let node = &nodes[i];
        proof {
            assert(all.take(i + 1).drop_last() =~= all.take(i as int));
            assert(all.take(i + 1).last() == node@);
        }
        if !node.computed.is("position", "fixed") {
            let paint_text = if node.source.is_text_leaf() {
                text_content(node.source)
            } else {
                proof {
                    reveal_strlit("");
                }
                "".to_owned()
            };
            assert(!text_leaf(node.source@) ==> paint_text@ =~= Seq::empty());
            let children = document_nodes(&node.children);
            let ghost before = out@;
            out.push(
                RetainedNode {
                    source: bare_copy(node.source),
                    paint_text,
                    computed: node.computed.copied(),
                    children,
                },
            );
            assert(out@.drop_last() =~= before);
        }
        i = i + 1;
    }
    assert(all.take(i as int) =~= all);
    out
}

/// The complete trees under a list of nodes.
pub open spec fn signatures_of(nodes: Seq<RenderView>) -> Seq<RetainedView>
    decreases nodes,
{
    if nodes.len() == 0 {
        Seq::empty()
    } else {
        let last = nodes.last();
        signatures_of(nodes.drop_last()).push(
            RetainedView {
                source: bare(last.source),
                paint_text: Seq::empty(),
                computed: last.computed,
                children: signatures_of(last.children),
            },
        )
    }
}

/// The complete tree of one node.
pub open spec fn signature_of(node: RenderView) -> RetainedView {
    RetainedView {
        source: bare(node.source),
        paint_text: Seq::empty(),
        computed: node.computed,
        children: signatures_of(node.children),
    }
}

fn signatures(nodes: &Vec<RenderNode>) -> (result: Vec<RetainedNode>)
    ensures
        retained_views(result@) == signatures_of(render_views(nodes@)),
    decreases nodes,
{
    let ghost all = render_views(nodes@);
    proof {
        render_views_in_order(nodes@);
        reveal_strlit("");
    }
    let mut out: Vec<RetainedNode> = Vec::new();
    let mut i: usize = 0;
    assert(retained_views(out@) =~= signatures_of(all.take(0)));
    while i < nodes.len()
        invariant
            i <= nodes@.len(),
            all == render_views(nodes@),
            all.len() == nodes@.len(),
            forall|k: int| 0 <= k < nodes@.len() ==> #[trigger] all[k] == nodes@[k]@,
            retained_views(out@) == signatures_of(all.take(i as int)),
        decreases nodes@.len() - i,
    {
        let node = &nodes[i];
        proof {
            assert(all.take(i + 1).drop_last() =~= all.take(i as int));
            assert(all.take(i + 1).last() == node@);
        }
        let made = full_signature(node);
        let ghost before = out@;
        out.push(made);
        assert(out@.drop_last() =~= before);
        i = i + 1;
    }
    assert(all.take(i as int) =~= all);
    out
}

/// Remembers the complete tree of one node.
pub fn full_signature(node: &RenderNode) -> (result: RetainedNode)
    ensures
        result@ == signature_of(node@),
    decreases node,
{
    let paint_text = "".to_owned();
    proof {
        reveal_strlit("");
    }
    assert(paint_text@ =~= Seq::empty());
    RetainedNode {
        source: bare_copy(node.source),
        paint_text,
        computed: node.computed.copied(),
        children: signatures(&node.children),
    }
}

/// The views of remembered trees by identity.
pub open spec fn signature_map(map: Map<u64, RetainedNode>) -> Map<u64, RetainedView> {
    Map::new(|id: u64| map.contains_key(id), |id: u64| map[id]@)
}

/// The outermost fixed trees under a list of nodes, on top of what is known.
pub open spec fn fixed_of(
    nodes: Seq<RenderView>,
    known: Map<u64, RetainedView>,
) -> Map<u64, RetainedView>
    decreases nodes,
{
    if nodes.len() == 0 {
        known
    } else {
        let last = nodes.last();
        let before = fixed_of(nodes.drop_last(), known);
        if fixed(last.computed) {
            before.insert(last.source.id, signature_of(last))
        } else {
            fixed_of(last.children, before)
        }
    }
}

/// Remembers the outermost fixed trees under a list of nodes.
pub fn collect_fixed_signatures(nodes: &Vec<RenderNode>, output: &mut HashMap<u64, RetainedNode>)
    ensures
        signature_map(final(output)@) == fixed_of(
            render_views(nodes@),
            signature_map(old(output)@),
        ),
    decreases nodes,
{
    let ghost all = render_views(nodes@);
    let ghost known = signature_map(output@);
    proof {
        render_views_in_order(nodes@);
    }
    let mut i: usize = 0;
    while i < nodes.len()
        invariant
            i <= nodes@.len(),
            all == render_views(nodes@),
            all.len() == nodes@.len(),
            forall|k: int| 0 <= k < nodes@.len() ==> #[trigger] all[k] == nodes@[k]@,
            signature_map(output@) == fixed_of(all.take(i as int), known),
        decreases nodes@.len() - i,
    {
        let node = &nodes[i];
        proof {
            assert(all.take(i + 1).drop_last() =~= all.take(i as int));
            assert(all.take(i + 1).last() == node@);
        }
        if node.computed.is("position", "fixed") {
            let made = full_signature(node);
            let ghost before = output@;
            output.insert(node.source.id, made);
            assert(signature_map(output@) =~= signature_map(before).insert(
                node.source.id,
                signature_of(node@),
            ));
        } else {
            collect_fixed_signatures(&node.children, output);
        }
        i = i + 1;
    }
    assert(all.take(i as int) =~= all);
}

/// Some node reads what is behind it.
pub open spec fn backdrop(nodes: Seq<RetainedView>) -> bool
    decreases nodes,
{
    nodes.len() > 0 && {
        ||| backdrop(nodes.drop_last())
        ||| value_of(nodes.last().computed, "backdrop-filter"@) is Some
        ||| backdrop(nodes.last().children)
    }
}

/// Whether some node reads what is behind it.
pub fn has_backdrop(nodes: &Vec<RetainedNode>) -> (result: bool)
    ensures
        result == backdrop(retained_views(nodes@)),
    decreases nodes,
{
    let ghost all = retained_views(nodes@);
    proof {
        retained_views_in_order(nodes@);
    }
    let mut found = false;
    let mut i: usize = 0;
    while i < nodes.len()
        invariant
            i <= nodes@.len(),
            all == retained_views(nodes@),
            all.len() == nodes@.len(),
            forall|k: int| 0 <= k < nodes@.len() ==> #[trigger] all[k] == nodes@[k]@,
            found == backdrop(all.take(i as int)),
        decreases nodes@.len() - i,
    {
        let node = &nodes[i];
        proof {
            assert(all.take(i + 1).drop_last() =~= all.take(i as int));
            assert(all.take(i + 1).last() == node@);
        }
        let here = node.computed.get("backdrop-filter").is_some();
        let below = has_backdrop(&node.children);
        found = found || here || below;
        i = i + 1;
    }
    assert(all.take(i as int) =~= all);
    found
}

/// Whether two lists hold the same remembered trees.
pub fn same_documents(a: &Vec<RetainedNode>, b: &Vec<RetainedNode>) -> (result: bool)
    ensures
        result == (retained_views(a@) == retained_views(b@)),
    decreases a,
{
    proof {
        retained_views_in_order(a@);
        retained_views_in_order(b@);
    }
    let ghost x = retained_views(a@);
    let ghost y = retained_views(b@);
    if a.len() != b.len() {
        return false;
    }
    let mut i: usize = 0;
    while i < a.len()
        invariant
            i <= a@.len(),
            a@.len() == b@.len(),
            x == retained_views(a@),
            y == retained_views(b@),
            x.len() == a@.len(),
            y.len() == b@.len(),
            forall|k: int| 0 <= k < a@.len() ==> #[trigger] x[k] == a@[k]@,
            forall|k: int| 0 <= k < b@.len() ==> #[trigger] y[k] == b@[k]@,
            forall|k: int| 0 <= k < i ==> #[trigger] x[k] == y[k],
        decreases a@.len() - i,
    {
        assert(x[i as int] == a@[i as int]@);
        assert(y[i as int] == b@[i as int]@);
        if !same_retained(&a[i], &b[i]) {
            return false;
        }
        i = i + 1;
    }
    assert(x =~= y);
    true
}

/// Whether two remembered trees are the same.
pub fn same_retained(a: &RetainedNode, b: &RetainedNode) -> (result: bool)
    ensures
        result == (a@ == b@),
    decreases a,
{
    same_node(&a.source, &b.source) && same(a.paint_text.as_str(), b.paint_text.as_str())
        && a.computed.same_as(&b.computed) && same_documents(&a.children, &b.children)
}

/// The properties whose change repaints one node, or moves its laid-out tree.
/// Layout, order and opacity would reach siblings or descendants.
pub open spec fn local_paint_properties() -> Seq<Seq<char>> {
    seq![
        "accent-color"@,
        "background-color"@,
        "background-image"@,
        "background-position"@,
        "background-repeat"@,
        "background-size"@,
        "border-color"@,
        "border-style"@,
        "border-top-color"@,
        "border-top-style"@,
        "border-right-color"@,
        "border-right-style"@,
        "border-bottom-color"@,
        "border-bottom-style"@,
        "border-left-color"@,
        "border-left-style"@,
        "border-radius"@,
        "box-shadow"@,
        "color"@,
        "cursor"@,
        "image-rendering"@,
        "left"@,
        "top"@,
        "right"@,
        "bottom"@,
        "pointer-events"@,
        "text-shadow"@,
        "transform"@,
        "width"@,
        "height"@,
    ]
}

fn changes_paint_only(a: &Computed, b: &Computed) -> (result: bool)
    ensures
        result == agree_outside(a@, b@, local_paint_properties()),
{
    let names: [&str; 30] = [
        "accent-color",
        "background-color",
        "background-image",
        "background-position",
        "background-repeat",
        "background-size",
        "border-color",
        "border-style",
        "border-top-color",
        "border-top-style",
        "border-right-color",
        "border-right-style",
        "border-bottom-color",
        "border-bottom-style",
        "border-left-color",
        "border-left-style",
        "border-radius",
        "box-shadow",
        "color",
        "cursor",
        "image-rendering",
        "left",
        "top",
        "right",
        "bottom",
        "pointer-events",
        "text-shadow",
        "transform",
        "width",
        "height",
    ];
    assert(views(names@) =~= local_paint_properties());
    a.differs_only_in(b, names.as_slice())
}

/// What changed about one node, apart from its children: nothing, or something
/// local. There is no answer where the change is not local.
pub open spec fn node_change(old: RetainedView, new: RetainedView) -> Option<bool> {
    let restyled = old.computed != new.computed;
    let retexted = old.paint_text != new.paint_text;
    let field = old.source.kind == "input"@;
    let revalued = field && prop_of(old.source.props, "value"@) != prop_of(
        new.source.props,
        "value"@,
    );
    let left = left_out(field, restyled);
    if old.children.len() != new.children.len() || old.source.id != new.source.id
        || old.source.kind != new.source.kind {
        None
    } else if restyled && !agree_outside(old.computed, new.computed, local_paint_properties()) {
        None
    } else if old.source == new.source && !retexted && !restyled {
        Some(false)
    } else if kept(old.source.props, left) != kept(new.source.props, left)
        || old.source.children != new.source.children {
        None
    } else if old.source.text != new.source.text || retexted || revalued || restyled {
        Some(true)
    } else {
        None
    }
}

/// A node's tree moves without being laid out again.
pub open spec fn retransformed(old: RetainedView, new: RetainedView) -> bool {
    value_of(old.computed, "transform"@) != value_of(new.computed, "transform"@)
}

/// The identities under a list of nodes.
pub open spec fn descendant_ids(nodes: Seq<RetainedView>) -> Seq<u64>
    decreases nodes,
{
    if nodes.len() == 0 {
        Seq::empty()
    } else {
        descendant_ids(nodes.drop_last()).push(nodes.last().source.id) + descendant_ids(
            nodes.last().children,
        )
    }
}

/// The nodes that changed, and those that moved with a changed ancestor; nothing
/// where some change is not local.
pub open spec fn local_changes(
    old: Seq<RetainedView>,
    new: Seq<RetainedView>,
) -> Option<(Seq<u64>, Seq<u64>)>
    decreases old,
{
    if old.len() != new.len() {
        None
    } else if old.len() == 0 {
        Some((Seq::empty(), Seq::empty()))
    } else {
        let before = local_changes(old.drop_last(), new.drop_last());
        let here = node_change(old.last(), new.last());
        let below = local_changes(old.last().children, new.last().children);
        match (before, here, below) {
            (Some(b), Some(changes), Some(w)) => {
                let moves = changes && retransformed(old.last(), new.last());
                Some(
                    (
                        (if changes {
                            b.0.push(new.last().source.id)
                        } else {
                            b.0
                        }) + w.0,
                        (if moves {
                            b.1 + descendant_ids(new.last().children)
                        } else {
                            b.1
                        }) + w.1,
                    ),
                )
            },
            _ => None,
        }
    }
}

/// What changed locally.
pub struct LocalChanges {
    pub changed: Vec<u64>,
    pub moved: Vec<u64>,
}

fn collect_descendant_ids(nodes: &Vec<RetainedNode>, output: &mut Vec<u64>)
    ensures
        final(output)@ == old(output)@ + descendant_ids(retained_views(nodes@)),
    decreases nodes,
{
    let ghost all = retained_views(nodes@);
    let ghost before = output@;
    proof {
        retained_views_in_order(nodes@);
        assert(before + descendant_ids(all.take(0)) =~= before);
    }
    let mut i: usize = 0;
    while i < nodes.len()
        invariant
            i <= nodes@.len(),
            all == retained_views(nodes@),
            all.len() == nodes@.len(),
            forall|k: int| 0 <= k < nodes@.len() ==> #[trigger] all[k] == nodes@[k]@,
            output@ == before + descendant_ids(all.take(i as int)),
        decreases nodes@.len() - i,
    {
        let node = &nodes[i];
        proof {
            assert(all.take(i + 1).drop_last() =~= all.take(i as int));
            assert(all.take(i + 1).last() == node@);
        }
        output.push(node.source.id);
        collect_descendant_ids(&node.children, output);
        assert(output@ =~= before + descendant_ids(all.take(i + 1)));
        i = i + 1;
    }
    assert(all.take(i as int) =~= all);
}

fn same_option(a: Option<&PropValue>, b: Option<&PropValue>) -> (result: bool)
    ensures
        result == ((match a {
            Some(value) => Some(value@),
            None => None,
        }) == (match b {
            Some(value) => Some(value@),
            None => None,
        })),
{
    match (a, b) {
        (Some(x), Some(y)) => same_value(x, y),
        (None, None) => true,
        _ => false,
    }
}

fn same_text(a: Option<&str>, b: Option<&str>) -> (result: bool)
    ensures
        result == (text_view(a) == text_view(b)),
{
    match (a, b) {
        (Some(x), Some(y)) => same(x, y),
        (None, None) => true,
        _ => false,
    }
}

fn compare_node(old: &RetainedNode, new: &RetainedNode) -> (result: Option<bool>)
    ensures
        result == node_change(old@, new@),
{
    proof {
        retained_views_in_order(old.children@);
        retained_views_in_order(new.children@);
    }
    if old.children.len() != new.children.len() || old.source.id != new.source.id || !same(
        old.source.kind.as_str(),
        new.source.kind.as_str(),
    ) {
        return None;
    }
    let restyled = !old.computed.same_as(&new.computed);
    if restyled && !changes_paint_only(&old.computed, &new.computed) {
        return None;
    }
    let retexted = !same(old.paint_text.as_str(), new.paint_text.as_str());
    if same_node(&old.source, &new.source) && !retexted && !restyled {
        return Some(false);
    }
    let field = same(old.source.kind.as_str(), "input");
    let revalued = field && !same_option(
        prop(&old.source.props, "value"),
        prop(&new.source.props, "value"),
    );
    if !same_props(&old.source.props, &new.source.props, field, restyled) || !same_nodes(
        &old.source.children,
        &new.source.children,
    ) {
        return None;
    }
    if !same(old.source.text.as_str(), new.source.text.as_str()) || retexted || revalued
        || restyled {
        Some(true)
    } else {
        None
    }
}

proof fn local_prefix(old: Seq<RetainedView>, new: Seq<RetainedView>, n: int)
    requires
        old.len() == new.len(),
        0 <= n <= old.len(),
        local_changes(old.take(n), new.take(n)) is None,
    ensures
        local_changes(old, new) is None,
    decreases old.len() - n,
{
    if n < old.len() {
        assert(old.take(n + 1).drop_last() =~= old.take(n));
        assert(new.take(n + 1).drop_last() =~= new.take(n));
        local_prefix(old, new, n + 1);
    } else {
        assert(old.take(n) =~= old);
        assert(new.take(n) =~= new);
    }
}

/// Finds what changed between two documents, if all changes are local.
pub fn collect_local_changes(old: &Vec<RetainedNode>, new: &Vec<RetainedNode>) -> (result: Option<
    LocalChanges,
>)
    ensures
        local_changes(retained_views(old@), retained_views(new@)) == (match result {
            Some(changes) => Some((changes.changed@, changes.moved@)),
            None => None,
        }),
    decreases old,
{
    let ghost x = retained_views(old@);
    let ghost y = retained_views(new@);
    proof {
        retained_views_in_order(old@);
        retained_views_in_order(new@);
    }
    if old.len() != new.len() {
        return None;
    }
    let mut changed: Vec<u64> = Vec::new();
    let mut moved: Vec<u64> = Vec::new();
    let mut i: usize = 0;
    assert(changed@ =~= Seq::empty() && moved@ =~= Seq::empty());
    while i < old.len()
        invariant
            i <= old@.len(),
            old@.len() == new@.len(),
            x == retained_views(old@),
            y == retained_views(new@),
            x.len() == old@.len(),
            y.len() == new@.len(),
            forall|k: int| 0 <= k < old@.len() ==> #[trigger] x[k] == old@[k]@,
            forall|k: int| 0 <= k < new@.len() ==> #[trigger] y[k] == new@[k]@,
            local_changes(x.take(i as int), y.take(i as int)) == Some((changed@, moved@)),
        decreases old@.len() - i,
    {
        let before = &old[i];
        let after = &new[i];
        proof {
            assert(x.take(i + 1).drop_last() =~= x.take(i as int));
            assert(y.take(i + 1).drop_last() =~= y.take(i as int));
            assert(x.take(i + 1).last() == before@);
            assert(y.take(i + 1).last() == after@);
        }
        let ghost c0 = changed@;
        let ghost m0 = moved@;
        let here = match compare_node(before, after) {
            Some(here) => here,
            None => {
                proof {
                    local_prefix(x, y, i + 1);
                }
                return None;
            },
        };
        if here {
            changed.push(after.source.id);
            let transformed = !same_text(
                before.computed.get("transform"),
                after.computed.get("transform"),
            );
            if transformed {
                collect_descendant_ids(&after.children, &mut moved);
            }
        }
        let mut below = match collect_local_changes(&before.children, &after.children) {
            Some(below) => below,
            None => {
                proof {
                    local_prefix(x, y, i + 1);
                }
                return None;
            },
        };
        changed.append(&mut below.changed);
        moved.append(&mut below.moved);
        i = i + 1;
    }
    assert(x.take(i as int) =~= x);
    assert(y.take(i as int) =~= y);
    Some(LocalChanges { changed, moved })
}

} // verus!
