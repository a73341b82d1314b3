//! Building the styled tree.

use vstd::prelude::*;
use crate::style::{value_of, Computed};
use crate::text::same;
use crate::tree::{is_surface, surface_node, text_content, text_leaf, text_of, Node, NodeView};

verus! {

/// What a style is computed for.
#[derive(Clone, Copy, Debug, PartialEq, Eq, Structural)]
pub enum Part {
    /// The element itself.
    Element,
    /// The placeholder of a text field.
    Placeholder,
    /// The selected text of a text field.
    Selection,
}

/// The nodes above a node, the nearest first.
pub struct Ancestors<'a> {
    pub node: &'a Node,
    pub above: Option<&'a Ancestors<'a>>,
}

/// How the layout sizes a node.
pub enum Measure {
    /// By its children, or by nothing.
    Plain,
    /// By its shaped text.
    Text(String),
}

/// A node with its style.
pub struct RenderNode<'a> {
    pub source: &'a Node,
    pub computed: Computed,
    pub placeholder: Option<Computed>,
    pub selection: Option<Computed>,
    pub measure: Measure,
    pub children: Vec<RenderNode<'a>>,
}

/// What a [`RenderNode`] holds.
pub struct RenderView {
    pub source: NodeView,
    pub computed: Map<Seq<char>, Seq<char>>,
    pub children: Seq<RenderView>,
}

/// The views of a list of nodes.
pub open spec fn render_views(nodes: Seq<RenderNode>) -> Seq<RenderView>
    decreases nodes,
{
    if nodes.len() == 0 {
        Seq::empty()
    } else {
        let last = nodes.last();
        render_views(nodes.drop_last()).push(
            RenderView {
                source: last.source@,
                computed: last.computed@,
                children: render_views(last.children@),
            },
        )
    }
}

impl<'a> View for RenderNode<'a> {
    type V = RenderView;

    open spec fn view(&self) -> RenderView {
        RenderView {
            source: self.source@,
            computed: self.computed@,
            children: render_views(self.children@),
        }
    }
}

/// Views keep the order of their nodes.
pub proof fn render_views_in_order(nodes: Seq<RenderNode>)
    ensures
        render_views(nodes).len() == nodes.len(),
        forall|i: int| 0 <= i < nodes.len() ==> #[trigger] render_views(nodes)[i] == nodes[i]@,
    decreases nodes,
{
    if nodes.len() > 0 {
        render_views_in_order(nodes.drop_last());
        assert forall|i: int| 0 <= i < nodes.len() implies #[trigger] render_views(nodes)[i]
            == nodes[i]@ by {
            if i < nodes.len() - 1 {
                assert(render_views(nodes)[i] == render_views(nodes.drop_last())[i]);
                assert(nodes.drop_last()[i] == nodes[i]);
            }
        }
    }
}

/// A node without laid-out children: an image, a field, a span of text, or a
/// client area. A span around other elements is an ordinary container.
pub open spec fn leaf(node: NodeView) -> bool {
    node.kind == "img"@ || node.kind == "input"@ || text_leaf(node) || surface_node(node)
}

/// Whether a node has no laid-out children.
pub fn is_leaf(node: &Node) -> (result: bool)
    ensures
        result == leaf(node@),
{
    same(node.kind.as_str(), "img") || same(node.kind.as_str(), "input") || node.is_text_leaf()
        || is_surface(node)
}

/// The node is sized by its shaped text. Monospace text is sized by its cells
/// instead.
pub open spec fn shaped(node: NodeView, style: Map<Seq<char>, Seq<char>>) -> bool {
    text_leaf(node) && value_of(style, "font-family"@) != Some("monospace"@)
}

/// The measure of a node.
pub open spec fn measures(measure: Measure, node: NodeView, style: Map<Seq<char>, Seq<char>>) -> bool {
    match measure {
        Measure::Text(text) => shaped(node, style) && text@ == text_of(node),
        Measure::Plain => !shaped(node, style),
    }
}

/// `out` is the styled tree of `source`: each style is what the cascade gives
/// for the node, its ancestors and the style it inherits from; a field has the
/// styles of its placeholder and selection too; and the children are built the
/// same way, unless the node is a leaf.
pub open spec fn builds<C: Fn(&Node, Option<&Ancestors>, Option<&Computed>, Part) -> Computed>(
    cascade: &C,
    source: Node,
    above: Option<&Ancestors>,
    inherited: Option<&Computed>,
    out: RenderNode,
) -> bool
    decreases source,
{
    let field = source@.kind == "input"@;
    &&& *out.source == source
    &&& call_ensures(cascade, (&source, above, inherited, Part::Element), out.computed)
    &&& out.placeholder is Some == field
    &&& out.selection is Some == field
    &&& field ==> call_ensures(
        cascade,
        (&source, above, Some(&out.computed), Part::Placeholder),
        out.placeholder->0,
    )
    &&& field ==> call_ensures(
        cascade,
        (&source, above, Some(&out.computed), Part::Selection),
        out.selection->0,
    )
    &&& measures(out.measure, source@, out.computed@)
    &&& if leaf(source@) {
        out.children@.len() == 0
    } else {
        &&& out.children@.len() == source.children@.len()
        &&& forall|i: int|
            0 <= i < source.children@.len() ==> builds(
                cascade,
                #[trigger] source.children@[i],
                Some(&(Ancestors { node: &source, above })),
                Some(&out.computed),
                out.children@[i],
            )
    }
}

/// Builds the styled tree of a node.
pub fn build<'a, C: Fn(&Node, Option<&Ancestors>, Option<&Computed>, Part) -> Computed>(
    source: &'a Node,
    above: Option<&Ancestors>,
    inherited: Option<&Computed>,
    cascade: &C,
) -> (result: RenderNode<'a>)
    requires
        forall|node: &Node, up: Option<&Ancestors>, style: Option<&Computed>, part: Part|
            call_requires(cascade, (node, up, style, part)),
    ensures
        builds(cascade, *source, above, inherited, result),
    decreases source,
{
    let computed = cascade(source, above, inherited, Part::Element);
    let field = same(source.kind.as_str(), "input");
    let placeholder = if field {
        Some(cascade(source, above, Some(&computed), Part::Placeholder))
    } else {
        None
    };
    let selection = if field {
        Some(cascade(source, above, Some(&computed), Part::Selection))
    } else {
        None
    };
    let leaf_node = is_leaf(source);
    let mut children: Vec<RenderNode<'a>> = Vec::new();
    if !leaf_node {
        let next = Ancestors { node: source, above };
        let mut i: usize = 0;
        while i < source.children.len()
            invariant
                i <= source.children@.len(),
                children@.len() == i,
                next == (Ancestors { node: source, above }),
                forall|node: &Node, up: Option<&Ancestors>, style: Option<&Computed>, part: Part|
                    call_requires(cascade, (node, up, style, part)),
                forall|k: int|
                    0 <= k < i ==> builds(
                        cascade,
                        #[trigger] source.children@[k],
                        Some(&next),
                        Some(&computed),
                        children@[k],
                    ),
            decreases source.children@.len() - i,
        {
            let child = build(&source.children[i], Some(&next), Some(&computed), cascade);
            children.push(child);
            i = i + 1;
        }
    }
    let measure = if source.is_text_leaf() && !computed.is("font-family", "monospace") {
        Measure::Text(text_content(source))
    } else {
        Measure::Plain
    };
    RenderNode { source, computed, placeholder, selection, measure, children }
}

/// A styled tree has a node for each node of its source, down to the leaves.
pub proof fn styled_trees_keep_their_shape<
    C: Fn(&Node, Option<&Ancestors>, Option<&Computed>, Part) -> Computed,
>(
    cascade: &C,
    source: Node,
    above: Option<&Ancestors>,
    inherited: Option<&Computed>,
    out: RenderNode,
    child: int,
)
    requires
        builds(cascade, source, above, inherited, out),
        !leaf(source@),
        0 <= child < source.children@.len(),
    ensures
        out.children@.len() == source.children@.len(),
        *out.children@[child].source == source.children@[child],
{
    assert(builds(
        cascade,
        source.children@[child],
        Some(&(Ancestors { node: &source, above })),
        Some(&out.computed),
        out.children@[child],
    ));
}

} // verus!
