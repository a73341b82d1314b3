//! What is read from document trees.

use vstd::prelude::*;
use vstd::string::*;
use crate::layout::numeral::numeral;
use crate::laws::reading::{solid, trimming_takes_the_ends};
use crate::range::{
    ranged, shortest, stated_number, steps_freely, without_zeros, RangeInput, StatedView, Step,
};
use crate::retained::{document_of, fixed_of, signature_of, signatures_of, RetainedView};
use crate::style::value_of;
use crate::styled::{leaf, shaped, RenderView};
use crate::tree::{
    autofocuses, excluded, flagged, kept, left_out, number_of, parents_of, prop_of, small_number,
    string_of, surface_node, text_leaf, text_of, texts, NodeView, PropView,
};

verus! {

/// The first property of a name is the one that counts, and properties of other
/// names do not matter.
pub proof fn the_first_property_counts(
    props: Seq<(Seq<char>, PropView)>,
    name: Seq<char>,
    value: PropView,
    other: Seq<char>,
)
    ensures
        prop_of(seq![(name, value)] + props, name) == Some(value),
        other != name ==> prop_of(seq![(other, value)] + props, name) == prop_of(props, name),
        prop_of(Seq::empty(), name) is None,
{
    assert((seq![(name, value)] + props).skip(1) =~= props);
    assert((seq![(other, value)] + props).skip(1) =~= props);
}

/// Properties are read as what they are: a number is no text, and only what is
/// set to true is set.
pub proof fn properties_are_what_they_are(props: Seq<(Seq<char>, PropView)>, name: Seq<char>)
    ensures
        number_of(props, name) == (match prop_of(props, name) {
            Some(PropView::Number(n)) => Some(n),
            _ => None,
        }),
        prop_of(props, name) matches Some(PropView::Text(text)) ==> string_of(props, name) == Some(
            text,
        ) && number_of(props, name) is None && !flagged(props, name),
        prop_of(props, name) matches Some(PropView::Number(n)) ==> string_of(props, name) is None
            && !flagged(props, name) && (n <= u32::MAX ==> small_number(props, name) == Some(
            n as u32,
        )) && (n > u32::MAX ==> small_number(props, name) is None),
        prop_of(props, name) matches Some(PropView::Flag(flag)) ==> flagged(props, name) == flag
            && number_of(props, name) is None && string_of(props, name) is None,
        prop_of(props, name) is None ==> number_of(props, name) is None && string_of(props, name)
            is None && !flagged(props, name) && small_number(props, name) is None,
{
}

/// A node takes the focus by itself only where it asks for it and nothing has it.
pub proof fn focus_is_not_taken_away(props: Seq<(Seq<char>, PropView)>, node: u64)
    ensures
        !autofocuses(props, Some(node)),
        prop_of(props, "autoFocus"@) == Some(PropView::Flag(true)) ==> autofocuses(props, None),
        prop_of(props, "autoFocus"@) is None ==> !autofocuses(props, None),
{
}

/// The place of a client's surface is a box that says so; a window is left out
/// where it is the one to leave out.
pub proof fn surfaces_and_windows_are_marked(node: NodeView, window: u32)
    ensures
        surface_node(node) ==> node.kind == "div"@,
        node.kind == "div"@ && prop_of(node.props, "data-lite-surface"@) is Some ==> surface_node(
            node,
        ),
        prop_of(node.props, "data-lite-surface"@) is None ==> !surface_node(node),
        !excluded(node, None),
        prop_of(node.props, "data-lite-window"@) == Some(PropView::Number(window as u64))
            ==> excluded(node, Some(window)),
        prop_of(node.props, "data-lite-window"@) is None ==> !excluded(node, Some(window)),
        prop_of(node.props, "data-lite-window"@) matches Some(PropView::Number(n)) ==> n
            != window ==> !excluded(node, Some(window)),
{
}

/// The text of a tree is the texts of its parts in order.
pub proof fn texts_follow_each_other(a: Seq<NodeView>, b: Seq<NodeView>)
    ensures
        texts(a + b) == texts(a) + texts(b),
    decreases b.len(),
{
    if b.len() == 0 {
        assert(a + b =~= a);
        assert(texts(a) + texts(b) =~= texts(a));
    } else {
        texts_follow_each_other(a, b.drop_last());
        assert((a + b).drop_last() =~= a + b.drop_last());
        assert(texts(a + b) =~= texts(a) + texts(b));
    }
}

/// A text node has its own text, and any other node that of its children.
pub proof fn nodes_have_their_text(node: NodeView)
    ensures
        node.kind == "#text"@ ==> text_of(node) == node.text,
        node.kind != "#text"@ ==> text_of(node) == texts(node.children),
        texts(seq![node]) == text_of(node),
        texts(Seq::empty()) == Seq::<char>::empty(),
{
    let one = seq![node];
    assert(one.drop_last() =~= Seq::empty());
    assert(texts(one.drop_last()) =~= Seq::<char>::empty());
    assert(texts(one) =~= text_of(node));
}

/// Text is laid out as one piece in a span that holds nothing else. Only such text
/// is shaped, and not in a monospaced font. Images, fields and surfaces are leaves
/// as well; other boxes are not.
pub proof fn leaves_are_known(node: NodeView, style: Map<Seq<char>, Seq<char>>)
    ensures
        text_leaf(node) <==> node.kind == "span"@ && forall|i: int|
            0 <= i < node.children.len() ==> (#[trigger] node.children[i]).kind == "#text"@,
        node.kind == "img"@ ==> leaf(node),
        node.kind == "input"@ ==> leaf(node),
        text_leaf(node) ==> leaf(node),
        surface_node(node) ==> leaf(node),
        node.kind == "div"@ && !surface_node(node) ==> !leaf(node),
        value_of(style, "font-family"@) is None ==> (shaped(node, style) <==> text_leaf(node)),
        value_of(style, "font-family"@) == Some("monospace"@) ==> !shaped(node, style),
        !text_leaf(node) ==> !shaped(node, style),
{
    reveal_strlit("div");
    reveal_strlit("img");
    reveal_strlit("input");
    reveal_strlit("span");
    assert("div"@.len() == 3 && "img"@.len() == 3 && "input"@.len() == 5 && "span"@.len() == 4);
    assert("div"@[0] == 'd' && "img"@[0] == 'i');
}

/// A node with this identity is among the nodes or below one of them.
pub open spec fn among(nodes: Seq<NodeView>, id: u64) -> bool
    decreases nodes,
{
    nodes.len() > 0 && (among(nodes.drop_last(), id) || nodes.last().id == id || among(
        nodes.last().children,
        id,
    ))
}

proof fn strangers_are_left_alone(
    nodes: Seq<NodeView>,
    parent: Option<u64>,
    known: Map<u64, Option<u64>>,
    id: u64,
)
    requires
        !among(nodes, id),
    ensures
        parents_of(nodes, parent, known).contains_key(id) == known.contains_key(id),
        parents_of(nodes, parent, known)[id] == known[id],
    decreases nodes,
{
    if nodes.len() > 0 {
        let last = nodes.last();
        let before = parents_of(nodes.drop_last(), parent, known);
        strangers_are_left_alone(nodes.drop_last(), parent, known, id);
        strangers_are_left_alone(last.children, Some(last.id), before.insert(last.id, parent), id);
    }
}

/// The parent of a node is the node that it stands below; the parent of a node at
/// the top is the one that is given. Nodes elsewhere keep what is known of them.
pub proof fn parents_are_known(
    before: Seq<NodeView>,
    node: NodeView,
    after: Seq<NodeView>,
    parent: Option<u64>,
    known: Map<u64, Option<u64>>,
)
    requires
        !among(node.children, node.id),
        !among(after, node.id),
    ensures
        ({
            let all = parents_of(before + seq![node] + after, parent, known);
            all.contains_key(node.id) && all[node.id] == parent
        }),
    decreases after.len(),
{
    let nodes = before + seq![node] + after;
    if after.len() == 0 {
        assert(nodes.last() == node);
        assert(nodes.drop_last() =~= before);
        strangers_are_left_alone(
            node.children,
            Some(node.id),
            parents_of(before, parent, known).insert(node.id, parent),
            node.id,
        );
    } else {
        let rest = after.drop_last();
        parents_are_known(before, node, rest, parent, known);
        assert(nodes.last() == after.last());
        assert(nodes.drop_last() =~= before + seq![node] + rest);
        let last = after.last();
        strangers_are_left_alone(
            last.children,
            Some(last.id),
            parents_of(nodes.drop_last(), parent, known).insert(last.id, parent),
            node.id,
        );
    }
}

/// The parent of a child is the node that it is a child of.
pub proof fn children_have_their_parent(
    before: Seq<NodeView>,
    node: NodeView,
    older: Seq<NodeView>,
    child: NodeView,
    younger: Seq<NodeView>,
    parent: Option<u64>,
    known: Map<u64, Option<u64>>,
)
    requires
        node.children == older + seq![child] + younger,
        !among(child.children, child.id),
        !among(younger, child.id),
    ensures
        parents_of(before.push(node), parent, known).contains_key(child.id),
        parents_of(before.push(node), parent, known)[child.id] == Some(node.id),
{
    let nodes = before.push(node);
    assert(nodes.drop_last() =~= before);
    parents_are_known(
        older,
        child,
        younger,
        Some(node.id),
        parents_of(before, parent, known).insert(node.id, parent),
    );
}

/// Properties that do not count are passed over, and the others keep their order.
pub proof fn properties_are_passed_over(
    props: Seq<(Seq<char>, PropView)>,
    property: (Seq<char>, PropView),
    value: bool,
    style: bool,
)
    ensures
        property.0 != "value"@ && property.0 != "style"@ ==> kept(
            props.push(property),
            left_out(value, style),
        ) == kept(props, left_out(value, style)).push(property),
        value && property.0 == "value"@ ==> kept(props.push(property), left_out(value, style))
            == kept(props, left_out(value, style)),
        style && property.0 == "style"@ ==> kept(props.push(property), left_out(value, style))
            == kept(props, left_out(value, style)),
        !value && !style ==> kept(props.push(property), left_out(value, style)) == kept(
            props,
            left_out(value, style),
        ).push(property),
        kept(Seq::empty(), left_out(value, style)) == Seq::<(Seq<char>, PropView)>::empty(),
{
    assert(props.push(property).drop_last() =~= props);
    reveal_strlit("value");
    reveal_strlit("style");
    assert("value"@[0] == 'v' && "style"@[0] == 's');
}

/// What is remembered of a document is every node that does not stay on the
/// screen, in its place, with its style and without its children's markup; the
/// trees of nodes that stay on the screen are not part of it.
pub proof fn documents_are_remembered(nodes: Seq<RenderView>, node: RenderView)
    ensures
        value_of(node.computed, "position"@) == Some("fixed"@) ==> document_of(nodes.push(node))
            == document_of(nodes),
        value_of(node.computed, "position"@) != Some("fixed"@) ==> {
            let all = document_of(nodes.push(node));
            &&& all.len() == document_of(nodes).len() + 1
            &&& all.drop_last() == document_of(nodes)
            &&& all.last().source.id == node.source.id
            &&& all.last().source.kind == node.source.kind
            &&& all.last().source.props == node.source.props
            &&& all.last().source.text == node.source.text
            &&& all.last().source.children.len() == 0
            &&& all.last().computed == node.computed
            &&& all.last().children == document_of(node.children)
            &&& text_leaf(node.source) ==> all.last().paint_text == text_of(node.source)
            &&& !text_leaf(node.source) ==> all.last().paint_text.len() == 0
        },
        document_of(Seq::empty()) == Seq::<RetainedView>::empty(),
{
    assert(nodes.push(node).drop_last() =~= nodes);
    if value_of(node.computed, "position"@) != Some("fixed"@) {
        assert(document_of(nodes.push(node)).drop_last() =~= document_of(nodes));
    }
}

/// What is remembered of a node that stays on the screen is its whole tree, nodes
/// that stay on the screen among them.
pub proof fn chrome_is_remembered_whole(nodes: Seq<RenderView>, node: RenderView)
    ensures
        signatures_of(nodes.push(node)).len() == signatures_of(nodes).len() + 1,
        signatures_of(nodes.push(node)).last() == signature_of(node),
        signatures_of(nodes.push(node)).drop_last() == signatures_of(nodes),
        signature_of(node).source.id == node.source.id,
        signature_of(node).source.kind == node.source.kind,
        signature_of(node).source.props == node.source.props,
        signature_of(node).source.text == node.source.text,
        signature_of(node).computed == node.computed,
        signature_of(node).children == signatures_of(node.children),
        signatures_of(Seq::empty()) == Seq::<RetainedView>::empty(),
{
    assert(nodes.push(node).drop_last() =~= nodes);
    assert(signatures_of(nodes.push(node)).drop_last() =~= signatures_of(nodes));
}

/// The outermost nodes that stay on the screen are remembered by their identity,
/// wherever they stand in the document.
pub proof fn chrome_is_found(
    nodes: Seq<RenderView>,
    node: RenderView,
    known: Map<u64, RetainedView>,
)
    ensures
        value_of(node.computed, "position"@) == Some("fixed"@) ==> {
            let all = fixed_of(nodes.push(node), known);
            &&& all.contains_key(node.source.id)
            &&& all[node.source.id] == signature_of(node)
            &&& forall|id: u64|
                id != node.source.id ==> #[trigger] all.contains_key(id) == fixed_of(
                    nodes,
                    known,
                ).contains_key(id) && all[id] == fixed_of(nodes, known)[id]
        },
        value_of(node.computed, "position"@) != Some("fixed"@) ==> fixed_of(nodes.push(node), known)
            == fixed_of(node.children, fixed_of(nodes, known)),
        fixed_of(Seq::empty(), known) == known,
{
    assert(nodes.push(node).drop_last() =~= nodes);
}

/// A range takes numbers as they are and numerals in texts, white space around
/// them aside; other values say nothing.
pub proof fn ranges_take_numbers(
    props: Seq<(Seq<char>, PropView)>,
    name: Seq<char>,
    n: u64,
    text: Seq<char>,
)
    ensures
        prop_of(props, name) == Some(PropView::Number(n)) ==> stated_number(props, name) == Some(
            StatedView::Integer(n),
        ),
        prop_of(props, name) == Some(PropView::Text(text)) && solid(text) && text.len() > 0
            && numeral(text) ==> stated_number(props, name) == Some(StatedView::Numeral(text)),
        prop_of(props, name) == Some(PropView::Text(text)) && solid(text) && text.len() > 0
            && !numeral(text) ==> stated_number(props, name) is None,
        prop_of(props, name) == Some(PropView::Flag(true)) ==> stated_number(props, name) is None,
        prop_of(props, name) is None ==> stated_number(props, name) is None,
        prop_of(props, "step"@) == Some(PropView::Text("any"@)) ==> steps_freely(props),
        prop_of(props, "step"@) is None ==> !steps_freely(props),
        prop_of(props, "step"@) == Some(PropView::Number(n)) ==> !steps_freely(props),
{
    if solid(text) && text.len() > 0 {
        let none = Seq::<char>::empty();
        trimming_takes_the_ends(none, text, none);
        assert(none + text + none =~= text);
    }
}

proof fn zeros_are_dropped(text: Seq<char>, zeros: nat)
    requires
        text.len() == 0 || text.last() != '0',
    ensures
        without_zeros(text + Seq::new(zeros, |i: int| '0')) == text,
    decreases zeros,
{
    let all = text + Seq::new(zeros, |i: int| '0');
    if zeros == 0 {
        assert(all =~= text);
    } else {
        let fewer = (zeros - 1) as nat;
        zeros_are_dropped(text, fewer);
        assert(all.last() == '0');
        assert(all.drop_last() =~= text + Seq::new(fewer, |i: int| '0'));
    }
}

/// The shortest form of a number has no zeros at the end of its fraction, no point
/// without a fraction, and no sign without a value.
pub proof fn numbers_are_shortened(whole: Seq<char>, fraction: Seq<char>, zeros: nat)
    requires
        whole.len() > 0,
        fraction.len() > 0,
        fraction.last() != '0',
        fraction.last() != '.',
    ensures
        shortest(whole + seq!['.'] + fraction + Seq::new(zeros, |i: int| '0')) == whole + seq!['.']
            + fraction,
        whole != "-0"@ ==> shortest(whole + seq!['.'] + Seq::new(zeros, |i: int| '0')) == whole,
        shortest("-0"@ + seq!['.'] + Seq::new(zeros, |i: int| '0')) == "0"@,
{
    reveal_strlit("-0");
    let long = whole + seq!['.'] + fraction;
    assert(long.last() == fraction.last());
    zeros_are_dropped(long, zeros);
    assert("-0"@.len() == 2 && "-0"@[1] == '0');
    let pointed = whole + seq!['.'];
    assert(pointed.last() == '.');
    zeros_are_dropped(pointed, zeros);
    assert(pointed.drop_last() =~= whole);
    let zero = "-0"@ + seq!['.'];
    assert(zero.last() == '.');
    zeros_are_dropped(zero, zeros);
    assert(zero.drop_last() =~= "-0"@);
}

/// A range takes its least value, its greatest value, its value and its step from
/// the properties of these names.
pub proof fn ranges_are_described<'a>(
    range: RangeInput<'a>,
    props: Seq<(Seq<char>, PropView)>,
    a: u64,
    b: u64,
    c: u64,
    d: u64,
)
    requires
        range.describes(props),
        prop_of(props, "min"@) == Some(PropView::Number(a)),
        prop_of(props, "max"@) == Some(PropView::Number(b)),
        prop_of(props, "value"@) == Some(PropView::Number(c)),
        prop_of(props, "step"@) == Some(PropView::Number(d)),
    ensures
        range.min matches Some(least) && least@ == StatedView::Integer(a),
        range.max matches Some(most) && most@ == StatedView::Integer(b),
        range.value matches Some(value) && value@ == StatedView::Integer(c),
        range.step matches Step::By(Some(step)) && step@ == StatedView::Integer(d),
        prop_of(props, "disabled"@) == Some(PropView::Flag(true)) ==> range.disabled,
        prop_of(props, "disabled"@) is None ==> !range.disabled,
{
}

/// A field is a range where its type says so.
pub proof fn ranges_say_so(props: Seq<(Seq<char>, PropView)>)
    ensures
        prop_of(props, "type"@) == Some(PropView::Text("range"@)) ==> ranged(props),
        prop_of(props, "type"@) is None ==> !ranged(props),
        prop_of(props, "type"@) == Some(PropView::Text("text"@)) ==> !ranged(props),
{
    reveal_strlit("range");
    reveal_strlit("text");
    assert("range"@.len() == 5 && "text"@.len() == 4);
}

} // verus!
