//! The committed host tree.

use std::collections::HashMap;
use vstd::prelude::*;
use vstd::string::*;
use crate::text::same;

verus! {

broadcast use vstd::std_specs::hash::group_hash_axioms;

/// The value of a host property.
pub enum PropValue {
    Text(String),
    Number(u64),
    Flag(bool),
    /// Anything else, as JSON text.
    Other(String),
}

/// What a [`PropValue`] holds.
pub enum PropView {
    Text(Seq<char>),
    Number(u64),
    Flag(bool),
    Other(Seq<char>),
}

impl View for PropValue {
    type V = PropView;

    open spec fn view(&self) -> PropView {
        match self {
            PropValue::Text(text) => PropView::Text(text@),
            PropValue::Number(number) => PropView::Number(*number),
            PropValue::Flag(flag) => PropView::Flag(*flag),
            PropValue::Other(json) => PropView::Other(json@),
        }
    }
}

/// One host property.
pub struct Prop {
    pub name: String,
    pub value: PropValue,
}

impl View for Prop {
    type V = (Seq<char>, PropView);

    open spec fn view(&self) -> (Seq<char>, PropView) {
        (self.name@, self.value@)
    }
}

/// The views of a list of properties.
pub open spec fn prop_views(props: Seq<Prop>) -> Seq<(Seq<char>, PropView)> {
    Seq::new(props.len(), |i: int| props[i]@)
}

/// A host instance. Its properties stand in ascending order of their names, each
/// name once.
pub struct Node {
    pub id: u64,
    pub kind: String,
    pub props: Vec<Prop>,
    pub text: String,
    pub children: Vec<Node>,
}

/// What a [`Node`] holds.
pub struct NodeView {
    pub id: u64,
    pub kind: Seq<char>,
    pub props: Seq<(Seq<char>, PropView)>,
    pub text: Seq<char>,
    pub children: Seq<NodeView>,
}

/// The views of a list of nodes.
pub open spec fn node_views(nodes: Seq<Node>) -> Seq<NodeView>
    decreases nodes,
{
    if nodes.len() == 0 {
        Seq::empty()
    } else {
        let last = nodes.last();
        node_views(nodes.drop_last()).push(
            NodeView {
                id: last.id,
                kind: last.kind@,
                props: prop_views(last.props@),
                text: last.text@,
                children: node_views(last.children@),
            },
        )
    }
}

impl View for Node {
    type V = NodeView;

    open spec fn view(&self) -> NodeView {
        NodeView {
            id: self.id,
            kind: self.kind@,
            props: prop_views(self.props@),
            text: self.text@,
            children: node_views(self.children@),
        }
    }
}

/// Views keep the order of their nodes.
pub proof fn node_views_in_order(nodes: Seq<Node>)
    ensures
        node_views(nodes).len() == nodes.len(),
        forall|i: int| 0 <= i < nodes.len() ==> #[trigger] node_views(nodes)[i] == nodes[i]@,
    decreases nodes,
{
    if nodes.len() > 0 {
        node_views_in_order(nodes.drop_last());
        assert forall|i: int| 0 <= i < nodes.len() implies #[trigger] node_views(nodes)[i]
            == nodes[i]@ by {
            if i < nodes.len() - 1 {
                assert(node_views(nodes)[i] == node_views(nodes.drop_last())[i]);
                assert(nodes.drop_last()[i] == nodes[i]);
            }
        }
    }
}

/// The value of a property, where there is one.
pub open spec fn prop_of(props: Seq<(Seq<char>, PropView)>, name: Seq<char>) -> Option<PropView>
    decreases props.len(),
{
    if props.len() == 0 {
        None
    } else if props[0].0 == name {
        Some(props[0].1)
    } else {
        prop_of(props.skip(1), name)
    }
}

/// The number that a property holds.
pub open spec fn number_of(props: Seq<(Seq<char>, PropView)>, name: Seq<char>) -> Option<u64> {
    match prop_of(props, name) {
        Some(PropView::Number(number)) => Some(number),
        _ => None,
    }
}

/// The text that a property holds.
pub open spec fn string_of(props: Seq<(Seq<char>, PropView)>, name: Seq<char>) -> Option<Seq<char>> {
    match prop_of(props, name) {
        Some(PropView::Text(text)) => Some(text),
        _ => None,
    }
}

/// A property is exactly true.
pub open spec fn flagged(props: Seq<(Seq<char>, PropView)>, name: Seq<char>) -> bool {
    prop_of(props, name) == Some(PropView::Flag(true))
}

/// The number that a property holds, where it fits 32 bits.
pub open spec fn small_number(props: Seq<(Seq<char>, PropView)>, name: Seq<char>) -> Option<u32> {
    match number_of(props, name) {
        Some(number) => if number <= u32::MAX {
            Some(number as u32)
        } else {
            None
        },
        None => None,
    }
}

/// The value of a property.
pub fn prop<'a>(props: &'a Vec<Prop>, name: &str) -> (result: Option<&'a PropValue>)
    ensures
        prop_of(prop_views(props@), name@) == (match result {
            Some(value) => Some(value@),
            None => None,
        }),
{
    let ghost all = prop_views(props@);
    assert(all.skip(0) =~= all);
    let mut i: usize = 0;
    while i < props.len()
        invariant
            i <= props@.len(),
            all == prop_views(props@),
            prop_of(all, name@) == prop_of(all.skip(i as int), name@),
        decreases props@.len() - i,
    {
        assert(all.skip(i as int)[0] == props@[i as int]@);
        if same(props[i].name.as_str(), name) {
            return Some(&props[i].value);
        }
        assert(all.skip(i as int).skip(1) =~= all.skip(i + 1));
        i = i + 1;
    }
    None
}

/// The number that a property holds.
pub fn number_prop(props: &Vec<Prop>, name: &str) -> (result: Option<u64>)
    ensures
        result == number_of(prop_views(props@), name@),
{
    match prop(props, name) {
        Some(PropValue::Number(number)) => Some(*number),
        _ => None,
    }
}

/// The number that a property holds, where it fits 32 bits.
pub fn small_prop(props: &Vec<Prop>, name: &str) -> (result: Option<u32>)
    ensures
        result == small_number(prop_views(props@), name@),
{
    match number_prop(props, name) {
        Some(number) => if number <= 0xffff_ffff {
            Some(number as u32)
        } else {
            None
        },
        None => None,
    }
}

/// The text that a property holds.
pub fn text_prop<'a>(props: &'a Vec<Prop>, name: &str) -> (result: Option<&'a str>)
    ensures
        crate::style::text_view(result) == string_of(prop_views(props@), name@),
{
    match prop(props, name) {
        Some(PropValue::Text(text)) => Some(text.as_str()),
        _ => None,
    }
}

/// Whether a property is exactly true.
pub fn flag_prop(props: &Vec<Prop>, name: &str) -> (result: bool)
    ensures
        result == flagged(prop_views(props@), name@),
{
    match prop(props, name) {
        Some(PropValue::Flag(flag)) => *flag,
        _ => false,
    }
}

/// Whether a property is there.
pub fn has_prop(props: &Vec<Prop>, name: &str) -> (result: bool)
    ensures
        result == (prop_of(prop_views(props@), name@) is Some),
{
    prop(props, name).is_some()
}

/// The listener that a node has under a name.
pub fn listener(node: &Node, name: &str) -> (result: Option<u64>)
    ensures
        result == number_of(node@.props, name@),
{
    number_prop(&node.props, name)
}

/// A client area: its pixels come from another process.
pub open spec fn surface_node(node: NodeView) -> bool {
    node.kind == "div"@ && prop_of(node.props, "data-lite-surface"@) is Some
}

/// Whether a node is a client area, whose pixels come from another process.
pub fn is_surface(node: &Node) -> (result: bool)
    ensures
        result == surface_node(node@),
{
    same(node.kind.as_str(), "div") && has_prop(&node.props, "data-lite-surface")
}

/// A window that takes no part in the picture.
pub open spec fn excluded(node: NodeView, window: Option<u32>) -> bool {
    window is Some && number_of(node.props, "data-lite-window"@) == Some(window->0 as u64)
}

/// Whether a node is the window that is left out.
pub fn excludes_window(node: &Node, window: Option<u32>) -> (result: bool)
    ensures
        result == excluded(node@, window),
{
    match window {
        None => false,
        Some(window) => match listener(node, "data-lite-window") {
            Some(number) => number == window as u64,
            None => false,
        },
    }
}

/// A control takes focus by itself only while nothing has it.
pub open spec fn autofocuses(props: Seq<(Seq<char>, PropView)>, focused: Option<u64>) -> bool {
    focused is None && flagged(props, "autoFocus"@)
}

/// Whether a control takes focus by itself.
pub fn takes_autofocus(props: &Vec<Prop>, focused: Option<u64>) -> (result: bool)
    ensures
        result == autofocuses(prop_views(props@), focused),
{
    focused.is_none() && flag_prop(props, "autoFocus")
}

/// Every node of a list is bare text.
pub open spec fn all_text(nodes: Seq<NodeView>) -> bool {
    forall|i: int| 0 <= i < nodes.len() ==> (#[trigger] nodes[i]).kind == "#text"@
}

/// A span of nothing but text.
pub open spec fn text_leaf(node: NodeView) -> bool {
    node.kind == "span"@ && all_text(node.children)
}

/// The text under a list of nodes, in order.
pub open spec fn texts(nodes: Seq<NodeView>) -> Seq<char>
    decreases nodes,
{
    if nodes.len() == 0 {
        Seq::empty()
    } else {
        let last = nodes.last();
        texts(nodes.drop_last()) + if last.kind == "#text"@ {
            last.text
        } else {
            texts(last.children)
        }
    }
}

/// The text of a node: its own where it is bare text, else that of its children.
pub open spec fn text_of(node: NodeView) -> Seq<char> {
    if node.kind == "#text"@ {
        node.text
    } else {
        texts(node.children)
    }
}

impl Node {
    /// Whether the node is a span of nothing but text.
    pub fn is_text_leaf(&self) -> (result: bool)
        ensures
            result == text_leaf(self@),
    {
        proof {
            node_views_in_order(self.children@);
        }
        if !same(self.kind.as_str(), "span") {
            return false;
        }
        let mut i: usize = 0;
        while i < self.children.len()
            invariant
                i <= self.children@.len(),
                node_views(self.children@).len() == self.children@.len(),
                forall|k: int|
                    0 <= k < self.children@.len() ==> #[trigger] node_views(self.children@)[k]
                        == self.children@[k]@,
                forall|k: int|
                    0 <= k < i ==> (#[trigger] node_views(self.children@)[k]).kind == "#text"@,
            decreases self.children@.len() - i,
        {
            assert(node_views(self.children@)[i as int] == self.children@[i as int]@);
            if !same(self.children[i].kind.as_str(), "#text") {
                return false;
            }
            i = i + 1;
        }
        true
    }
}

fn append_texts(nodes: &Vec<Node>, out: &mut String)
    ensures
        final(out)@ == old(out)@ + texts(node_views(nodes@)),
    decreases nodes,
{
    let ghost before = out@;
    let ghost all = node_views(nodes@);
    proof {
        node_views_in_order(nodes@);
        assert(before + texts(all.take(0)) =~= before);
    }
    let mut i: usize = 0;
    while i < nodes.len()
        invariant
            i <= nodes@.len(),
            all == node_views(nodes@),
            all.len() == nodes@.len(),
            forall|k: int| 0 <= k < nodes@.len() ==> #[trigger] all[k] == nodes@[k]@,
            out@ == before + texts(all.take(i as int)),
        decreases nodes@.len() - i,
    {
        let node = &nodes[i];
        proof {
            assert(all.take(i + 1).drop_last() =~= all.take(i as int));
            assert(all.take(i + 1).last() == node@);
        }
        if same(node.kind.as_str(), "#text") {
            out.append(node.text.as_str());
        } else {
            append_texts(&node.children, out);
        }
        assert(out@ =~= before + texts(all.take(i + 1)));
        i = i + 1;
    }
    assert(all.take(i as int) =~= all);
}

/// The text of a node.
pub fn text_content(node: &Node) -> (result: String)
    ensures
        result@ == text_of(node@),
{
    if same(node.kind.as_str(), "#text") {
        return node.text.clone();
    }
    let mut out = "".to_owned();
    proof {
        reveal_strlit("");
    }
    append_texts(&node.children, &mut out);
    assert(out@ =~= text_of(node@));
    out
}

/// Who is whose parent under a list of nodes, on top of what is known. A later
/// node with the same identity counts.
pub open spec fn parents_of(
    nodes: Seq<NodeView>,
    parent: Option<u64>,
    known: Map<u64, Option<u64>>,
) -> Map<u64, Option<u64>>
    decreases nodes,
{
    if nodes.len() == 0 {
        known
    } else {
        let last = nodes.last();
        parents_of(
            last.children,
            Some(last.id),
            parents_of(nodes.drop_last(), parent, known).insert(last.id, parent),
        )
    }
}

/// Notes who is whose parent under a list of nodes.
pub fn collect_parents(
    nodes: &Vec<Node>,
    parent: Option<u64>,
    parents: &mut HashMap<u64, Option<u64>>,
)
    ensures
        final(parents)@ == parents_of(node_views(nodes@), parent, old(parents)@),
    decreases nodes,
{
    let ghost known = parents@;
    let ghost all = node_views(nodes@);
    proof {
        node_views_in_order(nodes@);
    }
    let mut i: usize = 0;
    while i < nodes.len()
        invariant
            i <= nodes@.len(),
            all == node_views(nodes@),
            all.len() == nodes@.len(),
            forall|k: int| 0 <= k < nodes@.len() ==> #[trigger] all[k] == nodes@[k]@,
            parents@ == parents_of(all.take(i as int), parent, known),
        decreases nodes@.len() - i,
    {
        let node = &nodes[i];
        proof {
            assert(all.take(i + 1).drop_last() =~= all.take(i as int));
            assert(all.take(i + 1).last() == node@);
        }
        parents.insert(node.id, parent);
        collect_parents(&node.children, Some(node.id), parents);
        i = i + 1;
    }
    assert(all.take(i as int) =~= all);
}

/// Every node of the tree has an entry, and no entry is lost.
pub proof fn every_node_has_a_parent_entry(
    nodes: Seq<NodeView>,
    parent: Option<u64>,
    known: Map<u64, Option<u64>>,
)
    ensures
        known.dom().subset_of(parents_of(nodes, parent, known).dom()),
        forall|i: int|
            0 <= i < nodes.len() ==> parents_of(nodes, parent, known).contains_key(
                (#[trigger] nodes[i]).id,
            ),
    decreases nodes,
{
    if nodes.len() > 0 {
        let last = nodes.last();
        let before = parents_of(nodes.drop_last(), parent, known);
        every_node_has_a_parent_entry(nodes.drop_last(), parent, known);
        every_node_has_a_parent_entry(last.children, Some(last.id), before.insert(last.id, parent));
        let after = parents_of(nodes, parent, known);
        assert(before.dom().subset_of(before.insert(last.id, parent).dom()));
        assert forall|i: int| 0 <= i < nodes.len() implies after.contains_key(
            (#[trigger] nodes[i]).id,
        ) by {
            if i < nodes.len() - 1 {
                assert(nodes.drop_last()[i] == nodes[i]);
                assert(before.dom().contains(nodes[i].id));
            }
            assert(before.insert(last.id, parent).dom().contains(nodes[i].id));
        }
    }
}

/// Whether two values are the same.
pub fn same_value(a: &PropValue, b: &PropValue) -> (result: bool)
    ensures
        result == (a@ == b@),
{
    match (a, b) {
        (PropValue::Text(x), PropValue::Text(y)) => same(x.as_str(), y.as_str()),
        (PropValue::Number(x), PropValue::Number(y)) => *x == *y,
        (PropValue::Flag(x), PropValue::Flag(y)) => *x == *y,
        (PropValue::Other(x), PropValue::Other(y)) => same(x.as_str(), y.as_str()),
        _ => false,
    }
}

/// The properties whose names are not left out.
pub open spec fn kept(
    props: Seq<(Seq<char>, PropView)>,
    left_out: spec_fn(Seq<char>) -> bool,
) -> Seq<(Seq<char>, PropView)>
    decreases props.len(),
{
    if props.len() == 0 {
        Seq::empty()
    } else {
        let before = kept(props.drop_last(), left_out);
        if left_out(props.last().0) {
            before
        } else {
            before.push(props.last())
        }
    }
}

/// The names that a comparison leaves out.
pub open spec fn left_out(value: bool, style: bool) -> spec_fn(Seq<char>) -> bool {
    |name: Seq<char>| (value && name == "value"@) || (style && name == "style"@)
}

fn kept_at(props: &Vec<Prop>, value: bool, style: bool) -> (result: Vec<usize>)
    ensures
        forall|k: int| 0 <= k < result@.len() ==> (#[trigger] result@[k]) < props@.len(),
        kept(prop_views(props@), left_out(value, style)) == Seq::new(
            result@.len(),
            |k: int| props@[result@[k] as int]@,
        ),
{
    let ghost all = prop_views(props@);
    let ghost out = left_out(value, style);
    let mut list: Vec<usize> = Vec::new();
    let mut i: usize = 0;
    assert(kept(all.take(0), out) =~= Seq::new(0, |k: int| props@[list@[k] as int]@));
    while i < props.len()
        invariant
            i <= props@.len(),
            all == prop_views(props@),
            out == left_out(value, style),
            forall|k: int| 0 <= k < list@.len() ==> (#[trigger] list@[k]) < props@.len(),
            kept(all.take(i as int), out) =~= Seq::new(
                list@.len(),
                |k: int| props@[list@[k] as int]@,
            ),
        decreases props@.len() - i,
    {
        let name = props[i].name.as_str();
        proof {
            assert(all.take(i + 1).drop_last() =~= all.take(i as int));
            assert(all.take(i + 1).last() == props@[i as int]@);
        }
        let skipped = (value && same(name, "value")) || (style && same(name, "style"));
        if !skipped {
            let ghost before = list@;
            list.push(i);
            assert(kept(all.take(i + 1), out) =~= Seq::new(
                list@.len(),
                |k: int| props@[list@[k] as int]@,
            ));
        }
        i = i + 1;
    }
    assert(all.take(i as int) =~= all);
    list
}

/// Whether two lists of properties are the same but for what is left out.
pub fn same_props(a: &Vec<Prop>, b: &Vec<Prop>, value: bool, style: bool) -> (result: bool)
    ensures
        result == (kept(prop_views(a@), left_out(value, style)) == kept(
            prop_views(b@),
            left_out(value, style),
        )),
{
    let first = kept_at(a, value, style);
    let second = kept_at(b, value, style);
    let ghost x = kept(prop_views(a@), left_out(value, style));
    let ghost y = kept(prop_views(b@), left_out(value, style));
    if first.len() != second.len() {
        assert(x.len() != y.len());
        return false;
    }
    let mut i: usize = 0;
    while i < first.len()
        invariant
            i <= first@.len(),
            first@.len() == second@.len(),
            forall|k: int| 0 <= k < first@.len() ==> (#[trigger] first@[k]) < a@.len(),
            forall|k: int| 0 <= k < second@.len() ==> (#[trigger] second@[k]) < b@.len(),
            x == kept(prop_views(a@), left_out(value, style)),
            y == kept(prop_views(b@), left_out(value, style)),
            x == Seq::new(first@.len(), |k: int| a@[first@[k] as int]@),
            y == Seq::new(second@.len(), |k: int| b@[second@[k] as int]@),
            forall|k: int| 0 <= k < i ==> #[trigger] x[k] == y[k],
        decreases first@.len() - i,
    {
        let left = &a[first[i]];
        let right = &b[second[i]];
        assert(x[i as int] == left@);
        assert(y[i as int] == right@);
        if !same(left.name.as_str(), right.name.as_str()) || !same_value(&left.value, &right.value) {
            return false;
        }
        i = i + 1;
    }
    assert(x =~= y);
    true
}

proof fn nothing_left_out(props: Seq<(Seq<char>, PropView)>)
    ensures
        kept(props, left_out(false, false)) == props,
    decreases props.len(),
{
    if props.len() > 0 {
        nothing_left_out(props.drop_last());
        assert(props.drop_last().push(props.last()) =~= props);
    }
}

/// Whether two lists of nodes hold the same trees.
pub fn same_nodes(a: &Vec<Node>, b: &Vec<Node>) -> (result: bool)
    ensures
        result == (node_views(a@) == node_views(b@)),
    decreases a,
{
    proof {
        node_views_in_order(a@);
        node_views_in_order(b@);
    }
    let ghost x = node_views(a@);
    let ghost y = node_views(b@);
    if a.len() != b.len() {
        return false;
    }
    let mut i: usize = 0;
    while i < a.len()
        invariant
            i <= a@.len(),
            a@.len() == b@.len(),
            x == node_views(a@),
            y == node_views(b@),
            x.len() == a@.len(),
            y.len() == b@.len(),
            forall|k: int| 0 <= k < a@.len() ==> #[trigger] x[k] == a@[k]@,
            forall|k: int| 0 <= k < b@.len() ==> #[trigger] y[k] == b@[k]@,
            forall|k: int| 0 <= k < i ==> #[trigger] x[k] == y[k],
        decreases a@.len() - i,
    {
        let left = &a[i];
        let right = &b[i];
        assert(x[i as int] == left@);
        assert(y[i as int] == right@);
        proof {
            nothing_left_out(left@.props);
            nothing_left_out(right@.props);
        }
        let equal = left.id == right.id && same(left.kind.as_str(), right.kind.as_str())
            && same(left.text.as_str(), right.text.as_str()) && same_props(
            &left.props,
            &right.props,
            false,
            false,
        ) && same_nodes(&left.children, &right.children);
        if !equal {
            return false;
        }
        i = i + 1;
    }
    assert(x =~= y);
    true
}

/// Whether two nodes hold the same tree.
pub fn same_node(a: &Node, b: &Node) -> (result: bool)
    ensures
        result == (a@ == b@),
{
    proof {
        nothing_left_out(a@.props);
        nothing_left_out(b@.props);
    }
    a.id == b.id && same(a.kind.as_str(), b.kind.as_str()) && same(a.text.as_str(), b.text.as_str())
        && same_props(&a.props, &b.props, false, false) && same_nodes(&a.children, &b.children)
}

fn copied_value(value: &PropValue) -> (result: PropValue)
    ensures
        result@ == value@,
{
    match value {
        PropValue::Text(text) => PropValue::Text(text.clone()),
        PropValue::Number(number) => PropValue::Number(*number),
        PropValue::Flag(flag) => PropValue::Flag(*flag),
        PropValue::Other(json) => PropValue::Other(json.clone()),
    }
}

/// Another list of the same properties.
pub fn copied_props(props: &Vec<Prop>) -> (result: Vec<Prop>)
    ensures
        prop_views(result@) == prop_views(props@),
{
    let mut out: Vec<Prop> = Vec::new();
    let mut i: usize = 0;
    while i < props.len()
        invariant
            i <= props@.len(),
            out@.len() == i,
            forall|k: int| 0 <= k < i ==> (#[trigger] out@[k])@ == props@[k]@,
        decreases props@.len() - i,
    {
        out.push(Prop { name: props[i].name.clone(), value: copied_value(&props[i].value) });
        i = i + 1;
    }
    assert(prop_views(out@) =~= prop_views(props@));
    out
}

} // verus!
