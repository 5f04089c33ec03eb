use vstd::prelude::*;

verus! {

/// One element of a parsed outline.
#[derive(Debug, PartialEq, Eq)]
pub enum Node {
    Section(Section),
    Text(String),
    EmptyLine,
}

/// A marker line together with the nodes nested below it.
#[derive(Debug, PartialEq, Eq)]
pub struct Section {
    pub name: String,
    pub label: Option<String>,
    pub children: Vec<Node>,
}

/// The mathematical value of a node: strings as character sequences.
pub enum NodeModel {
    Section { name: Seq<char>, label: Option<Seq<char>>, children: Seq<NodeModel> },
    Text { content: Seq<char> },
    EmptyLine,
}

pub open spec fn opt_view(o: Option<String>) -> Option<Seq<char>> {
    match o {
        Some(s) => Some(s@),
        None => None,
    }
}

/// The model of a node, children included.
pub open spec fn node_view(n: Node) -> NodeModel
    decreases n, 0nat,
{
    match n {
        Node::Section(s) => NodeModel::Section {
            name: s.name@,
            label: opt_view(s.label),
            children: nodes_view(s.children@, s.children@.len()),
        },
        Node::Text(t) => NodeModel::Text { content: t@ },
        Node::EmptyLine => NodeModel::EmptyLine,
    }
}

/// The models of the first `k` nodes of `ns`.
pub open spec fn nodes_view(ns: Seq<Node>, k: nat) -> Seq<NodeModel>
    decreases ns, k,
{
    if k == 0 || k > ns.len() {
        Seq::empty()
    } else {
        nodes_view(ns, (k - 1) as nat).push(node_view(ns[k - 1]))
    }
}

} // verus!

verus! {

pub proof fn lemma_nodes_view_len(ns: Seq<Node>, k: nat)
    requires
        k <= ns.len(),
    ensures
        nodes_view(ns, k).len() == k,
    decreases k,
{
    if k > 0 {
        lemma_nodes_view_len(ns, (k - 1) as nat);
    }
}

/// Only the first `k` nodes count for the first `k` models.
pub proof fn lemma_nodes_view_prefix(a: Seq<Node>, b: Seq<Node>, k: nat)
    requires
        k <= a.len(),
        k <= b.len(),
        forall|i: int| 0 <= i < k ==> a[i] == b[i],
    ensures
        nodes_view(a, k) == nodes_view(b, k),
    decreases k,
{
    if k > 0 {
        lemma_nodes_view_prefix(a, b, (k - 1) as nat);
    }
}

/// Appending a node appends its model.
pub proof fn lemma_nodes_view_push(ns: Seq<Node>, x: Node)
    ensures
        nodes_view(ns.push(x), ns.len() + 1) == nodes_view(ns, ns.len()).push(node_view(x)),
{
    lemma_nodes_view_prefix(ns.push(x), ns, ns.len());
}

} // verus!
