//! The document tree that the dump is made from, and what its dump is.
use crate::escape::escaped;
use vstd::prelude::*;

verus! {

/// An attribute: its namespace, its local name and its value.
pub struct Attr {
    pub ns: String,
    pub local: String,
    pub value: String,
}

/// What one node of the tree is, apart from its children.
pub enum NodeKind {
    Document,
    Doctype { name: String, public_id: String, system_id: String },
    Text { contents: String },
    Comment { contents: String },
    Element { ns: String, local: String, attrs: Vec<Attr> },
    ProcessingInstruction { target: String, contents: String },
}

/// A node with its children, in document order.
pub struct TreeNode {
    pub data: NodeKind,
    pub children: Vec<TreeNode>,
}

/// The HTML namespace.
pub open spec fn html_ns() -> Seq<char> {
    "http://www.w3.org/1999/xhtml"@
}

/// A node that the formatter accepts: an element in the HTML namespace whose
/// attributes are all in the empty namespace, or any kind but a processing
/// instruction.
pub open spec fn data_wf(d: NodeKind) -> bool {
    match d {
        NodeKind::Element { ns, attrs, .. } => ns@ == html_ns() && forall|i: int|
            0 <= i < attrs@.len() ==> (#[trigger] attrs@[i]).ns@.len() == 0,
        NodeKind::ProcessingInstruction { .. } => false,
        _ => true,
    }
}

/// Every node of the forest `ns` is accepted by the formatter.
pub open spec fn forest_wf(ns: Seq<TreeNode>) -> bool
    decreases ns,
{
    if ns.len() == 0 {
        true
    } else {
        forest_wf(ns.drop_last()) && data_wf(ns.last().data) && forest_wf(ns.last().children@)
    }
}

/// Every node of the tree `n` is accepted by the formatter.
pub open spec fn tree_wf(n: TreeNode) -> bool {
    forest_wf(seq![n])
}

/// The forest `ns`, laid out from `depth`, nests no deeper than `usize` can count.
pub open spec fn forest_depth_fits(ns: Seq<TreeNode>, depth: nat) -> bool
    decreases ns,
{
    if ns.len() == 0 {
        true
    } else {
        forest_depth_fits(ns.drop_last(), depth) && depth <= usize::MAX && (
        ns.last().children.len() > 0 ==> depth < usize::MAX) && forest_depth_fits(
            ns.last().children@,
            depth + 1,
        )
    }
}

/// The tree `n`, laid out from `depth`, nests no deeper than `usize` can count.
pub open spec fn depth_fits(n: TreeNode, depth: nat) -> bool {
    forest_depth_fits(seq![n], depth)
}

/// `n` spaces.
pub open spec fn spaces(n: nat) -> Seq<char> {
    Seq::new(n, |i: int| ' ')
}

/// The text of one attribute in a start tag: ` local="value"`.
pub open spec fn attr_text(a: Attr) -> Seq<char> {
    " "@ + a.local@ + "=\""@ + a.value@ + "\""@
}

/// The text of all attributes, in order.
pub open spec fn attrs_text(attrs: Seq<Attr>) -> Seq<char>
    decreases attrs.len(),
{
    if attrs.len() == 0 {
        Seq::empty()
    } else {
        attrs_text(attrs.drop_last()) + attr_text(attrs.last())
    }
}

/// The one-line text of a node, without its children.
pub open spec fn node_text(d: NodeKind) -> Seq<char> {
    match d {
        NodeKind::Document => "#Document"@,
        NodeKind::Doctype { name, public_id, system_id } => "<!DOCTYPE "@ + name@ + " \""@
            + public_id@ + "\" \""@ + system_id@ + "\">"@,
        NodeKind::Text { contents } => "#text:"@ + escaped(contents@),
        NodeKind::Comment { contents } => "<!-- "@ + escaped(contents@) + " -->"@,
        NodeKind::Element { local, attrs, .. } => "<"@ + local@ + attrs_text(attrs@) + ">"@,
        NodeKind::ProcessingInstruction { .. } => Seq::empty(),
    }
}

/// The line of a node at `depth`: two spaces per level, its text, a line feed.
pub open spec fn node_line(d: NodeKind, depth: nat) -> Seq<char> {
    spaces(2 * depth) + node_text(d) + "\n"@
}

/// The dump of the forest `ns` at `depth`: for each tree in order, the line of
/// its root followed by the dump of its children one level deeper.
pub open spec fn dump_forest(ns: Seq<TreeNode>, depth: nat) -> Seq<char>
    decreases ns,
{
    if ns.len() == 0 {
        Seq::empty()
    } else {
        dump_forest(ns.drop_last(), depth) + node_line(ns.last().data, depth) + dump_forest(
            ns.last().children@,
            depth + 1,
        )
    }
}

/// The dump of the tree `n` with its root at `depth`.
pub open spec fn dump(n: TreeNode, depth: nat) -> Seq<char> {
    dump_forest(seq![n], depth)
}

} // verus!

verus! {

/// Each tree of an accepted forest is accepted.
pub proof fn lemma_forest_wf_index(ns: Seq<TreeNode>, i: int)
    requires
        forest_wf(ns),
        0 <= i < ns.len(),
    ensures
        tree_wf(ns[i]),
    decreases ns.len(),
{
    reveal_with_fuel(forest_wf, 2);
    assert(seq![ns[i]].drop_last() =~= Seq::<TreeNode>::empty());
    if i < ns.len() - 1 {
        lemma_forest_wf_index(ns.drop_last(), i);
    }
}

/// Each tree of a forest that fits at `depth` fits there too.
pub proof fn lemma_forest_depth_fits_index(ns: Seq<TreeNode>, depth: nat, i: int)
    requires
        forest_depth_fits(ns, depth),
        0 <= i < ns.len(),
    ensures
        depth_fits(ns[i], depth),
    decreases ns.len(),
{
    reveal_with_fuel(forest_depth_fits, 2);
    assert(seq![ns[i]].drop_last() =~= Seq::<TreeNode>::empty());
    if i < ns.len() - 1 {
        lemma_forest_depth_fits_index(ns.drop_last(), depth, i);
    }
}

/// The dump of a single tree is the line of its root and the dump of its children.
pub proof fn lemma_dump_unfold(n: TreeNode, depth: nat)
    ensures
        dump(n, depth) == node_line(n.data, depth) + dump_forest(n.children@, depth + 1),
{
    reveal_with_fuel(dump_forest, 2);
    assert(seq![n].drop_last() =~= Seq::<TreeNode>::empty());
    assert(dump(n, depth) =~= node_line(n.data, depth) + dump_forest(n.children@, depth + 1));
}

} // verus!

verus! {

/// A tree is accepted, and fits at `depth`, by its root and its children.
pub proof fn lemma_tree_unfold(n: TreeNode, depth: nat)
    ensures
        tree_wf(n) == (data_wf(n.data) && forest_wf(n.children@)),
        depth_fits(n, depth) == (depth <= usize::MAX && (n.children.len() > 0 ==> depth
            < usize::MAX) && forest_depth_fits(n.children@, depth + 1)),
{
    reveal_with_fuel(forest_wf, 2);
    reveal_with_fuel(forest_depth_fits, 2);
    assert(seq![n].drop_last() =~= Seq::<TreeNode>::empty());
}

} // verus!
