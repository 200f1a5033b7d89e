//! Indentation, the one-line text of a node, and the walk that dumps a tree.
use crate::dom::{
    attr_text, attrs_text, data_wf, depth_fits, dump, dump_forest, forest_depth_fits, forest_wf,
    lemma_dump_unfold, lemma_forest_depth_fits_index, lemma_forest_wf_index, node_line, node_text,
    spaces, tree_wf, Attr, NodeKind, TreeNode,
};
use crate::escape::escape_default;
use vstd::prelude::*;

verus! {

/// One level of indentation: two spaces.
pub fn indent_unit() -> (r: String)
    ensures
        r@ == spaces(2),
{
    let r = String::from_str("  ");
    proof {
        reveal_strlit("  ");
    }
    assert(r@ =~= spaces(2));
    r
}

/// `size` levels of indentation.
pub fn indent_units(size: usize) -> (r: String)
    ensures
        r@ == spaces(2 * size as nat),
{
    let mut r = String::new();
    let unit = indent_unit();
    for i in 0..size
        invariant
            r@ == spaces(2 * i as nat),
            unit@ == spaces(2),
    {
        r.append(unit.as_str());
        assert(r@ =~= spaces(2 * (i + 1) as nat));
    }
    r
}

/// `s` indented by `size` levels.
pub fn indent(size: usize, s: &str) -> (r: String)
    ensures
        r@ == spaces(2 * size as nat) + s@,
{
    let mut r = indent_units(size);
    r.append(s);
    r
}

/// The text of one attribute in a start tag.
fn attr_to_string(a: &Attr) -> (r: String)
    ensures
        r@ == attr_text(*a),
{
    let mut r = String::from_str(" ");
    r.append(a.local.as_str());
    r.append("=\"");
    r.append(a.value.as_str());
    r.append("\"");
    r
}

/// The one-line text of a node, without its children.
pub fn node_to_string(data: &NodeKind) -> (r: String)
    requires
        data_wf(*data),
    ensures
        r@ == node_text(*data),
{
    match data {
        NodeKind::Document => String::from_str("#Document"),
        NodeKind::Doctype { name, public_id, system_id } => {
            let mut r = String::from_str("<!DOCTYPE ");
            r.append(name.as_str());
            r.append(" \"");
            r.append(public_id.as_str());
            r.append("\" \"");
            r.append(system_id.as_str());
            r.append("\">");
            r
        },
        NodeKind::Text { contents } => {
            let r = String::from_str("#text:");
            r.concat(escape_default(contents.as_str()).as_str())
        },
        NodeKind::Comment { contents } => {
            let mut r = String::from_str("<!-- ");
            r.append(escape_default(contents.as_str()).as_str());
            r.append(" -->");
            r
        },
        NodeKind::Element { local, attrs, .. } => {
            let mut r = String::from_str("<");
            r.append(local.as_str());
            for i in 0..attrs.len()
                invariant
                    r@ == "<"@ + local@ + attrs_text(attrs@.take(i as int)),
            {
                r.append(attr_to_string(&attrs[i]).as_str());
                assert(attrs@.take(i + 1).drop_last() =~= attrs@.take(i as int));
            }
            assert(attrs@.take(attrs.len() as int) =~= attrs@);
            r.append(">");
            r
        },
        NodeKind::ProcessingInstruction { .. } => unreached(),
    }
}

/// The dump of the tree `node` with its root at depth `indent_size`: the
/// line of the root, then the dump of each child one level deeper, in order.
pub fn walk(node: &TreeNode, indent_size: usize) -> (r: String)
    requires
        tree_wf(*node),
        depth_fits(*node, indent_size as nat),
    ensures
        r@ == dump(*node, indent_size as nat),
    decreases node,
{
    let ghost kids = node.children@;
    proof {
        reveal_with_fuel(forest_wf, 2);
        reveal_with_fuel(forest_depth_fits, 2);
        assert(seq![*node].drop_last() =~= Seq::<TreeNode>::empty());
        lemma_dump_unfold(*node, indent_size as nat);
    }
    let mut s = indent_units(indent_size);
    s.append(node_to_string(&node.data).as_str());
    s.append("\n");
    for i in 0..node.children.len()
        invariant
            kids == node.children@,
            forest_wf(kids),
            forest_depth_fits(kids, indent_size as nat + 1),
            kids.len() > 0 ==> indent_size < usize::MAX,
            s@ == node_line(node.data, indent_size as nat) + dump_forest(
                kids.take(i as int),
                indent_size as nat + 1,
            ),
    {
        proof {
            lemma_forest_wf_index(kids, i as int);
            lemma_forest_depth_fits_index(kids, indent_size as nat + 1, i as int);
            lemma_dump_unfold(kids[i as int], indent_size as nat + 1);
            assert(kids.take(i + 1).drop_last() =~= kids.take(i as int));
        }
        let c = walk(&node.children[i], indent_size + 1);
        s.append(c.as_str());
    }
    assert(kids.take(kids.len() as int) =~= kids);
    s
}

} // verus!
