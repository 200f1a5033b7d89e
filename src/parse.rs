//! Parsing HTML text into the library's tree, and dumping the result.
use crate::dom::{
    data_wf, depth_fits, dump, forest_depth_fits, forest_wf, html_ns, lemma_tree_unfold, tree_wf,
    Attr, NodeKind, TreeNode,
};
use crate::format::walk;
use crate::layout::{fields_single_line, lemma_dump_line_count, newlines, preorder};
use html5ever::rcdom;
use html5ever::rcdom::NodeData as RcData;
use html5ever::tendril::TendrilSink;
use vstd::prelude::*;

verus! {

/// A parsed document: its tree and the parser's error messages, in the order
/// in which they were reported.
pub struct ParsedDom {
    pub document: TreeNode,
    pub errors: Vec<String>,
}

/// `input` fits the parser's buffer, whose length is a `u32`: each character
/// takes at most four bytes.
pub open spec fn fits_parser(input: Seq<char>) -> bool {
    4 * input.len() <= u32::MAX
}

/// What the HTML parser makes of `input`.
pub uninterp spec fn parsed_document(input: Seq<char>) -> ParsedDom;

/// A node of html5ever's `RcDom`, only carried into the copy below.
#[verifier::external_type_specification]
#[verifier::external_body]
pub struct ExRcNode(rcdom::Node);

/// The data of an `RcDom` node, only carried into the copy below.
#[verifier::external_type_specification]
#[verifier::external_body]
pub struct ExRcNodeData(RcData);

/// An attribute of an `RcDom` element, only carried into the copy below.
#[verifier::external_type_specification]
#[verifier::external_body]
pub struct ExHtmlAttribute(html5ever::Attribute);

/// Relies on `html5ever::parse_document` with an `RcDom` sink and default
/// options, fed the whole input at once: the tree it builds and the errors it
/// reports depend on the input alone. The tree is copied node for node into
/// the library's own type by the three functions below. The input becomes one
/// tendril, whose length html5ever holds in a `u32` and asserts to fit there.
#[verifier::external_body]
fn parse_dom(input: &str) -> (r: ParsedDom)
    requires
        fits_parser(input@),
    ensures
        r == parsed_document(input@),
{
    let dom = html5ever::parse_document(rcdom::RcDom::default(), Default::default()).one(input);
    let errors = dom.errors.iter().map(|e| e.to_string()).collect();
    ParsedDom { document: copy_node(&dom.document), errors }
}

/// Copies an `RcDom` node and its subtree, for `parse_dom`.
#[verifier::external_body]
fn copy_node(n: &rcdom::Node) -> TreeNode {
    let children = n.children.borrow().iter().map(|c| copy_node(c)).collect();
    TreeNode { data: copy_data(&n.data), children }
}

/// Copies the data of one `RcDom` node, for `parse_dom`.
#[verifier::external_body]
fn copy_data(d: &RcData) -> NodeKind {
    match d {
        RcData::Document => NodeKind::Document,
        RcData::Doctype { name, public_id, system_id } => NodeKind::Doctype { name: name.to_string(), public_id: public_id.to_string(), system_id: system_id.to_string() },
        RcData::Text { contents } => NodeKind::Text { contents: contents.borrow().to_string() },
        RcData::Comment { contents } => NodeKind::Comment { contents: contents.to_string() },
        RcData::Element { name, attrs, .. } => NodeKind::Element { ns: name.ns.to_string(), local: name.local.to_string(), attrs: attrs.borrow().iter().map(|a| copy_attribute(a)).collect() },
        RcData::ProcessingInstruction { target, contents } => NodeKind::ProcessingInstruction { target: target.to_string(), contents: contents.to_string() },
    }
}

/// Copies one attribute of an `RcDom` element, for `parse_dom`.
#[verifier::external_body]
fn copy_attribute(a: &html5ever::Attribute) -> Attr {
    Attr { ns: a.name.ns.to_string(), local: a.name.local.to_string(), value: a.value.to_string() }
}

/// Whether the formatter accepts `d`.
pub fn data_is_html(d: &NodeKind) -> (r: bool)
    ensures
        r == data_wf(*d),
{
    match d {
        NodeKind::Element { ns, local, attrs } => {
            let html = String::from_str("http://www.w3.org/1999/xhtml");
            if !(*ns == html) {
                return false;
            }
            for i in 0..attrs.len()
                invariant
                    *d == (NodeKind::Element { ns: *ns, local: *local, attrs: *attrs }),
                    ns@ == html_ns(),
                    forall|j: int| 0 <= j < i ==> (#[trigger] attrs@[j]).ns@.len() == 0,
            {
                if !attrs[i].ns.as_str().is_empty() {
                    assert(d->Element_attrs@[i as int].ns@.len() != 0);
                    return false;
                }
            }
            true
        },
        NodeKind::ProcessingInstruction { .. } => false,
        _ => true,
    }
}

/// Whether the formatter accepts every node of `node`, and the tree nests no
/// deeper than `usize` can count when its root stands at `depth`.
pub fn check_tree(node: &TreeNode, depth: usize) -> (r: bool)
    ensures
        r == (tree_wf(*node) && depth_fits(*node, depth as nat)),
    decreases node,
{
    proof {
        lemma_tree_unfold(*node, depth as nat);
    }
    if !data_is_html(&node.data) {
        return false;
    }
    if node.children.len() == 0 {
        assert(node.children@ =~= Seq::<TreeNode>::empty());
        return true;
    }
    if depth == usize::MAX {
        return false;
    }
    let ghost kids = node.children@;
    let mut ok = true;
    for i in 0..node.children.len()
        invariant
            kids == node.children@,
            depth < usize::MAX,
            ok == (forest_wf(kids.take(i as int)) && forest_depth_fits(
                kids.take(i as int),
                depth as nat + 1,
            )),
    {
        proof {
            lemma_tree_unfold(kids[i as int], depth as nat + 1);
            assert(kids.take(i + 1).drop_last() =~= kids.take(i as int));
        }
        ok = ok && check_tree(&node.children[i], depth + 1);
    }
    assert(kids.take(kids.len() as int) =~= kids);
    ok
}

/// The dump of the document that `s` parses to.
pub fn parse_html_string(s: &str) -> (r: String)
    requires
        fits_parser(s@),
        tree_wf(parsed_document(s@).document),
        depth_fits(parsed_document(s@).document, 0),
    ensures
        r@ == dump(parsed_document(s@).document, 0),
{
    let dom = parse_dom(s);
    walk(&dom.document, 0)
}

/// The dump of a parsed document with the parser's error messages.
pub struct HtmlDump {
    pub dump: String,
    pub errors: Vec<String>,
}

/// Parses `s` and dumps the document: `None` where the tree holds a node
/// that the formatter refuses (an element outside the HTML namespace, an
/// attribute with a namespace, a processing instruction), or nests deeper
/// than `usize` can count; also `None` where `s` is too long for the parser.
/// This is the checked way into `parse_html_string`, which it calls once the
/// parsed tree is known to be accepted; that call parses `s` again.
pub fn parse_html(s: &str) -> (r: Option<HtmlDump>)
    ensures
        r is Some <==> fits_parser(s@) && tree_wf(parsed_document(s@).document) && depth_fits(
            parsed_document(s@).document,
            0,
        ),
        r matches Some(d) ==> d.dump@ == dump(parsed_document(s@).document, 0) && d.errors
            == parsed_document(s@).errors,
{
    if s.unicode_len() > (u32::MAX / 4) as usize {
        return None;
    }
    let dom = parse_dom(s);
    if !check_tree(&dom.document, 0) {
        return None;
    }
    Some(HtmlDump { dump: parse_html_string(s), errors: dom.errors })
}

/// One line per error message, each indented by four spaces.
pub open spec fn error_lines(errors: Seq<String>) -> Seq<char>
    decreases errors.len(),
{
    if errors.len() == 0 {
        Seq::empty()
    } else {
        error_lines(errors.drop_last()) + "    "@ + errors.last()@ + "\n"@
    }
}

/// The report of the parser's errors: nothing where there are none, else a
/// blank line, the header `Parse errors:` and one indented line per message.
pub open spec fn error_report_text(errors: Seq<String>) -> Seq<char> {
    if errors.len() == 0 {
        Seq::empty()
    } else {
        "\nParse errors:\n"@ + error_lines(errors)
    }
}

/// The report of the parser's errors, as it is printed before the dump.
pub fn error_report(errors: &Vec<String>) -> (r: String)
    ensures
        r@ == error_report_text(errors@),
{
    if errors.len() == 0 {
        return String::new();
    }
    let mut r = String::from_str("\nParse errors:\n");
    for i in 0..errors.len()
        invariant
            r@ == "\nParse errors:\n"@ + error_lines(errors@.take(i as int)),
    {
        r.append("    ");
        r.append(errors[i].as_str());
        r.append("\n");
        assert(errors@.take(i + 1).drop_last() =~= errors@.take(i as int));
    }
    assert(errors@.take(errors.len() as int) =~= errors@);
    r
}

/// Each node of the parsed document gives one line of its dump: the number of
/// line feeds is the number of nodes, where no node shows a line feed of its
/// own unescaped fields.
pub proof fn lemma_parse_line_count(s: Seq<char>)
    requires
        forall|k: int|
            0 <= k < preorder(seq![parsed_document(s).document], 0).len() ==> fields_single_line(
                #[trigger] preorder(seq![parsed_document(s).document], 0)[k].1,
            ),
    ensures
        newlines(dump(parsed_document(s).document, 0)) == preorder(
            seq![parsed_document(s).document],
            0,
        ).len(),
{
    lemma_dump_line_count(parsed_document(s).document, 0);
}

/// Two dumps of the same input are the same text.
pub proof fn lemma_parse_deterministic(s: Seq<char>, first: Seq<char>, second: Seq<char>)
    requires
        first == dump(parsed_document(s).document, 0),
        second == dump(parsed_document(s).document, 0),
    ensures
        first == second,
{
}

} // verus!
