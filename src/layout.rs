//! What a dump looks like line by line.
use crate::dom::{attr_text, attrs_text, dump, dump_forest, node_text, spaces, Attr, NodeKind, TreeNode};
use crate::escape::{escaped, is_printable_ascii, lemma_escaped_printable};
use vstd::prelude::*;

verus! {

/// The nodes of the forest `ns` in document order, each with its depth when
/// the forest stands at `depth`: a node, then its descendants one level deeper.
pub open spec fn preorder(ns: Seq<TreeNode>, depth: nat) -> Seq<(nat, NodeKind)>
    decreases ns,
{
    if ns.len() == 0 {
        Seq::empty()
    } else {
        preorder(ns.drop_last(), depth).push((depth, ns.last().data)) + preorder(
            ns.last().children@,
            depth + 1,
        )
    }
}

/// One line per entry: twice its depth in spaces, the node's text, a line feed.
pub open spec fn lines_text(es: Seq<(nat, NodeKind)>) -> Seq<char>
    decreases es.len(),
{
    if es.len() == 0 {
        Seq::empty()
    } else {
        lines_text(es.drop_last()) + spaces(2 * es.last().0) + node_text(es.last().1) + "\n"@
    }
}

/// The number of line feeds in `s`.
pub open spec fn newlines(s: Seq<char>) -> nat
    decreases s.len(),
{
    if s.len() == 0 {
        0
    } else {
        newlines(s.drop_last()) + if s.last() == '\n' {
            1nat
        } else {
            0nat
        }
    }
}

/// `s` holds no line feed.
pub open spec fn single_line(s: Seq<char>) -> bool {
    forall|i: int| 0 <= i < s.len() ==> s[i] != '\n'
}

/// The fields that a node's line shows unescaped hold no line feed.
pub open spec fn fields_single_line(d: NodeKind) -> bool {
    match d {
        NodeKind::Doctype { name, public_id, system_id } => single_line(name@) && single_line(
            public_id@,
        ) && single_line(system_id@),
        NodeKind::Element { local, attrs, .. } => single_line(local@) && forall|i: int|
            0 <= i < attrs@.len() ==> single_line((#[trigger] attrs@[i]).local@) && single_line(
                attrs@[i].value@,
            ),
        _ => true,
    }
}

proof fn lemma_lines_text_add(a: Seq<(nat, NodeKind)>, b: Seq<(nat, NodeKind)>)
    ensures
        lines_text(a + b) == lines_text(a) + lines_text(b),
    decreases b.len(),
{
    if b.len() == 0 {
        assert(a + b =~= a);
        assert(lines_text(a) + lines_text(b) =~= lines_text(a));
    } else {
        lemma_lines_text_add(a, b.drop_last());
        assert((a + b).drop_last() =~= a + b.drop_last());
        assert(lines_text(a + b) =~= lines_text(a) + lines_text(b));
    }
}

/// The dump of a forest is the lines of its nodes in document order, each
/// indented by twice its depth.
pub proof fn lemma_dump_forest_lines(ns: Seq<TreeNode>, depth: nat)
    ensures
        dump_forest(ns, depth) == lines_text(preorder(ns, depth)),
    decreases ns,
{
    if ns.len() > 0 {
        let n = ns.last();
        lemma_dump_forest_lines(ns.drop_last(), depth);
        lemma_dump_forest_lines(n.children@, depth + 1);
        let p = preorder(ns.drop_last(), depth).push((depth, n.data));
        lemma_lines_text_add(p, preorder(n.children@, depth + 1));
        assert(p.drop_last() =~= preorder(ns.drop_last(), depth));
        assert(dump_forest(ns, depth) =~= lines_text(preorder(ns, depth)));
    }
}

/// The dump of a tree whose root stands at `depth` is one line per node, in
/// document order, the root's first; each line is indented by twice the
/// node's depth in spaces, a child standing one level below its parent.
pub proof fn lemma_dump_lines(n: TreeNode, depth: nat)
    ensures
        dump(n, depth) == lines_text(preorder(seq![n], depth)),
        preorder(seq![n], depth)[0] == (depth, n.data),
{
    lemma_dump_forest_lines(seq![n], depth);
    assert(seq![n].drop_last() =~= Seq::<TreeNode>::empty());
    let p = preorder(Seq::<TreeNode>::empty(), depth).push((depth, n.data));
    assert(preorder(seq![n], depth) == p + preorder(n.children@, depth + 1));
    assert(p[0] == (depth, n.data));
}

/// Two dumps of the same tree at the same depth are the same text.
pub proof fn lemma_dump_deterministic(n: TreeNode, depth: nat, first: Seq<char>, second: Seq<char>)
    requires
        first == dump(n, depth),
        second == dump(n, depth),
    ensures
        first == second,
{
}

proof fn lemma_single_line_add(a: Seq<char>, b: Seq<char>)
    requires
        single_line(a),
        single_line(b),
    ensures
        single_line(a + b),
{
    assert forall|i: int| 0 <= i < (a + b).len() implies (a + b)[i] != '\n' by {
        if i >= a.len() {
            assert((a + b)[i] == b[i - a.len()]);
        }
    }
}

proof fn lemma_newlines_add(a: Seq<char>, b: Seq<char>)
    ensures
        newlines(a + b) == newlines(a) + newlines(b),
    decreases b.len(),
{
    if b.len() == 0 {
        assert(a + b =~= a);
    } else {
        lemma_newlines_add(a, b.drop_last());
        assert((a + b).drop_last() =~= a + b.drop_last());
    }
}

proof fn lemma_single_line_newlines(s: Seq<char>)
    requires
        single_line(s),
    ensures
        newlines(s) == 0,
    decreases s.len(),
{
    if s.len() > 0 {
        lemma_single_line_newlines(s.drop_last());
    }
}

proof fn lemma_attrs_single_line(attrs: Seq<Attr>)
    requires
        forall|i: int|
            0 <= i < attrs.len() ==> single_line((#[trigger] attrs[i]).local@) && single_line(
                attrs[i].value@,
            ),
    ensures
        single_line(attrs_text(attrs)),
    decreases attrs.len(),
{
    if attrs.len() > 0 {
        let a = attrs.last();
        lemma_attrs_single_line(attrs.drop_last());
        reveal_strlit(" ");
        reveal_strlit("=\"");
        reveal_strlit("\"");
        lemma_single_line_add(" "@, a.local@);
        lemma_single_line_add(" "@ + a.local@, "=\""@);
        lemma_single_line_add(" "@ + a.local@ + "=\""@, a.value@);
        lemma_single_line_add(" "@ + a.local@ + "=\""@ + a.value@, "\""@);
        lemma_single_line_add(attrs_text(attrs.drop_last()), attr_text(a));
    }
}

proof fn lemma_escaped_single_line(s: Seq<char>)
    ensures
        single_line(escaped(s)),
{
    lemma_escaped_printable(s);
    assert forall|i: int| 0 <= i < escaped(s).len() implies escaped(s)[i] != '\n' by {
        assert(is_printable_ascii(escaped(s)[i]));
    }
}

/// The text of a node whose shown fields hold no line feed holds none either.
pub proof fn lemma_node_text_single_line(d: NodeKind)
    requires
        fields_single_line(d),
    ensures
        single_line(node_text(d)),
{
    match d {
        NodeKind::Document => {
            reveal_strlit("#Document");
        },
        NodeKind::Doctype { name, public_id, system_id } => {
            reveal_strlit("<!DOCTYPE ");
            reveal_strlit(" \"");
            reveal_strlit("\" \"");
            reveal_strlit("\">");
            let mut t = "<!DOCTYPE "@;
            lemma_single_line_add(t, name@);
            t = t + name@;
            lemma_single_line_add(t, " \""@);
            t = t + " \""@;
            lemma_single_line_add(t, public_id@);
            t = t + public_id@;
            lemma_single_line_add(t, "\" \""@);
            t = t + "\" \""@;
            lemma_single_line_add(t, system_id@);
            t = t + system_id@;
            lemma_single_line_add(t, "\">"@);
        },
        NodeKind::Text { contents } => {
            reveal_strlit("#text:");
            lemma_escaped_single_line(contents@);
            lemma_single_line_add("#text:"@, escaped(contents@));
        },
        NodeKind::Comment { contents } => {
            reveal_strlit("<!-- ");
            reveal_strlit(" -->");
            lemma_escaped_single_line(contents@);
            lemma_single_line_add("<!-- "@, escaped(contents@));
            lemma_single_line_add("<!-- "@ + escaped(contents@), " -->"@);
        },
        NodeKind::Element { local, attrs, .. } => {
            reveal_strlit("<");
            reveal_strlit(">");
            lemma_attrs_single_line(attrs@);
            lemma_single_line_add("<"@, local@);
            lemma_single_line_add("<"@ + local@, attrs_text(attrs@));
            lemma_single_line_add("<"@ + local@ + attrs_text(attrs@), ">"@);
        },
        NodeKind::ProcessingInstruction { .. } => {},
    }
}

proof fn lemma_lines_newlines(es: Seq<(nat, NodeKind)>)
    requires
        forall|k: int| 0 <= k < es.len() ==> fields_single_line(#[trigger] es[k].1),
    ensures
        newlines(lines_text(es)) == es.len(),
    decreases es.len(),
{
    if es.len() > 0 {
        let e = es.last();
        lemma_lines_newlines(es.drop_last());
        lemma_node_text_single_line(e.1);
        lemma_single_line_newlines(node_text(e.1));
        lemma_single_line_newlines(spaces(2 * e.0));
        reveal_strlit("\n");
        assert("\n"@ =~= seq!['\n']);
        assert(newlines("\n"@) == 1) by {
            assert("\n"@.drop_last() =~= Seq::<char>::empty());
            assert(newlines(Seq::<char>::empty()) == 0);
            assert("\n"@.last() == '\n');
        }
        let a = lines_text(es.drop_last());
        lemma_newlines_add(a, spaces(2 * e.0));
        lemma_newlines_add(a + spaces(2 * e.0), node_text(e.1));
        lemma_newlines_add(a + spaces(2 * e.0) + node_text(e.1), "\n"@);
    }
}

/// The dump of a tree holds exactly one line feed per node, where no node
/// shows a line feed of its own unescaped fields (a doctype's fields, an
/// element's name, its attributes' names and values).
pub proof fn lemma_dump_line_count(n: TreeNode, depth: nat)
    requires
        forall|k: int|
            0 <= k < preorder(seq![n], depth).len() ==> fields_single_line(
                #[trigger] preorder(seq![n], depth)[k].1,
            ),
    ensures
        newlines(dump(n, depth)) == preorder(seq![n], depth).len(),
{
    lemma_dump_lines(n, depth);
    lemma_lines_newlines(preorder(seq![n], depth));
}

} // verus!
