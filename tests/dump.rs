use html_dump::dom::{Attr, NodeKind, TreeNode};
use html_dump::escape::escape_default;
use html_dump::format::{indent, indent_unit, indent_units, node_to_string, walk};
use html_dump::parse::{check_tree, data_is_html, error_report, parse_html, parse_html_string};

const HTML_NS: &str = "http://www.w3.org/1999/xhtml";

fn text(s: &str) -> TreeNode {
    TreeNode { data: NodeKind::Text { contents: s.to_string() }, children: vec![] }
}

fn element(local: &str, attrs: Vec<Attr>, children: Vec<TreeNode>) -> TreeNode {
    TreeNode {
        data: NodeKind::Element { ns: HTML_NS.to_string(), local: local.to_string(), attrs },
        children,
    }
}

fn attr(local: &str, value: &str) -> Attr {
    Attr { ns: String::new(), local: local.to_string(), value: value.to_string() }
}

fn sample_tree() -> TreeNode {
    TreeNode {
        data: NodeKind::Document,
        children: vec![element(
            "html",
            vec![],
            vec![element("head", vec![], vec![]), element("body", vec![attr("a", "b")], vec![text("x\ty")])],
        )],
    }
}

#[test]
fn test_indent_args_zero() {
    assert_eq!("a", indent(0, "a"));
}

#[test]
fn test_indent_args_some() {
    assert_eq!("      a", indent(3, "a"));
}

#[test]
fn test_indent_unit() {
    assert_eq!("  ", indent_unit());
}

#[test]
fn test_indent_units_args_zero() {
    assert_eq!("", indent_units(0));
}

#[test]
fn test_indent_units_args_some() {
    assert_eq!("      ", indent_units(3));
}

#[test]
fn test_parse_html_string_with_blank() {
    assert_eq!("#Document\n  <html>\n    <head>\n    <body>\n", parse_html_string(""));
}

#[test]
fn test_parse_html_string_with_single_tag() {
    assert_eq!(
        "#Document\n  <html>\n    <head>\n    <body>\n      <foo>\n",
        parse_html_string("<foo/>")
    );
}

#[test]
fn test_parse_html_string_with_single_tag_with_attribute() {
    assert_eq!(
        "#Document\n  <html>\n    <head>\n    <body>\n      <foo goo=\"hoo\">\n",
        parse_html_string("<foo goo=\"hoo\"/>")
    );
}

#[test]
fn test_parse_html_string_with_double_tag() {
    assert_eq!(
        "#Document\n  <html>\n    <head>\n    <body>\n      <foo>\n",
        parse_html_string("<foo></foo>")
    );
}

#[test]
fn test_parse_html_string_with_text() {
    assert_eq!(
        "#Document\n  <html>\n    <head>\n    <body>\n      #text:foo\n",
        parse_html_string("foo")
    );
}

#[test]
fn test_parse_html_string_with_comment() {
    assert_eq!(
        "#Document\n  <!--  foo  -->\n  <html>\n    <head>\n    <body>\n",
        parse_html_string("<!-- foo -->")
    );
}

#[test]
fn escape_passes_printable_ascii() {
    assert_eq!("abc XYZ 123 <>&=", escape_default("abc XYZ 123 <>&="));
}

#[test]
fn escape_backslash_forms() {
    assert_eq!("a\\tb\\rc\\nd\\'e\\\"f\\\\g", escape_default("a\tb\rc\nd'e\"f\\g"));
}

#[test]
fn escape_unicode_forms() {
    assert_eq!("\\u{0}\\u{1b}\\u{e9}\\u{2764}", escape_default("\u{0}\u{1b}é❤"));
}

#[test]
fn escape_empty() {
    assert_eq!("", escape_default(""));
}

#[test]
fn escape_has_no_control_characters() {
    let r = escape_default("line\none\u{7}\u{7f}\r\u{85}");
    assert!(r.chars().all(|c| (' '..='~').contains(&c)));
    assert_eq!("line\\none\\u{7}\\u{7f}\\r\\u{85}", r);
}

#[test]
fn node_text_of_each_kind() {
    assert_eq!("#Document", node_to_string(&NodeKind::Document));
    let doctype = NodeKind::Doctype {
        name: "html".to_string(),
        public_id: "p".to_string(),
        system_id: "s".to_string(),
    };
    assert_eq!("<!DOCTYPE html \"p\" \"s\">", node_to_string(&doctype));
    assert_eq!("#text:a\\nb", node_to_string(&NodeKind::Text { contents: "a\nb".to_string() }));
    assert_eq!("<!-- \\t -->", node_to_string(&NodeKind::Comment { contents: "\t".to_string() }));
    let e = element("p", vec![attr("x", "1"), attr("y", "a\"b")], vec![]);
    assert_eq!("<p x=\"1\" y=\"a\"b\">", node_to_string(&e.data));
}

#[test]
fn walk_indents_by_depth() {
    let tree = sample_tree();
    assert_eq!(
        "#Document\n  <html>\n    <head>\n    <body a=\"b\">\n      #text:x\\ty\n",
        walk(&tree, 0)
    );
    assert_eq!("    <head>\n", walk(&element("head", vec![], vec![]), 2));
}

#[test]
fn walk_lines_match_node_count_and_depth() {
    let dump = walk(&sample_tree(), 0);
    let lines: Vec<&str> = dump.lines().collect();
    assert_eq!(5, lines.len());
    assert_eq!(5, dump.matches('\n').count());
    let depths: Vec<usize> = lines.iter().map(|l| (l.len() - l.trim_start().len()) / 2).collect();
    assert_eq!(vec![0, 1, 2, 2, 3], depths);
}

#[test]
fn walk_twice_is_identical() {
    let tree = sample_tree();
    assert_eq!(walk(&tree, 0), walk(&tree, 0));
    assert_eq!(parse_html_string("<p>a<b>c</b></p>"), parse_html_string("<p>a<b>c</b></p>"));
}

#[test]
fn check_tree_accepts_html_and_refuses_others() {
    assert!(check_tree(&sample_tree(), 0));
    let svg = TreeNode {
        data: NodeKind::Element {
            ns: "http://www.w3.org/2000/svg".to_string(),
            local: "svg".to_string(),
            attrs: vec![],
        },
        children: vec![],
    };
    assert!(!check_tree(&element("div", vec![], vec![svg]), 0));
    let namespaced = Attr { ns: "http://www.w3.org/1999/xlink".to_string(), local: "href".to_string(), value: String::new() };
    assert!(!data_is_html(&element("a", vec![namespaced], vec![]).data));
    let pi = NodeKind::ProcessingInstruction { target: "x".to_string(), contents: "y".to_string() };
    assert!(!data_is_html(&pi));
    assert!(!check_tree(&element("div", vec![], vec![text("a")]), usize::MAX));
    assert!(check_tree(&text("a"), usize::MAX));
}

#[test]
fn parse_html_reports_dump_and_errors() {
    let d = parse_html("foo").expect("html tree");
    assert_eq!("#Document\n  <html>\n    <head>\n    <body>\n      #text:foo\n", d.dump);
    assert!(!d.errors.is_empty());
    let d = parse_html("<!DOCTYPE html><title>t</title>").expect("html tree");
    assert_eq!(
        "#Document\n  <!DOCTYPE html \"\" \"\">\n  <html>\n    <head>\n      <title>\n        #text:t\n    <body>\n",
        d.dump
    );
    assert!(d.errors.is_empty());
}

#[test]
fn parse_html_refuses_foreign_elements() {
    assert!(parse_html("<svg></svg>").is_none());
    assert!(parse_html("<math></math>").is_none());
}

#[test]
fn parse_escapes_text_content() {
    assert_eq!(
        "#Document\n  <html>\n    <head>\n    <body>\n      #text:a\\nb\n",
        parse_html_string("a\nb")
    );
}

#[test]
fn error_report_lists_messages() {
    assert_eq!("", error_report(&vec![]));
    assert_eq!(
        "\nParse errors:\n    one\n    two\n",
        error_report(&vec!["one".to_string(), "two".to_string()])
    );
}
