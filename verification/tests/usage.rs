use block_links::document::{CodeBlock, Document, Node, SourceLine, TextBlock, Transclusion};
use block_links::usage::{block_usage, macros, UsageIndex};

fn strings(items: &[&str]) -> Vec<String> {
    items.iter().map(|item| item.to_string()).collect()
}

fn code(name: Option<&str>, lines: &[(&str, bool)]) -> Node {
    Node::Code(CodeBlock {
        name: name.map(|text| text.to_string()),
        source: lines
            .iter()
            .map(|(text, is_macro)| {
                if *is_macro {
                    SourceLine::Macro(text.to_string())
                } else {
                    SourceLine::Text(text.to_string())
                }
            })
            .collect(),
    })
}

fn text(lines: &[&str]) -> Node {
    Node::Text(TextBlock { text: strings(lines) })
}

fn document(nodes: Vec<Node>) -> Document {
    Document { nodes, newline: "\n".to_string() }
}

#[test]
fn resolved_name_is_the_name_or_the_fallback() {
    let named = CodeBlock { name: Some("Main".to_string()), source: Vec::new() };
    let unnamed = CodeBlock { name: None, source: Vec::new() };
    assert_eq!(named.resolved_name(), "Main");
    assert_eq!(unnamed.resolved_name(), "unnamed-block");
}

#[test]
fn macros_lists_the_macro_lines_in_order() {
    let block = CodeBlock {
        name: Some("main".to_string()),
        source: vec![
            SourceLine::Text("fn main() {".to_string()),
            SourceLine::Macro("setup".to_string()),
            SourceLine::Text("run();".to_string()),
            SourceLine::Macro("Tear Down".to_string()),
            SourceLine::Macro("setup".to_string()),
            SourceLine::Text("}".to_string()),
        ],
    };
    assert_eq!(macros(&block), strings(&["setup", "Tear Down", "setup"]));
}

#[test]
fn macros_of_a_fragment_without_macro_lines_is_empty() {
    let plain = CodeBlock {
        name: None,
        source: vec![SourceLine::Text("setup".to_string())],
    };
    let empty = CodeBlock { name: None, source: Vec::new() };
    assert_eq!(macros(&plain), Vec::<String>::new());
    assert_eq!(macros(&empty), Vec::<String>::new());
}

#[test]
fn usage_index_starts_without_entries() {
    let index = UsageIndex::new();
    assert_eq!(index.get("a"), None);
    assert_eq!(index.get(""), None);
}

#[test]
fn usage_index_records_in_order() {
    let mut index = UsageIndex::new();
    index.record("a", "x".to_string());
    index.record("b", "y".to_string());
    index.record("a", "z".to_string());
    index.record("a", "x".to_string());
    assert_eq!(index.get("a"), Some(&strings(&["x", "z", "x"])));
    assert_eq!(index.get("b"), Some(&strings(&["y"])));
    assert_eq!(index.get("c"), None);
    assert_eq!(index.get("x"), None);
}

#[test]
fn block_usage_of_a_document_without_references_has_no_entries() {
    let doc = document(vec![
        text(&["intro"]),
        code(Some("a"), &[("let a = 1;", false)]),
        code(None, &[]),
    ]);
    let index = block_usage(&doc);
    assert_eq!(index.get("a"), None);
    assert_eq!(index.get("unnamed-block"), None);
}

#[test]
fn block_usage_records_who_refers_to_whom() {
    let doc = document(vec![
        code(Some("setup"), &[]),
        text(&["about main"]),
        code(Some("main"), &[("setup", true), ("body", false), ("helpers", true)]),
        code(Some("helpers"), &[("setup", true)]),
    ]);
    let index = block_usage(&doc);
    assert_eq!(index.get("setup"), Some(&strings(&["main", "helpers"])));
    assert_eq!(index.get("helpers"), Some(&strings(&["main"])));
    assert_eq!(index.get("main"), None);
    assert_eq!(index.get("body"), None);
}

#[test]
fn block_usage_keeps_repeated_references() {
    let doc = document(vec![
        code(Some("b"), &[("a", true), ("a", true)]),
        code(Some("c"), &[("a", true)]),
        code(Some("b"), &[("a", true)]),
    ]);
    let index = block_usage(&doc);
    assert_eq!(index.get("a"), Some(&strings(&["b", "b", "c", "b"])));
}

#[test]
fn block_usage_records_one_reference_once() {
    let doc = document(vec![code(Some("a"), &[]), code(Some("b"), &[("a", true)])]);
    let index = block_usage(&doc);
    let users = index.get("a").expect("a is referred to");
    assert_eq!(users.iter().filter(|user| user.as_str() == "b").count(), 1);
    assert_eq!(users.len(), 1);
}

#[test]
fn block_usage_records_a_reference_of_a_fragment_to_itself() {
    let doc = document(vec![code(Some("loop"), &[("loop", true)])]);
    let index = block_usage(&doc);
    assert_eq!(index.get("loop"), Some(&strings(&["loop"])));
}

#[test]
fn block_usage_indexes_an_unnamed_fragment_under_the_fallback() {
    let doc = document(vec![
        code(None, &[("target", true)]),
        code(Some("other"), &[("unnamed-block", true)]),
    ]);
    let index = block_usage(&doc);
    assert_eq!(index.get("target"), Some(&strings(&["unnamed-block"])));
    assert_eq!(index.get("unnamed-block"), Some(&strings(&["other"])));
}

#[test]
fn block_usage_takes_names_as_they_are_written() {
    let doc = document(vec![code(Some("b"), &[("Setup", true), ("setup", true)])]);
    let index = block_usage(&doc);
    assert_eq!(index.get("Setup"), Some(&strings(&["b"])));
    assert_eq!(index.get("setup"), Some(&strings(&["b"])));
    assert_eq!(index.get("SETUP"), None);
}

#[test]
fn block_usage_passes_over_text_and_transclusions() {
    let doc = document(vec![
        text(&["setup"]),
        Node::Transclusion(Transclusion {
            file: "other.md".to_string(),
            original: "@{{other.md}}".to_string(),
        }),
        code(Some("main"), &[("setup", true)]),
    ]);
    let index = block_usage(&doc);
    assert_eq!(index.get("setup"), Some(&strings(&["main"])));
    assert_eq!(index.get("other.md"), None);
}

#[test]
fn block_usage_of_one_document_knows_nothing_of_another() {
    let first = document(vec![code(Some("a"), &[("shared", true)])]);
    let second = document(vec![code(Some("b"), &[("other", true)])]);
    let first_index = block_usage(&first);
    let second_index = block_usage(&second);
    assert_eq!(first_index.get("shared"), Some(&strings(&["a"])));
    assert_eq!(first_index.get("other"), None);
    assert_eq!(second_index.get("other"), Some(&strings(&["b"])));
    assert_eq!(second_index.get("shared"), None);
}
