use block_links::annotate::Annotator;
use block_links::config::{Configuration, Settings};
use block_links::document::{CodeBlock, Document, Node, SourceLine, TextBlock, Transclusion};
use block_links::error::{FailureKind, TemplateName};
use block_links::usage::block_usage;

fn strings(items: &[&str]) -> Vec<String> {
    items.iter().map(|item| item.to_string()).collect()
}

fn code(name: Option<&str>, references: &[&str]) -> Node {
    Node::Code(CodeBlock {
        name: name.map(|text| text.to_string()),
        source: references
            .iter()
            .map(|target| SourceLine::Macro(target.to_string()))
            .collect(),
    })
}

fn text(lines: &[&str]) -> Node {
    Node::Text(TextBlock { text: strings(lines) })
}

fn anchor(id: &str) -> Node {
    text(&[&format!("<a name=\"{}\" id=\"{}\"></a>", id, id)])
}

fn document(nodes: Vec<Node>) -> Document {
    Document { nodes, newline: "\n".to_string() }
}

fn annotator_for(options: &[(&str, &str)]) -> Annotator {
    let mut config = Configuration::new();
    for (key, value) in options {
        config.set(key, value);
    }
    Annotator::new(&Settings::from_config(&config)).expect("the templates compile")
}

fn annotator() -> Annotator {
    annotator_for(&[])
}

fn code_nodes(doc: &Document) -> Vec<Node> {
    doc.nodes
        .iter()
        .filter(|node| matches!(node, Node::Code(_)))
        .cloned()
        .collect()
}

#[test]
fn annotate_an_empty_document() {
    let out = annotator().annotate(document(Vec::new())).ok();
    assert_eq!(out, Some(document(Vec::new())));
}

#[test]
fn annotate_leaves_a_document_without_code_as_it_is() {
    let doc = document(vec![
        text(&["intro", ""]),
        Node::Transclusion(Transclusion {
            file: "other.md".to_string(),
            original: "@{{other.md}}".to_string(),
        }),
        text(&[]),
    ]);
    let out = annotator().annotate(doc.clone()).ok();
    assert_eq!(out, Some(doc));
}

#[test]
fn annotate_setup_and_main() {
    let doc = document(vec![code(Some("setup"), &[]), code(Some("main"), &["setup"])]);
    let out = annotator().annotate(doc).ok().expect("the templates render");
    assert_eq!(
        out,
        document(vec![
            anchor("yarner-block-setup"),
            code(Some("setup"), &[]),
            text(&["", "> Usage: [`main`](#yarner-block-main)  "]),
            anchor("yarner-block-main"),
            code(Some("main"), &["setup"]),
            text(&["", "> Macros: [`setup`](#yarner-block-setup)"]),
        ])
    );
}

#[test]
fn annotate_an_unnamed_fragment_under_the_fallback() {
    let doc = document(vec![code(None, &["other"]), code(Some("other"), &["unnamed-block"])]);
    let out = annotator().annotate(doc).ok().expect("the templates render");
    assert_eq!(
        out,
        document(vec![
            anchor("yarner-block-unnamed-block"),
            code(None, &["other"]),
            text(&[
                "",
                "> Usage: [`other`](#yarner-block-other)  ",
                "> Macros: [`other`](#yarner-block-other)",
            ]),
            anchor("yarner-block-other"),
            code(Some("other"), &["unnamed-block"]),
            text(&[
                "",
                "> Usage: [`unnamed-block`](#yarner-block-unnamed-block)  ",
                "> Macros: [`unnamed-block`](#yarner-block-unnamed-block)",
            ]),
        ])
    );
}

#[test]
fn annotate_a_fragment_without_references_gets_only_its_anchor() {
    let doc = document(vec![
        text(&["before"]),
        Node::Code(CodeBlock {
            name: Some("Alone".to_string()),
            source: vec![SourceLine::Text("let x = 1;".to_string())],
        }),
        text(&["after"]),
    ]);
    let out = annotator().annotate(doc).ok().expect("the templates render");
    assert_eq!(
        out,
        document(vec![
            text(&["before"]),
            anchor("yarner-block-alone"),
            Node::Code(CodeBlock {
                name: Some("Alone".to_string()),
                source: vec![SourceLine::Text("let x = 1;".to_string())],
            }),
            text(&["after"]),
        ])
    );
}

#[test]
fn annotate_keeps_the_code_fragments_in_order() {
    let doc = document(vec![
        text(&["a"]),
        code(Some("one"), &["two", "three"]),
        code(Some("two"), &[]),
        text(&["b"]),
        text(&["c"]),
        code(None, &["one"]),
        code(Some("three"), &["three"]),
        code(Some("one"), &[]),
    ]);
    let before = code_nodes(&doc);
    let out = annotator().annotate(doc).ok().expect("the templates render");
    assert_eq!(code_nodes(&out), before);
    assert_eq!(out.newline, "\n");
}

#[test]
fn annotate_only_inserts_text_nodes() {
    let doc = document(vec![
        text(&["a"]),
        code(Some("one"), &["two"]),
        text(&["b"]),
        code(Some("two"), &[]),
    ]);
    let out = annotator().annotate(doc.clone()).ok().expect("the templates render");
    assert_eq!(out.nodes.len(), doc.nodes.len() + 4);
    let kept: Vec<Node> = vec![
        out.nodes[0].clone(),
        out.nodes[2].clone(),
        out.nodes[4].clone(),
        out.nodes[6].clone(),
    ];
    assert_eq!(kept, doc.nodes);
    for at in [1, 3, 5, 7] {
        assert!(matches!(out.nodes[at], Node::Text(_)));
    }
}

#[test]
fn annotate_lists_repeated_and_own_references() {
    let doc = document(vec![code(Some("a"), &["a", "b", "b"]), code(Some("b"), &[])]);
    let out = annotator_for(&[("join", ", ")])
        .annotate(doc)
        .ok()
        .expect("the templates render");
    assert_eq!(
        out.nodes[2],
        text(&[
            "",
            "> Usage: [`a`](#yarner-block-a)  ",
            "> Macros: [`a`](#yarner-block-a), [`b`](#yarner-block-b), [`b`](#yarner-block-b)",
        ])
    );
    assert_eq!(
        out.nodes[5],
        text(&["", "> Usage: [`a`](#yarner-block-a), [`a`](#yarner-block-a)  "])
    );
}

#[test]
fn annotate_links_point_at_the_anchors() {
    let doc = document(vec![code(Some("Read, Input!"), &[]), code(Some("main"), &["Read, Input!"])]);
    let out = annotator().annotate(doc).ok().expect("the templates render");
    assert_eq!(out.nodes[0], anchor("yarner-block-read-input-"));
    assert_eq!(
        out.nodes[5],
        text(&["", "> Macros: [`Read, Input!`](#yarner-block-read-input-)"])
    );
}

#[test]
fn annotate_uses_the_line_ending_of_the_document() {
    let doc = Document {
        nodes: vec![code(Some("a"), &["b", "c"])],
        newline: "\r\n".to_string(),
    };
    let out = annotator_for(&[("join", "{{newline}}"), ("template", "{{macros}}{{newline}}end")])
        .annotate(doc)
        .ok()
        .expect("the templates render");
    assert_eq!(out.newline, "\r\n");
    assert_eq!(
        out.nodes[2],
        text(&["", "[`b`](#yarner-block-b)", "[`c`](#yarner-block-c)", "end"])
    );
}

#[test]
fn annotate_uses_the_configured_templates() {
    let doc = document(vec![code(Some("a"), &["b"]), code(Some("b"), &[])]);
    let out = annotator_for(&[
        ("label", "{{label}}"),
        ("template", "{{#if macros}}uses {{macros}}{{/if}}{{#if usage}}used by {{usage}}{{/if}}"),
    ])
    .annotate(doc)
    .ok()
    .expect("the templates render");
    assert_eq!(out.nodes[2], text(&["", "uses [b](#yarner-block-b)"]));
    assert_eq!(out.nodes[5], text(&["", "used by [a](#yarner-block-a)"]));
}

#[test]
fn annotate_indexes_each_document_alone() {
    let annotator = annotator();
    let first = document(vec![code(Some("shared"), &[]), code(Some("a"), &["shared"])]);
    let second = document(vec![code(Some("shared"), &[])]);
    let first_out = annotator.annotate(first).ok().expect("the templates render");
    let second_out = annotator.annotate(second).ok().expect("the templates render");
    assert_eq!(first_out.nodes.len(), 6);
    assert_eq!(
        second_out,
        document(vec![anchor("yarner-block-shared"), code(Some("shared"), &[])])
    );
}

#[test]
fn annotate_agrees_with_the_usage_index() {
    let doc = document(vec![code(Some("a"), &["b"]), code(Some("b"), &["b"])]);
    let index = block_usage(&doc);
    assert_eq!(index.get("b"), Some(&strings(&["a", "b"])));
    let out = annotator().annotate(doc).ok().expect("the templates render");
    assert_eq!(
        out.nodes[5],
        text(&[
            "",
            "> Usage: [`a`](#yarner-block-a) [`b`](#yarner-block-b)  ",
            "> Macros: [`b`](#yarner-block-b)",
        ])
    );
}

#[test]
fn new_reports_a_malformed_template() {
    let mut config = Configuration::new();
    config.set("template", "{{#if usage}}never closed");
    let failure = Annotator::new(&Settings::from_config(&config))
        .err()
        .expect("the template is malformed");
    assert_eq!(failure.kind, FailureKind::Template(TemplateName::Template));
}

#[test]
fn annotate_reports_a_failing_join() {
    let doc = document(Vec::new());
    let failure = annotator_for(&[("join", "{{#if}}x{{/if}}")])
        .annotate(doc)
        .err()
        .expect("the separator fails");
    assert_eq!(failure.kind, FailureKind::Render(TemplateName::Join));
}

#[test]
fn annotate_reports_a_failing_label() {
    let annotator = annotator_for(&[("label", "{{#if}}x{{/if}}")]);
    let failure = annotator
        .annotate(document(vec![code(Some("a"), &["b"])]))
        .err()
        .expect("the label fails");
    assert_eq!(failure.kind, FailureKind::Render(TemplateName::Label));
    let plain = document(vec![code(Some("a"), &[])]);
    assert!(annotator.annotate(plain).is_ok());
}

#[test]
fn annotate_reports_a_failing_template() {
    let annotator = annotator_for(&[("template", "{{#if}}x{{/if}}")]);
    let failure = annotator
        .annotate(document(vec![text(&["x"]), code(Some("a"), &["b"])]))
        .err()
        .expect("the template fails");
    assert_eq!(failure.kind, FailureKind::Render(TemplateName::Template));
}

#[test]
fn frame_of_other_nodes_is_nothing() {
    let doc = document(vec![text(&["x"])]);
    let index = block_usage(&doc);
    let framed = annotator().frame(&doc.nodes[0], &index, "\n", " ").ok();
    assert_eq!(framed, Some(None));
}

#[test]
fn frame_of_a_fragment_is_its_anchor_and_references() {
    let doc = document(vec![code(Some("a"), &["b"]), code(Some("b"), &[])]);
    let index = block_usage(&doc);
    let annotator = annotator();
    let first = annotator.frame(&doc.nodes[0], &index, "\n", " ").ok();
    let second = annotator.frame(&doc.nodes[1], &index, "\n", ", ").ok();
    assert_eq!(
        first,
        Some(Some((
            TextBlock { text: strings(&["<a name=\"yarner-block-a\" id=\"yarner-block-a\"></a>"]) },
            Some(TextBlock { text: strings(&["", "> Macros: [`b`](#yarner-block-b)"]) }),
        )))
    );
    assert_eq!(
        second,
        Some(Some((
            TextBlock { text: strings(&["<a name=\"yarner-block-b\" id=\"yarner-block-b\"></a>"]) },
            Some(TextBlock { text: strings(&["", "> Usage: [`a`](#yarner-block-a)  "]) }),
        )))
    );
}

#[test]
fn annotate_all_of_no_document() {
    assert_eq!(annotator().annotate_all(Vec::new()).ok(), Some(Vec::new()));
}

#[test]
fn annotate_all_annotates_each_document_alone() {
    let annotator = annotator();
    let first = document(vec![code(Some("shared"), &[]), code(Some("a"), &["shared"])]);
    let second = document(vec![code(Some("shared"), &[]), text(&["x"])]);
    let third = document(vec![code(Some("b"), &["a"])]);
    let together = annotator
        .annotate_all(vec![first.clone(), second.clone(), third.clone()])
        .ok()
        .expect("the templates render");
    let alone: Vec<Document> = vec![first, second, third]
        .into_iter()
        .map(|doc| annotator.annotate(doc).ok().expect("the templates render"))
        .collect();
    assert_eq!(together, alone);
    assert_eq!(
        together[1],
        document(vec![anchor("yarner-block-shared"), code(Some("shared"), &[]), text(&["x"])])
    );
    assert_eq!(
        together[2],
        document(vec![
            anchor("yarner-block-b"),
            code(Some("b"), &["a"]),
            text(&["", "> Macros: [`a`](#yarner-block-a)"]),
        ])
    );
}

#[test]
fn annotate_all_reports_a_failure() {
    let annotator = annotator_for(&[("label", "{{#if}}x{{/if}}")]);
    let plain = document(vec![code(Some("a"), &[])]);
    let linked = document(vec![code(Some("a"), &["b"])]);
    assert!(annotator.annotate_all(vec![plain.clone(), plain.clone()]).is_ok());
    let failure = annotator
        .annotate_all(vec![plain.clone(), linked, plain])
        .err()
        .expect("a label fails");
    assert_eq!(failure.kind, FailureKind::Render(TemplateName::Label));
}

#[test]
fn new_refuses_a_template_that_includes_another() {
    let mut config = Configuration::new();
    config.set("label", "{{> template}}");
    config.set("template", "{{> label}}");
    let failure = Annotator::new(&Settings::from_config(&config))
        .err()
        .expect("the templates include each other");
    assert_eq!(failure.kind, FailureKind::Inclusion(TemplateName::Label));
}
