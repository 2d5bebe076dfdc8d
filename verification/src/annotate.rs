//! The annotation of a document: an anchor in front of every code fragment
//! and, where there is anything to list, a block of references behind it.

use crate::anchor::{anchor_lines, clean_pattern, format_anchor, pattern_accepted, AnchorNamer};
use crate::config::{Settings, SettingsView};
use crate::document::{
    block_name, code_blocks, document_views, node_views, CodeBlockView, Document, DocumentView,
    Node, NodeView, TextBlock,
};
use crate::error::{Failure, FailureKind, TemplateName};
use crate::links::{format_links, optional_lines, optional_names, reference_block};
use crate::templates::{first_inclusion, rendered_separator, Templates};
use crate::usage::{block_usage, macro_names, macros, usage_index, UsageIndex};
use vstd::prelude::*;

verus! {

/// What the annotation of a node depends on, besides the node.
pub struct Surroundings {
    /// The templates of the run.
    pub settings: SettingsView,
    /// The usage index of the document.
    pub usage: Map<Seq<char>, Seq<Seq<char>>>,
    /// The line ending of the document.
    pub newline: Seq<char>,
    /// The rendered separator between links.
    pub separator: Seq<char>,
}

/// The names that refer to a fragment; none where it has no entry.
pub open spec fn usage_of(usage: Map<Seq<char>, Seq<Seq<char>>>, name: Seq<char>) -> Seq<
    Seq<char>,
> {
    if usage.contains_key(name) {
        usage[name]
    } else {
        Seq::empty()
    }
}

/// The block of references of a fragment in its surroundings.
pub open spec fn references_of(around: Surroundings, block: CodeBlockView) -> Result<
    Option<Seq<Seq<char>>>,
    FailureKind,
> {
    reference_block(
        around.settings,
        macro_names(block.source),
        usage_of(around.usage, block_name(block)),
        around.newline,
        around.separator,
    )
}

/// A node between its anchor and its block of references, if it has one.
pub open spec fn framed(anchor: Seq<Seq<char>>, node: NodeView, references: Option<Seq<Seq<char>>>)
    -> Seq<NodeView> {
    match references {
        Some(lines) => seq![NodeView::Text(anchor), node, NodeView::Text(lines)],
        None => seq![NodeView::Text(anchor), node],
    }
}

/// The nodes that stand for a node in the annotated document: a code
/// fragment between its anchor and its block of references, any other node
/// alone.
pub open spec fn annotation(around: Surroundings, node: NodeView) -> Result<
    Seq<NodeView>,
    FailureKind,
> {
    match node {
        NodeView::Code(block) => match references_of(around, block) {
            Ok(references) => Ok(framed(anchor_lines(block_name(block)), node, references)),
            Err(kind) => Err(kind),
        },
        _ => Ok(seq![node]),
    }
}

/// The annotations of the nodes, in order; the first failure ends it.
pub open spec fn annotated_nodes(around: Surroundings, nodes: Seq<NodeView>) -> Result<
    Seq<NodeView>,
    FailureKind,
>
    decreases nodes.len(),
{
    if nodes.len() == 0 {
        Ok(Seq::empty())
    } else {
        match annotated_nodes(around, nodes.drop_last()) {
            Ok(front) => match annotation(around, nodes.last()) {
                Ok(tail) => Ok(front + tail),
                Err(kind) => Err(kind),
            },
            Err(kind) => Err(kind),
        }
    }
}

/// The annotated document. The separator is rendered for the line ending of
/// the document, and the usage index is that of the document alone.
pub open spec fn annotated(settings: SettingsView, document: DocumentView) -> Result<
    DocumentView,
    FailureKind,
> {
    match rendered_separator(settings, document.newline) {
        Some(separator) => match annotated_nodes(
            Surroundings {
                settings,
                usage: usage_index(document.nodes),
                newline: document.newline,
                separator,
            },
            document.nodes,
        ) {
            Ok(nodes) => Ok(DocumentView { nodes, newline: document.newline }),
            Err(kind) => Err(kind),
        },
        None => Err(FailureKind::Render(TemplateName::Join)),
    }
}

proof fn lemma_failure_ends_it(around: Surroundings, nodes: Seq<NodeView>, done: int)
    requires
        0 <= done <= nodes.len(),
        annotated_nodes(around, nodes.take(done)) is Err,
    ensures
        annotated_nodes(around, nodes) == annotated_nodes(around, nodes.take(done)),
    decreases nodes.len() - done,
{
    if done < nodes.len() {
        assert(nodes.take(done + 1).drop_last() == nodes.take(done));
        lemma_failure_ends_it(around, nodes, done + 1);
    } else {
        assert(nodes.take(done) == nodes);
    }
}

proof fn lemma_code_blocks_push(nodes: Seq<NodeView>, node: NodeView)
    ensures
        code_blocks(nodes.push(node)) == match node {
            NodeView::Code(block) => code_blocks(nodes).push(block),
            _ => code_blocks(nodes),
        },
{
    assert(nodes.push(node).drop_last() == nodes);
}

proof fn lemma_code_blocks_concat(front: Seq<NodeView>, tail: Seq<NodeView>)
    ensures
        code_blocks(front + tail) == code_blocks(front) + code_blocks(tail),
    decreases tail.len(),
{
    if tail.len() == 0 {
        assert(front + tail == front);
    } else {
        assert((front + tail).drop_last() == front + tail.drop_last());
        lemma_code_blocks_concat(front, tail.drop_last());
    }
}

proof fn lemma_annotation_keeps_code(around: Surroundings, node: NodeView)
    ensures
        annotation(around, node) matches Ok(nodes) ==> code_blocks(nodes) == code_blocks(
            seq![node],
        ),
{
    let none = Seq::<NodeView>::empty();
    lemma_code_blocks_push(none, node);
    assert(seq![node] == none.push(node));
    if let NodeView::Code(block) = node {
        if let Ok(references) = references_of(around, block) {
            let anchor = NodeView::Text(anchor_lines(block_name(block)));
            lemma_code_blocks_push(none, anchor);
            lemma_code_blocks_push(none.push(anchor), node);
            match references {
                Some(lines) => {
                    let after = NodeView::Text(lines);
                    lemma_code_blocks_push(none.push(anchor).push(node), after);
                    assert(framed(anchor_lines(block_name(block)), node, references) == none.push(
                        anchor,
                    ).push(node).push(after));
                },
                None => {
                    assert(framed(anchor_lines(block_name(block)), node, references) == none.push(
                        anchor,
                    ).push(node));
                },
            }
        }
    }
}

/// Annotation keeps the code fragments: those of the annotated nodes are
/// those of the nodes, unchanged and in the same order.
pub proof fn lemma_code_blocks_kept(around: Surroundings, nodes: Seq<NodeView>)
    ensures
        annotated_nodes(around, nodes) matches Ok(out) ==> code_blocks(out) == code_blocks(nodes),
    decreases nodes.len(),
{
    if nodes.len() > 0 {
        lemma_code_blocks_kept(around, nodes.drop_last());
        lemma_annotation_keeps_code(around, nodes.last());
        if let Ok(front) = annotated_nodes(around, nodes.drop_last()) {
            if let Ok(tail) = annotation(around, nodes.last()) {
                lemma_code_blocks_concat(front, tail);
                lemma_code_blocks_concat(nodes.drop_last(), seq![nodes.last()]);
                assert(nodes.drop_last() + seq![nodes.last()] == nodes);
            }
        }
    }
}

/// A document and its annotation hold the same code fragments, unchanged and
/// in the same order.
pub proof fn lemma_order_preserved(settings: SettingsView, document: DocumentView)
    ensures
        annotated(settings, document) matches Ok(out) ==> code_blocks(out.nodes) == code_blocks(
            document.nodes,
        ) && out.newline == document.newline,
{
    if let Some(separator) = rendered_separator(settings, document.newline) {
        lemma_code_blocks_kept(
            Surroundings {
                settings,
                usage: usage_index(document.nodes),
                newline: document.newline,
                separator,
            },
            document.nodes,
        );
    }
}

/// Whether `out` is `nodes` with text nodes put in: every node of `nodes`
/// stands in `out`, in the same order, and whatever else stands in `out` is
/// text.
pub open spec fn only_text_added(out: Seq<NodeView>, nodes: Seq<NodeView>) -> bool
    decreases out.len(),
{
    if out.len() == 0 {
        nodes.len() == 0
    } else if nodes.len() > 0 && out.last() == nodes.last() && only_text_added(
        out.drop_last(),
        nodes.drop_last(),
    ) {
        true
    } else {
        out.last() is Text && only_text_added(out.drop_last(), nodes)
    }
}

proof fn lemma_text_added_behind(out: Seq<NodeView>, nodes: Seq<NodeView>, lines: Seq<Seq<char>>)
    requires
        only_text_added(out, nodes),
    ensures
        only_text_added(out.push(NodeView::Text(lines)), nodes),
{
    assert(out.push(NodeView::Text(lines)).drop_last() == out);
}

proof fn lemma_node_kept_behind(out: Seq<NodeView>, nodes: Seq<NodeView>, node: NodeView)
    requires
        only_text_added(out, nodes),
    ensures
        only_text_added(out.push(node), nodes.push(node)),
{
    assert(out.push(node).drop_last() == out);
    assert(nodes.push(node).drop_last() == nodes);
}

/// Annotation only puts text nodes in: every node of the document stands in
/// the annotated document, unchanged and in the same order, and every other
/// node there is text.
pub proof fn lemma_only_text_added(around: Surroundings, nodes: Seq<NodeView>)
    ensures
        annotated_nodes(around, nodes) matches Ok(out) ==> only_text_added(out, nodes),
    decreases nodes.len(),
{
    if nodes.len() > 0 {
        let front_nodes = nodes.drop_last();
        let node = nodes.last();
        lemma_only_text_added(around, front_nodes);
        assert(front_nodes.push(node) == nodes);
        if let Ok(front) = annotated_nodes(around, front_nodes) {
            if let Ok(tail) = annotation(around, node) {
                match node {
                    NodeView::Code(block) => {
                        let anchor = anchor_lines(block_name(block));
                        let anchored = front.push(NodeView::Text(anchor));
                        lemma_text_added_behind(front, front_nodes, anchor);
                        lemma_node_kept_behind(anchored, front_nodes, node);
                        match references_of(around, block) {
                            Ok(Some(lines)) => {
                                lemma_text_added_behind(anchored.push(node), nodes, lines);
                                assert(front + tail == anchored.push(node).push(
                                    NodeView::Text(lines),
                                ));
                            },
                            _ => {
                                assert(front + tail == anchored.push(node));
                            },
                        }
                    },
                    _ => {
                        lemma_node_kept_behind(front, front_nodes, node);
                        assert(front + tail == front.push(node));
                    },
                }
            }
        }
    }
}

/// A fragment that refers to nothing and that nothing refers to gets its
/// anchor and no block of references.
pub proof fn lemma_plain_fragment(around: Surroundings, block: CodeBlockView)
    requires
        macro_names(block.source).len() == 0,
        !around.usage.contains_key(block_name(block)),
    ensures
        annotation(around, NodeView::Code(block)) == Ok::<Seq<NodeView>, FailureKind>(
            seq![NodeView::Text(anchor_lines(block_name(block))), NodeView::Code(block)],
        ),
{
}

/// The annotated documents, in order; the first document that fails ends
/// it.
pub open spec fn all_annotated(settings: SettingsView, documents: Seq<DocumentView>) -> Result<
    Seq<DocumentView>,
    FailureKind,
>
    decreases documents.len(),
{
    if documents.len() == 0 {
        Ok(Seq::empty())
    } else {
        match all_annotated(settings, documents.drop_last()) {
            Ok(front) => match annotated(settings, documents.last()) {
                Ok(document) => Ok(front.push(document)),
                Err(kind) => Err(kind),
            },
            Err(kind) => Err(kind),
        }
    }
}

proof fn lemma_failed_document_ends_it(
    settings: SettingsView,
    documents: Seq<DocumentView>,
    done: int,
)
    requires
        0 <= done <= documents.len(),
        all_annotated(settings, documents.take(done)) is Err,
    ensures
        all_annotated(settings, documents) == all_annotated(settings, documents.take(done)),
    decreases documents.len() - done,
{
    if done < documents.len() {
        assert(documents.take(done + 1).drop_last() == documents.take(done));
        lemma_failed_document_ends_it(settings, documents, done + 1);
    } else {
        assert(documents.take(done) == documents);
    }
}

/// Each document is annotated by itself: where all documents of a
/// collection are annotated, each result is the annotation of its own
/// document, whatever the other documents hold.
pub proof fn lemma_documents_independent(
    settings: SettingsView,
    documents: Seq<DocumentView>,
    i: int,
)
    requires
        0 <= i < documents.len(),
    ensures
        all_annotated(settings, documents) matches Ok(out) ==> out.len() == documents.len()
            && annotated(settings, documents[i]) == Ok::<DocumentView, FailureKind>(out[i]),
    decreases documents.len(),
{
    if i < documents.len() - 1 {
        lemma_documents_independent(settings, documents.drop_last(), i);
    } else if documents.len() > 1 {
        lemma_documents_independent(settings, documents.drop_last(), 0);
    }
}

/// What is needed to annotate documents: the compiled templates and the
/// compiled cleaning pattern.
pub struct Annotator {
    templates: Templates,
    namer: AnchorNamer,
}

impl View for Annotator {
    type V = SettingsView;

    /// The templates that the annotator was made from.
    closed spec fn view(&self) -> SettingsView {
        self.templates@
    }
}

impl Annotator {
    pub closed spec fn wf(&self) -> bool {
        self.templates.wf() && self.namer.wf()
    }

    /// Compiles the templates of the settings, then the cleaning pattern.
    /// A template that may include another is refused before either engine
    /// is asked. Whether the template engine takes a template is the
    /// engine's to say.
    pub fn new(settings: &Settings) -> (outcome: Result<Annotator, Failure>)
        ensures
            first_inclusion(settings@) is Some ==> outcome is Err,
            outcome matches Ok(annotator) ==> annotator.wf() && annotator@ == settings@
                && first_inclusion(settings@) is None && pattern_accepted(clean_pattern()),
            outcome matches Err(failure) ==> match first_inclusion(settings@) {
                Some(which) => failure.kind == FailureKind::Inclusion(which),
                None => failure.kind is Template || (failure.kind == FailureKind::Pattern
                    && !pattern_accepted(clean_pattern())),
            },
    {
        let templates = match Templates::compile(settings) {
            Ok(templates) => templates,
            Err(failure) => {
                return Err(failure);
            },
        };
        match AnchorNamer::new() {
            Ok(namer) => Ok(Annotator { templates, namer }),
            Err(failure) => Err(failure),
        }
    }

    /// The anchor and the block of references of a node, where it is a code
    /// fragment; nothing for any other node.
    pub fn frame(&self, node: &Node, usage: &UsageIndex, newline: &str, separator: &str) -> (outcome:
        Result<Option<(TextBlock, Option<TextBlock>)>, Failure>)
        requires
            self.wf(),
            usage.wf(),
        ensures
            match outcome {
                Ok(Some((anchor, references))) => annotation(
                    Surroundings {
                        settings: self@,
                        usage: usage@,
                        newline: newline@,
                        separator: separator@,
                    },
                    node@,
                ) == Ok::<Seq<NodeView>, FailureKind>(
                    framed(anchor@, node@, optional_lines(references)),
                ) && node@ is Code,
                Ok(None) => !(node@ is Code),
                Err(failure) => annotation(
                    Surroundings {
                        settings: self@,
                        usage: usage@,
                        newline: newline@,
                        separator: separator@,
                    },
                    node@,
                ) == Err::<Seq<NodeView>, FailureKind>(failure.kind),
            },
    {
        match node {
            Node::Code(block) => {
                let name = block.resolved_name();
                let names = macros(block);
                let used_by = usage.get(name.as_str());
                let anchor = format_anchor(&self.namer, name.as_str());
                proof {
                    assert(optional_names(used_by) == usage_of(usage@, block_name(block@)));
                }
                match format_links(
                    &self.templates,
                    &self.namer,
                    names.as_slice(),
                    used_by,
                    newline,
                    separator,
                ) {
                    Ok(references) => Ok(Some((anchor, references))),
                    Err(failure) => Err(failure),
                }
            },
            _ => Ok(None),
        }
    }

    /// Annotates a document: every code fragment gets its anchor in front of
    /// it and, where it refers to fragments or fragments refer to it, its
    /// block of references behind it. Nothing else changes. The first
    /// template that fails to render ends the attempt.
    pub fn annotate(&self, document: Document) -> (outcome: Result<Document, Failure>)
        requires
            self.wf(),
        ensures
            match outcome {
                Ok(result) => annotated(self@, document@) == Ok::<DocumentView, FailureKind>(
                    result@,
                ),
                Err(failure) => annotated(self@, document@) == Err::<DocumentView, FailureKind>(
                    failure.kind,
                ),
            },
            outcome matches Ok(result) ==> code_blocks(result@.nodes) == code_blocks(
                document@.nodes,
            ),
    {
        let ghost input = document@;
        let ghost given = input.nodes;
        let separator = match self.templates.render_separator(document.newline.as_str()) {
            Ok(separator) => separator,
            Err(failure) => {
                return Err(failure);
            },
        };
        let usage = block_usage(&document);
        let ghost around = Surroundings {
            settings: self@,
            usage: usage@,
            newline: document@.newline,
            separator: separator@,
        };
        let mut nodes = document.nodes;
        let newline = document.newline;
        let ghost mut done: int = 0;
        let mut at: usize = 0;
        proof {
            assert(given.take(0) == Seq::<NodeView>::empty());
            assert(node_views(nodes@).take(0) == Seq::<NodeView>::empty());
            assert(node_views(nodes@).skip(0) == given.skip(0));
        }
        while at < nodes.len()
            invariant
                self.wf(),
                usage.wf(),
                around == (Surroundings {
                    settings: self@,
                    usage: usage@,
                    newline: newline@,
                    separator: separator@,
                }),
                input == document@,
                given == input.nodes,
                newline@ == input.newline,
                usage@ == usage_index(given),
                rendered_separator(self@, input.newline) == Some(separator@),
                0 <= done <= given.len(),
                at <= nodes.len(),
                nodes.len() - at == given.len() - done,
                annotated_nodes(around, given.take(done)) == Ok::<Seq<NodeView>, FailureKind>(
                    node_views(nodes@).take(at as int),
                ),
                node_views(nodes@).skip(at as int) == given.skip(done),
            decreases given.len() - done,
        {
            let ghost before = node_views(nodes@);
            let ghost node = given[done];
            proof {
                assert(before.skip(at as int)[0] == given.skip(done)[0]);
                assert(nodes@[at as int]@ == node);
                assert(given.take(done + 1).drop_last() == given.take(done));
                assert(given.take(done + 1).last() == node);
                assert(before.skip(at + 1) == before.skip(at as int).skip(1));
                assert(given.skip(done + 1) == given.skip(done).skip(1));
            }
            match self.frame(&nodes[at], &usage, newline.as_str(), separator.as_str()) {
                Ok(Some((anchor, references))) => {
                    let ghost anchor_view = NodeView::Text(anchor@);
                    nodes.insert(at, Node::Text(anchor));
                    let count = nodes.len();
                    assert(at + 1 < count);
                    let ghost anchored = node_views(nodes@);
                    proof {
                        assert(anchored == before.insert(at as int, anchor_view));
                    }
                    match references {
                        Some(block) => {
                            let ghost block_view = NodeView::Text(block@);
                            nodes.insert(at + 2, Node::Text(block));
                            let count = nodes.len();
                            assert(at + 2 < count);
                            proof {
                                let now = node_views(nodes@);
                                assert(now == anchored.insert(at + 2, block_view));
                                assert(now.take(at + 3) == before.take(at as int) + seq![
                                    anchor_view,
                                    node,
                                    block_view,
                                ]);
                                assert(now.skip(at + 3) == before.skip(at + 1));
                            }
                            at = at + 3;
                        },
                        None => {
                            proof {
                                assert(anchored.take(at + 2) == before.take(at as int) + seq![
                                    anchor_view,
                                    node,
                                ]);
                                assert(anchored.skip(at + 2) == before.skip(at + 1));
                            }
                            at = at + 2;
                        },
                    }
                },
                Ok(None) => {
                    proof {
                        assert(before.take(at + 1) == before.take(at as int) + seq![node]);
                    }
                    at = at + 1;
                },
                Err(failure) => {
                    proof {
                        assert(annotation(around, node) is Err);
                        assert(annotated_nodes(around, given.take(done + 1)) is Err);
                        lemma_failure_ends_it(around, given, done + 1);
                    }
                    return Err(failure);
                },
            }
            proof {
                done = done + 1;
            }
        }
        proof {
            assert(given.take(done) == given);
            assert(node_views(nodes@).take(at as int) == node_views(nodes@));
            lemma_code_blocks_kept(around, given);
        }
        Ok(Document { nodes, newline })
    }
    /// Annotates the documents of a collection, each by itself and in
    /// order. The first document that fails ends the attempt.
    pub fn annotate_all(&self, documents: Vec<Document>) -> (outcome: Result<
        Vec<Document>,
        Failure,
    >)
        requires
            self.wf(),
        ensures
            match outcome {
                Ok(results) => all_annotated(self@, document_views(documents@)) == Ok::<
                    Seq<DocumentView>,
                    FailureKind,
                >(document_views(results@)),
                Err(failure) => all_annotated(self@, document_views(documents@)) == Err::<
                    Seq<DocumentView>,
                    FailureKind,
                >(failure.kind),
            },
    {
        let ghost given = document_views(documents@);
        let mut results: Vec<Document> = Vec::new();
        proof {
            assert(given.take(0) == Seq::<DocumentView>::empty());
            assert(document_views(results@) == Seq::<DocumentView>::empty());
        }
        for document in it: documents
            invariant
                self.wf(),
                given == document_views(it.seq()),
                all_annotated(self@, given.take(it.index())) == Ok::<
                    Seq<DocumentView>,
                    FailureKind,
                >(document_views(results@)),
        {
            let ghost done = it.index();
            proof {
                assert(given.take(done + 1).drop_last() == given.take(done));
                assert(given.take(done + 1).last() == document@);
            }
            match self.annotate(document) {
                Ok(result) => {
                    proof {
                        assert(document_views(results@.push(result)) == document_views(
                            results@,
                        ).push(result@));
                    }
                    results.push(result);
                },
                Err(failure) => {
                    proof {
                        assert(all_annotated(self@, given.take(done + 1)) is Err);
                        lemma_failed_document_ends_it(self@, given, done + 1);
                    }
                    return Err(failure);
                },
            }
        }
        proof {
            assert(given.take(given.len() as int) == given);
        }
        Ok(results)
    }
}

} // verus!
