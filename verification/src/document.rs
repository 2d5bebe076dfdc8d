//! The document model: text, code fragments and the lines of a fragment.

use crate::text::texts;
use vstd::prelude::*;

verus! {

/// Text that is copied into the documentation as it stands.
#[derive(Debug, Clone, PartialEq, Eq)]
pub struct TextBlock {
    /// The lines of the text.
    pub text: Vec<String>,
}

/// One line of a code fragment.
#[derive(Debug, Clone, PartialEq, Eq)]
pub enum SourceLine {
    /// A line of plain source code.
    Text(String),
    /// A reference to the fragment of the given name.
    Macro(String),
}

/// A code fragment.
#[derive(Debug, Clone, PartialEq, Eq)]
pub struct CodeBlock {
    /// The name of the fragment, if it has one.
    pub name: Option<String>,
    /// The lines of the fragment.
    pub source: Vec<SourceLine>,
}

/// A reference to another file whose content is pulled into the document.
#[derive(Debug, Clone, PartialEq, Eq)]
pub struct Transclusion {
    /// The path of the target file.
    pub file: String,
    /// The reference as it was written.
    pub original: String,
}

/// A node of a document.
#[derive(Debug, Clone, PartialEq, Eq)]
pub enum Node {
    Text(TextBlock),
    Code(CodeBlock),
    Transclusion(Transclusion),
}

/// A literate document.
#[derive(Debug, Clone, PartialEq, Eq)]
pub struct Document {
    /// The nodes of the document, in order.
    pub nodes: Vec<Node>,
    /// The line ending that the sources of the document use.
    pub newline: String,
}

pub enum SourceLineView {
    Text(Seq<char>),
    Macro(Seq<char>),
}

pub struct CodeBlockView {
    pub name: Option<Seq<char>>,
    pub source: Seq<SourceLineView>,
}

pub struct TransclusionView {
    pub file: Seq<char>,
    pub original: Seq<char>,
}

pub enum NodeView {
    Text(Seq<Seq<char>>),
    Code(CodeBlockView),
    Transclusion(TransclusionView),
}

pub struct DocumentView {
    pub nodes: Seq<NodeView>,
    pub newline: Seq<char>,
}

impl View for TextBlock {
    type V = Seq<Seq<char>>;

    open spec fn view(&self) -> Seq<Seq<char>> {
        texts(self.text@)
    }
}

impl View for SourceLine {
    type V = SourceLineView;

    open spec fn view(&self) -> SourceLineView {
        match self {
            SourceLine::Text(code) => SourceLineView::Text(code@),
            SourceLine::Macro(name) => SourceLineView::Macro(name@),
        }
    }
}

/// The views of the lines of a fragment, in order.
pub open spec fn line_views(lines: Seq<SourceLine>) -> Seq<SourceLineView> {
    Seq::new(lines.len(), |i: int| lines[i]@)
}

impl View for CodeBlock {
    type V = CodeBlockView;

    open spec fn view(&self) -> CodeBlockView {
        CodeBlockView {
            name: match self.name {
                Some(name) => Some(name@),
                None => None,
            },
            source: line_views(self.source@),
        }
    }
}

impl View for Transclusion {
    type V = TransclusionView;

    open spec fn view(&self) -> TransclusionView {
        TransclusionView { file: self.file@, original: self.original@ }
    }
}

impl View for Node {
    type V = NodeView;

    open spec fn view(&self) -> NodeView {
        match self {
            Node::Text(block) => NodeView::Text(block@),
            Node::Code(block) => NodeView::Code(block@),
            Node::Transclusion(reference) => NodeView::Transclusion(reference@),
        }
    }
}

/// The views of the nodes of a document, in order.
pub open spec fn node_views(nodes: Seq<Node>) -> Seq<NodeView> {
    Seq::new(nodes.len(), |i: int| nodes[i]@)
}

impl View for Document {
    type V = DocumentView;

    open spec fn view(&self) -> DocumentView {
        DocumentView { nodes: node_views(self.nodes@), newline: self.newline@ }
    }
}

/// The views of the documents of a collection, in order.
pub open spec fn document_views(documents: Seq<Document>) -> Seq<DocumentView> {
    Seq::new(documents.len(), |i: int| documents[i]@)
}

/// The name under which a fragment without a name is indexed and anchored.
pub open spec fn fallback_name() -> Seq<char> {
    "unnamed-block"@
}

/// The name under which a fragment is indexed and anchored: its own, or the
/// fallback name where it has none.
pub open spec fn block_name(block: CodeBlockView) -> Seq<char> {
    match block.name {
        Some(name) => name,
        None => fallback_name(),
    }
}

/// The code fragments among the nodes, in order.
pub open spec fn code_blocks(nodes: Seq<NodeView>) -> Seq<CodeBlockView>
    decreases nodes.len(),
{
    if nodes.len() == 0 {
        Seq::empty()
    } else {
        let front = code_blocks(nodes.drop_last());
        match nodes.last() {
            NodeView::Code(block) => front.push(block),
            _ => front,
        }
    }
}

impl CodeBlock {
    /// The name under which the fragment is indexed and anchored.
    pub fn resolved_name(&self) -> (name: String)
        ensures
            name@ == block_name(self@),
    {
        match &self.name {
            Some(name) => name.clone(),
            None => String::from_str("unnamed-block"),
        }
    }
}

} // verus!
