//! Anchor identifiers: one name for a fragment, used by its anchor and by
//! every link that points at it.

use crate::document::TextBlock;
use crate::error::{Failure, FailureKind};
use regex::Regex;
use vstd::prelude::*;

verus! {

/// `regex::Regex`, a compiled expression. Nothing inside it is visible here.
#[verifier::external_type_specification]
#[verifier::external_body]
pub struct ExRegex(Regex);

/// `regex::Error`, the reason why a pattern was refused. Nothing inside it
/// is visible here.
#[verifier::external_type_specification]
#[verifier::external_body]
pub struct ExRegexError(regex::Error);

/// The pattern text that a compiled expression was made from.
pub uninterp spec fn pattern_of(expression: Regex) -> Seq<char>;

/// Whether an expression was compiled with the options that the expression
/// engine uses where none are given.
pub uninterp spec fn plainly_compiled(expression: Regex) -> bool;

/// Whether the expression engine compiles a pattern text.
pub uninterp spec fn pattern_accepted(pattern: Seq<char>) -> bool;

/// The text that the expression engine returns when every match of a pattern
/// in a text is replaced.
pub uninterp spec fn replaced(pattern: Seq<char>, text: Seq<char>, replacement: Seq<char>) -> Seq<
    char,
>;

/// The lower-case form of a text.
pub uninterp spec fn lowercased(text: Seq<char>) -> Seq<char>;

/// `regex::Regex::new`. Whether it succeeds depends on the pattern text alone.
/// The expression it returns reports that text as its source and is compiled
/// with the engine's own options.
#[verifier::external_body]
fn compile_pattern(pattern: &str) -> (outcome: Result<Regex, regex::Error>)
    ensures
        outcome is Ok <==> pattern_accepted(pattern@),
        outcome matches Ok(expression) ==> pattern_of(expression) == pattern@,
        outcome matches Ok(expression) ==> plainly_compiled(expression),
{
    Regex::new(pattern)
}

/// `regex::Regex::replace_all` with a replacement text. For an expression
/// that was compiled with the engine's own options the result depends on the
/// pattern, the text and the replacement alone.
#[verifier::external_body]
fn replace_matches(expression: &Regex, text: &str, replacement: &str) -> (out: String)
    requires
        plainly_compiled(*expression),
    ensures
        out@ == replaced(pattern_of(*expression), text@, replacement@),
{
    expression.replace_all(text, replacement).into_owned()
}

/// `str::to_lowercase`: the lower-case form of a text, which depends on the
/// text alone.
#[verifier::external_body]
fn lowercase(text: &str) -> (out: String)
    ensures
        out@ == lowercased(text@),
{
    text.to_lowercase()
}

/// `regex::Error` as a message, by its `to_string`. Nothing is claimed of the
/// message.
#[verifier::external_body]
fn pattern_error_message(error: &regex::Error) -> (message: String) {
    error.to_string()
}

/// The pattern that matches what an identifier may not hold: every run of
/// characters other than ASCII letters and digits.
pub open spec fn clean_pattern() -> Seq<char> {
    "[^a-zA-Z0-9]+"@
}

/// The text put in place of each such run.
pub open spec fn separator() -> Seq<char> {
    "-"@
}

/// The token in front of every identifier, which keeps it apart from other
/// anchors of the host document.
pub open spec fn namespace() -> Seq<char> {
    "yarner-block-"@
}

/// The identifier made from an already cleaned name.
pub open spec fn namespaced(cleaned: Seq<char>) -> Seq<char> {
    namespace() + cleaned
}

/// The identifier of the fragment with the given name.
pub open spec fn anchor_id(name: Seq<char>) -> Seq<char> {
    namespaced(replaced(clean_pattern(), lowercased(name), separator()))
}

/// The compiled cleaning pattern.
pub struct AnchorNamer {
    cleaner: Regex,
}

impl AnchorNamer {
    /// The namer holds the cleaning pattern and no other.
    pub closed spec fn wf(&self) -> bool {
        pattern_of(self.cleaner) == clean_pattern() && plainly_compiled(self.cleaner)
    }

    /// Compiles the cleaning pattern. It fails where the expression engine
    /// refuses the pattern.
    pub fn new() -> (outcome: Result<AnchorNamer, Failure>)
        ensures
            outcome is Ok <==> pattern_accepted(clean_pattern()),
            outcome matches Ok(namer) ==> namer.wf(),
            outcome matches Err(failure) ==> failure.kind == FailureKind::Pattern,
    {
        match compile_pattern("[^a-zA-Z0-9]+") {
            Ok(cleaner) => Ok(AnchorNamer { cleaner }),
            Err(error) => Err(
                Failure { kind: FailureKind::Pattern, message: pattern_error_message(&error) },
            ),
        }
    }
}

/// Puts the namespace token in front of a cleaned name.
pub fn with_namespace(cleaned: &str) -> (id: String)
    ensures
        id@ == namespaced(cleaned@),
{
    let mut id = String::from_str("yarner-block-");
    id.append(cleaned);
    id
}

/// The identifier of a fragment: its name in lower case, each run of
/// characters other than ASCII letters and digits replaced by one `-`, behind
/// the namespace token.
pub fn block_link(namer: &AnchorNamer, name: &str) -> (id: String)
    requires
        namer.wf(),
    ensures
        id@ == anchor_id(name@),
{
    let lower = lowercase(name);
    let cleaned = replace_matches(&namer.cleaner, lower.as_str(), "-");
    with_namespace(cleaned.as_str())
}

/// The markup of an anchor with the given identifier: an empty element that
/// carries the identifier both as its name and as its id.
pub open spec fn anchor_markup(id: Seq<char>) -> Seq<char> {
    "<a name=\""@ + id + "\" id=\""@ + id + "\"></a>"@
}

/// The lines of the anchor of the fragment with the given name.
pub open spec fn anchor_lines(name: Seq<char>) -> Seq<Seq<char>> {
    seq![anchor_markup(anchor_id(name))]
}

/// The text block that holds the anchor with the given identifier.
pub fn anchor_block(id: &str) -> (block: TextBlock)
    ensures
        block@ == seq![anchor_markup(id@)],
{
    let mut markup = String::from_str("<a name=\"");
    markup.append(id);
    markup.append("\" id=\"");
    markup.append(id);
    markup.append("\"></a>");
    let mut text: Vec<String> = Vec::new();
    text.push(markup);
    let block = TextBlock { text };
    proof {
        assert(block@ == seq![anchor_markup(id@)]);
    }
    block
}

/// The anchor of the fragment with the given name, as a text block of one
/// line.
pub fn format_anchor(namer: &AnchorNamer, name: &str) -> (block: TextBlock)
    requires
        namer.wf(),
    ensures
        block@ == anchor_lines(name@),
{
    let id = block_link(namer, name);
    anchor_block(id.as_str())
}

} // verus!
