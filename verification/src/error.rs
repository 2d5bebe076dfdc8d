//! What can go wrong while templates are compiled and rendered.

use vstd::prelude::*;

verus! {

/// One of the three configured templates.
#[derive(Debug, Clone, Copy, PartialEq, Eq)]
pub enum TemplateName {
    /// The separator between rendered links.
    Join,
    /// The visible text of one link.
    Label,
    /// The whole block of references.
    Template,
}

/// The kind of a failure.
#[derive(Debug, Clone, Copy, PartialEq, Eq)]
pub enum FailureKind {
    /// The pattern that cleans anchor names was refused.
    Pattern,
    /// A template includes another template.
    Inclusion(TemplateName),
    /// A template was refused when it was compiled.
    Template(TemplateName),
    /// A template failed while it was rendered.
    Render(TemplateName),
}

/// A failure, with the message of the engine that reported it.
#[derive(Debug, Clone, PartialEq, Eq)]
pub struct Failure {
    pub kind: FailureKind,
    pub message: String,
}

impl Failure {
    /// The message of the engine that reported the failure.
    pub fn describe(&self) -> (message: String)
        ensures
            message@ == self.message@,
    {
        self.message.clone()
    }
}

} // verus!
