//! Cross-reference annotation for literate documents.
//!
//! A document is a sequence of text and named code fragments. Fragments may
//! refer to one another through macro lines. This library puts an anchor in
//! front of every fragment and, behind it, a rendered list of the fragments it
//! refers to and of the fragments that refer to it.

pub mod text;
pub mod anchor;
pub mod document;
pub mod usage;
pub mod error;
pub mod config;
pub mod templates;
pub mod links;
pub mod annotate;
pub mod version;
