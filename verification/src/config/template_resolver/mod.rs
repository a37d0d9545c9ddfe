use vstd::prelude::*;

use crate::config::document::Document;
use crate::config::template_resolver::error::TemplateError;

pub mod error;

verus! {

/// How a template reference is turned into the document that it names.
/// Implement it to read templates from a directory, or from memory.
pub trait TemplateResolver {
    /// Whether `found` is an answer that the resolver may give to the
    /// reference. Where nothing is said, every answer is one.
    open spec fn answers(&self, reference: Seq<char>, found: Result<Document, TemplateError>) -> bool {
        true
    }

    /// The document that `input` names.
    fn resolve(&self, input: &str) -> (found: Result<Document, TemplateError>)
        ensures
            self.answers(input@, found),
            found matches Ok(doc) ==> doc.wf(),
    ;
}

/// A resolver that knows no template: every reference names the empty
/// document.
#[derive(Copy, Clone, PartialEq, Eq, Debug)]
pub struct NullResolver;

impl TemplateResolver for NullResolver {
    open spec fn answers(&self, reference: Seq<char>, found: Result<Document, TemplateError>) -> bool {
        found == Ok::<Document, TemplateError>(Document::Null)
    }

    fn resolve(&self, _input: &str) -> (found: Result<Document, TemplateError>) {
        Ok(Document::Null)
    }
}

} // verus!
