use vstd::prelude::*;

use crate::config::document::Document;

verus! {

/// A path of the file system, as std holds it.
#[verifier::external_type_specification]
#[verifier::external_body]
pub struct ExPathBuf(std::path::PathBuf);

/// What can go wrong while a template is resolved.
#[derive(Debug)]
pub enum TemplateError {
    /// No template of this name was found; the path is the place where it
    /// was looked for.
    FailedToFindTemplate(String, std::path::PathBuf),
    /// The template is no TOML document.
    TOMLError(toml::de::Error),
    /// The template could not be read.
    IOError(std::io::Error),
    /// The chain of templates did not end; the text is the reference that
    /// was still open when the search was given up.
    RecursionLimit(String),
}

pub type TemplateResult = Result<Document, TemplateError>;

} // verus!
