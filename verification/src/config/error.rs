use vstd::prelude::*;

use crate::config::template_resolver::error::TemplateError;

verus! {

/// An input or output failure, as the operating system reported it.
#[verifier::external_type_specification]
#[verifier::external_body]
pub struct ExIoError(std::io::Error);

/// What can go wrong while a configuration is read.
#[derive(Debug)]
pub enum ConfigError {
    /// A template could not be resolved.
    Template(TemplateError),
    /// The text is no TOML document.
    Toml(toml::de::Error),
    /// The document does not describe an operation.
    Config(String),
    /// The text could not be read.
    IO(std::io::Error),
}

} // verus!
