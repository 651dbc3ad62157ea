//! Attribute paths, comparisons and permissions of the rule model.
pub mod assertion;
pub mod attribute;
pub mod attribute_path;
pub mod parser;
pub mod permission;
pub mod rule;

use vstd::prelude::*;

verus! {

/// Why a text of the rule model could not be read.
#[derive(Debug)]
pub enum ModelError {
    /// The text is not an attribute path or an assertion.
    InvalidAssertionSyntax(String),
    /// The text is not a comparison operator.
    InvalidAssertionChar(String),
    /// The regular expression engine refused this pattern.
    InvalidPattern(String),
    /// A policy file declares no syntax version.
    FormatWithoutVersion,
    /// A policy file declares a version that cannot be read or is not compatible.
    InvalidVersion,
    /// A policy section has no text.
    InvalidPolicyFormat,
}

/// The content of a [`ModelError`].
pub enum ModelErrorV {
    InvalidAssertionSyntax(Seq<char>),
    InvalidAssertionChar(Seq<char>),
    InvalidPattern(Seq<char>),
    FormatWithoutVersion,
    InvalidVersion,
    InvalidPolicyFormat,
}

impl View for ModelError {
    type V = ModelErrorV;

    open spec fn view(&self) -> ModelErrorV {
        match self {
            ModelError::InvalidAssertionSyntax(s) => ModelErrorV::InvalidAssertionSyntax(s@),
            ModelError::InvalidAssertionChar(s) => ModelErrorV::InvalidAssertionChar(s@),
            ModelError::InvalidPattern(s) => ModelErrorV::InvalidPattern(s@),
            ModelError::FormatWithoutVersion => ModelErrorV::FormatWithoutVersion,
            ModelError::InvalidVersion => ModelErrorV::InvalidVersion,
            ModelError::InvalidPolicyFormat => ModelErrorV::InvalidPolicyFormat,
        }
    }
}

} // verus!
