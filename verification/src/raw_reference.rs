//! Raw references: a pointer to original source content and the content it
//! resolves to.

use vstd::prelude::*;
use crate::errors::CustomError;

verus! {

/// Source content resolved from a raw reference.
#[derive(Debug, Clone, PartialEq, Eq)]
pub struct RawReference {
    pub reference: String,
    pub text: String,
}

impl RawReference {
    /// The content `text` found at `reference`.
    pub fn new(reference: String, text: String) -> (r: RawReference)
        ensures
            r.reference == reference,
            r.text == text,
    {
        RawReference { reference, text }
    }
}

/// Resolves raw references to their content; an unavailable reference resolves to
/// nothing, and a failing resolver reports its error.
pub trait RawReferenceResolver {
    fn resolve(&self, reference: &str) -> Result<Option<RawReference>, CustomError>;
}

} // verus!
