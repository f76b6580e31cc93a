//! The value of an attribute as the document object model hands it out.

use crate::error::RenderError;
use vstd::prelude::*;

verus! {

/// What a variant read from the document holds.
#[derive(Clone, Debug)]
pub enum VariantGuard {
    /// A string.
    Text(String),
    /// Nothing: the variant was never set.
    Empty,
    /// The null value: the attribute is not there.
    Null,
    /// A value of any other type.
    Other,
}

/// The text in a variant, as characters.
pub open spec fn variant_text(v: VariantGuard) -> Result<Option<Seq<char>>, RenderError> {
    match v {
        VariantGuard::Text(s) => Ok(Some(s@)),
        VariantGuard::Empty => Ok(None),
        VariantGuard::Null => Ok(None),
        VariantGuard::Other => Err(RenderError::InvalidArgument),
    }
}

impl VariantGuard {
    /// The string in the variant: `Some` for a string, `None` for an empty
    /// or null variant, and `InvalidArgument` for a value of another type.
    pub fn try_as_string(&self) -> (r: Result<Option<String>, RenderError>)
        ensures
            match variant_text(*self) {
                Ok(Some(text)) => r matches Ok(Some(s)) && s@ == text,
                Ok(None) => r matches Ok(None),
                Err(e) => r matches Err(f) && f == e,
            },
    {
        match self {
            VariantGuard::Text(s) => Ok(Some(s.clone())),
            VariantGuard::Empty => Ok(None),
            VariantGuard::Null => Ok(None),
            VariantGuard::Other => Err(RenderError::InvalidArgument),
        }
    }
}

/// The attribute that a variant stands for: present where the variant holds
/// a string, absent in every other case.
pub fn attribute_of(value: &VariantGuard) -> (a: Option<String>)
    ensures
        match variant_text(*value) {
            Ok(Some(text)) => a matches Some(s) && s@ == text,
            _ => a is None,
        },
{
    match value.try_as_string() {
        Ok(Some(s)) => Some(s),
        _ => None,
    }
}

} // verus!
