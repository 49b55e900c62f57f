//! The standards that the registry declares to support.

use vstd::prelude::*;

verus! {

/// A standard, by its name and the address of its text.
#[derive(Clone, Debug, PartialEq, Eq)]
pub struct SupportedStandard {
    pub name: String,
    pub url: String,
}

} // verus!
