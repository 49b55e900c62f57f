//! Listing the uploads.

use vstd::prelude::*;

verus! {

/// Why the operation was refused.
#[derive(Clone, Debug, PartialEq, Eq)]
pub enum GetAllUploadsError {
    StorageCanisterError(String),
}

} // verus!
