//! Replacing the metadata of a token.

use vstd::prelude::*;

verus! {

/// Why the operation was refused.
#[derive(Clone, Debug, PartialEq, Eq)]
pub enum UpdateNftMetadataError {
    ConcurrentManagementCall,
    TokenDoesNotExist,
    StorageCanisterError(String),
}

} // verus!
