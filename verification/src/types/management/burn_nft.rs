//! Destroying a token.

use vstd::prelude::*;

verus! {

/// Why the operation was refused.
#[derive(Clone, Debug, PartialEq, Eq)]
pub enum BurnNftError {
    ConcurrentManagementCall,
    TokenDoesNotExist,
    StorageCanisterError(String),
}

} // verus!
