//! Changing the list of the minting authorities.

use vstd::prelude::*;
use crate::types::account::Principal;

verus! {

/// The principals that the request names.
#[derive(Clone, Debug)]
pub struct Args {
    pub minting_authorities: Vec<Principal>,
}

/// Why the operation was refused.
#[derive(Clone, Debug, PartialEq, Eq)]
pub enum UpdateMintingAuthoritiesError {
    ConcurrentManagementCall,
    StorageCanisterError(String),
}

} // verus!
