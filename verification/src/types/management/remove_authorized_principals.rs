//! Changing the list of the authorized principals.

use vstd::prelude::*;
use crate::types::account::Principal;

verus! {

/// The principals that the request names.
#[derive(Clone, Debug)]
pub struct Args {
    pub authorized_principals: Vec<Principal>,
}

/// Why the operation was refused.
#[derive(Clone, Debug, PartialEq, Eq)]
pub enum RemoveAuthorizedPrincipalsError {
    ConcurrentManagementCall,
    StorageCanisterError(String),
}

} // verus!
