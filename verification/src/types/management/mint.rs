//! Creating a token.

use vstd::prelude::*;
use crate::types::account::Account;

verus! {

/// A request to create a token for `token_owner`.
#[derive(Clone, Debug)]
pub struct Args {
    pub token_owner: Account,
    pub memo: Option<Vec<u8>>,
}

/// Why a mint was refused.
#[derive(Clone, Debug, PartialEq, Eq)]
pub enum MintError {
    ConcurrentManagementCall,
    ExceedMaxAllowedSupplyCap,
    TokenAlreadyExists,
    InvalidMemo,
    StorageCanisterError(String),
}

} // verus!
