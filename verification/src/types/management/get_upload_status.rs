//! Asking how far an upload is.

use vstd::prelude::*;

verus! {

/// Why the operation was refused.
#[derive(Clone, Debug, PartialEq, Eq)]
pub enum GetUploadStatusError {
    UploadNotFound,
    StorageCanisterError(String),
}

} // verus!
