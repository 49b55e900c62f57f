//! Abandoning an upload.

use vstd::prelude::*;

verus! {

/// Why the operation was refused.
#[derive(Clone, Debug, PartialEq, Eq)]
pub enum CancelUploadError {
    ConcurrentManagementCall,
    UploadNotInitialized,
    UploadAlreadyFinalized,
    StorageCanisterError(String),
}

} // verus!
