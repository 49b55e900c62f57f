//! Closing an upload.

use vstd::prelude::*;

verus! {

/// Why the operation was refused.
#[derive(Clone, Debug, PartialEq, Eq)]
pub enum FinalizeUploadError {
    ConcurrentManagementCall,
    UploadNotStarted,
    UploadAlreadyFinalized,
    IncompleteUpload,
    StorageCanisterError(String),
}

} // verus!
