//! Storing one chunk of an upload.

use vstd::prelude::*;

verus! {

/// Why the operation was refused.
#[derive(Clone, Debug, PartialEq, Eq)]
pub enum StoreChunkError {
    ConcurrentManagementCall,
    UploadNotInitialized,
    UploadAlreadyFinalized,
    StorageCanisterError(String),
}

} // verus!
