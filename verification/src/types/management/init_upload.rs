//! Opening an upload.

use vstd::prelude::*;

verus! {

/// Why the operation was refused.
#[derive(Clone, Debug, PartialEq, Eq)]
pub enum InitUploadError {
    ConcurrentManagementCall,
    FileAlreadyExists,
    StorageCanisterError(String),
}

} // verus!
