//! Changing the settings of the collection.

use vstd::prelude::*;

verus! {

/// The settings to change: each one that is present replaces the one in
/// force, each one that is absent leaves it.
#[derive(Clone, Debug)]
pub struct Args {
    pub description: Option<String>,
    pub symbol: Option<String>,
    pub name: Option<String>,
    pub logo: Option<String>,
    pub supply_cap: Option<u64>,
    pub max_query_batch_size: Option<u64>,
    pub max_update_batch_size: Option<u64>,
    pub max_take_value: Option<u64>,
    pub default_take_value: Option<u64>,
    pub max_memo_size: Option<u64>,
    pub atomic_batch_transfers: Option<bool>,
    pub tx_window: Option<u64>,
    pub permitted_drift: Option<u64>,
    pub max_canister_storage_threshold: Option<u64>,
}

/// Why the operation was refused.
#[derive(Clone, Debug, PartialEq, Eq)]
pub enum UpdateCollectionMetadataError {
    ConcurrentManagementCall,
    StorageCanisterError(String),
}

} // verus!
