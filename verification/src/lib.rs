//! A non-fungible-token registry with delegated transfers.
//!
//! The registry maps token identifiers to owning accounts, keeps the
//! approvals by which an owner lets another account transfer a token or a
//! whole collection, and decides, for every request, what is written to the
//! transaction log and how the tables change once the log has answered.

pub mod approvals;
pub mod collections;
pub mod guards;
pub mod lifecycle;
pub mod queries;
pub mod state;
pub mod text;
pub mod types;
pub mod updates;
pub mod utils;
