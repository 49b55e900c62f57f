//! The data types of the registry and of its interfaces.

pub mod account;
pub mod icrc10;
pub mod icrc21;
pub mod icrc37;
pub mod icrc7;
pub mod ledger;
pub mod management;
pub mod nft;
