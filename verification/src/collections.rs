//! The containers that hold the registry's tables.

pub mod account_map;
pub mod id_map;
