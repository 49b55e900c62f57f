//! The operations that change the registry.

pub mod icrc37;
pub mod icrc7;
pub mod management;
