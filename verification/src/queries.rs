//! The questions that the registry answers without changing.

pub mod icrc10;
pub mod icrc21;
pub mod icrc37;
pub mod icrc7;
