//! The start of a registry.

pub mod init;
