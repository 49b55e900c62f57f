//! The arguments and refusals of the management operations.

pub mod burn_nft;
pub mod cancel_upload;
pub mod finalize_upload;
pub mod get_all_uploads;
pub mod get_upload_status;
pub mod init_upload;
pub mod mint;
pub mod remove_authorized_principals;
pub mod remove_minting_authorities;
pub mod store_chunk;
pub mod update_authorized_principals;
pub mod update_collection_metadata;
pub mod update_minting_authorities;
pub mod update_nft_metadata;
