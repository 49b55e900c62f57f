//! The arguments, results and limits of the owner-initiated operations.

use vstd::prelude::*;
use crate::types::account::Account;
use crate::types::icrc37::ErrorView;

verus! {

/// How old a request may be, in nanoseconds, where none is configured: 10 s.
pub const DEFAULT_TX_WINDOW: u64 = 10_000_000_000;

/// How far ahead of the clock a request may be dated, in nanoseconds, where
/// nothing is configured: 50 ms.
pub const DEFAULT_PERMITTED_DRIFT: u64 = 50_000_000;

/// The page size of a listing where the caller names none.
pub const DEFAULT_TAKE_VALUE: u64 = 100;

/// The largest batch of an update call where none is configured.
pub const DEFAULT_MAX_UPDATE_BATCH_SIZE: u64 = 100;

/// The largest number of tokens where none is configured.
pub const DEFAULT_MAX_SUPPLY_CAP: u64 = 10_000;

/// The longest memo, in bytes, where none is configured.
pub const DEFAULT_MAX_MEMO_SIZE: u64 = 1_000_000;

/// The largest batch of a query call where none is configured.
pub const DEFAULT_MAX_QUERY_BATCH_SIZE: u64 = 100;

/// The largest page size a caller may ask for where none is configured.
pub const DEFAULT_MAX_TAKE_VALUE: u64 = 100;

/// What a value of the collection's metadata is.
pub enum MetadataValueView {
    Text(Seq<char>),
    Nat(u64),
}

/// A value of the collection's metadata: a text or a number.
#[derive(Clone, Debug, PartialEq, Eq)]
pub enum MetadataValue {
    Text(String),
    Nat(u64),
}

impl View for MetadataValue {
    type V = MetadataValueView;

    open spec fn view(&self) -> MetadataValueView {
        match *self {
            MetadataValue::Text(t) => MetadataValueView::Text(t@),
            MetadataValue::Nat(n) => MetadataValueView::Nat(n),
        }
    }
}

/// A request by an owner to hand a token to `to`.
#[derive(Clone, Debug)]
pub struct TransferArg {
    pub to: Account,
    pub token_id: u64,
    pub memo: Option<Vec<u8>>,
    pub from_subaccount: Option<Vec<u8>>,
    pub created_at_time: Option<u64>,
}

/// Why a transfer was refused.
#[derive(Clone, Debug, PartialEq, Eq)]
pub enum TransferError {
    NonExistingTokenId,
    InvalidRecipient,
    Unauthorized,
    TooOld,
    CreatedInFuture { ledger_time: u64 },
    Duplicate { duplicate_of: u64 },
    GenericError { error_code: u64, message: String },
    GenericBatchError { error_code: u64, message: String },
}

impl View for TransferError {
    type V = ErrorView;

    open spec fn view(&self) -> ErrorView {
        match *self {
            TransferError::NonExistingTokenId => ErrorView::NonExistingTokenId,
            TransferError::InvalidRecipient => ErrorView::InvalidRecipient,
            TransferError::Unauthorized => ErrorView::Unauthorized,
            TransferError::TooOld => ErrorView::TooOld,
            TransferError::CreatedInFuture { ledger_time } => ErrorView::CreatedInFuture {
                ledger_time,
            },
            TransferError::Duplicate { duplicate_of } => ErrorView::Duplicate { duplicate_of },
            TransferError::GenericError { error_code, message } => ErrorView::GenericError {
                error_code,
                message: message@,
            },
            TransferError::GenericBatchError { error_code, message } => ErrorView::GenericBatchError {
                error_code,
                message: message@,
            },
        }
    }
}

} // verus!
