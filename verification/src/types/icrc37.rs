//! Approvals, and the arguments and results of the operations on them.

use vstd::prelude::*;
use crate::collections::account_map::{distinct_keys, AccountMap};
use crate::collections::id_map::IdMap;
use crate::types::account::{Account, AccountView, Subaccount};
use crate::types::ledger::{bytes_view, clone_bytes};

verus! {

/// How many spenders one token, or one owner's collection, may have
/// approved at a time where no cap is configured. The same number bounds
/// the entries of one batch of revocations.
pub const DEFAULT_MAX_APPROVALS_PER_TOKEN_OR_COLLECTION: u64 = 10;

/// What an approval says.
pub struct ApprovalView {
    pub spender: AccountView,
    pub from: AccountView,
    pub expires_at: Option<u64>,
    pub created_at: u64,
    pub memo: Option<Seq<u8>>,
}

/// A grant by `from` that lets `spender` transfer on their behalf, until
/// `expires_at` where that is set.
#[derive(Clone, Debug)]
pub struct Approval {
    pub spender: Account,
    pub from: Account,
    pub expires_at: Option<u64>,
    pub created_at: u64,
    pub memo: Option<Vec<u8>>,
}

impl View for Approval {
    type V = ApprovalView;

    open spec fn view(&self) -> ApprovalView {
        ApprovalView {
            spender: self.spender@,
            from: self.from@,
            expires_at: self.expires_at,
            created_at: self.created_at,
            memo: bytes_view(self.memo),
        }
    }
}

/// Whether an approval is in force at `now`: it has no expiry, or its
/// expiry lies after `now`.
pub open spec fn approval_active(approval: ApprovalView, now: u64) -> bool {
    match approval.expires_at {
        Some(expires_at) => expires_at > now,
        None => true,
    }
}

impl Approval {
    /// Whether the approval is in force at `now`.
    pub fn is_active(&self, now: u64) -> (r: bool)
        ensures
            r == approval_active(self@, now),
    {
        match self.expires_at {
            Some(expires_at) => expires_at > now,
            None => true,
        }
    }

    /// A copy of the approval.
    pub fn duplicate(&self) -> (r: Approval)
        ensures
            r@ == self@,
    {
        Approval {
            spender: self.spender,
            from: self.from,
            expires_at: self.expires_at,
            created_at: self.created_at,
            memo: clone_bytes(&self.memo),
        }
    }
}

/// The approvals that one token, or one owner's collection, carries: one
/// for each approved spender.
pub type TokenApprovalValue = AccountMap<Approval>;

/// The model of such a set of approvals: spender and approval, in the
/// order in which the spenders were first approved.
pub type SpenderSeq = Seq<(AccountView, ApprovalView)>;

/// The approvals on single tokens, by token identifier.
pub type TokenApprovals = IdMap<TokenApprovalValue>;

/// The approvals on whole collections, by the account that granted them.
pub type CollectionApprovals = AccountMap<TokenApprovalValue>;

/// Within the approvals of each token no spender occurs twice.
pub open spec fn token_approvals_wf(store: &TokenApprovals) -> bool {
    &&& store.wf()
    &&& forall|id: u64| store@.contains_key(id) ==> distinct_keys(#[trigger] store@[id])
}

/// No granting account occurs twice, and within the approvals of each no
/// spender does.
pub open spec fn collection_approvals_wf(store: &CollectionApprovals) -> bool {
    &&& store.wf()
    &&& forall|i: int| 0 <= i < store@.len() ==> distinct_keys((#[trigger] store@[i]).1)
}

/// The approvals on single tokens, with none in them.
pub fn init_token_approvals() -> (r: TokenApprovals)
    ensures
        token_approvals_wf(&r),
        r@ == Map::<u64, SpenderSeq>::empty(),
{
    IdMap::new()
}

/// The approvals on collections, with none in them.
pub fn init_collection_approvals() -> (r: CollectionApprovals)
    ensures
        collection_approvals_wf(&r),
        r@ == Seq::<(AccountView, SpenderSeq)>::empty(),
{
    AccountMap::new()
}

/// What a listing says of one approval.
pub struct ApprovalInfoView {
    pub spender: AccountView,
    pub from_subaccount: Option<Seq<u8>>,
    pub expires_at: Option<u64>,
    pub memo: Option<Seq<u8>>,
    pub created_at_time: u64,
}

/// The terms of an approval as a caller states them, and as a listing
/// reports them.
#[derive(Clone, Debug)]
pub struct ApprovalInfo {
    pub spender: Account,
    pub from_subaccount: Option<Subaccount>,
    pub expires_at: Option<u64>,
    pub memo: Option<Vec<u8>>,
    pub created_at_time: u64,
}

impl View for ApprovalInfo {
    type V = ApprovalInfoView;

    open spec fn view(&self) -> ApprovalInfoView {
        ApprovalInfoView {
            spender: self.spender@,
            from_subaccount: crate::types::account::subaccount_view(self.from_subaccount),
            expires_at: self.expires_at,
            memo: bytes_view(self.memo),
            created_at_time: self.created_at_time,
        }
    }
}

/// A request to approve a spender for one token.
#[derive(Clone, Debug)]
pub struct ApproveTokenArg {
    pub token_id: u64,
    pub approval_info: ApprovalInfo,
}

/// The answer to a request to approve a spender for one token: the index
/// of the log entry, or the reason for the refusal.
pub type ApproveTokenResult = Result<u64, ApproveTokenError>;

/// Why an approval for a token was refused.
#[derive(Clone, Debug, PartialEq, Eq)]
pub enum ApproveTokenError {
    InvalidSpender,
    Unauthorized,
    NonExistingTokenId,
    TooOld,
    CreatedInFuture { ledger_time: u64 },
    GenericError { error_code: u64, message: String },
    GenericBatchError { error_code: u64, message: String },
}

/// A request to approve a spender for all tokens of the caller.
#[derive(Clone, Debug)]
pub struct ApproveCollectionArg {
    pub approval_info: ApprovalInfo,
}

/// The answer to a request to approve a spender for a collection.
pub type ApproveCollectionResult = Result<u64, ApproveCollectionError>;

/// Why an approval for a collection was refused.
#[derive(Clone, Debug, PartialEq, Eq)]
pub enum ApproveCollectionError {
    InvalidSpender,
    TooOld,
    CreatedInFuture { ledger_time: u64 },
    GenericError { error_code: u64, message: String },
    GenericBatchError { error_code: u64, message: String },
}

/// A request to revoke approvals on one token: that of `spender`, or all
/// of them where no spender is named.
#[derive(Clone, Debug)]
pub struct RevokeTokenApprovalArg {
    pub spender: Option<Account>,
    pub from_subaccount: Option<Subaccount>,
    pub token_id: u64,
    pub memo: Option<Vec<u8>>,
    pub created_at_time: Option<u64>,
}

/// The answer to a request to revoke approvals on a token.
pub type RevokeTokenApprovalResponse = Result<u64, RevokeTokenApprovalError>;

/// Why a revocation on a token was refused.
#[derive(Clone, Debug, PartialEq, Eq)]
pub enum RevokeTokenApprovalError {
    ApprovalDoesNotExist,
    Unauthorized,
    NonExistingTokenId,
    TooOld,
    CreatedInFuture { ledger_time: u64 },
    GenericError { error_code: u64, message: String },
    GenericBatchError { error_code: u64, message: String },
}

/// A request to revoke approvals on the caller's collection: that of
/// `spender`, or all of them where no spender is named.
#[derive(Clone, Debug)]
pub struct RevokeCollectionApprovalArg {
    pub spender: Option<Account>,
    pub from_subaccount: Option<Subaccount>,
    pub memo: Option<Vec<u8>>,
    pub created_at_time: Option<u64>,
}

/// The answer to a request to revoke approvals on a collection.
pub type RevokeCollectionApprovalResult = Result<u64, RevokeCollectionApprovalError>;

/// Why a revocation on a collection was refused.
#[derive(Clone, Debug, PartialEq, Eq)]
pub enum RevokeCollectionApprovalError {
    ApprovalDoesNotExist,
    TooOld,
    CreatedInFuture { ledger_time: u64 },
    GenericError { error_code: u64, message: String },
    GenericBatchError { error_code: u64, message: String },
}

/// A request by a spender to hand the token `token_id` from `from` to `to`.
#[derive(Clone, Debug)]
pub struct TransferFromArg {
    pub spender_subaccount: Option<Subaccount>,
    pub from: Account,
    pub to: Account,
    pub token_id: u64,
    pub memo: Option<Vec<u8>>,
    pub created_at_time: Option<u64>,
}

/// The answer to a delegated transfer.
pub type TransferFromResult = Result<u64, TransferFromError>;

/// Why a delegated transfer was refused.
#[derive(Clone, Debug, PartialEq, Eq)]
pub enum TransferFromError {
    InvalidRecipient,
    Unauthorized,
    NonExistingTokenId,
    TooOld,
    CreatedInFuture { ledger_time: u64 },
    Duplicate { duplicate_of: u64 },
    GenericError { error_code: u64, message: String },
    GenericBatchError { error_code: u64, message: String },
}

/// One line of a listing of the approvals on a token.
#[derive(Clone, Debug)]
pub struct TokenApproval {
    pub token_id: u64,
    pub approval_info: ApprovalInfo,
}

/// One line of a listing of the approvals on a collection.
#[derive(Clone, Debug)]
pub struct CollectionApproval {
    pub approval_info: ApprovalInfo,
}

/// A question whether `spender` may transfer the token `token_id`.
#[derive(Clone, Debug)]
pub struct IsApprovedArg {
    pub spender: Account,
    pub from_subaccount: Option<Subaccount>,
    pub token_id: u64,
}

/// What a refusal says, whichever operation it comes from.
pub enum ErrorView {
    InvalidSpender,
    InvalidRecipient,
    Unauthorized,
    NonExistingTokenId,
    ApprovalDoesNotExist,
    TooOld,
    CreatedInFuture { ledger_time: u64 },
    Duplicate { duplicate_of: u64 },
    GenericError { error_code: u64, message: Seq<char> },
    GenericBatchError { error_code: u64, message: Seq<char> },
}

impl View for ApproveTokenError {
    type V = ErrorView;

    open spec fn view(&self) -> ErrorView {
        match *self {
            ApproveTokenError::InvalidSpender => ErrorView::InvalidSpender,
            ApproveTokenError::Unauthorized => ErrorView::Unauthorized,
            ApproveTokenError::NonExistingTokenId => ErrorView::NonExistingTokenId,
            ApproveTokenError::TooOld => ErrorView::TooOld,
            ApproveTokenError::CreatedInFuture { ledger_time } => ErrorView::CreatedInFuture {
                ledger_time,
            },
            ApproveTokenError::GenericError { error_code, message } => ErrorView::GenericError {
                error_code,
                message: message@,
            },
            ApproveTokenError::GenericBatchError {
                error_code,
                message,
            } => ErrorView::GenericBatchError { error_code, message: message@ },
        }
    }
}

impl View for ApproveCollectionError {
    type V = ErrorView;

    open spec fn view(&self) -> ErrorView {
        match *self {
            ApproveCollectionError::InvalidSpender => ErrorView::InvalidSpender,
            ApproveCollectionError::TooOld => ErrorView::TooOld,
            ApproveCollectionError::CreatedInFuture { ledger_time } => ErrorView::CreatedInFuture {
                ledger_time,
            },
            ApproveCollectionError::GenericError { error_code, message } => ErrorView::GenericError {
                error_code,
                message: message@,
            },
            ApproveCollectionError::GenericBatchError {
                error_code,
                message,
            } => ErrorView::GenericBatchError { error_code, message: message@ },
        }
    }
}

impl View for RevokeTokenApprovalError {
    type V = ErrorView;

    open spec fn view(&self) -> ErrorView {
        match *self {
            RevokeTokenApprovalError::ApprovalDoesNotExist => ErrorView::ApprovalDoesNotExist,
            RevokeTokenApprovalError::Unauthorized => ErrorView::Unauthorized,
            RevokeTokenApprovalError::NonExistingTokenId => ErrorView::NonExistingTokenId,
            RevokeTokenApprovalError::TooOld => ErrorView::TooOld,
            RevokeTokenApprovalError::CreatedInFuture { ledger_time } => ErrorView::CreatedInFuture {
                ledger_time,
            },
            RevokeTokenApprovalError::GenericError { error_code, message } => ErrorView::GenericError {
                error_code,
                message: message@,
            },
            RevokeTokenApprovalError::GenericBatchError {
                error_code,
                message,
            } => ErrorView::GenericBatchError { error_code, message: message@ },
        }
    }
}

impl View for RevokeCollectionApprovalError {
    type V = ErrorView;

    open spec fn view(&self) -> ErrorView {
        match *self {
            RevokeCollectionApprovalError::ApprovalDoesNotExist => ErrorView::ApprovalDoesNotExist,
            RevokeCollectionApprovalError::TooOld => ErrorView::TooOld,
            RevokeCollectionApprovalError::CreatedInFuture {
                ledger_time,
            } => ErrorView::CreatedInFuture { ledger_time },
            RevokeCollectionApprovalError::GenericError {
                error_code,
                message,
            } => ErrorView::GenericError { error_code, message: message@ },
            RevokeCollectionApprovalError::GenericBatchError {
                error_code,
                message,
            } => ErrorView::GenericBatchError { error_code, message: message@ },
        }
    }
}

impl View for TransferFromError {
    type V = ErrorView;

    open spec fn view(&self) -> ErrorView {
        match *self {
            TransferFromError::InvalidRecipient => ErrorView::InvalidRecipient,
            TransferFromError::Unauthorized => ErrorView::Unauthorized,
            TransferFromError::NonExistingTokenId => ErrorView::NonExistingTokenId,
            TransferFromError::TooOld => ErrorView::TooOld,
            TransferFromError::CreatedInFuture { ledger_time } => ErrorView::CreatedInFuture {
                ledger_time,
            },
            TransferFromError::Duplicate { duplicate_of } => ErrorView::Duplicate { duplicate_of },
            TransferFromError::GenericError { error_code, message } => ErrorView::GenericError {
                error_code,
                message: message@,
            },
            TransferFromError::GenericBatchError {
                error_code,
                message,
            } => ErrorView::GenericBatchError { error_code, message: message@ },
        }
    }
}

} // verus!
