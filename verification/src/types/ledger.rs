//! What the registry hands to the transaction log, and what the log answers.
//!
//! The log is an append-only record kept outside the registry. For every
//! accepted state change the registry names one entry to append; the index
//! under which the log files it is the result the caller gets.

use vstd::prelude::*;
use vstd::string::StringExecFns;
use crate::text::{decimal, framed_number};
use crate::types::account::{option_account_view, Account, AccountView};

verus! {

/// The kind of state change an entry records.
#[derive(Clone, Copy, Debug, PartialEq, Eq, Structural)]
pub enum Operation {
    /// A token was created.
    Mint,
    /// A token was destroyed.
    Burn,
    /// An owner handed a token over.
    Transfer,
    /// A token's owner approved a spender for it.
    ApproveToken,
    /// An owner approved a spender for all of their tokens.
    ApproveCollection,
    /// Approvals on a token were revoked.
    RevokeToken,
    /// Approvals on a collection were revoked.
    RevokeCollection,
    /// A spender handed a token over.
    TransferFrom,
}

/// The name under which the log files an operation.
pub open spec fn operation_name(op: Operation) -> Seq<char> {
    match op {
        Operation::Mint => "7mint"@,
        Operation::Burn => "7burn"@,
        Operation::Transfer => "7xfer"@,
        Operation::ApproveToken => "37approve"@,
        Operation::ApproveCollection => "37approve_coll"@,
        Operation::RevokeToken => "37revoke"@,
        Operation::RevokeCollection => "37revoke_coll"@,
        Operation::TransferFrom => "37xfer"@,
    }
}

impl Operation {
    /// The name under which the log files this operation.
    pub fn name(&self) -> (r: &'static str)
        ensures
            r@ == operation_name(*self),
    {
        match self {
            Operation::Mint => "7mint",
            Operation::Burn => "7burn",
            Operation::Transfer => "7xfer",
            Operation::ApproveToken => "37approve",
            Operation::ApproveCollection => "37approve_coll",
            Operation::RevokeToken => "37revoke",
            Operation::RevokeCollection => "37revoke_coll",
            Operation::TransferFrom => "37xfer",
        }
    }
}

/// The view of an optional byte string.
pub open spec fn bytes_view(b: Option<Vec<u8>>) -> Option<Seq<u8>> {
    match b {
        Some(v) => Some(v@),
        None => None,
    }
}

/// A copy of an optional byte string.
pub fn clone_bytes(b: &Option<Vec<u8>>) -> (r: Option<Vec<u8>>)
    ensures
        bytes_view(r) == bytes_view(*b),
{
    match b {
        Some(v) => {
            let c = v.clone();
            assert(c@ =~= v@);
            Some(c)
        },
        None => None,
    }
}

/// What an entry of the log says.
pub struct TransactionView {
    pub op: Operation,
    pub timestamp: u64,
    pub tid: Option<u64>,
    pub from: Option<AccountView>,
    pub to: Option<AccountView>,
    pub memo: Option<Seq<u8>>,
    pub created_at_time: Option<u64>,
    pub spender: Option<AccountView>,
    pub exp: Option<u64>,
}

/// An entry for the log: the operation, the time at which the registry
/// accepted it, and the fields of the request that it records.
#[derive(Clone, Debug)]
pub struct Transaction {
    pub op: Operation,
    pub timestamp: u64,
    pub tid: Option<u64>,
    pub from: Option<Account>,
    pub to: Option<Account>,
    pub memo: Option<Vec<u8>>,
    pub created_at_time: Option<u64>,
    pub spender: Option<Account>,
    pub exp: Option<u64>,
}

impl View for Transaction {
    type V = TransactionView;

    open spec fn view(&self) -> TransactionView {
        TransactionView {
            op: self.op,
            timestamp: self.timestamp,
            tid: self.tid,
            from: option_account_view(self.from),
            to: option_account_view(self.to),
            memo: bytes_view(self.memo),
            created_at_time: self.created_at_time,
            spender: option_account_view(self.spender),
            exp: self.exp,
        }
    }
}

/// What the log answered to a request to append an entry.
#[derive(Clone, Debug)]
pub enum LedgerOutcome {
    /// The entry was appended under `index`.
    Appended { index: u64 },
    /// The same entry is in the log already, under `duplicate_of`.
    Duplicate { duplicate_of: u64 },
    /// The log refused or failed; `reason` is its own account of why.
    Failed { reason: String },
}

/// The log's account of a failed append, as a text.
pub open spec fn failure_text(outcome: LedgerOutcome) -> Seq<char> {
    match outcome {
        LedgerOutcome::Appended { index } => Seq::<char>::empty(),
        LedgerOutcome::Duplicate { duplicate_of } => "DuplicateTransaction { duplicate_of: "@
            + decimal(duplicate_of as nat) + " }"@,
        LedgerOutcome::Failed { reason } => reason@,
    }
}

impl LedgerOutcome {
    /// `prefix` followed by the log's account of why the append failed.
    pub fn failure_message(&self, prefix: &str) -> (r: String)
        ensures
            r@ == prefix@ + failure_text(*self),
    {
        match self {
            LedgerOutcome::Appended { index } => {
                let r = String::from_str(prefix);
                assert(r@ =~= prefix@ + Seq::<char>::empty());
                r
            },
            LedgerOutcome::Duplicate { duplicate_of } => {
                let mut r = String::from_str(prefix);
                let text = framed_number("DuplicateTransaction { duplicate_of: ", *duplicate_of, " }");
                r.append(text.as_str());
                r
            },
            LedgerOutcome::Failed { reason } => {
                let mut r = String::from_str(prefix);
                r.append(reason.as_str());
                r
            },
        }
    }
}

} // verus!
