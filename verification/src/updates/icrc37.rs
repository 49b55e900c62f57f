//! Approving, revoking and transferring by delegation.
//!
//! Every operation has two halves. The first checks the request against
//! the guards, the clock, the ownership table and the approvals, and names
//! the entry that the transaction log is to append. The second takes the
//! log's answer and, where the entry was appended, changes the tables. No
//! table but the rate limiter's changes before the log has answered,
//! except that a delegated transfer drops an expired approval it meets.

use vstd::prelude::*;
use vstd::string::StringExecFns;
use crate::approvals::{
    approves, cap_reached, check_collection_approval, check_token_approval,
    clear_collection_approvals, clear_token_approvals, collection_approved, collection_cap_reached,
    collection_purged, collection_spenders_of, collections_within_cap, lemma_cap_kept,
    lemma_collection_cap_kept, put_collection_approval, put_token_approval,
    revoke_collection_spenders, revoke_token_spenders, revoked, spenders_of, token_approved,
    token_cap_reached, token_purged, tokens_within_cap,
};
use crate::collections::account_map::{del, has_key, put};
use crate::guards::{
    guard_sliding_window, rate_limit_admits, rate_limit_after, rate_limit_message,
    rate_limit_wait_ms,
};
use crate::state::{owns_any, setting_or, RuntimeState};
use crate::types::account::{
    anonymous_view, subaccount_view, Account, AccountView, Principal, Subaccount,
};
use crate::types::icrc37::{
    Approval, ApprovalView, ApproveCollectionArg, ApproveCollectionError,
    ApproveCollectionResult, ApproveTokenArg, ApproveTokenError, ApproveTokenResult, ErrorView,
    RevokeCollectionApprovalArg, RevokeCollectionApprovalError, RevokeCollectionApprovalResult,
    RevokeTokenApprovalArg, RevokeTokenApprovalError, RevokeTokenApprovalResponse,
    TransferFromArg, TransferFromError, TransferFromResult,
    DEFAULT_MAX_APPROVALS_PER_TOKEN_OR_COLLECTION,
};
use crate::types::ledger::{
    bytes_view, clone_bytes, failure_text, LedgerOutcome, Operation, Transaction, TransactionView,
};
use crate::types::nft::{Icrc7Token, Icrc7TokenView};
use crate::utils::{
    optional_timing_refusal, timing_refusal, verify_approval_timing, verify_optional_timing,
    TimingError,
};

verus! {

/// The key under which the rate limiter counts the operations on a
/// collection as a whole.
pub const COLLECTION_KEY: u64 = 0;

/// The account of `caller` with the subaccount that the request names.
pub open spec fn account_of(caller: Seq<u8>, subaccount: Option<Subaccount>) -> AccountView {
    AccountView { owner: caller, subaccount: subaccount_view(subaccount) }
}

/// The refusal of the rate limiter.
pub open spec fn rate_limited(guards: Map<u64, Seq<u64>>, key: u64, now: u64) -> ErrorView {
    ErrorView::GenericError {
        error_code: 0,
        message: rate_limit_message(rate_limit_wait_ms(guards, key, now)),
    }
}

/// The refusal of an approval that would take a token over the cap.
pub open spec fn token_cap_refusal() -> ErrorView {
    ErrorView::GenericError { error_code: 1, message: "Maximum approvals per token exceeded"@ }
}

/// The refusal of an approval that would take a collection over the cap.
pub open spec fn collection_cap_refusal() -> ErrorView {
    ErrorView::GenericError { error_code: 1, message: "Maximum approvals per collection exceeded"@ }
}

/// The refusal of a collection approval by a caller who owns no token.
pub open spec fn no_token_refusal() -> ErrorView {
    ErrorView::GenericError {
        error_code: 1,
        message: "Caller must own at least one NFT to approve collection"@,
    }
}

/// The refusal that reports the log's failure to append an entry.
pub open spec fn log_refusal(outcome: LedgerOutcome) -> ErrorView {
    ErrorView::GenericError {
        error_code: 1,
        message: "Failed to log transaction: "@ + failure_text(outcome),
    }
}

/// The approval that a request states, as the store will hold it.
pub open spec fn stated_approval(
    info: crate::types::icrc37::ApprovalInfoView,
    from: AccountView,
    now: u64,
) -> ApprovalView {
    ApprovalView {
        spender: info.spender,
        from,
        expires_at: info.expires_at,
        created_at: now,
        memo: info.memo,
    }
}

/// Why `approve_token` refuses a request, if it does. The checks come in
/// this order: rate limit, date, existence of the token, ownership,
/// spender, cap.
pub open spec fn approve_token_refusal(
    state: &RuntimeState,
    arg: &ApproveTokenArg,
    caller: Seq<u8>,
    now: u64,
) -> Option<ErrorView> {
    let tokens = state.data.tokens_list@;
    let info = arg.approval_info@;
    let timing = timing_refusal(state.data.drift(), state.data.window(), info.created_at_time, now);
    if !rate_limit_admits(state.call_windows(), arg.token_id, now) {
        Some(rate_limited(state.call_windows(), arg.token_id, now))
    } else if timing is Some {
        timing
    } else if !tokens.contains_key(arg.token_id) {
        Some(ErrorView::NonExistingTokenId)
    } else if tokens[arg.token_id].token_owner != account_of(caller, arg.approval_info.from_subaccount) {
        Some(ErrorView::Unauthorized)
    } else if info.spender.owner == anonymous_view() {
        Some(ErrorView::InvalidSpender)
    } else if cap_reached(
        spenders_of(state.token_approvals@, arg.token_id),
        info.spender,
        state.data.approvals_cap(),
    ) {
        Some(token_cap_refusal())
    } else {
        None
    }
}

/// The log entry of an approval for a token.
pub open spec fn approve_token_entry(arg: &ApproveTokenArg, caller: Seq<u8>, now: u64) -> TransactionView {
    TransactionView {
        op: Operation::ApproveToken,
        timestamp: now,
        tid: Some(arg.token_id),
        from: Some(account_of(caller, arg.approval_info.from_subaccount)),
        to: None,
        memo: arg.approval_info@.memo,
        created_at_time: Some(arg.approval_info.created_at_time),
        spender: Some(arg.approval_info@.spender),
        exp: arg.approval_info.expires_at,
    }
}

/// The first half of approving a spender for one token: the checks. It
/// records the call with the rate limiter and changes nothing else. Where
/// no check fails it names the entry for the log.
pub fn approve_token(
    state: &mut RuntimeState,
    arg: &ApproveTokenArg,
    caller: &Principal,
    current_time: u64,
) -> (r: Result<Transaction, ApproveTokenError>)
    requires
        old(state).wf(),
    ensures
        final(state).wf(),
        *final(state) == (RuntimeState {
            sliding_window_guards: final(state).sliding_window_guards,
            ..*old(state)
        }),
        final(state).call_windows() == rate_limit_after(
            old(state).call_windows(),
            arg.token_id,
            current_time,
        ),
        match approve_token_refusal(old(state), arg, caller@, current_time) {
            Some(refusal) => r is Err && r->Err_0@ == refusal,
            None => r is Ok && r->Ok_0@ == approve_token_entry(arg, caller@, current_time),
        },
{
    match guard_sliding_window(&mut state.sliding_window_guards, arg.token_id, current_time) {
        Ok(()) => {},
        Err(e) => {
            return Err(ApproveTokenError::GenericError { error_code: 0, message: e });
        },
    }
    match verify_approval_timing(&state.data, arg.approval_info.created_at_time, current_time) {
        Ok(()) => {},
        Err(TimingError::CreatedInFuture { ledger_time }) => {
            return Err(ApproveTokenError::CreatedInFuture { ledger_time });
        },
        Err(TimingError::TooOld) => {
            return Err(ApproveTokenError::TooOld);
        },
    }
    let from_account = Account { owner: *caller, subaccount: arg.approval_info.from_subaccount };
    match state.data.owner_of(&arg.token_id) {
        None => {
            return Err(ApproveTokenError::NonExistingTokenId);
        },
        Some(owner) => {
            if owner != from_account {
                return Err(ApproveTokenError::Unauthorized);
            }
        },
    }
    if arg.approval_info.spender.is_anonymous() {
        return Err(ApproveTokenError::InvalidSpender);
    }
    let cap: u64 = setting_or(
        state.data.approval_init.max_approvals_per_token_or_collection,
        DEFAULT_MAX_APPROVALS_PER_TOKEN_OR_COLLECTION,
    );
    if token_cap_reached(&state.token_approvals, arg.token_id, &arg.approval_info.spender, cap) {
        return Err(
            ApproveTokenError::GenericError {
                error_code: 1,
                message: String::from_str("Maximum approvals per token exceeded"),
            },
        );
    }
    Ok(
        Transaction {
            op: Operation::ApproveToken,
            timestamp: current_time,
            tid: Some(arg.token_id),
            from: Some(from_account),
            to: None,
            memo: clone_bytes(&arg.approval_info.memo),
            created_at_time: Some(arg.approval_info.created_at_time),
            spender: Some(arg.approval_info.spender),
            exp: arg.approval_info.expires_at,
        },
    )
}

/// The second half of approving a spender for one token. Where the log
/// appended the entry, the approval is stored under the token, in place
/// of an earlier one for the same spender, and the index of the entry is
/// the result. Where it did not, nothing changes and the log's failure is
/// reported.
pub fn approve_token_commit(
    state: &mut RuntimeState,
    arg: &ApproveTokenArg,
    caller: &Principal,
    current_time: u64,
    outcome: &LedgerOutcome,
) -> (r: ApproveTokenResult)
    requires
        old(state).wf(),
    ensures
        final(state).wf(),
        *final(state) == (RuntimeState { token_approvals: final(state).token_approvals, ..*old(state) }),
        match *outcome {
            LedgerOutcome::Appended { index } => r == ApproveTokenResult::Ok(index) && final(state).token_approvals@ == token_approved(
                old(state).token_approvals@,
                arg.token_id,
                arg.approval_info@.spender,
                stated_approval(
                    arg.approval_info@,
                    account_of(caller@, arg.approval_info.from_subaccount),
                    current_time,
                ),
            ),
            _ => r is Err && r->Err_0@ == log_refusal(*outcome) && final(state).token_approvals@ == old(state).token_approvals@,
        },
{
    match outcome {
        LedgerOutcome::Appended { index } => {
            let from_account = Account { owner: *caller, subaccount: arg.approval_info.from_subaccount };
            let approval = Approval {
                spender: arg.approval_info.spender,
                from: from_account,
                expires_at: arg.approval_info.expires_at,
                created_at: current_time,
                memo: clone_bytes(&arg.approval_info.memo),
            };
            put_token_approval(
                &mut state.token_approvals,
                arg.token_id,
                arg.approval_info.spender,
                approval,
            );
            Ok(*index)
        },
        _ => Err(
            ApproveTokenError::GenericError {
                error_code: 1,
                message: outcome.failure_message("Failed to log transaction: "),
            },
        ),
    }
}

/// Why `approve_collection` refuses a request, if it does. The checks
/// come in this order: rate limit, date, spender, ownership of a token,
/// cap.
pub open spec fn approve_collection_refusal(
    state: &RuntimeState,
    arg: &ApproveCollectionArg,
    caller: Seq<u8>,
    now: u64,
) -> Option<ErrorView> {
    let info = arg.approval_info@;
    let timing = timing_refusal(state.data.drift(), state.data.window(), info.created_at_time, now);
    if !rate_limit_admits(state.call_windows(), COLLECTION_KEY, now) {
        Some(rate_limited(state.call_windows(), COLLECTION_KEY, now))
    } else if timing is Some {
        timing
    } else if info.spender.owner == anonymous_view() {
        Some(ErrorView::InvalidSpender)
    } else if !owns_any(state.data.tokens_list@, caller) {
        Some(no_token_refusal())
    } else if cap_reached(
        collection_spenders_of(
            state.collection_approvals@,
            account_of(caller, arg.approval_info.from_subaccount),
        ),
        info.spender,
        state.data.approvals_cap(),
    ) {
        Some(collection_cap_refusal())
    } else {
        None
    }
}

/// The log entry of an approval for a collection.
pub open spec fn approve_collection_entry(
    arg: &ApproveCollectionArg,
    caller: Seq<u8>,
    now: u64,
) -> TransactionView {
    TransactionView {
        op: Operation::ApproveCollection,
        timestamp: now,
        tid: None,
        from: Some(account_of(caller, arg.approval_info.from_subaccount)),
        to: None,
        memo: arg.approval_info@.memo,
        created_at_time: Some(arg.approval_info.created_at_time),
        spender: Some(arg.approval_info@.spender),
        exp: arg.approval_info.expires_at,
    }
}

/// The first half of approving a spender for all tokens of the caller:
/// the checks. It records the call with the rate limiter, under the key of
/// the collection, and changes nothing else. Where no check fails it names
/// the entry for the log.
pub fn approve_collection(
    state: &mut RuntimeState,
    arg: &ApproveCollectionArg,
    caller: &Principal,
    current_time: u64,
) -> (r: Result<Transaction, ApproveCollectionError>)
    requires
        old(state).wf(),
    ensures
        final(state).wf(),
        *final(state) == (RuntimeState {
            sliding_window_guards: final(state).sliding_window_guards,
            ..*old(state)
        }),
        final(state).call_windows() == rate_limit_after(
            old(state).call_windows(),
            COLLECTION_KEY,
            current_time,
        ),
        match approve_collection_refusal(old(state), arg, caller@, current_time) {
            Some(refusal) => r is Err && r->Err_0@ == refusal,
            None => r is Ok && r->Ok_0@ == approve_collection_entry(arg, caller@, current_time),
        },
{
    match guard_sliding_window(&mut state.sliding_window_guards, COLLECTION_KEY, current_time) {
        Ok(()) => {},
        Err(e) => {
            return Err(ApproveCollectionError::GenericError { error_code: 0, message: e });
        },
    }
    match verify_approval_timing(&state.data, arg.approval_info.created_at_time, current_time) {
        Ok(()) => {},
        Err(TimingError::CreatedInFuture { ledger_time }) => {
            return Err(ApproveCollectionError::CreatedInFuture { ledger_time });
        },
        Err(TimingError::TooOld) => {
            return Err(ApproveCollectionError::TooOld);
        },
    }
    let from_account = Account { owner: *caller, subaccount: arg.approval_info.from_subaccount };
    if arg.approval_info.spender.is_anonymous() {
        return Err(ApproveCollectionError::InvalidSpender);
    }
    if !state.data.owns_any_token(caller) {
        return Err(
            ApproveCollectionError::GenericError {
                error_code: 1,
                message: String::from_str("Caller must own at least one NFT to approve collection"),
            },
        );
    }
    let cap: u64 = setting_or(
        state.data.approval_init.max_approvals_per_token_or_collection,
        DEFAULT_MAX_APPROVALS_PER_TOKEN_OR_COLLECTION,
    );
    if collection_cap_reached(
        &state.collection_approvals,
        &from_account,
        &arg.approval_info.spender,
        cap,
    ) {
        return Err(
            ApproveCollectionError::GenericError {
                error_code: 1,
                message: String::from_str("Maximum approvals per collection exceeded"),
            },
        );
    }
    Ok(
        Transaction {
            op: Operation::ApproveCollection,
            timestamp: current_time,
            tid: None,
            from: Some(from_account),
            to: None,
            memo: clone_bytes(&arg.approval_info.memo),
            created_at_time: Some(arg.approval_info.created_at_time),
            spender: Some(arg.approval_info.spender),
            exp: arg.approval_info.expires_at,
        },
    )
}

/// The second half of approving a spender for a collection. Where the log
/// appended the entry, the approval is stored under the caller's account,
/// in place of an earlier one for the same spender, and the index of the
/// entry is the result. Where it did not, nothing changes and the log's
/// failure is reported.
pub fn approve_collection_commit(
    state: &mut RuntimeState,
    arg: &ApproveCollectionArg,
    caller: &Principal,
    current_time: u64,
    outcome: &LedgerOutcome,
) -> (r: ApproveCollectionResult)
    requires
        old(state).wf(),
    ensures
        final(state).wf(),
        *final(state) == (RuntimeState {
            collection_approvals: final(state).collection_approvals,
            ..*old(state)
        }),
        match *outcome {
            LedgerOutcome::Appended { index } => r == ApproveCollectionResult::Ok(index) && final(state).collection_approvals@
                == collection_approved(
                old(state).collection_approvals@,
                account_of(caller@, arg.approval_info.from_subaccount),
                arg.approval_info@.spender,
                stated_approval(
                    arg.approval_info@,
                    account_of(caller@, arg.approval_info.from_subaccount),
                    current_time,
                ),
            ),
            _ => r is Err && r->Err_0@ == log_refusal(*outcome) && final(state).collection_approvals@
                == old(state).collection_approvals@,
        },
{
    match outcome {
        LedgerOutcome::Appended { index } => {
            let from_account = Account { owner: *caller, subaccount: arg.approval_info.from_subaccount };
            let approval = Approval {
                spender: arg.approval_info.spender,
                from: from_account,
                expires_at: arg.approval_info.expires_at,
                created_at: current_time,
                memo: clone_bytes(&arg.approval_info.memo),
            };
            put_collection_approval(
                &mut state.collection_approvals,
                from_account,
                arg.approval_info.spender,
                approval,
            );
            Ok(*index)
        },
        _ => Err(
            ApproveCollectionError::GenericError {
                error_code: 1,
                message: outcome.failure_message("Failed to log transaction: "),
            },
        ),
    }
}

/// Why `revoke_token_approvals` refuses a request, if it does. The checks
/// come in this order: date, where the request has one; existence of the
/// token; ownership; existence of approvals for the token.
pub open spec fn revoke_token_refusal(
    state: &RuntimeState,
    arg: &RevokeTokenApprovalArg,
    caller: Seq<u8>,
    now: u64,
) -> Option<ErrorView> {
    let tokens = state.data.tokens_list@;
    let timing = optional_timing_refusal(
        state.data.drift(),
        state.data.window(),
        arg.created_at_time,
        now,
    );
    if timing is Some {
        timing
    } else if !tokens.contains_key(arg.token_id) {
        Some(ErrorView::NonExistingTokenId)
    } else if tokens[arg.token_id].token_owner != account_of(caller, arg.from_subaccount) {
        Some(ErrorView::Unauthorized)
    } else if !state.token_approvals@.contains_key(arg.token_id) {
        Some(ErrorView::ApprovalDoesNotExist)
    } else {
        None
    }
}

/// The log entry of a revocation on a token.
pub open spec fn revoke_token_entry(arg: &RevokeTokenApprovalArg, caller: Seq<u8>, now: u64) -> TransactionView {
    TransactionView {
        op: Operation::RevokeToken,
        timestamp: now,
        tid: Some(arg.token_id),
        from: Some(account_of(caller, arg.from_subaccount)),
        to: None,
        memo: bytes_view(arg.memo),
        created_at_time: arg.created_at_time,
        spender: crate::types::account::option_account_view(arg.spender),
        exp: None,
    }
}

/// The first half of revoking approvals on one token: the checks. It
/// changes nothing. Where no check fails it names the entry for the log.
pub fn revoke_token_approvals(
    state: &RuntimeState,
    arg: &RevokeTokenApprovalArg,
    caller: &Principal,
    current_time: u64,
) -> (r: Result<Transaction, RevokeTokenApprovalError>)
    requires
        state.wf(),
    ensures
        match revoke_token_refusal(state, arg, caller@, current_time) {
            Some(refusal) => r is Err && r->Err_0@ == refusal,
            None => r is Ok && r->Ok_0@ == revoke_token_entry(arg, caller@, current_time),
        },
{
    match verify_optional_timing(&state.data, arg.created_at_time, current_time) {
        Ok(()) => {},
        Err(TimingError::CreatedInFuture { ledger_time }) => {
            return Err(RevokeTokenApprovalError::CreatedInFuture { ledger_time });
        },
        Err(TimingError::TooOld) => {
            return Err(RevokeTokenApprovalError::TooOld);
        },
    }
    let from_account = Account { owner: *caller, subaccount: arg.from_subaccount };
    match state.data.owner_of(&arg.token_id) {
        None => {
            return Err(RevokeTokenApprovalError::NonExistingTokenId);
        },
        Some(owner) => {
            if owner != from_account {
                return Err(RevokeTokenApprovalError::Unauthorized);
            }
        },
    }
    if !state.token_approvals.contains_key(arg.token_id) {
        return Err(RevokeTokenApprovalError::ApprovalDoesNotExist);
    }
    Ok(
        Transaction {
            op: Operation::RevokeToken,
            timestamp: current_time,
            tid: Some(arg.token_id),
            from: Some(from_account),
            to: None,
            memo: clone_bytes(&arg.memo),
            created_at_time: arg.created_at_time,
            spender: arg.spender,
            exp: None,
        },
    )
}

/// The second half of revoking approvals on one token. Where the log
/// appended the entry, the approval of the named spender is taken from
/// the token, or all of its approvals where none is named, and the index of
/// the entry is the result; the token keeps its entry in the store, be it
/// empty. Where the log did not append, nothing changes and its failure
/// is reported.
pub fn revoke_token_approvals_commit(
    state: &mut RuntimeState,
    arg: &RevokeTokenApprovalArg,
    outcome: &LedgerOutcome,
) -> (r: RevokeTokenApprovalResponse)
    requires
        old(state).wf(),
    ensures
        final(state).wf(),
        *final(state) == (RuntimeState { token_approvals: final(state).token_approvals, ..*old(state) }),
        match *outcome {
            LedgerOutcome::Appended { index } => r == RevokeTokenApprovalResponse::Ok(index) && final(state).token_approvals@
                == old(state).token_approvals@.insert(
                arg.token_id,
                revoked(
                    spenders_of(old(state).token_approvals@, arg.token_id),
                    crate::types::account::option_account_view(arg.spender),
                ),
            ),
            _ => r is Err && r->Err_0@ == log_refusal(*outcome) && final(state).token_approvals@ == old(state).token_approvals@,
        },
{
    match outcome {
        LedgerOutcome::Appended { index } => {
            revoke_token_spenders(&mut state.token_approvals, arg.token_id, &arg.spender);
            Ok(*index)
        },
        _ => Err(
            RevokeTokenApprovalError::GenericError {
                error_code: 1,
                message: outcome.failure_message("Failed to log transaction: "),
            },
        ),
    }
}

/// How many entries of a batch of `len` are processed where at most
/// `cap` are.
pub open spec fn batch_share(len: nat, cap: u64) -> nat {
    if len <= cap {
        len
    } else {
        cap as nat
    }
}

/// How many entries of a batch of `len` are processed where at most
/// `cap` are.
pub fn batch_prefix(len: usize, cap: u64) -> (r: usize)
    ensures
        r == batch_share(len as nat, cap),
{
    if len as u64 <= cap {
        len
    } else {
        cap as usize
    }
}

/// What opening a batch of `len` revocations on tokens comes to,
/// `first_token_id` being the token of its first entry: the number of
/// entries to process, from the front, or the refusal of the rate limiter,
/// which is asked once, for that token. A batch without a first token is
/// not counted by the limiter.
pub open spec fn revoke_batch_verdict(
    state: &RuntimeState,
    first_token_id: Option<u64>,
    len: nat,
    now: u64,
) -> Result<nat, ErrorView> {
    match first_token_id {
        Some(token_id) => if rate_limit_admits(state.call_windows(), token_id, now) {
            Ok(batch_share(len, state.data.revoke_cap()))
        } else {
            Err(rate_limited(state.call_windows(), token_id, now))
        },
        None => Ok(batch_share(len, state.data.revoke_cap())),
    }
}

/// Opens a batch of `len` revocations on tokens whose first entry names
/// the token `first_token_id`. The rate limiter is asked once, for that
/// token; where it refuses, the whole batch is refused. Otherwise the
/// result is the number of entries to process, from the front: all of
/// them, or as many as one batch may revoke. A batch without a first
/// token, an empty one or one whose first entry names none, asks the
/// limiter nothing.
pub fn icrc37_revoke_token_approvals(
    state: &mut RuntimeState,
    first_token_id: Option<u64>,
    len: usize,
    current_time: u64,
) -> (r: Result<usize, RevokeTokenApprovalError>)
    requires
        old(state).wf(),
    ensures
        final(state).wf(),
        *final(state) == (RuntimeState {
            sliding_window_guards: final(state).sliding_window_guards,
            ..*old(state)
        }),
        final(state).call_windows() == match first_token_id {
            Some(token_id) => rate_limit_after(
                old(state).call_windows(),
                token_id,
                current_time,
            ),
            None => old(state).call_windows(),
        },
        match revoke_batch_verdict(old(state), first_token_id, len as nat, current_time) {
            Ok(n) => r == Ok::<usize, RevokeTokenApprovalError>(n as usize),
            Err(e) => r is Err && r->Err_0@ == e,
        },
{
    match first_token_id {
        Some(token_id) => {
            match guard_sliding_window(&mut state.sliding_window_guards, token_id, current_time) {
                Ok(()) => {},
                Err(e) => {
                    return Err(RevokeTokenApprovalError::GenericError { error_code: 0, message: e });
                },
            }
        },
        None => {},
    }
    let cap: u64 = setting_or(
        state.data.approval_init.max_revoke_approvals,
        DEFAULT_MAX_APPROVALS_PER_TOKEN_OR_COLLECTION,
    );
    Ok(batch_prefix(len, cap))
}

/// Why `revoke_collection_approvals` refuses a request, if it does. The
/// checks come in this order: date, where the request has one; existence
/// of approvals for the caller's collection.
pub open spec fn revoke_collection_refusal(
    state: &RuntimeState,
    arg: &RevokeCollectionApprovalArg,
    caller: Seq<u8>,
    now: u64,
) -> Option<ErrorView> {
    let timing = optional_timing_refusal(
        state.data.drift(),
        state.data.window(),
        arg.created_at_time,
        now,
    );
    if timing is Some {
        timing
    } else if !has_key(state.collection_approvals@, account_of(caller, arg.from_subaccount)) {
        Some(ErrorView::ApprovalDoesNotExist)
    } else {
        None
    }
}

/// The log entry of a revocation on a collection.
pub open spec fn revoke_collection_entry(
    arg: &RevokeCollectionApprovalArg,
    caller: Seq<u8>,
    now: u64,
) -> TransactionView {
    TransactionView {
        op: Operation::RevokeCollection,
        timestamp: now,
        tid: None,
        from: Some(account_of(caller, arg.from_subaccount)),
        to: None,
        memo: bytes_view(arg.memo),
        created_at_time: arg.created_at_time,
        spender: crate::types::account::option_account_view(arg.spender),
        exp: None,
    }
}

/// The first half of revoking approvals on the caller's collection: the
/// checks. It changes nothing. Where no check fails it names the entry
/// for the log.
pub fn revoke_collection_approvals(
    state: &RuntimeState,
    arg: &RevokeCollectionApprovalArg,
    caller: &Principal,
    current_time: u64,
) -> (r: Result<Transaction, RevokeCollectionApprovalError>)
    requires
        state.wf(),
    ensures
        match revoke_collection_refusal(state, arg, caller@, current_time) {
            Some(refusal) => r is Err && r->Err_0@ == refusal,
            None => r is Ok && r->Ok_0@ == revoke_collection_entry(arg, caller@, current_time),
        },
{
    match verify_optional_timing(&state.data, arg.created_at_time, current_time) {
        Ok(()) => {},
        Err(TimingError::CreatedInFuture { ledger_time }) => {
            return Err(RevokeCollectionApprovalError::CreatedInFuture { ledger_time });
        },
        Err(TimingError::TooOld) => {
            return Err(RevokeCollectionApprovalError::TooOld);
        },
    }
    let from_account = Account { owner: *caller, subaccount: arg.from_subaccount };
    if !state.collection_approvals.contains_key(&from_account) {
        return Err(RevokeCollectionApprovalError::ApprovalDoesNotExist);
    }
    Ok(
        Transaction {
            op: Operation::RevokeCollection,
            timestamp: current_time,
            tid: None,
            from: Some(from_account),
            to: None,
            memo: clone_bytes(&arg.memo),
            created_at_time: arg.created_at_time,
            spender: arg.spender,
            exp: None,
        },
    )
}

/// The second half of revoking approvals on the caller's collection.
/// Where the log appended the entry, the approval of the named spender is
/// taken from the collection, or all of its approvals where none is named,
/// and the index of the entry is the result; the caller's account keeps
/// its entry in the store, be it empty. Where the log did not append,
/// nothing changes and its failure is reported.
pub fn revoke_collection_approvals_commit(
    state: &mut RuntimeState,
    arg: &RevokeCollectionApprovalArg,
    caller: &Principal,
    outcome: &LedgerOutcome,
) -> (r: RevokeCollectionApprovalResult)
    requires
        old(state).wf(),
    ensures
        final(state).wf(),
        *final(state) == (RuntimeState {
            collection_approvals: final(state).collection_approvals,
            ..*old(state)
        }),
        match *outcome {
            LedgerOutcome::Appended { index } => r == RevokeCollectionApprovalResult::Ok(index) && final(state).collection_approvals@
                == put(
                old(state).collection_approvals@,
                account_of(caller@, arg.from_subaccount),
                revoked(
                    collection_spenders_of(
                        old(state).collection_approvals@,
                        account_of(caller@, arg.from_subaccount),
                    ),
                    crate::types::account::option_account_view(arg.spender),
                ),
            ),
            _ => r is Err && r->Err_0@ == log_refusal(*outcome) && final(state).collection_approvals@
                == old(state).collection_approvals@,
        },
{
    match outcome {
        LedgerOutcome::Appended { index } => {
            let from_account = Account { owner: *caller, subaccount: arg.from_subaccount };
            revoke_collection_spenders(&mut state.collection_approvals, from_account, &arg.spender);
            Ok(*index)
        },
        _ => Err(
            RevokeCollectionApprovalError::GenericError {
                error_code: 1,
                message: outcome.failure_message("Failed to log transaction: "),
            },
        ),
    }
}

/// Opens a batch of revocations on the caller's collection. The rate
/// limiter is asked once, under the key of the collection; where it
/// refuses, the whole batch is refused. Otherwise the result is the number
/// of entries to process, from the front: all of them, or as many as one
/// batch may revoke.
pub fn icrc37_revoke_collection_approvals(
    state: &mut RuntimeState,
    args: &Vec<RevokeCollectionApprovalArg>,
    current_time: u64,
) -> (r: Result<usize, RevokeCollectionApprovalError>)
    requires
        old(state).wf(),
    ensures
        final(state).wf(),
        *final(state) == (RuntimeState {
            sliding_window_guards: final(state).sliding_window_guards,
            ..*old(state)
        }),
        final(state).call_windows() == rate_limit_after(
            old(state).call_windows(),
            COLLECTION_KEY,
            current_time,
        ),
        if rate_limit_admits(old(state).call_windows(), COLLECTION_KEY, current_time) {
            r == Ok::<usize, RevokeCollectionApprovalError>(
                batch_share(args@.len(), old(state).data.revoke_cap()) as usize,
            )
        } else {
            r is Err && r->Err_0@ == rate_limited(
                old(state).call_windows(),
                COLLECTION_KEY,
                current_time,
            )
        },
{
    match guard_sliding_window(&mut state.sliding_window_guards, COLLECTION_KEY, current_time) {
        Ok(()) => {},
        Err(e) => {
            return Err(RevokeCollectionApprovalError::GenericError { error_code: 0, message: e });
        },
    }
    let cap: u64 = setting_or(
        state.data.approval_init.max_revoke_approvals,
        DEFAULT_MAX_APPROVALS_PER_TOKEN_OR_COLLECTION,
    );
    Ok(batch_prefix(args.len(), cap))
}

/// Why a delegated transfer is refused before anyone's authority is
/// looked at, if it is. The checks come in this order: rate limit; date,
/// where the request has one; existence of the token; recipient.
pub open spec fn transfer_from_early_refusal(
    state: &RuntimeState,
    arg: &TransferFromArg,
    now: u64,
) -> Option<ErrorView> {
    let timing = optional_timing_refusal(
        state.data.drift(),
        state.data.window(),
        arg.created_at_time,
        now,
    );
    if !rate_limit_admits(state.call_windows(), arg.token_id, now) {
        Some(rate_limited(state.call_windows(), arg.token_id, now))
    } else if timing is Some {
        timing
    } else if !state.data.tokens_list@.contains_key(arg.token_id) {
        Some(ErrorView::NonExistingTokenId)
    } else if arg.from@ == arg.to@ || arg.to@.owner == anonymous_view() {
        Some(ErrorView::InvalidRecipient)
    } else {
        None
    }
}

/// Whether `spender` may hand the token `token_id` of `from` on at `now`:
/// `from` owns the token, and `spender` is `from`, or holds an approval in
/// force for the token, or holds one in force for the collection of the
/// token's owner.
pub open spec fn transfer_authorized(
    state: &RuntimeState,
    token_id: u64,
    from: AccountView,
    spender: AccountView,
    now: u64,
) -> bool {
    let owner = state.data.tokens_list@[token_id].token_owner;
    owner == from && (spender == from || approves(
        spenders_of(state.token_approvals@, token_id),
        spender,
        now,
    ) || approves(collection_spenders_of(state.collection_approvals@, owner), spender, now))
}

/// Why `transfer_from` refuses a request, if it does.
pub open spec fn transfer_from_refusal(
    state: &RuntimeState,
    arg: &TransferFromArg,
    caller: Seq<u8>,
    now: u64,
) -> Option<ErrorView> {
    let early = transfer_from_early_refusal(state, arg, now);
    if early is Some {
        early
    } else if !transfer_authorized(
        state,
        arg.token_id,
        arg.from@,
        account_of(caller, arg.spender_subaccount),
        now,
    ) {
        Some(ErrorView::Unauthorized)
    } else {
        None
    }
}

/// The log entry of a delegated transfer.
pub open spec fn transfer_from_entry(arg: &TransferFromArg, caller: Seq<u8>, now: u64) -> TransactionView {
    TransactionView {
        op: Operation::TransferFrom,
        timestamp: now,
        tid: Some(arg.token_id),
        from: Some(arg.from@),
        to: Some(arg.to@),
        memo: bytes_view(arg.memo),
        created_at_time: arg.created_at_time,
        spender: Some(account_of(caller, arg.spender_subaccount)),
        exp: None,
    }
}

/// The first half of a delegated transfer: the checks. It records the
/// call with the rate limiter. Where the request gets as far as the
/// question of authority, an expired approval of the spender, on the
/// token or on the collection of its owner, is dropped, whatever the
/// answer. Nothing else changes. Where no check fails it names the entry
/// for the log.
pub fn transfer_from(
    state: &mut RuntimeState,
    arg: &TransferFromArg,
    caller: &Principal,
    current_time: u64,
) -> (r: Result<Transaction, TransferFromError>)
    requires
        old(state).wf(),
    ensures
        final(state).wf(),
        *final(state) == (RuntimeState {
            sliding_window_guards: final(state).sliding_window_guards,
            token_approvals: final(state).token_approvals,
            collection_approvals: final(state).collection_approvals,
            ..*old(state)
        }),
        final(state).call_windows() == rate_limit_after(
            old(state).call_windows(),
            arg.token_id,
            current_time,
        ),
        transfer_from_early_refusal(old(state), arg, current_time) is Some ==> final(state).token_approvals@
            == old(state).token_approvals@ && final(state).collection_approvals@ == old(state).collection_approvals@,
        transfer_from_early_refusal(old(state), arg, current_time) is None ==> final(state).token_approvals@
            == token_purged(
            old(state).token_approvals@,
            arg.token_id,
            account_of(caller@, arg.spender_subaccount),
            current_time,
        ) && final(state).collection_approvals@ == collection_purged(
            old(state).collection_approvals@,
            old(state).data.tokens_list@[arg.token_id].token_owner,
            account_of(caller@, arg.spender_subaccount),
            current_time,
        ),
        match transfer_from_refusal(old(state), arg, caller@, current_time) {
            Some(refusal) => r is Err && r->Err_0@ == refusal,
            None => r is Ok && r->Ok_0@ == transfer_from_entry(arg, caller@, current_time),
        },
{
    match guard_sliding_window(&mut state.sliding_window_guards, arg.token_id, current_time) {
        Ok(()) => {},
        Err(e) => {
            return Err(TransferFromError::GenericError { error_code: 0, message: e });
        },
    }
    match verify_optional_timing(&state.data, arg.created_at_time, current_time) {
        Ok(()) => {},
        Err(TimingError::CreatedInFuture { ledger_time }) => {
            return Err(TransferFromError::CreatedInFuture { ledger_time });
        },
        Err(TimingError::TooOld) => {
            return Err(TransferFromError::TooOld);
        },
    }
    let token_owner: Account = match state.data.owner_of(&arg.token_id) {
        Some(owner) => owner,
        None => {
            return Err(TransferFromError::NonExistingTokenId);
        },
    };
    if arg.from == arg.to {
        return Err(TransferFromError::InvalidRecipient);
    }
    if arg.to.is_anonymous() {
        return Err(TransferFromError::InvalidRecipient);
    }
    let spender_account = Account { owner: *caller, subaccount: arg.spender_subaccount };
    let is_owner: bool = token_owner == arg.from;
    let has_token_approval: bool = check_token_approval(
        &mut state.token_approvals,
        arg.token_id,
        &spender_account,
        current_time,
    );
    let has_collection_approval: bool = check_collection_approval(
        &mut state.collection_approvals,
        &token_owner,
        &spender_account,
        current_time,
    );
    let is_caller_token_holder: bool = spender_account == arg.from;
    if !is_owner || (!is_caller_token_holder && !has_token_approval && !has_collection_approval) {
        return Err(TransferFromError::Unauthorized);
    }
    Ok(
        Transaction {
            op: Operation::TransferFrom,
            timestamp: current_time,
            tid: Some(arg.token_id),
            from: Some(arg.from),
            to: Some(arg.to),
            memo: clone_bytes(&arg.memo),
            created_at_time: arg.created_at_time,
            spender: Some(spender_account),
            exp: None,
        },
    )
}

/// What a delegated transfer answers where the log did not append its
/// entry: the index of the entry that is there already, or the log's
/// failure.
pub open spec fn transfer_from_failure(outcome: LedgerOutcome) -> ErrorView {
    match outcome {
        LedgerOutcome::Duplicate { duplicate_of } => ErrorView::Duplicate { duplicate_of },
        _ => ErrorView::GenericError {
            error_code: 1,
            message: "Failed to insert transaction: "@ + failure_text(outcome),
        },
    }
}

/// The second half of a delegated transfer. Where the log appended the
/// entry, the token belongs to the recipient, every approval on the token
/// is gone with the token's entry in the store, and so is the entry of
/// the sender's collection; the reverse index stays as it was; the index
/// of the log entry is the result. Where the log holds the entry already,
/// the answer names the index under which it does. Otherwise the log's
/// failure is reported. In both of these cases nothing changes.
pub fn transfer_from_commit(
    state: &mut RuntimeState,
    arg: &TransferFromArg,
    outcome: &LedgerOutcome,
) -> (r: TransferFromResult)
    requires
        old(state).wf(),
    ensures
        final(state).wf(),
        *final(state) == (RuntimeState {
            data: final(state).data,
            token_approvals: final(state).token_approvals,
            collection_approvals: final(state).collection_approvals,
            ..*old(state)
        }),
        final(state).data == (crate::state::Data {
            tokens_list: final(state).data.tokens_list,
            ..old(state).data
        }),
        match *outcome {
            LedgerOutcome::Appended { index } => {
                &&& r == TransferFromResult::Ok(index)
                &&& final(state).data.tokens_list@ == old(state).data.tokens_list@.insert(
                    arg.token_id,
                    Icrc7TokenView { token_id: arg.token_id, token_owner: arg.to@ },
                )
                &&& final(state).token_approvals@ == old(state).token_approvals@.remove(arg.token_id)
                &&& spenders_of(final(state).token_approvals@, arg.token_id).len() == 0
                &&& final(state).collection_approvals@ == del(
                    old(state).collection_approvals@,
                    arg.from@,
                )
            },
            _ => {
                &&& r is Err
                &&& r->Err_0@ == transfer_from_failure(*outcome)
                &&& final(state).data.tokens_list@ == old(state).data.tokens_list@
                &&& final(state).token_approvals@ == old(state).token_approvals@
                &&& final(state).collection_approvals@ == old(state).collection_approvals@
            },
        },
{
    match outcome {
        LedgerOutcome::Appended { index } => {
            let mut nft = Icrc7Token::new(arg.token_id, arg.from);
            nft.transfer(arg.to);
            state.data.update_token_by_id(&arg.token_id, &nft);
            clear_token_approvals(&mut state.token_approvals, arg.token_id);
            clear_collection_approvals(&mut state.collection_approvals, &arg.from);
            Ok(*index)
        },
        LedgerOutcome::Duplicate { duplicate_of } => Err(
            TransferFromError::Duplicate { duplicate_of: *duplicate_of },
        ),
        LedgerOutcome::Failed { reason } => Err(
            TransferFromError::GenericError {
                error_code: 1,
                message: outcome.failure_message("Failed to insert transaction: "),
            },
        ),
    }
}

/// An approval for a token that passed the checks and was logged leaves
/// every token within the cap that was within it before.
pub proof fn lemma_approve_token_keeps_cap(
    state: &RuntimeState,
    arg: &ApproveTokenArg,
    caller: Seq<u8>,
    now: u64,
)
    requires
        state.wf(),
        tokens_within_cap(state.token_approvals@, state.data.approvals_cap()),
        approve_token_refusal(state, arg, caller, now) is None,
    ensures
        tokens_within_cap(
            token_approved(
                state.token_approvals@,
                arg.token_id,
                arg.approval_info@.spender,
                stated_approval(arg.approval_info@, account_of(caller, arg.approval_info.from_subaccount), now),
            ),
            state.data.approvals_cap(),
        ),
{
    let store = state.token_approvals@;
    let spenders = spenders_of(store, arg.token_id);
    let approval = stated_approval(
        arg.approval_info@,
        account_of(caller, arg.approval_info.from_subaccount),
        now,
    );
    if store.contains_key(arg.token_id) {
        assert(store[arg.token_id].len() <= state.data.approvals_cap());
    }
    lemma_cap_kept(spenders, arg.approval_info@.spender, approval, state.data.approvals_cap());
}

/// An approval for a collection that passed the checks and was logged
/// leaves every collection within the cap that was within it before.
pub proof fn lemma_approve_collection_keeps_cap(
    state: &RuntimeState,
    arg: &ApproveCollectionArg,
    caller: Seq<u8>,
    now: u64,
)
    requires
        state.wf(),
        collections_within_cap(state.collection_approvals@, state.data.approvals_cap()),
        approve_collection_refusal(state, arg, caller, now) is None,
    ensures
        collections_within_cap(
            collection_approved(
                state.collection_approvals@,
                account_of(caller, arg.approval_info.from_subaccount),
                arg.approval_info@.spender,
                stated_approval(arg.approval_info@, account_of(caller, arg.approval_info.from_subaccount), now),
            ),
            state.data.approvals_cap(),
        ),
{
    lemma_collection_cap_kept(
        state.collection_approvals@,
        account_of(caller, arg.approval_info.from_subaccount),
        arg.approval_info@.spender,
        stated_approval(arg.approval_info@, account_of(caller, arg.approval_info.from_subaccount), now),
        state.data.approvals_cap(),
    );
}

} // verus!
