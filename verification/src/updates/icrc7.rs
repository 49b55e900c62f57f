//! The transfer that an owner makes in person.
//!
//! Like the delegated operations it has two halves, around the log's
//! answer. Unlike them it keeps the reverse index: the token goes to the
//! recipient's list and leaves the sender's.

use vstd::prelude::*;
use vstd::string::StringExecFns;
use crate::collections::account_map::{put, AccountMap};
use crate::guards::{guard_sliding_window, rate_limit_admits, rate_limit_after};
use crate::state::{indexed_tokens, owner_in, setting, setting_or, Data, RuntimeState};
use crate::types::account::{anonymous_view, Account, AccountView, Principal};
use crate::types::icrc37::ErrorView;
use crate::types::icrc7::{
    TransferArg, TransferError, DEFAULT_MAX_MEMO_SIZE, DEFAULT_MAX_UPDATE_BATCH_SIZE,
    DEFAULT_PERMITTED_DRIFT, DEFAULT_TX_WINDOW,
};
use crate::types::ledger::{
    bytes_view, clone_bytes, failure_text, LedgerOutcome, Operation, Transaction, TransactionView,
};
use crate::types::nft::{Icrc7Token, Icrc7TokenView};
use crate::updates::icrc37::{batch_prefix, batch_share, rate_limited};
use crate::utils::{check_memo, memo_fits, memo_refusal};

verus! {

/// The date of a transfer: the one the request states, or `now` where it
/// states none.
pub open spec fn transfer_date(created_at_time: Option<u64>, now: u64) -> u64 {
    match created_at_time {
        Some(t) => t,
        None => now,
    }
}

/// The refusal of a transfer whose memo is too long.
pub open spec fn memo_too_long() -> ErrorView {
    ErrorView::GenericError { error_code: 0, message: memo_refusal() }
}

/// Why `transfer_nft` refuses a request, if it does. The checks come in
/// this order: rate limit; existence of the token; memo; caller and
/// recipient; date.
pub open spec fn transfer_refusal(
    state: &RuntimeState,
    arg: &TransferArg,
    caller: Seq<u8>,
    now: u64,
) -> Option<ErrorView> {
    let tokens = state.data.tokens_list@;
    let date = transfer_date(arg.created_at_time, now);
    if !rate_limit_admits(state.call_windows(), arg.token_id, now) {
        Some(rate_limited(state.call_windows(), arg.token_id, now))
    } else if !tokens.contains_key(arg.token_id) {
        Some(ErrorView::NonExistingTokenId)
    } else if !memo_fits(bytes_view(arg.memo), setting(state.data.max_memo_size, DEFAULT_MAX_MEMO_SIZE)) {
        Some(memo_too_long())
    } else if tokens[arg.token_id].token_owner.owner != caller || arg.to@.owner == anonymous_view()
        || tokens[arg.token_id].token_owner == arg.to@ {
        Some(ErrorView::InvalidRecipient)
    } else if date > now + state.data.drift() {
        Some(ErrorView::CreatedInFuture { ledger_time: now })
    } else if date + state.data.window() + state.data.drift() < now {
        Some(ErrorView::TooOld)
    } else {
        None
    }
}

/// The log entry of a transfer by the owner `from`.
pub open spec fn transfer_entry(arg: &TransferArg, from: AccountView, now: u64) -> TransactionView {
    TransactionView {
        op: Operation::Transfer,
        timestamp: now,
        tid: Some(arg.token_id),
        from: Some(from),
        to: Some(arg.to@),
        memo: bytes_view(arg.memo),
        created_at_time: Some(transfer_date(arg.created_at_time, now)),
        spender: None,
        exp: None,
    }
}

/// The first half of a transfer by the owner: the checks. It records the
/// call with the rate limiter and changes nothing else. Where no check
/// fails it names the entry for the log.
pub fn transfer_nft(state: &mut RuntimeState, arg: &TransferArg, caller: &Principal, current_time: u64) -> (r:
    Result<Transaction, TransferError>)
    requires
        old(state).wf(),
    ensures
        final(state).wf(),
        *final(state) == (RuntimeState {
            sliding_window_guards: final(state).sliding_window_guards,
            ..*old(state)
        }),
        final(state).call_windows() == rate_limit_after(
            old(state).call_windows(),
            arg.token_id,
            current_time,
        ),
        match transfer_refusal(old(state), arg, caller@, current_time) {
            Some(refusal) => r is Err && r->Err_0@ == refusal,
            None => r is Ok && r->Ok_0@ == transfer_entry(
                arg,
                old(state).data.tokens_list@[arg.token_id].token_owner,
                current_time,
            ),
        },
{
    match guard_sliding_window(&mut state.sliding_window_guards, arg.token_id, current_time) {
        Ok(()) => {},
        Err(e) => {
            return Err(TransferError::GenericError { error_code: 0, message: e });
        },
    }
    let token_owner: Account = match state.data.owner_of(&arg.token_id) {
        Some(owner) => owner,
        None => {
            return Err(TransferError::NonExistingTokenId);
        },
    };
    match check_memo(&state.data, &arg.memo) {
        Ok(()) => {},
        Err(e) => {
            return Err(TransferError::GenericError { error_code: 0, message: e });
        },
    }
    if token_owner.owner != *caller || arg.to.is_anonymous() || token_owner == arg.to {
        return Err(TransferError::InvalidRecipient);
    }
    let time: u64 = match arg.created_at_time {
        Some(t) => t,
        None => current_time,
    };
    let drift: u64 = setting_or(state.data.permitted_drift, DEFAULT_PERMITTED_DRIFT);
    if time as u128 > current_time as u128 + drift as u128 {
        return Err(TransferError::CreatedInFuture { ledger_time: current_time });
    }
    let tx_window: u64 = setting_or(state.data.tx_window, DEFAULT_TX_WINDOW);
    if (time as u128 + tx_window as u128 + drift as u128) < current_time as u128 {
        return Err(TransferError::TooOld);
    }
    Ok(
        Transaction {
            op: Operation::Transfer,
            timestamp: current_time,
            tid: Some(arg.token_id),
            from: Some(token_owner),
            to: Some(arg.to),
            memo: clone_bytes(&arg.memo),
            created_at_time: Some(time),
            spender: None,
            exp: None,
        },
    )
}

/// `ids` without `id`.
pub open spec fn without(ids: Seq<u64>, id: u64) -> Seq<u64>
    decreases ids.len(),
{
    if ids.len() == 0 {
        ids
    } else if ids.last() == id {
        without(ids.drop_last(), id)
    } else {
        without(ids.drop_last(), id).push(ids.last())
    }
}

/// The reverse index once the token `id` has been added to the list of
/// `to`.
pub open spec fn index_given(index: Seq<(AccountView, Seq<u64>)>, to: AccountView, id: u64) -> Seq<
    (AccountView, Seq<u64>),
> {
    put(index, to, indexed_tokens(index, to).push(id))
}

/// The reverse index once the token `id` has been struck from the list
/// of `from`.
pub open spec fn index_taken(index: Seq<(AccountView, Seq<u64>)>, from: AccountView, id: u64) -> Seq<
    (AccountView, Seq<u64>),
> {
    put(index, from, without(indexed_tokens(index, from), id))
}

/// The reverse index once the token `id` has gone from `from`, where the
/// token had an owner, to `to`.
pub open spec fn index_moved(
    index: Seq<(AccountView, Seq<u64>)>,
    from: Option<AccountView>,
    to: AccountView,
    id: u64,
) -> Seq<(AccountView, Seq<u64>)> {
    match from {
        Some(sender) => index_taken(index_given(index, to, id), sender, id),
        None => index_given(index, to, id),
    }
}

fn strike(ids: &Vec<u64>, id: u64) -> (r: Vec<u64>)
    ensures
        r@ == without(ids@, id),
{
    let mut out: Vec<u64> = Vec::new();
    let mut i: usize = 0;
    while i < ids.len()
        invariant
            i <= ids@.len(),
            out@ == without(ids@.take(i as int), id),
        decreases ids@.len() - i,
    {
        proof {
            assert(ids@.take(i + 1).drop_last() =~= ids@.take(i as int));
            assert(ids@.take(i + 1).last() == ids@[i as int]);
        }
        if ids[i] != id {
            out.push(ids[i]);
        }
        i = i + 1;
    }
    assert(ids@.take(ids@.len() as int) =~= ids@);
    out
}

/// Adds the token `id` to the list that the reverse index keeps for `to`.
pub fn index_give(index: &mut AccountMap<Vec<u64>>, to: Account, id: u64)
    requires
        old(index).wf(),
    ensures
        final(index).wf(),
        final(index)@ == index_given(old(index)@, to@, id),
{
    let mut ids: Vec<u64> = match index.get(&to) {
        Some(list) => {
            let copy = list.clone();
            assert(copy@ =~= list@);
            copy
        },
        None => Vec::new(),
    };
    ids.push(id);
    index.insert(to, ids);
}

/// Strikes the token `id` from the list that the reverse index keeps for
/// `from`.
pub fn index_take(index: &mut AccountMap<Vec<u64>>, from: Account, id: u64)
    requires
        old(index).wf(),
    ensures
        final(index).wf(),
        final(index)@ == index_taken(old(index)@, from@, id),
{
    let ids: Vec<u64> = match index.get(&from) {
        Some(list) => strike(list, id),
        None => Vec::new(),
    };
    index.insert(from, ids);
}

/// What a transfer by the owner answers to the log's answer: the index of
/// the entry, be it new or there already, or the log's failure.
pub open spec fn transfer_answer(outcome: LedgerOutcome) -> Result<u64, ErrorView> {
    match outcome {
        LedgerOutcome::Appended { index } => Ok(index),
        LedgerOutcome::Duplicate { duplicate_of } => Ok(duplicate_of),
        LedgerOutcome::Failed { reason } => Err(
            ErrorView::GenericError {
                error_code: 2,
                message: "Failed to log transaction: "@ + failure_text(outcome),
            },
        ),
    }
}

/// The second half of a transfer by the owner. Where the log appended the
/// entry, the token belongs to the recipient, and in the reverse index it
/// has gone from its last owner's list to the recipient's; the index of
/// the entry is the result. Where the log holds the entry already, the
/// result is the index under which it does, and nothing changes. Where
/// the log failed, its failure is reported, and nothing changes.
pub fn transfer_nft_commit(state: &mut RuntimeState, arg: &TransferArg, outcome: &LedgerOutcome) -> (r:
    Result<u64, TransferError>)
    requires
        old(state).wf(),
    ensures
        final(state).wf(),
        *final(state) == (RuntimeState { data: final(state).data, ..*old(state) }),
        final(state).data == (Data {
            tokens_list: final(state).data.tokens_list,
            tokens_list_by_owner: final(state).data.tokens_list_by_owner,
            ..old(state).data
        }),
        match transfer_answer(*outcome) {
            Ok(index) => r == Ok::<u64, TransferError>(index),
            Err(e) => r is Err && r->Err_0@ == e,
        },
        match *outcome {
            LedgerOutcome::Appended { index } => {
                &&& final(state).data.tokens_list@ == old(state).data.tokens_list@.insert(
                    arg.token_id,
                    Icrc7TokenView { token_id: arg.token_id, token_owner: arg.to@ },
                )
                &&& final(state).data.tokens_list_by_owner@ == index_moved(
                    old(state).data.tokens_list_by_owner@,
                    owner_in(old(state).data.tokens_list@, arg.token_id),
                    arg.to@,
                    arg.token_id,
                )
            },
            _ => {
                &&& final(state).data.tokens_list@ == old(state).data.tokens_list@
                &&& final(state).data.tokens_list_by_owner@ == old(state).data.tokens_list_by_owner@
            },
        },
{
    match outcome {
        LedgerOutcome::Appended { index } => {
            let sender: Option<Account> = state.data.owner_of(&arg.token_id);
            let nft = Icrc7Token::new(arg.token_id, arg.to);
            state.data.tokens_list.insert(arg.token_id, nft);
            index_give(&mut state.data.tokens_list_by_owner, arg.to, arg.token_id);
            match sender {
                Some(from) => {
                    index_take(&mut state.data.tokens_list_by_owner, from, arg.token_id);
                },
                None => {},
            }
            Ok(*index)
        },
        LedgerOutcome::Duplicate { duplicate_of } => Ok(*duplicate_of),
        LedgerOutcome::Failed { reason } => Err(
            TransferError::GenericError {
                error_code: 2,
                message: outcome.failure_message("Failed to log transaction: "),
            },
        ),
    }
}

/// The refusal of a batch that is larger than an atomic batch may be.
pub open spec fn batch_too_large() -> ErrorView {
    ErrorView::GenericError { error_code: 0, message: "Exceed Max allowed Update Batch Size"@ }
}

/// The refusal of a transfer by the anonymous caller.
pub open spec fn anonymous_caller() -> ErrorView {
    ErrorView::GenericError { error_code: 0, message: "Anonymous caller not allowed to transfer"@ }
}

/// The largest batch of transfers.
pub open spec fn update_batch_cap(data: &Data) -> u64 {
    setting(data.max_update_batch_size, DEFAULT_MAX_UPDATE_BATCH_SIZE)
}

/// What opening a batch of `len` transfers by `caller` comes to: the
/// number of transfers to process, from the front, or the one refusal
/// that answers the whole batch. An empty batch processes nothing. A
/// batch over the limit is refused where batches are atomic and cut to
/// the limit where they are not. The anonymous caller is refused.
pub open spec fn transfer_batch_verdict(data: &Data, len: nat, caller: Seq<u8>) -> Result<
    nat,
    ErrorView,
> {
    if len == 0 {
        Ok(0nat)
    } else if data.atomic_batch_transfers == Some(true) && len > update_batch_cap(data) {
        Err(batch_too_large())
    } else if caller == anonymous_view() {
        Err(anonymous_caller())
    } else {
        Ok(batch_share(len, update_batch_cap(data)))
    }
}

/// Opens a batch of `len` transfers by `caller`.
pub fn icrc7_transfer(data: &Data, len: usize, caller: &Principal) -> (r: Result<usize, TransferError>)
    ensures
        match transfer_batch_verdict(data, len as nat, caller@) {
            Ok(n) => r == Ok::<usize, TransferError>(n as usize),
            Err(e) => r is Err && r->Err_0@ == e,
        },
{
    if len == 0 {
        return Ok(0);
    }
    let max_batch_size: u64 = setting_or(data.max_update_batch_size, DEFAULT_MAX_UPDATE_BATCH_SIZE);
    let atomic: bool = match data.atomic_batch_transfers {
        Some(flag) => flag,
        None => false,
    };
    if atomic && len as u64 > max_batch_size {
        return Err(
            TransferError::GenericError {
                error_code: 0,
                message: String::from_str("Exceed Max allowed Update Batch Size"),
            },
        );
    }
    if caller.is_anonymous() {
        return Err(
            TransferError::GenericError {
                error_code: 0,
                message: String::from_str("Anonymous caller not allowed to transfer"),
            },
        );
    }
    Ok(batch_prefix(len, max_batch_size))
}

} // verus!
