//! The management operations on the ownership table and on the settings.
//!
//! Each runs under the single-flight guard: it is refused while another
//! management operation is under way, and gives the guard back on every
//! way out. Minting and burning go by way of the transaction log, in two
//! halves; the guard is held from the first half to the end of the second.

use vstd::prelude::*;
use crate::guards::{guard_available, GuardManagement};
use crate::state::{contains_principal, lists_principal, setting, setting_or, Data, RuntimeState};
use crate::types::account::{
    lemma_before_total, lemma_before_transitive, principal_before, Account, AccountView, Principal,
};
use crate::types::icrc7::{DEFAULT_MAX_MEMO_SIZE, DEFAULT_MAX_SUPPLY_CAP};
use crate::types::ledger::{
    bytes_view, clone_bytes, failure_text, LedgerOutcome, Operation, Transaction, TransactionView,
};
use crate::types::management::burn_nft::BurnNftError;
use crate::types::management::mint::MintError;
use crate::types::management::remove_authorized_principals::RemoveAuthorizedPrincipalsError;
use crate::types::management::remove_minting_authorities::RemoveMintingAuthoritiesError;
use crate::types::management::update_authorized_principals::UpdateAuthorizedPrincipalsError;
use crate::types::management::update_collection_metadata::UpdateCollectionMetadataError;
use crate::types::management::update_minting_authorities::UpdateMintingAuthoritiesError;
use crate::types::nft::{Icrc7Token, Icrc7TokenView};
use crate::updates::icrc7::{index_give, index_given};
use crate::utils::{check_memo, memo_fits};

verus! {

/// The largest number of tokens.
pub open spec fn supply_cap(data: &Data) -> u64 {
    setting(data.supply_cap, DEFAULT_MAX_SUPPLY_CAP)
}

/// Why `mint` refuses a request, if it does. The checks come in this
/// order: guard, supply cap, memo, freshness of the next identifier.
pub open spec fn mint_refusal(state: &RuntimeState, req: &crate::types::management::mint::Args) -> Option<
    MintError,
> {
    if !guard_available(state.principal_guards@) {
        Some(MintError::ConcurrentManagementCall)
    } else if state.data.tokens_list@.len() >= supply_cap(&state.data) {
        Some(MintError::ExceedMaxAllowedSupplyCap)
    } else if !memo_fits(bytes_view(req.memo), setting(state.data.max_memo_size, DEFAULT_MAX_MEMO_SIZE)) {
        Some(MintError::InvalidMemo)
    } else if state.data.tokens_list@.contains_key(state.data.last_token_id) {
        Some(MintError::TokenAlreadyExists)
    } else {
        None
    }
}

/// The log entry of a mint of the token `token_id`.
pub open spec fn mint_entry(req: &crate::types::management::mint::Args, token_id: u64, now: u64) -> TransactionView {
    TransactionView {
        op: Operation::Mint,
        timestamp: now,
        tid: Some(token_id),
        from: None,
        to: Some(req.token_owner@),
        memo: bytes_view(req.memo),
        created_at_time: Some(now),
        spender: None,
        exp: None,
    }
}

/// The first half of a mint: the checks. Where one fails the state is as
/// it was. Where none fails the caller holds the guard, and the result is
/// the guard with the entry for the log; the token will get the
/// identifier `last_token_id`.
pub fn mint(
    state: &mut RuntimeState,
    req: &crate::types::management::mint::Args,
    caller: &Principal,
    current_time: u64,
) -> (r: Result<(GuardManagement, Transaction), MintError>)
    requires
        old(state).wf(),
    ensures
        final(state).wf(),
        *final(state) == (RuntimeState { principal_guards: final(state).principal_guards, ..*old(state) }),
        match mint_refusal(old(state), req) {
            Some(refusal) => r == Err::<(GuardManagement, Transaction), MintError>(refusal) && final(state).principal_guards@
                == old(state).principal_guards@,
            None => r is Ok && r->Ok_0.0.holder() == caller@ && final(state).principal_guards@ == old(state).principal_guards@.insert(
                caller@,
            ) && r->Ok_0.1@ == mint_entry(req, old(state).data.last_token_id, current_time),
        },
{
    let guard = match GuardManagement::new(&mut state.principal_guards, *caller) {
        Ok(guard) => guard,
        Err(_) => {
            return Err(MintError::ConcurrentManagementCall);
        },
    };
    proof {
        old(state).principal_guards.lemma_finite();
        assert(old(state).principal_guards@.len() == 0);
        assert(old(state).principal_guards@ =~= Set::<Seq<u8>>::empty());
        assert(old(state).principal_guards@.insert(caller@).remove(caller@) =~= old(state).principal_guards@);
    }
    let token_id: u64 = state.data.last_token_id;
    let cap: u64 = setting_or(state.data.supply_cap, DEFAULT_MAX_SUPPLY_CAP);
    if state.data.tokens_list.len() as u64 >= cap {
        guard.release(&mut state.principal_guards);
        return Err(MintError::ExceedMaxAllowedSupplyCap);
    }
    match check_memo(&state.data, &req.memo) {
        Ok(()) => {},
        Err(_) => {
            guard.release(&mut state.principal_guards);
            return Err(MintError::InvalidMemo);
        },
    }
    if state.data.tokens_list.contains_key(token_id) {
        guard.release(&mut state.principal_guards);
        return Err(MintError::TokenAlreadyExists);
    }
    Ok(
        (
            guard,
            Transaction {
                op: Operation::Mint,
                timestamp: current_time,
                tid: Some(token_id),
                from: None,
                to: Some(req.token_owner),
                memo: clone_bytes(&req.memo),
                created_at_time: Some(current_time),
                spender: None,
                exp: None,
            },
        ),
    )
}

/// The identifier after `id`; the largest one stays.
pub open spec fn next_id(id: u64) -> u64 {
    if id < u64::MAX {
        (id + 1) as u64
    } else {
        id
    }
}

/// The second half of a mint. Where the log appended the entry, the token
/// with the identifier `last_token_id` belongs to the owner that the
/// request names and stands in that owner's list of the reverse index,
/// the next identifier is one higher, and the identifier of the new token
/// is the result. Where the log did not append, its failure is reported
/// and neither table changes. In every case the guard is given back.
pub fn mint_commit(
    state: &mut RuntimeState,
    guard: GuardManagement,
    req: &crate::types::management::mint::Args,
    outcome: &LedgerOutcome,
) -> (r: Result<u64, MintError>)
    requires
        old(state).wf(),
    ensures
        final(state).wf(),
        *final(state) == (RuntimeState {
            data: final(state).data,
            principal_guards: final(state).principal_guards,
            ..*old(state)
        }),
        final(state).principal_guards@ == old(state).principal_guards@.remove(guard.holder()),
        final(state).data == (Data {
            tokens_list: final(state).data.tokens_list,
            tokens_list_by_owner: final(state).data.tokens_list_by_owner,
            last_token_id: final(state).data.last_token_id,
            ..old(state).data
        }),
        match *outcome {
            LedgerOutcome::Appended { index } => {
                &&& r == Ok::<u64, MintError>(old(state).data.last_token_id)
                &&& final(state).data.last_token_id == next_id(old(state).data.last_token_id)
                &&& final(state).data.tokens_list@ == old(state).data.tokens_list@.insert(
                    old(state).data.last_token_id,
                    Icrc7TokenView {
                        token_id: old(state).data.last_token_id,
                        token_owner: req.token_owner@,
                    },
                )
                &&& final(state).data.tokens_list_by_owner@ == index_given(
                    old(state).data.tokens_list_by_owner@,
                    req.token_owner@,
                    old(state).data.last_token_id,
                )
            },
            _ => {
                &&& r matches Err(MintError::StorageCanisterError(text))
                &&& text@ == failure_text(*outcome)
                &&& final(state).data.last_token_id == old(state).data.last_token_id
                &&& final(state).data.tokens_list@ == old(state).data.tokens_list@
                &&& final(state).data.tokens_list_by_owner@ == old(state).data.tokens_list_by_owner@
            },
        },
{
    let result = match outcome {
        LedgerOutcome::Appended { index } => {
            let token_id: u64 = state.data.last_token_id;
            let new_token = Icrc7Token::new(token_id, req.token_owner);
            state.data.last_token_id = if token_id < u64::MAX {
                token_id + 1
            } else {
                token_id
            };
            state.data.tokens_list.insert(token_id, new_token);
            index_give(&mut state.data.tokens_list_by_owner, req.token_owner, token_id);
            Ok(token_id)
        },
        _ => {
            let text = outcome.failure_message("");
            proof {
                assert(""@ + failure_text(*outcome) =~= failure_text(*outcome)) by {
                    reveal_strlit("");
                }
            }
            Err(MintError::StorageCanisterError(text))
        },
    };
    guard.release(&mut state.principal_guards);
    result
}

/// Why `burn_nft` refuses a request, if it does.
pub open spec fn burn_refusal(state: &RuntimeState, token_id: u64) -> Option<BurnNftError> {
    if !guard_available(state.principal_guards@) {
        Some(BurnNftError::ConcurrentManagementCall)
    } else if !state.data.tokens_list@.contains_key(token_id) {
        Some(BurnNftError::TokenDoesNotExist)
    } else {
        None
    }
}

/// The log entry of the burning of a token of `owner`.
pub open spec fn burn_entry(token_id: u64, owner: AccountView, now: u64) -> TransactionView {
    TransactionView {
        op: Operation::Burn,
        timestamp: now,
        tid: Some(token_id),
        from: Some(owner),
        to: None,
        memo: None,
        created_at_time: Some(now),
        spender: None,
        exp: None,
    }
}

/// The first half of burning a token: the checks. Where one fails the
/// state is as it was. Where none fails the caller holds the guard, and
/// the result is the guard with the entry for the log.
pub fn burn_nft(state: &mut RuntimeState, token_id: u64, caller: &Principal, current_time: u64) -> (r:
    Result<(GuardManagement, Transaction), BurnNftError>)
    requires
        old(state).wf(),
    ensures
        final(state).wf(),
        *final(state) == (RuntimeState { principal_guards: final(state).principal_guards, ..*old(state) }),
        match burn_refusal(old(state), token_id) {
            Some(refusal) => r == Err::<(GuardManagement, Transaction), BurnNftError>(refusal) && final(state).principal_guards@
                == old(state).principal_guards@,
            None => r is Ok && r->Ok_0.0.holder() == caller@ && final(state).principal_guards@ == old(state).principal_guards@.insert(
                caller@,
            ) && r->Ok_0.1@ == burn_entry(
                token_id,
                old(state).data.tokens_list@[token_id].token_owner,
                current_time,
            ),
        },
{
    let guard = match GuardManagement::new(&mut state.principal_guards, *caller) {
        Ok(guard) => guard,
        Err(_) => {
            return Err(BurnNftError::ConcurrentManagementCall);
        },
    };
    proof {
        old(state).principal_guards.lemma_finite();
        assert(old(state).principal_guards@.len() == 0);
        assert(old(state).principal_guards@ =~= Set::<Seq<u8>>::empty());
        assert(old(state).principal_guards@.insert(caller@).remove(caller@) =~= old(state).principal_guards@);
    }
    let owner: Account = match state.data.owner_of(&token_id) {
        Some(owner) => owner,
        None => {
            guard.release(&mut state.principal_guards);
            return Err(BurnNftError::TokenDoesNotExist);
        },
    };
    Ok(
        (
            guard,
            Transaction {
                op: Operation::Burn,
                timestamp: current_time,
                tid: Some(token_id),
                from: Some(owner),
                to: None,
                memo: None,
                created_at_time: Some(current_time),
                spender: None,
                exp: None,
            },
        ),
    )
}

/// The second half of burning a token. Where the log appended the entry
/// the token is gone from the ownership table. Where it did not, its
/// failure is reported and the table stays. In every case the guard is
/// given back.
pub fn burn_nft_commit(
    state: &mut RuntimeState,
    guard: GuardManagement,
    token_id: u64,
    outcome: &LedgerOutcome,
) -> (r: Result<(), BurnNftError>)
    requires
        old(state).wf(),
    ensures
        final(state).wf(),
        *final(state) == (RuntimeState {
            data: final(state).data,
            principal_guards: final(state).principal_guards,
            ..*old(state)
        }),
        final(state).principal_guards@ == old(state).principal_guards@.remove(guard.holder()),
        final(state).data == (Data { tokens_list: final(state).data.tokens_list, ..old(state).data }),
        match *outcome {
            LedgerOutcome::Appended { index } => r is Ok && final(state).data.tokens_list@ == old(state).data.tokens_list@.remove(
                token_id,
            ),
            _ => {
                &&& r matches Err(BurnNftError::StorageCanisterError(text))
                &&& text@ == failure_text(*outcome)
                &&& final(state).data.tokens_list@ == old(state).data.tokens_list@
            },
        },
{
    let result = match outcome {
        LedgerOutcome::Appended { index } => {
            state.data.remove_token_by_id(&token_id);
            Ok(())
        },
        _ => {
            let text = outcome.failure_message("");
            proof {
                assert(""@ + failure_text(*outcome) =~= failure_text(*outcome)) by {
                    reveal_strlit("");
                }
            }
            Err(BurnNftError::StorageCanisterError(text))
        },
    };
    guard.release(&mut state.principal_guards);
    result
}

/// A setting that the request must give to change it: the one given, or
/// the one in force where none is given.
pub open spec fn replaced<T>(current: T, given: Option<T>) -> T {
    match given {
        Some(value) => value,
        None => current,
    }
}

/// A setting that may be unset: the one given, or the one in force where
/// none is given.
pub open spec fn replaced_option<T>(current: Option<T>, given: Option<T>) -> Option<T> {
    match given {
        Some(value) => Some(value),
        None => current,
    }
}

fn set_if_given<T>(slot: &mut T, given: Option<T>)
    ensures
        *final(slot) == replaced(*old(slot), given),
{
    match given {
        Some(value) => {
            *slot = value;
        },
        None => {},
    }
}

fn set_option_if_given<T>(slot: &mut Option<T>, given: Option<T>)
    ensures
        *final(slot) == replaced_option(*old(slot), given),
{
    match given {
        Some(value) => {
            *slot = Some(value);
        },
        None => {},
    }
}

/// The settings after `req` has been applied to `data`. The tables and
/// the lists of principals stay.
pub open spec fn with_settings(
    data: Data,
    req: crate::types::management::update_collection_metadata::Args,
) -> Data {
    Data {
        description: replaced_option(data.description, req.description),
        symbol: replaced(data.symbol, req.symbol),
        name: replaced(data.name, req.name),
        logo: replaced_option(data.logo, req.logo),
        supply_cap: replaced_option(data.supply_cap, req.supply_cap),
        max_query_batch_size: replaced_option(data.max_query_batch_size, req.max_query_batch_size),
        max_update_batch_size: replaced_option(data.max_update_batch_size, req.max_update_batch_size),
        max_take_value: replaced_option(data.max_take_value, req.max_take_value),
        default_take_value: replaced_option(data.default_take_value, req.default_take_value),
        max_memo_size: replaced_option(data.max_memo_size, req.max_memo_size),
        atomic_batch_transfers: replaced_option(data.atomic_batch_transfers, req.atomic_batch_transfers),
        tx_window: replaced_option(data.tx_window, req.tx_window),
        permitted_drift: replaced_option(data.permitted_drift, req.permitted_drift),
        max_canister_storage_threshold: replaced_option(
            data.max_canister_storage_threshold,
            req.max_canister_storage_threshold,
        ),
        ..data
    }
}

/// Changes the settings of the collection: each setting that `req` gives
/// replaces the one in force. The operation is refused, and changes
/// nothing, while another management operation is under way; otherwise it
/// takes the guard and gives it back.
pub fn update_collection_metadata(
    state: &mut RuntimeState,
    req: crate::types::management::update_collection_metadata::Args,
    caller: &Principal,
) -> (r: Result<(), UpdateCollectionMetadataError>)
    requires
        old(state).wf(),
    ensures
        final(state).wf(),
        *final(state) == (RuntimeState {
            data: final(state).data,
            principal_guards: final(state).principal_guards,
            ..*old(state)
        }),
        final(state).principal_guards@ == old(state).principal_guards@,
        if guard_available(old(state).principal_guards@) {
            r is Ok && final(state).data == with_settings(old(state).data, req)
        } else {
            r == Err::<(), UpdateCollectionMetadataError>(
                UpdateCollectionMetadataError::ConcurrentManagementCall,
            ) && final(state).data == old(state).data
        },
{
    let guard = match GuardManagement::new(&mut state.principal_guards, *caller) {
        Ok(guard) => guard,
        Err(_) => {
            return Err(UpdateCollectionMetadataError::ConcurrentManagementCall);
        },
    };
    proof {
        old(state).principal_guards.lemma_finite();
        assert(old(state).principal_guards@.len() == 0);
        assert(old(state).principal_guards@ =~= Set::<Seq<u8>>::empty());
        assert(old(state).principal_guards@.insert(caller@).remove(caller@) =~= old(state).principal_guards@);
    }
    set_option_if_given(&mut state.data.description, req.description);
    set_if_given(&mut state.data.symbol, req.symbol);
    set_if_given(&mut state.data.name, req.name);
    set_option_if_given(&mut state.data.logo, req.logo);
    set_option_if_given(&mut state.data.supply_cap, req.supply_cap);
    set_option_if_given(&mut state.data.max_query_batch_size, req.max_query_batch_size);
    set_option_if_given(&mut state.data.max_update_batch_size, req.max_update_batch_size);
    set_option_if_given(&mut state.data.max_take_value, req.max_take_value);
    set_option_if_given(&mut state.data.default_take_value, req.default_take_value);
    set_option_if_given(&mut state.data.max_memo_size, req.max_memo_size);
    set_option_if_given(&mut state.data.atomic_batch_transfers, req.atomic_batch_transfers);
    set_option_if_given(&mut state.data.tx_window, req.tx_window);
    set_option_if_given(&mut state.data.permitted_drift, req.permitted_drift);
    set_option_if_given(
        &mut state.data.max_canister_storage_threshold,
        req.max_canister_storage_threshold,
    );
    guard.release(&mut state.principal_guards);
    Ok(())
}

/// Whether the principals `list` stand in their order, each once.
pub open spec fn in_order(list: Seq<Principal>) -> bool {
    forall|i: int, j: int| 0 <= i < j < list.len() ==> principal_before(list[i]@, list[j]@)
}

/// Puts `principal` in its place among the principals `list`, unless it
/// is one of them.
fn insert_in_order(list: &mut Vec<Principal>, principal: Principal)
    requires
        in_order(old(list)@),
    ensures
        in_order(final(list)@),
        forall|p: Seq<u8>|
            lists_principal(final(list)@, p) <==> lists_principal(old(list)@, p) || p == principal@,
{
    let ghost before = list@;
    let mut j: usize = 0;
    while j < list.len() && list[j].before(&principal)
        invariant
            j <= list@.len(),
            list@ == before,
            forall|k: int| 0 <= k < j ==> principal_before((#[trigger] list@[k])@, principal@),
        decreases list@.len() - j,
    {
        j = j + 1;
    }
    if j < list.len() && list[j] == principal {
        assert forall|p: Seq<u8>| lists_principal(list@, p) || p == principal@ implies lists_principal(
            list@,
            p,
        ) by {
            assert(list@[j as int]@ == principal@);
        }
        return ;
    }
    list.insert(j, principal);
    proof {
        let after = list@;
        assert forall|a: int, b: int| 0 <= a < b < after.len() implies principal_before(
            after[a]@,
            after[b]@,
        ) by {
            let a0 = if a < j { a } else { a - 1 };
            let b0 = if b < j { b } else { b - 1 };
            if a == j {
                // The one put in comes before all behind it.
                assert(after[b] == before[b0]);
                assert(!principal_before(before[j as int]@, principal@));
                lemma_before_total(before[j as int]@, principal@);
                if b0 > j {
                    assert(principal_before(before[j as int]@, before[b0]@));
                    lemma_before_transitive(principal@, before[j as int]@, before[b0]@);
                }
            } else if b == j {
                assert(after[a] == before[a0]);
            } else {
                assert(after[a] == before[a0] && after[b] == before[b0]);
            }
        }
        assert forall|p: Seq<u8>| lists_principal(after, p) <==> lists_principal(before, p) || p
            == principal@ by {
            if lists_principal(after, p) {
                let i = choose|i: int| 0 <= i < after.len() && (#[trigger] after[i])@ == p;
                if i != j {
                    let i0 = if i < j { i } else { i - 1 };
                    assert(before[i0]@ == p);
                }
            }
            if lists_principal(before, p) {
                let i0 = choose|i: int| 0 <= i < before.len() && (#[trigger] before[i])@ == p;
                let i = if i0 < j { i0 } else { i0 + 1 };
                assert(after[i]@ == p);
            }
            if p == principal@ {
                assert(after[j as int]@ == p);
            }
        }
    }
}

/// The principals of `requested` and of `previous` together, in their
/// order, each once.
pub fn merged_principals(requested: &Vec<Principal>, previous: &Vec<Principal>) -> (r: Vec<Principal>)
    ensures
        in_order(r@),
        forall|p: Seq<u8>|
            lists_principal(r@, p) <==> lists_principal(requested@, p) || lists_principal(
                previous@,
                p,
            ),
{
    let mut merged: Vec<Principal> = Vec::new();
    let mut i: usize = 0;
    while i < requested.len()
        invariant
            i <= requested@.len(),
            in_order(merged@),
            forall|p: Seq<u8>|
                lists_principal(merged@, p) <==> lists_principal(requested@.take(i as int), p),
        decreases requested@.len() - i,
    {
        insert_in_order(&mut merged, requested[i]);
        proof {
            lemma_lists_one_more(requested@, i as int);
        }
        i = i + 1;
    }
    assert(requested@.take(requested@.len() as int) =~= requested@);
    let mut k: usize = 0;
    while k < previous.len()
        invariant
            k <= previous@.len(),
            in_order(merged@),
            forall|p: Seq<u8>|
                lists_principal(merged@, p) <==> lists_principal(requested@, p) || lists_principal(
                    previous@.take(k as int),
                    p,
                ),
        decreases previous@.len() - k,
    {
        insert_in_order(&mut merged, previous[k]);
        proof {
            lemma_lists_one_more(previous@, k as int);
        }
        k = k + 1;
    }
    assert(previous@.take(previous@.len() as int) =~= previous@);
    merged
}

/// The first `i + 1` of a list hold what its first `i` hold, and the one
/// at `i`.
pub proof fn lemma_lists_one_more(list: Seq<Principal>, i: int)
    requires
        0 <= i < list.len(),
    ensures
        forall|p: Seq<u8>|
            lists_principal(list.take(i + 1), p) <==> lists_principal(list.take(i), p) || p
                == list[i]@,
{
    let more = list.take(i + 1);
    let fewer = list.take(i);
    assert forall|p: Seq<u8>| lists_principal(more, p) <==> lists_principal(fewer, p) || p
        == list[i]@ by {
        if lists_principal(more, p) {
            let w = choose|w: int| 0 <= w < more.len() && (#[trigger] more[w])@ == p;
            if w < i {
                assert(fewer[w]@ == p);
            }
        }
        if lists_principal(fewer, p) {
            let w = choose|w: int| 0 <= w < fewer.len() && (#[trigger] fewer[w])@ == p;
            assert(more[w]@ == p);
        }
        if p == list[i]@ {
            assert(more[i]@ == p);
        }
    }
}

/// Those of `list` that are none of `removed`, in the order of `list`.
pub open spec fn without_principals(list: Seq<Principal>, removed: Seq<Principal>) -> Seq<Principal>
    decreases list.len(),
{
    if list.len() == 0 {
        list
    } else if lists_principal(removed, list.last()@) {
        without_principals(list.drop_last(), removed)
    } else {
        without_principals(list.drop_last(), removed).push(list.last())
    }
}

/// What is left holds none of those removed, and all else that was there.
pub proof fn lemma_without_principals(list: Seq<Principal>, removed: Seq<Principal>)
    ensures
        forall|p: Seq<u8>|
            lists_principal(without_principals(list, removed), p) <==> lists_principal(list, p)
                && !lists_principal(removed, p),
    decreases list.len(),
{
    let left = without_principals(list, removed);
    if list.len() > 0 {
        let rest = list.drop_last();
        let before = without_principals(rest, removed);
        lemma_without_principals(rest, removed);
        assert forall|p: Seq<u8>| lists_principal(left, p) <==> lists_principal(list, p)
            && !lists_principal(removed, p) by {
            assert(lists_principal(before, p) <==> lists_principal(rest, p) && !lists_principal(
                removed,
                p,
            ));
            if lists_principal(left, p) {
                let w = choose|w: int| 0 <= w < left.len() && (#[trigger] left[w])@ == p;
                if w < before.len() {
                    assert(before[w]@ == p);
                    let v = choose|v: int| 0 <= v < rest.len() && (#[trigger] rest[v])@ == p;
                    assert(list[v]@ == p);
                } else {
                    assert(list[list.len() - 1]@ == p);
                }
            }
            if lists_principal(list, p) && !lists_principal(removed, p) {
                let v = choose|v: int| 0 <= v < list.len() && (#[trigger] list[v])@ == p;
                if v < rest.len() {
                    assert(rest[v]@ == p);
                    let w = choose|w: int| 0 <= w < before.len() && (#[trigger] before[w])@ == p;
                    assert(left[w]@ == p);
                } else {
                    assert(left[before.len() as int]@ == p);
                }
            }
        }
    }
}

/// Those of `list` that are none of `removed`, in the order of `list`.
pub fn remaining_principals(list: &Vec<Principal>, removed: &Vec<Principal>) -> (r: Vec<Principal>)
    ensures
        r@ == without_principals(list@, removed@),
{
    let mut left: Vec<Principal> = Vec::new();
    let mut i: usize = 0;
    while i < list.len()
        invariant
            i <= list@.len(),
            left@ == without_principals(list@.take(i as int), removed@),
        decreases list@.len() - i,
    {
        proof {
            assert(list@.take(i + 1).drop_last() =~= list@.take(i as int));
            assert(list@.take(i + 1).last() == list@[i as int]);
        }
        if !contains_principal(removed, &list[i]) {
            left.push(list[i]);
        }
        i = i + 1;
    }
    assert(list@.take(list@.len() as int) =~= list@);
    left
}

/// Adds the principals that `req` names to the minting authorities. The
/// list is then in the order of principals and names each authority once.
/// The operation is refused, and changes nothing, while another management
/// operation is under way; otherwise it takes the guard and gives it back.
pub fn update_minting_authorities(
    state: &mut RuntimeState,
    req: &crate::types::management::update_minting_authorities::Args,
    caller: &Principal,
) -> (r: Result<(), UpdateMintingAuthoritiesError>)
    requires
        old(state).wf(),
    ensures
        final(state).wf(),
        *final(state) == (RuntimeState {
            data: final(state).data,
            principal_guards: final(state).principal_guards,
            ..*old(state)
        }),
        final(state).principal_guards@ == old(state).principal_guards@,
        final(state).data == (Data {
            minting_authorities: final(state).data.minting_authorities,
            ..old(state).data
        }),
        if guard_available(old(state).principal_guards@) {
            &&& r is Ok
            &&& in_order(final(state).data.minting_authorities@)
            &&& forall|p: Seq<u8>|
                lists_principal(final(state).data.minting_authorities@, p) <==> lists_principal(
                    req.minting_authorities@,
                    p,
                ) || lists_principal(old(state).data.minting_authorities@, p)
        } else {
            r == Err::<(), UpdateMintingAuthoritiesError>(
                UpdateMintingAuthoritiesError::ConcurrentManagementCall,
            ) && final(state).data.minting_authorities == old(state).data.minting_authorities
        },
{
    let guard = match GuardManagement::new(&mut state.principal_guards, *caller) {
        Ok(guard) => guard,
        Err(_) => {
            return Err(UpdateMintingAuthoritiesError::ConcurrentManagementCall);
        },
    };
    proof {
        old(state).principal_guards.lemma_finite();
        assert(old(state).principal_guards@.len() == 0);
        assert(old(state).principal_guards@ =~= Set::<Seq<u8>>::empty());
        assert(old(state).principal_guards@.insert(caller@).remove(caller@) =~= old(state).principal_guards@);
    }
    let merged = merged_principals(&req.minting_authorities, &state.data.minting_authorities);
    state.data.minting_authorities = merged;
    guard.release(&mut state.principal_guards);
    Ok(())
}

/// Takes the principals that `req` names from the minting authorities;
/// the others stay, in their order. The operation is refused, and changes
/// nothing, while another management operation is under way; otherwise it
/// takes the guard and gives it back.
pub fn remove_minting_authorities(
    state: &mut RuntimeState,
    req: &crate::types::management::remove_minting_authorities::Args,
    caller: &Principal,
) -> (r: Result<(), RemoveMintingAuthoritiesError>)
    requires
        old(state).wf(),
    ensures
        final(state).wf(),
        *final(state) == (RuntimeState {
            data: final(state).data,
            principal_guards: final(state).principal_guards,
            ..*old(state)
        }),
        final(state).principal_guards@ == old(state).principal_guards@,
        final(state).data == (Data {
            minting_authorities: final(state).data.minting_authorities,
            ..old(state).data
        }),
        if guard_available(old(state).principal_guards@) {
            r is Ok && final(state).data.minting_authorities@ == without_principals(
                old(state).data.minting_authorities@,
                req.minting_authorities@,
            )
        } else {
            r == Err::<(), RemoveMintingAuthoritiesError>(
                RemoveMintingAuthoritiesError::ConcurrentManagementCall,
            ) && final(state).data.minting_authorities == old(state).data.minting_authorities
        },
{
    let guard = match GuardManagement::new(&mut state.principal_guards, *caller) {
        Ok(guard) => guard,
        Err(_) => {
            return Err(RemoveMintingAuthoritiesError::ConcurrentManagementCall);
        },
    };
    proof {
        old(state).principal_guards.lemma_finite();
        assert(old(state).principal_guards@.len() == 0);
        assert(old(state).principal_guards@ =~= Set::<Seq<u8>>::empty());
        assert(old(state).principal_guards@.insert(caller@).remove(caller@) =~= old(state).principal_guards@);
    }
    let left = remaining_principals(&state.data.minting_authorities, &req.minting_authorities);
    state.data.minting_authorities = left;
    guard.release(&mut state.principal_guards);
    Ok(())
}

/// Adds the principals that `req` names to the authorized principals. The
/// list is then in the order of principals and names each of them once.
/// The operation is refused, and changes nothing, while another management
/// operation is under way; otherwise it takes the guard and gives it back.
pub fn update_authorized_principals(
    state: &mut RuntimeState,
    req: &crate::types::management::update_authorized_principals::Args,
    caller: &Principal,
) -> (r: Result<(), UpdateAuthorizedPrincipalsError>)
    requires
        old(state).wf(),
    ensures
        final(state).wf(),
        *final(state) == (RuntimeState {
            data: final(state).data,
            principal_guards: final(state).principal_guards,
            ..*old(state)
        }),
        final(state).principal_guards@ == old(state).principal_guards@,
        final(state).data == (Data {
            authorized_principals: final(state).data.authorized_principals,
            ..old(state).data
        }),
        if guard_available(old(state).principal_guards@) {
            &&& r is Ok
            &&& in_order(final(state).data.authorized_principals@)
            &&& forall|p: Seq<u8>|
                lists_principal(final(state).data.authorized_principals@, p) <==> lists_principal(
                    req.authorized_principals@,
                    p,
                ) || lists_principal(old(state).data.authorized_principals@, p)
        } else {
            r == Err::<(), UpdateAuthorizedPrincipalsError>(
                UpdateAuthorizedPrincipalsError::ConcurrentManagementCall,
            ) && final(state).data.authorized_principals == old(state).data.authorized_principals
        },
{
    let guard = match GuardManagement::new(&mut state.principal_guards, *caller) {
        Ok(guard) => guard,
        Err(_) => {
            return Err(UpdateAuthorizedPrincipalsError::ConcurrentManagementCall);
        },
    };
    proof {
        old(state).principal_guards.lemma_finite();
        assert(old(state).principal_guards@.len() == 0);
        assert(old(state).principal_guards@ =~= Set::<Seq<u8>>::empty());
        assert(old(state).principal_guards@.insert(caller@).remove(caller@) =~= old(state).principal_guards@);
    }
    let merged = merged_principals(&req.authorized_principals, &state.data.authorized_principals);
    state.data.authorized_principals = merged;
    guard.release(&mut state.principal_guards);
    Ok(())
}

/// Takes the principals that `req` names from the authorized principals;
/// the others stay, in their order. The operation is refused, and changes
/// nothing, while another management operation is under way; otherwise it
/// takes the guard and gives it back.
pub fn remove_authorized_principals(
    state: &mut RuntimeState,
    req: &crate::types::management::remove_authorized_principals::Args,
    caller: &Principal,
) -> (r: Result<(), RemoveAuthorizedPrincipalsError>)
    requires
        old(state).wf(),
    ensures
        final(state).wf(),
        *final(state) == (RuntimeState {
            data: final(state).data,
            principal_guards: final(state).principal_guards,
            ..*old(state)
        }),
        final(state).principal_guards@ == old(state).principal_guards@,
        final(state).data == (Data {
            authorized_principals: final(state).data.authorized_principals,
            ..old(state).data
        }),
        if guard_available(old(state).principal_guards@) {
            r is Ok && final(state).data.authorized_principals@ == without_principals(
                old(state).data.authorized_principals@,
                req.authorized_principals@,
            )
        } else {
            r == Err::<(), RemoveAuthorizedPrincipalsError>(
                RemoveAuthorizedPrincipalsError::ConcurrentManagementCall,
            ) && final(state).data.authorized_principals == old(state).data.authorized_principals
        },
{
    let guard = match GuardManagement::new(&mut state.principal_guards, *caller) {
        Ok(guard) => guard,
        Err(_) => {
            return Err(RemoveAuthorizedPrincipalsError::ConcurrentManagementCall);
        },
    };
    proof {
        old(state).principal_guards.lemma_finite();
        assert(old(state).principal_guards@.len() == 0);
        assert(old(state).principal_guards@ =~= Set::<Seq<u8>>::empty());
        assert(old(state).principal_guards@.insert(caller@).remove(caller@) =~= old(state).principal_guards@);
    }
    let left = remaining_principals(&state.data.authorized_principals, &req.authorized_principals);
    state.data.authorized_principals = left;
    guard.release(&mut state.principal_guards);
    Ok(())
}

} // verus!
