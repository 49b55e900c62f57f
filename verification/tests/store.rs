use core_nft::approvals::{
    check_collection_approval, check_token_approval, clear_collection_approvals,
    clear_token_approvals, collection_cap_reached, put_collection_approval, put_token_approval,
    revoke_collection_spenders, revoke_token_spenders, token_cap_reached,
    upsert_collection_approval, upsert_token_approval, CapExceeded,
};
use core_nft::state::{Data, InitApprovalsArg, RuntimeState};
use core_nft::types::account::{Account, Principal};
use core_nft::types::icrc37::{
    init_collection_approvals, init_token_approvals, Approval, ApprovalInfo, ApproveCollectionArg,
    ApproveCollectionError, ApproveTokenArg, ApproveTokenError, RevokeCollectionApprovalArg,
    RevokeCollectionApprovalError, RevokeTokenApprovalArg, RevokeTokenApprovalError,
    TransferFromArg, TransferFromError,
};
use core_nft::types::ledger::LedgerOutcome;
use core_nft::types::management::mint::Args as MintArgs;
use core_nft::types::nft::Icrc7Token;
use core_nft::updates::icrc37::{
    approve_collection, approve_collection_commit, approve_token, batch_prefix,
    icrc37_revoke_token_approvals, revoke_collection_approvals, revoke_collection_approvals_commit,
    revoke_token_approvals, transfer_from, COLLECTION_KEY,
};
use core_nft::updates::management::{mint, mint_commit};

const MS: u64 = 1_000_000;
const SECOND: u64 = 1_000_000_000;

fn principal(tag: u8) -> Principal {
    Principal::try_from_slice(&[tag, 1, 2, 3]).unwrap()
}

fn account(tag: u8) -> Account {
    Account::new(principal(tag), None)
}

fn approval(from: u8, spender: u8, expires_at: Option<u64>, created_at: u64) -> Approval {
    Approval { spender: account(spender), from: account(from), expires_at, created_at, memo: None }
}

fn new_state() -> RuntimeState {
    let mut state = RuntimeState::new(Data::new(
        vec![],
        vec![principal(201)],
        None,
        "SYM".to_string(),
        "Name".to_string(),
        None,
        None,
        None,
        None,
        None,
        None,
        None,
        None,
        None,
        None,
        None,
        InitApprovalsArg { max_approvals_per_token_or_collection: None, max_revoke_approvals: None },
    ));
    let req = MintArgs { token_owner: account(1), memo: None };
    let (guard, _) = mint(&mut state, &req, &principal(201), SECOND).unwrap();
    mint_commit(&mut state, guard, &req, &LedgerOutcome::Appended { index: 0 }).unwrap();
    state
}

fn info(spender: Account, created_at_time: u64) -> ApprovalInfo {
    ApprovalInfo { spender, from_subaccount: None, expires_at: None, memo: None, created_at_time }
}

#[test]
fn the_store_puts_and_caps_approvals_on_tokens() {
    let mut store = init_token_approvals();
    assert_eq!(store.len(), 0);
    assert!(!token_cap_reached(&store, 1, &account(2), 2));
    assert!(token_cap_reached(&store, 1, &account(2), 0));
    assert_eq!(upsert_token_approval(&mut store, 1, account(2), approval(1, 2, None, 10), 2), Ok(()));
    assert_eq!(upsert_token_approval(&mut store, 1, account(3), approval(1, 3, None, 11), 2), Ok(()));
    assert!(token_cap_reached(&store, 1, &account(4), 2));
    assert!(!token_cap_reached(&store, 1, &account(3), 2));
    assert!(!token_cap_reached(&store, 2, &account(4), 2));
    assert_eq!(
        upsert_token_approval(&mut store, 1, account(4), approval(1, 4, None, 12), 2),
        Err(CapExceeded)
    );
    assert_eq!(store.get(1).unwrap().len(), 2);
    assert_eq!(
        upsert_token_approval(&mut store, 1, account(3), approval(1, 3, Some(99), 13), 2),
        Ok(())
    );
    let spenders = store.get(1).unwrap();
    assert_eq!(spenders.len(), 2);
    assert_eq!(spenders.key_at(1), account(3));
    assert_eq!(spenders.get(&account(3)).unwrap().expires_at, Some(99));
    assert_eq!(upsert_token_approval(&mut store, 2, account(4), approval(1, 4, None, 14), 0), Err(CapExceeded));
    assert!(store.get(2).is_none());
    // Putting does not ask for the cap.
    put_token_approval(&mut store, 1, account(4), approval(1, 4, None, 15));
    assert_eq!(store.get(1).unwrap().len(), 3);
}

#[test]
fn the_store_puts_and_caps_approvals_on_collections() {
    let mut store = init_collection_approvals();
    assert!(!collection_cap_reached(&store, &account(1), &account(2), 1));
    assert_eq!(
        upsert_collection_approval(&mut store, account(1), account(2), approval(1, 2, None, 10), 1),
        Ok(())
    );
    assert_eq!(
        upsert_collection_approval(&mut store, account(5), account(2), approval(5, 2, None, 11), 1),
        Ok(())
    );
    assert!(collection_cap_reached(&store, &account(1), &account(3), 1));
    assert!(!collection_cap_reached(&store, &account(1), &account(2), 1));
    assert_eq!(
        upsert_collection_approval(&mut store, account(1), account(3), approval(1, 3, None, 12), 1),
        Err(CapExceeded)
    );
    assert_eq!(
        upsert_collection_approval(&mut store, account(1), account(2), approval(1, 2, Some(7), 13), 1),
        Ok(())
    );
    assert_eq!(store.len(), 2);
    // The owner's entry kept its place.
    assert_eq!(store.key_at(0), account(1));
    assert_eq!(store.get(&account(1)).unwrap().get(&account(2)).unwrap().expires_at, Some(7));
    put_collection_approval(&mut store, account(1), account(3), approval(1, 3, None, 14));
    assert_eq!(store.get(&account(1)).unwrap().len(), 2);
    assert_eq!(store.get(&account(5)).unwrap().len(), 1);
}

#[test]
fn the_store_revokes_and_clears() {
    let mut tokens = init_token_approvals();
    put_token_approval(&mut tokens, 1, account(2), approval(1, 2, None, 10));
    put_token_approval(&mut tokens, 1, account(3), approval(1, 3, None, 11));
    put_token_approval(&mut tokens, 2, account(3), approval(1, 3, None, 12));
    revoke_token_spenders(&mut tokens, 1, &Some(account(9)));
    assert_eq!(tokens.get(1).unwrap().len(), 2);
    revoke_token_spenders(&mut tokens, 1, &Some(account(2)));
    assert_eq!(tokens.get(1).unwrap().len(), 1);
    assert!(tokens.get(1).unwrap().get(&account(3)).is_some());
    revoke_token_spenders(&mut tokens, 1, &None);
    assert_eq!(tokens.get(1).unwrap().len(), 0);
    revoke_token_spenders(&mut tokens, 7, &None);
    assert_eq!(tokens.get(7).unwrap().len(), 0);
    assert_eq!(tokens.get(2).unwrap().len(), 1);
    clear_token_approvals(&mut tokens, 2);
    assert!(tokens.get(2).is_none());
    clear_token_approvals(&mut tokens, 2);
    assert_eq!(tokens.len(), 2);

    let mut collections = init_collection_approvals();
    put_collection_approval(&mut collections, account(1), account(2), approval(1, 2, None, 10));
    put_collection_approval(&mut collections, account(1), account(3), approval(1, 3, None, 11));
    put_collection_approval(&mut collections, account(5), account(3), approval(5, 3, None, 12));
    revoke_collection_spenders(&mut collections, account(1), &Some(account(3)));
    assert_eq!(collections.get(&account(1)).unwrap().len(), 1);
    assert!(collections.get(&account(1)).unwrap().get(&account(2)).is_some());
    revoke_collection_spenders(&mut collections, account(1), &None);
    assert_eq!(collections.get(&account(1)).unwrap().len(), 0);
    assert_eq!(collections.key_at(0), account(1));
    assert_eq!(collections.get(&account(5)).unwrap().len(), 1);
    clear_collection_approvals(&mut collections, &account(5));
    assert!(collections.get(&account(5)).is_none());
    assert_eq!(collections.len(), 1);
}

#[test]
fn looking_for_an_approval_drops_it_once_it_has_expired() {
    let mut tokens = init_token_approvals();
    put_token_approval(&mut tokens, 1, account(2), approval(1, 2, Some(100), 10));
    put_token_approval(&mut tokens, 1, account(3), approval(1, 3, None, 11));
    assert!(check_token_approval(&mut tokens, 1, &account(2), 99));
    assert!(check_token_approval(&mut tokens, 1, &account(3), u64::MAX));
    assert!(!check_token_approval(&mut tokens, 1, &account(4), 99));
    assert!(!check_token_approval(&mut tokens, 2, &account(2), 99));
    assert_eq!(tokens.get(1).unwrap().len(), 2);
    assert!(!check_token_approval(&mut tokens, 1, &account(2), 100));
    assert_eq!(tokens.get(1).unwrap().len(), 1);
    assert!(!check_token_approval(&mut tokens, 1, &account(2), 50));

    let mut collections = init_collection_approvals();
    put_collection_approval(&mut collections, account(1), account(2), approval(1, 2, Some(100), 10));
    put_collection_approval(&mut collections, account(5), account(2), approval(5, 2, Some(100), 10));
    put_collection_approval(&mut collections, account(5), account(3), approval(5, 3, Some(200), 10));
    assert!(check_collection_approval(&mut collections, &account(1), &account(2), 99));
    assert!(!check_collection_approval(&mut collections, &account(1), &account(3), 99));
    assert!(!check_collection_approval(&mut collections, &account(9), &account(2), 99));
    assert!(!check_collection_approval(&mut collections, &account(5), &account(2), 150));
    assert_eq!(collections.get(&account(5)).unwrap().len(), 1);
    assert_eq!(collections.key_at(1), account(5));
    assert!(check_collection_approval(&mut collections, &account(5), &account(3), 150));
    assert!(!check_collection_approval(&mut collections, &account(1), &account(2), 150));
    assert!(collections.get(&account(1)).is_none());
    assert_eq!(collections.len(), 1);
}

#[test]
fn the_remaining_refusals_of_approvals() {
    let mut state = new_state();
    let now = 100 * SECOND;
    let anonymous = Account::new(Principal::anonymous(), None);

    let arg = ApproveCollectionArg { approval_info: info(anonymous, now) };
    assert_eq!(
        approve_collection(&mut state, &arg, &principal(1), now).err(),
        Some(ApproveCollectionError::InvalidSpender)
    );
    let arg = ApproveCollectionArg { approval_info: info(account(2), now + 51 * MS) };
    assert_eq!(
        approve_collection(&mut state, &arg, &principal(1), now).err(),
        Some(ApproveCollectionError::CreatedInFuture { ledger_time: now })
    );
    let arg = ApproveCollectionArg { approval_info: info(account(2), now - 11 * SECOND) };
    assert_eq!(
        approve_collection(&mut state, &arg, &principal(1), now).err(),
        Some(ApproveCollectionError::TooOld)
    );
    let arg = ApproveCollectionArg { approval_info: info(account(2), now) };
    assert!(approve_collection(&mut state, &arg, &principal(1), now).is_ok());
    let answer = approve_collection_commit(
        &mut state,
        &arg,
        &principal(1),
        now,
        &LedgerOutcome::Failed { reason: "down".to_string() },
    );
    assert_eq!(
        answer,
        Err(ApproveCollectionError::GenericError {
            error_code: 1,
            message: "Failed to log transaction: down".to_string(),
        })
    );
    assert_eq!(state.collection_approvals.len(), 0);
    assert!(approve_collection(&mut state, &arg, &principal(1), now).is_ok());
    // The sixth call on the collection within the window.
    assert_eq!(
        approve_collection(&mut state, &arg, &principal(1), now + MS).err(),
        Some(ApproveCollectionError::GenericError {
            error_code: 0,
            message: "Rate limit exceeded. You can make another call in 59 milliseconds".to_string(),
        })
    );
    assert_eq!(state.sliding_window_guards.get(&COLLECTION_KEY).unwrap().len(), 5);

    let token = ApproveTokenArg { token_id: 1, approval_info: info(account(2), now) };
    for call in 0..5u64 {
        assert!(approve_token(&mut state, &token, &principal(1), now + call).is_ok());
    }
    assert_eq!(
        approve_token(&mut state, &token, &principal(1), now + 10).err(),
        Some(ApproveTokenError::GenericError {
            error_code: 0,
            message: "Rate limit exceeded. You can make another call in 60 milliseconds".to_string(),
        })
    );
}

#[test]
fn the_remaining_refusals_of_revocations_and_transfers() {
    let mut state = new_state();
    let now = 100 * SECOND;
    put_token_approval(&mut state.token_approvals, 1, account(2), approval(1, 2, None, now));
    put_collection_approval(&mut state.collection_approvals, account(1), account(2), approval(1, 2, None, now));

    let mut revoke = RevokeTokenApprovalArg {
        spender: None,
        from_subaccount: None,
        token_id: 1,
        memo: None,
        created_at_time: Some(now + 51 * MS),
    };
    assert_eq!(
        revoke_token_approvals(&state, &revoke, &principal(1), now).err(),
        Some(RevokeTokenApprovalError::CreatedInFuture { ledger_time: now })
    );
    revoke.created_at_time = Some(now);
    assert!(revoke_token_approvals(&state, &revoke, &principal(1), now).is_ok());
    let batch = vec![revoke.clone()];
    for call in 0..5u64 {
        assert_eq!(icrc37_revoke_token_approvals(&mut state, Some(batch[0].token_id), batch.len(), now + call), Ok(1));
    }
    assert_eq!(
        icrc37_revoke_token_approvals(&mut state, Some(batch[0].token_id), batch.len(), now + 5),
        Err(RevokeTokenApprovalError::GenericError {
            error_code: 0,
            message: "Rate limit exceeded. You can make another call in 60 milliseconds".to_string(),
        })
    );

    let mut revoke = RevokeCollectionApprovalArg {
        spender: None,
        from_subaccount: None,
        memo: None,
        created_at_time: Some(now - 10 * SECOND - 1),
    };
    assert_eq!(
        revoke_collection_approvals(&state, &revoke, &principal(1), now).err(),
        Some(RevokeCollectionApprovalError::TooOld)
    );
    revoke.created_at_time = None;
    // The approvals of a collection are kept under the account that granted them.
    revoke.from_subaccount = Some([1u8; 32]);
    assert_eq!(
        revoke_collection_approvals(&state, &revoke, &principal(1), now).err(),
        Some(RevokeCollectionApprovalError::ApprovalDoesNotExist)
    );
    revoke.from_subaccount = None;
    let answer = revoke_collection_approvals_commit(
        &mut state,
        &revoke,
        &principal(1),
        &LedgerOutcome::Duplicate { duplicate_of: 8 },
    );
    assert_eq!(
        answer,
        Err(RevokeCollectionApprovalError::GenericError {
            error_code: 1,
            message: "Failed to log transaction: DuplicateTransaction { duplicate_of: 8 }".to_string(),
        })
    );
    assert_eq!(state.collection_approvals.get(&account(1)).unwrap().len(), 1);

    let later = now + SECOND;
    let mut transfer = TransferFromArg {
        spender_subaccount: None,
        from: account(1),
        to: account(3),
        token_id: 1,
        memo: None,
        created_at_time: Some(later - 10 * SECOND - 1),
    };
    assert_eq!(
        transfer_from(&mut state, &transfer, &principal(2), later).err(),
        Some(TransferFromError::TooOld)
    );
    transfer.created_at_time = None;
    for call in 1..5u64 {
        assert!(transfer_from(&mut state, &transfer, &principal(2), later + call).is_ok());
    }
    assert_eq!(
        transfer_from(&mut state, &transfer, &principal(2), later + 5).err(),
        Some(TransferFromError::GenericError {
            error_code: 0,
            message: "Rate limit exceeded. You can make another call in 60 milliseconds".to_string(),
        })
    );
    // A spender who acts from a subaccount needs an approval for that account.
    transfer.spender_subaccount = Some([4u8; 32]);
    assert_eq!(
        transfer_from(&mut state, &transfer, &principal(2), later + SECOND).err(),
        Some(TransferFromError::Unauthorized)
    );
}

#[test]
fn tokens_leave_the_table() {
    let mut state = new_state();
    state.data.add_token(&Icrc7Token::new(5, account(2)));
    assert_eq!(state.data.remove_token_by_id(&1).map(|token| token.token_owner), Some(account(1)));
    assert!(state.data.remove_token_by_id(&1).is_none());
    assert_eq!(state.data.total_supply(), 1);
    assert_eq!(state.data.owner_of(&5), Some(account(2)));
    assert_eq!(batch_prefix(3, 10), 3);
    assert_eq!(batch_prefix(10, 10), 10);
    assert_eq!(batch_prefix(11, 10), 10);
    assert_eq!(batch_prefix(4, 0), 0);
    assert_eq!(batch_prefix(0, u64::MAX), 0);
}
