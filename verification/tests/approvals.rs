use core_nft::queries::icrc37::{
    icrc37_get_collection_approvals, icrc37_get_token_approvals, icrc37_is_approved,
    icrc37_max_approvals_per_token_or_collection, icrc37_max_revoke_approvals, is_approved,
};
use core_nft::state::{Data, InitApprovalsArg, RuntimeState};
use core_nft::types::account::{Account, Principal};
use core_nft::types::icrc37::{
    ApprovalInfo, ApproveCollectionArg, ApproveCollectionError, ApproveTokenArg, ApproveTokenError,
    IsApprovedArg, RevokeCollectionApprovalArg, RevokeCollectionApprovalError,
    RevokeTokenApprovalArg, RevokeTokenApprovalError, TokenApproval, TransferFromArg,
    TransferFromError,
};
use core_nft::types::ledger::{LedgerOutcome, Operation};
use core_nft::types::management::mint::Args as MintArgs;
use core_nft::updates::icrc37::{
    approve_collection, approve_collection_commit, approve_token, approve_token_commit,
    icrc37_revoke_collection_approvals, icrc37_revoke_token_approvals,
    revoke_collection_approvals, revoke_collection_approvals_commit, revoke_token_approvals,
    revoke_token_approvals_commit, transfer_from, transfer_from_commit,
};
use core_nft::updates::management::{mint, mint_commit};

const MS: u64 = 1_000_000;
const SECOND: u64 = 1_000_000_000;

fn principal(tag: u8) -> Principal {
    Principal::try_from_slice(&[tag, 1, 2, 3]).unwrap()
}

fn account(tag: u8) -> Account {
    Account::new(principal(tag), None)
}

fn new_state(cap: Option<u64>, revoke_cap: Option<u64>) -> RuntimeState {
    RuntimeState::new(Data::new(
        vec![principal(200)],
        vec![principal(201)],
        None,
        "SYM".to_string(),
        "Name".to_string(),
        None,
        None,
        None,
        None,
        None,
        None,
        None,
        None,
        None,
        None,
        None,
        InitApprovalsArg {
            max_approvals_per_token_or_collection: cap,
            max_revoke_approvals: revoke_cap,
        },
    ))
}

/// Mints a token for `owner` and hands back its identifier.
fn mint_for(state: &mut RuntimeState, owner: Account, now: u64, index: u64) -> u64 {
    let req = MintArgs { token_owner: owner, memo: None };
    let (guard, entry) = mint(state, &req, &principal(201), now).unwrap();
    assert_eq!(entry.op, Operation::Mint);
    mint_commit(state, guard, &req, &LedgerOutcome::Appended { index }).unwrap()
}

fn info(spender: Account, expires_at: Option<u64>, created_at_time: u64) -> ApprovalInfo {
    ApprovalInfo { spender, from_subaccount: None, expires_at, memo: None, created_at_time }
}

/// Approves `spender` for `token_id` on behalf of `owner`, the log
/// answering with `index`.
fn approve(
    state: &mut RuntimeState,
    owner: u8,
    token_id: u64,
    spender: Account,
    expires_at: Option<u64>,
    now: u64,
    index: u64,
) -> Result<u64, ApproveTokenError> {
    let arg = ApproveTokenArg { token_id, approval_info: info(spender, expires_at, now) };
    approve_token(state, &arg, &principal(owner), now)?;
    approve_token_commit(state, &arg, &principal(owner), now, &LedgerOutcome::Appended { index })
}

fn approve_all(
    state: &mut RuntimeState,
    owner: u8,
    spender: Account,
    expires_at: Option<u64>,
    now: u64,
    index: u64,
) -> Result<u64, ApproveCollectionError> {
    let arg = ApproveCollectionArg { approval_info: info(spender, expires_at, now) };
    approve_collection(state, &arg, &principal(owner), now)?;
    approve_collection_commit(state, &arg, &principal(owner), now, &LedgerOutcome::Appended { index })
}

fn question(spender: Account, token_id: u64) -> IsApprovedArg {
    IsApprovedArg { spender, from_subaccount: None, token_id }
}

fn move_from(from: Account, to: Account, token_id: u64) -> TransferFromArg {
    TransferFromArg {
        spender_subaccount: None,
        from,
        to,
        token_id,
        memo: None,
        created_at_time: None,
    }
}

#[test]
fn mint_then_approve_then_transfer_from() {
    let mut state = new_state(None, None);
    let (a, b, c) = (account(1), account(2), account(3));
    let id = mint_for(&mut state, a, SECOND, 0);
    assert_eq!(id, 1);
    assert_eq!(state.data.owner_of(&1), Some(a));

    let arg = ApproveTokenArg { token_id: 1, approval_info: info(b, None, 2 * SECOND) };
    let entry = approve_token(&mut state, &arg, &principal(1), 2 * SECOND).unwrap();
    assert_eq!(entry.op, Operation::ApproveToken);
    assert_eq!(entry.timestamp, 2 * SECOND);
    assert_eq!(entry.tid, Some(1));
    assert_eq!(entry.from, Some(a));
    assert_eq!(entry.to, None);
    assert_eq!(entry.spender, Some(b));
    assert_eq!(entry.created_at_time, Some(2 * SECOND));
    assert_eq!(entry.exp, None);
    let answer = approve_token_commit(
        &mut state,
        &arg,
        &principal(1),
        2 * SECOND,
        &LedgerOutcome::Appended { index: 1 },
    );
    assert_eq!(answer, Ok(1));
    assert_eq!(icrc37_is_approved(&state, &vec![question(b, 1)], 3 * SECOND), vec![true]);

    let transfer = move_from(a, c, 1);
    let entry = transfer_from(&mut state, &transfer, &principal(2), 3 * SECOND).unwrap();
    assert_eq!(entry.op, Operation::TransferFrom);
    assert_eq!(entry.from, Some(a));
    assert_eq!(entry.to, Some(c));
    assert_eq!(entry.spender, Some(b));
    let answer = transfer_from_commit(&mut state, &transfer, &LedgerOutcome::Appended { index: 2 });
    assert_eq!(answer, Ok(2));

    assert_eq!(state.data.owner_of(&1), Some(c));
    assert!(state.token_approvals.get(1).is_none());
    assert!(icrc37_get_token_approvals(&state, 1, &None, None, 4 * SECOND).is_empty());
    assert_eq!(icrc37_is_approved(&state, &vec![question(b, 1)], 4 * SECOND), vec![false]);
}

#[test]
fn approve_collection_without_a_token_is_refused() {
    let mut state = new_state(None, None);
    mint_for(&mut state, account(1), SECOND, 0);
    let arg = ApproveCollectionArg { approval_info: info(account(2), None, 2 * SECOND) };
    let answer = approve_collection(&mut state, &arg, &principal(9), 2 * SECOND);
    match answer {
        Err(ApproveCollectionError::GenericError { error_code, message }) => {
            assert_eq!(error_code, 1);
            assert_eq!(message, "Caller must own at least one NFT to approve collection");
        }
        other => panic!("unexpected answer: {:?}", other.map(|entry| entry.op)),
    }
    assert_eq!(state.collection_approvals.len(), 0);
}

#[test]
fn approve_collection_from_a_subaccount_of_an_owner() {
    let mut state = new_state(None, None);
    mint_for(&mut state, account(1), SECOND, 0);
    let from = Account::new(principal(1), Some([7u8; 32]));
    let arg = ApproveCollectionArg {
        approval_info: ApprovalInfo {
            spender: account(2),
            from_subaccount: Some([7u8; 32]),
            expires_at: Some(9 * SECOND),
            memo: Some(vec![1, 2]),
            created_at_time: 2 * SECOND,
        },
    };
    let entry = approve_collection(&mut state, &arg, &principal(1), 2 * SECOND).unwrap();
    assert_eq!(entry.op, Operation::ApproveCollection);
    assert_eq!(entry.tid, None);
    assert_eq!(entry.from, Some(from));
    assert_eq!(entry.memo, Some(vec![1, 2]));
    assert_eq!(entry.exp, Some(9 * SECOND));
    let answer = approve_collection_commit(
        &mut state,
        &arg,
        &principal(1),
        2 * SECOND,
        &LedgerOutcome::Appended { index: 5 },
    );
    assert_eq!(answer, Ok(5));
    let stored = state.collection_approvals.get(&from).unwrap().get(&account(2)).unwrap();
    assert_eq!(stored.from, from);
    assert_eq!(stored.spender, account(2));
    assert_eq!(stored.created_at, 2 * SECOND);
    assert_eq!(stored.expires_at, Some(9 * SECOND));
    assert_eq!(stored.memo, Some(vec![1, 2]));
    assert!(state.collection_approvals.get(&account(1)).is_none());
}

#[test]
fn revoke_dated_twenty_seconds_ago_is_too_old() {
    let mut state = new_state(None, None);
    state.data.tx_window = Some(10 * SECOND);
    mint_for(&mut state, account(1), SECOND, 0);
    let now = 100 * SECOND;
    approve(&mut state, 1, 1, account(2), None, now, 1).unwrap();
    let arg = RevokeTokenApprovalArg {
        spender: None,
        from_subaccount: None,
        token_id: 1,
        memo: None,
        created_at_time: Some(now - 20 * SECOND),
    };
    let answer = revoke_token_approvals(&state, &arg, &principal(1), now);
    assert_eq!(answer.err(), Some(RevokeTokenApprovalError::TooOld));
    assert_eq!(state.token_approvals.get(1).unwrap().len(), 1);
}

#[test]
fn dates_are_checked_against_drift_and_window() {
    let mut state = new_state(None, None);
    mint_for(&mut state, account(1), SECOND, 0);
    let now = 100 * SECOND;
    let drift = 50 * MS;
    let window = 10 * SECOND;
    let ask = |state: &mut RuntimeState, created: u64, at: u64| {
        let arg = ApproveTokenArg { token_id: 1, approval_info: info(account(2), None, created) };
        approve_token(state, &arg, &principal(1), at).map(|entry| entry.created_at_time)
    };
    assert_eq!(ask(&mut state, now + drift, now), Ok(Some(now + drift)));
    assert_eq!(
        ask(&mut state, now + drift + 1, now + SECOND),
        Ok(Some(now + drift + 1))
    );
    assert_eq!(
        ask(&mut state, now + 2 * SECOND + drift + 1, now + 2 * SECOND),
        Err(ApproveTokenError::CreatedInFuture { ledger_time: now + 2 * SECOND })
    );
    assert_eq!(ask(&mut state, now - window + 3 * SECOND, now + 3 * SECOND), Ok(Some(now - window + 3 * SECOND)));
    assert_eq!(
        ask(&mut state, now - window + 4 * SECOND - 1, now + 4 * SECOND),
        Err(ApproveTokenError::TooOld)
    );
    state.data.permitted_drift = Some(0);
    state.data.tx_window = Some(SECOND);
    assert_eq!(
        ask(&mut state, now + 5 * SECOND + 1, now + 5 * SECOND),
        Err(ApproveTokenError::CreatedInFuture { ledger_time: now + 5 * SECOND })
    );
    assert_eq!(ask(&mut state, now + 5 * SECOND - 1, now + 6 * SECOND), Err(ApproveTokenError::TooOld));
}

#[test]
fn approve_token_checks_in_order() {
    let mut state = new_state(None, None);
    mint_for(&mut state, account(1), SECOND, 0);
    let now = 10 * SECOND;
    let anonymous = Account::new(Principal::anonymous(), None);

    let arg = ApproveTokenArg { token_id: 7, approval_info: info(account(2), None, now) };
    assert_eq!(
        approve_token(&mut state, &arg, &principal(1), now).err(),
        Some(ApproveTokenError::NonExistingTokenId)
    );
    let arg = ApproveTokenArg { token_id: 1, approval_info: info(account(2), None, now) };
    assert_eq!(
        approve_token(&mut state, &arg, &principal(3), now).err(),
        Some(ApproveTokenError::Unauthorized)
    );
    let mut from_subaccount = info(account(2), None, now);
    from_subaccount.from_subaccount = Some([0u8; 32]);
    let arg = ApproveTokenArg { token_id: 1, approval_info: from_subaccount };
    assert_eq!(
        approve_token(&mut state, &arg, &principal(1), now).err(),
        Some(ApproveTokenError::Unauthorized)
    );
    let arg = ApproveTokenArg { token_id: 1, approval_info: info(anonymous, None, now) };
    assert_eq!(
        approve_token(&mut state, &arg, &principal(1), now).err(),
        Some(ApproveTokenError::InvalidSpender)
    );
    let anonymous_sub = Account::new(Principal::anonymous(), Some([1u8; 32]));
    let arg = ApproveTokenArg { token_id: 1, approval_info: info(anonymous_sub, None, now) };
    assert_eq!(
        approve_token(&mut state, &arg, &principal(1), now + SECOND).err(),
        Some(ApproveTokenError::InvalidSpender)
    );
    assert!(state.token_approvals.get(1).is_none());
}

#[test]
fn failed_log_leaves_the_approvals_alone() {
    let mut state = new_state(None, None);
    mint_for(&mut state, account(1), SECOND, 0);
    let now = 10 * SECOND;
    let arg = ApproveTokenArg { token_id: 1, approval_info: info(account(2), None, now) };
    approve_token(&mut state, &arg, &principal(1), now).unwrap();
    let answer = approve_token_commit(
        &mut state,
        &arg,
        &principal(1),
        now,
        &LedgerOutcome::Failed { reason: "Icrc3Error(\"Transaction throttled\")".to_string() },
    );
    assert_eq!(
        answer,
        Err(ApproveTokenError::GenericError {
            error_code: 1,
            message: "Failed to log transaction: Icrc3Error(\"Transaction throttled\")".to_string(),
        })
    );
    let answer = approve_token_commit(
        &mut state,
        &arg,
        &principal(1),
        now,
        &LedgerOutcome::Duplicate { duplicate_of: 42 },
    );
    assert_eq!(
        answer,
        Err(ApproveTokenError::GenericError {
            error_code: 1,
            message: "Failed to log transaction: DuplicateTransaction { duplicate_of: 42 }".to_string(),
        })
    );
    assert!(state.token_approvals.get(1).is_none());
}

#[test]
fn is_approved_follows_the_expiry() {
    let mut state = new_state(None, None);
    mint_for(&mut state, account(1), SECOND, 0);
    let now = 10 * SECOND;
    approve(&mut state, 1, 1, account(2), Some(20 * SECOND), now, 1).unwrap();
    approve(&mut state, 1, 1, account(3), None, now + SECOND, 2).unwrap();
    assert!(is_approved(&state, &question(account(2), 1), now));
    assert!(is_approved(&state, &question(account(2), 1), 20 * SECOND - 1));
    assert!(!is_approved(&state, &question(account(2), 1), 20 * SECOND));
    assert!(!is_approved(&state, &question(account(2), 1), 30 * SECOND));
    assert!(is_approved(&state, &question(account(3), 1), u64::MAX));
    assert!(!is_approved(&state, &question(account(4), 1), now));
    assert!(!is_approved(&state, &question(account(2), 2), now));
    assert!(is_approved(&state, &question(account(1), 1), now));
    assert_eq!(state.token_approvals.get(1).unwrap().len(), 2);
    assert_eq!(
        icrc37_is_approved(
            &state,
            &vec![question(account(2), 1), question(account(4), 1), question(account(3), 1)],
            25 * SECOND
        ),
        vec![false, false, true]
    );
}

#[test]
fn is_approved_counts_an_approval_for_the_collection() {
    let mut state = new_state(None, None);
    mint_for(&mut state, account(1), SECOND, 0);
    mint_for(&mut state, account(1), SECOND, 1);
    mint_for(&mut state, account(5), SECOND, 2);
    let now = 10 * SECOND;
    approve_all(&mut state, 1, account(2), Some(20 * SECOND), now, 3).unwrap();
    approve_all(&mut state, 1, account(3), None, now + 1, 4).unwrap();
    // The approval holds for every token of the owner who gave it, and for no other.
    assert!(is_approved(&state, &question(account(2), 1), now));
    assert!(is_approved(&state, &question(account(2), 2), 20 * SECOND - 1));
    assert!(!is_approved(&state, &question(account(2), 3), now));
    assert!(!is_approved(&state, &question(account(2), 9), now));
    assert!(!is_approved(&state, &question(account(4), 1), now));
    // From its expiry on it holds no more, though the store still has it.
    assert!(!is_approved(&state, &question(account(2), 1), 20 * SECOND));
    assert!(!is_approved(&state, &question(account(2), 2), 30 * SECOND));
    assert_eq!(state.collection_approvals.get(&account(1)).unwrap().len(), 2);
    assert!(is_approved(&state, &question(account(3), 2), u64::MAX));
    // An approval that a spender holds from itself says nothing of the tokens of others.
    approve_all(&mut state, 5, account(5), None, now + 2, 5).unwrap();
    assert!(!is_approved(&state, &question(account(5), 1), now + 3));
    assert!(is_approved(&state, &question(account(5), 3), now + 3));
    // An approval on the token that is in force outlives one for the collection that is not.
    approve(&mut state, 1, 1, account(2), None, now + 4, 6).unwrap();
    assert!(is_approved(&state, &question(account(2), 1), 30 * SECOND));
    assert!(!is_approved(&state, &question(account(2), 2), 30 * SECOND));
    assert_eq!(
        icrc37_is_approved(
            &state,
            &vec![question(account(2), 2), question(account(3), 1), question(account(2), 3)],
            now + 5
        ),
        vec![true, true, false]
    );
    // Once the token has gone to another owner the approval of the old one is nothing to it.
    let transfer = move_from(account(1), account(9), 2);
    transfer_from(&mut state, &transfer, &principal(3), now + 6).unwrap();
    transfer_from_commit(&mut state, &transfer, &LedgerOutcome::Appended { index: 7 }).unwrap();
    assert!(!is_approved(&state, &question(account(3), 2), now + 7));
    assert!(!is_approved(&state, &question(account(3), 1), now + 7));
}

#[test]
fn transfer_from_clears_every_approval_on_the_token() {
    let mut state = new_state(None, None);
    let id = mint_for(&mut state, account(1), SECOND, 0);
    let other = mint_for(&mut state, account(1), SECOND, 1);
    assert_eq!((id, other), (1, 2));
    let now = 10 * SECOND;
    approve(&mut state, 1, 1, account(2), None, now, 2).unwrap();
    approve(&mut state, 1, 1, account(3), None, now + SECOND, 3).unwrap();
    approve(&mut state, 1, 2, account(3), None, now + 2 * SECOND, 4).unwrap();
    approve_all(&mut state, 1, account(4), None, now + 3 * SECOND, 5).unwrap();
    assert_eq!(state.token_approvals.get(1).unwrap().len(), 2);

    // The spender is admitted by the approval on the collection.
    let transfer = move_from(account(1), account(9), 1);
    transfer_from(&mut state, &transfer, &principal(4), now + 4 * SECOND).unwrap();
    let answer = transfer_from_commit(&mut state, &transfer, &LedgerOutcome::Appended { index: 6 });
    assert_eq!(answer, Ok(6));
    assert!(state.token_approvals.get(1).is_none());
    assert_eq!(state.token_approvals.get(2).unwrap().len(), 1);
    assert!(state.collection_approvals.get(&account(1)).is_none());
    assert_eq!(state.data.owner_of(&1), Some(account(9)));
    assert_eq!(state.data.owner_of(&2), Some(account(1)));
    assert!(!is_approved(&state, &question(account(2), 1), now + 5 * SECOND));
    assert!(!is_approved(&state, &question(account(3), 1), now + 5 * SECOND));

    // The owner in person is admitted as well, and the approvals go just the same.
    let transfer = move_from(account(1), account(9), 2);
    transfer_from(&mut state, &transfer, &principal(1), now + 6 * SECOND).unwrap();
    transfer_from_commit(&mut state, &transfer, &LedgerOutcome::Appended { index: 7 }).unwrap();
    assert!(state.token_approvals.get(2).is_none());
    // The reverse index is not kept by this path.
    assert_eq!(state.data.tokens_balance_of(&account(1)), 2);
    assert_eq!(state.data.tokens_balance_of(&account(9)), 0);
}

#[test]
fn transfer_from_refusals() {
    let mut state = new_state(None, None);
    mint_for(&mut state, account(1), SECOND, 0);
    let now = 10 * SECOND;
    let anonymous = Account::new(Principal::anonymous(), None);

    let answer = transfer_from(&mut state, &move_from(account(1), account(3), 5), &principal(1), now);
    assert_eq!(answer.err(), Some(TransferFromError::NonExistingTokenId));
    let answer = transfer_from(&mut state, &move_from(account(1), account(1), 1), &principal(1), now);
    assert_eq!(answer.err(), Some(TransferFromError::InvalidRecipient));
    let answer =
        transfer_from(&mut state, &move_from(account(1), anonymous, 1), &principal(1), now + SECOND);
    assert_eq!(answer.err(), Some(TransferFromError::InvalidRecipient));
    let answer =
        transfer_from(&mut state, &move_from(account(1), account(3), 1), &principal(2), now + 2 * SECOND);
    assert_eq!(answer.err(), Some(TransferFromError::Unauthorized));
    // A spender who names an account that does not own the token is refused,
    // be it the spender's own.
    let answer =
        transfer_from(&mut state, &move_from(account(2), account(3), 1), &principal(2), now + 3 * SECOND);
    assert_eq!(answer.err(), Some(TransferFromError::Unauthorized));
    let mut dated = move_from(account(1), account(3), 1);
    dated.created_at_time = Some(now + 4 * SECOND + 50 * MS + 1);
    let answer = transfer_from(&mut state, &dated, &principal(1), now + 4 * SECOND);
    assert_eq!(
        answer.err(),
        Some(TransferFromError::CreatedInFuture { ledger_time: now + 4 * SECOND })
    );
    assert_eq!(state.data.owner_of(&1), Some(account(1)));
}

#[test]
fn transfer_from_reports_what_the_log_answers() {
    let mut state = new_state(None, None);
    mint_for(&mut state, account(1), SECOND, 0);
    let now = 10 * SECOND;
    approve(&mut state, 1, 1, account(2), None, now, 1).unwrap();
    let transfer = move_from(account(1), account(3), 1);
    transfer_from(&mut state, &transfer, &principal(2), now + SECOND).unwrap();
    let answer = transfer_from_commit(&mut state, &transfer, &LedgerOutcome::Duplicate { duplicate_of: 17 });
    assert_eq!(answer, Err(TransferFromError::Duplicate { duplicate_of: 17 }));
    let answer = transfer_from_commit(
        &mut state,
        &transfer,
        &LedgerOutcome::Failed { reason: "LedgerSizeExceeded".to_string() },
    );
    assert_eq!(
        answer,
        Err(TransferFromError::GenericError {
            error_code: 1,
            message: "Failed to insert transaction: LedgerSizeExceeded".to_string(),
        })
    );
    assert_eq!(state.data.owner_of(&1), Some(account(1)));
    assert_eq!(state.token_approvals.get(1).unwrap().len(), 1);
}

#[test]
fn transfer_from_drops_expired_approvals() {
    let mut state = new_state(None, None);
    mint_for(&mut state, account(1), SECOND, 0);
    let now = 10 * SECOND;
    approve(&mut state, 1, 1, account(2), Some(now + SECOND), now, 1).unwrap();
    approve(&mut state, 1, 1, account(3), Some(now + SECOND), now + 1, 2).unwrap();
    approve_all(&mut state, 1, account(2), Some(now + SECOND), now + 2, 3).unwrap();

    // At the expiry itself the approvals count no more.
    let transfer = move_from(account(1), account(9), 1);
    let answer = transfer_from(&mut state, &transfer, &principal(2), now + SECOND);
    assert_eq!(answer.err(), Some(TransferFromError::Unauthorized));
    let left = state.token_approvals.get(1).unwrap();
    assert_eq!(left.len(), 1);
    assert!(left.get(&account(2)).is_none());
    assert!(left.get(&account(3)).is_some());
    // The collection of the owner held nothing else and lost its entry.
    assert!(state.collection_approvals.get(&account(1)).is_none());
    assert_eq!(state.data.owner_of(&1), Some(account(1)));
}

#[test]
fn transfer_from_keeps_the_other_collection_approvals_when_one_expires() {
    let mut state = new_state(None, None);
    mint_for(&mut state, account(1), SECOND, 0);
    let now = 10 * SECOND;
    approve_all(&mut state, 1, account(2), Some(now + SECOND), now, 1).unwrap();
    approve_all(&mut state, 1, account(3), None, now + 1, 2).unwrap();
    let transfer = move_from(account(1), account(9), 1);
    let answer = transfer_from(&mut state, &transfer, &principal(2), now + 2 * SECOND);
    assert_eq!(answer.err(), Some(TransferFromError::Unauthorized));
    let left = state.collection_approvals.get(&account(1)).unwrap();
    assert_eq!(left.len(), 1);
    assert!(left.get(&account(3)).is_some());
}

#[test]
fn revoking_a_named_spender_leaves_the_others() {
    let mut state = new_state(None, None);
    mint_for(&mut state, account(1), SECOND, 0);
    let now = 10 * SECOND;
    approve(&mut state, 1, 1, account(2), None, now, 1).unwrap();
    approve(&mut state, 1, 1, account(3), None, now + 1, 2).unwrap();
    approve(&mut state, 1, 1, account(4), None, now + 2, 3).unwrap();

    let arg = RevokeTokenApprovalArg {
        spender: Some(account(3)),
        from_subaccount: None,
        token_id: 1,
        memo: Some(vec![9]),
        created_at_time: None,
    };
    let entry = revoke_token_approvals(&state, &arg, &principal(1), now + 3).unwrap();
    assert_eq!(entry.op, Operation::RevokeToken);
    assert_eq!(entry.tid, Some(1));
    assert_eq!(entry.from, Some(account(1)));
    assert_eq!(entry.spender, Some(account(3)));
    assert_eq!(entry.memo, Some(vec![9]));
    assert_eq!(entry.created_at_time, None);
    let answer = revoke_token_approvals_commit(&mut state, &arg, &LedgerOutcome::Appended { index: 4 });
    assert_eq!(answer, Ok(4));
    let left = state.token_approvals.get(1).unwrap();
    assert_eq!(left.len(), 2);
    assert!(left.get(&account(2)).is_some());
    assert!(left.get(&account(3)).is_none());
    assert!(left.get(&account(4)).is_some());

    let arg = RevokeTokenApprovalArg {
        spender: None,
        from_subaccount: None,
        token_id: 1,
        memo: None,
        created_at_time: None,
    };
    revoke_token_approvals(&state, &arg, &principal(1), now + 4).unwrap();
    let answer = revoke_token_approvals_commit(&mut state, &arg, &LedgerOutcome::Appended { index: 5 });
    assert_eq!(answer, Ok(5));
    // The token keeps its entry, with nothing in it.
    assert_eq!(state.token_approvals.get(1).unwrap().len(), 0);
    assert!(revoke_token_approvals(&state, &arg, &principal(1), now + 5).is_ok());
}

#[test]
fn revoke_token_refusals() {
    let mut state = new_state(None, None);
    mint_for(&mut state, account(1), SECOND, 0);
    let now = 10 * SECOND;
    let arg = |token_id: u64| RevokeTokenApprovalArg {
        spender: None,
        from_subaccount: None,
        token_id,
        memo: None,
        created_at_time: None,
    };
    assert_eq!(
        revoke_token_approvals(&state, &arg(3), &principal(1), now).err(),
        Some(RevokeTokenApprovalError::NonExistingTokenId)
    );
    assert_eq!(
        revoke_token_approvals(&state, &arg(1), &principal(2), now).err(),
        Some(RevokeTokenApprovalError::Unauthorized)
    );
    assert_eq!(
        revoke_token_approvals(&state, &arg(1), &principal(1), now).err(),
        Some(RevokeTokenApprovalError::ApprovalDoesNotExist)
    );
    approve(&mut state, 1, 1, account(2), None, now, 1).unwrap();
    let answer = revoke_token_approvals_commit(
        &mut state,
        &arg(1),
        &LedgerOutcome::Failed { reason: "down".to_string() },
    );
    assert_eq!(
        answer,
        Err(RevokeTokenApprovalError::GenericError {
            error_code: 1,
            message: "Failed to log transaction: down".to_string(),
        })
    );
    assert_eq!(state.token_approvals.get(1).unwrap().len(), 1);
}

#[test]
fn revoking_on_a_collection() {
    let mut state = new_state(None, None);
    mint_for(&mut state, account(1), SECOND, 0);
    let now = 10 * SECOND;
    let arg = |spender: Option<Account>| RevokeCollectionApprovalArg {
        spender,
        from_subaccount: None,
        memo: None,
        created_at_time: None,
    };
    assert_eq!(
        revoke_collection_approvals(&state, &arg(None), &principal(1), now).err(),
        Some(RevokeCollectionApprovalError::ApprovalDoesNotExist)
    );
    approve_all(&mut state, 1, account(2), None, now, 1).unwrap();
    approve_all(&mut state, 1, account(3), None, now + 1, 2).unwrap();
    let entry = revoke_collection_approvals(&state, &arg(Some(account(2))), &principal(1), now + 2).unwrap();
    assert_eq!(entry.op, Operation::RevokeCollection);
    assert_eq!(entry.tid, None);
    assert_eq!(entry.spender, Some(account(2)));
    let answer = revoke_collection_approvals_commit(
        &mut state,
        &arg(Some(account(2))),
        &principal(1),
        &LedgerOutcome::Appended { index: 3 },
    );
    assert_eq!(answer, Ok(3));
    let left = state.collection_approvals.get(&account(1)).unwrap();
    assert_eq!(left.len(), 1);
    assert!(left.get(&account(3)).is_some());

    let answer = revoke_collection_approvals_commit(
        &mut state,
        &arg(None),
        &principal(1),
        &LedgerOutcome::Appended { index: 4 },
    );
    assert_eq!(answer, Ok(4));
    assert_eq!(state.collection_approvals.get(&account(1)).unwrap().len(), 0);

    let mut dated = arg(None);
    dated.created_at_time = Some(now + SECOND);
    assert_eq!(
        revoke_collection_approvals(&state, &dated, &principal(1), now).err(),
        Some(RevokeCollectionApprovalError::CreatedInFuture { ledger_time: now })
    );
}

#[test]
fn the_cap_refuses_one_spender_too_many() {
    let mut state = new_state(Some(2), None);
    mint_for(&mut state, account(1), SECOND, 0);
    let now = 10 * SECOND;
    approve(&mut state, 1, 1, account(2), None, now, 1).unwrap();
    approve(&mut state, 1, 1, account(3), None, now + 1, 2).unwrap();
    let answer = approve(&mut state, 1, 1, account(4), None, now + 2, 3);
    assert_eq!(
        answer,
        Err(ApproveTokenError::GenericError {
            error_code: 1,
            message: "Maximum approvals per token exceeded".to_string(),
        })
    );
    assert_eq!(state.token_approvals.get(1).unwrap().len(), 2);
    // A spender who is approved already is approved anew.
    let answer = approve(&mut state, 1, 1, account(2), Some(99 * SECOND), now + 3, 4);
    assert_eq!(answer, Ok(4));
    let spenders = state.token_approvals.get(1).unwrap();
    assert_eq!(spenders.len(), 2);
    assert_eq!(spenders.get(&account(2)).unwrap().expires_at, Some(99 * SECOND));
    assert_eq!(spenders.get(&account(2)).unwrap().created_at, now + 3);

    approve_all(&mut state, 1, account(2), None, now + 4, 5).unwrap();
    approve_all(&mut state, 1, account(3), None, now + 5, 6).unwrap();
    let answer = approve_all(&mut state, 1, account(4), None, now + 6, 7);
    assert_eq!(
        answer,
        Err(ApproveCollectionError::GenericError {
            error_code: 1,
            message: "Maximum approvals per collection exceeded".to_string(),
        })
    );
    assert_eq!(approve_all(&mut state, 1, account(3), None, now + 7, 8), Ok(8));
    assert_eq!(state.collection_approvals.get(&account(1)).unwrap().len(), 2);
}

#[test]
fn the_default_cap_is_ten() {
    let mut state = new_state(None, None);
    mint_for(&mut state, account(1), SECOND, 0);
    let mut now = 10 * SECOND;
    for spender in 10..20u8 {
        approve(&mut state, 1, 1, account(spender), None, now, spender as u64).unwrap();
        now += 100 * MS;
    }
    let answer = approve(&mut state, 1, 1, account(20), None, now, 20);
    assert!(matches!(answer, Err(ApproveTokenError::GenericError { error_code: 1, .. })));
    assert_eq!(state.token_approvals.get(1).unwrap().len(), 10);
    assert_eq!(icrc37_max_approvals_per_token_or_collection(&state), None);
    assert_eq!(icrc37_max_revoke_approvals(&state), None);
}

#[test]
fn listing_runs_from_the_newest_and_skips_the_expired() {
    let mut state = new_state(None, None);
    mint_for(&mut state, account(1), SECOND, 0);
    let now = 10 * SECOND;
    let sub = Account::new(principal(5), Some([3u8; 32]));
    approve(&mut state, 1, 1, account(2), None, now, 1).unwrap();
    approve(&mut state, 1, 1, account(3), Some(now + SECOND), now + 100 * MS, 2).unwrap();
    approve(&mut state, 1, 1, sub, None, now + 200 * MS, 3).unwrap();
    approve(&mut state, 1, 1, account(4), None, now + 300 * MS, 4).unwrap();

    let spenders = |lines: &Vec<TokenApproval>| -> Vec<Account> {
        lines.iter().map(|line| line.approval_info.spender).collect()
    };
    let all = icrc37_get_token_approvals(&state, 1, &None, None, now + 400 * MS);
    assert_eq!(spenders(&all), vec![account(4), sub, account(3), account(2)]);
    assert_eq!(all[0].token_id, 1);
    assert_eq!(all[0].approval_info.created_at_time, now + 300 * MS);
    assert_eq!(all[1].approval_info.from_subaccount, Some([3u8; 32]));
    assert_eq!(all[2].approval_info.expires_at, Some(now + SECOND));

    // Behind the line of the spender seen last, two lines at a time.
    let page = icrc37_get_token_approvals(&state, 1, &Some(all[0].clone()), Some(2), now + 400 * MS);
    assert_eq!(spenders(&page), vec![sub, account(3)]);
    let page = icrc37_get_token_approvals(&state, 1, &Some(page[1].clone()), Some(2), now + 400 * MS);
    assert_eq!(spenders(&page), vec![account(2)]);
    let page = icrc37_get_token_approvals(&state, 1, &Some(page[0].clone()), Some(2), now + 400 * MS);
    assert!(page.is_empty());
    assert!(icrc37_get_token_approvals(&state, 1, &None, Some(0), now + 400 * MS).is_empty());

    // A spender that the listing does not hold starts it from the top.
    let stranger = TokenApproval { token_id: 1, approval_info: info(account(77), None, 0) };
    let page = icrc37_get_token_approvals(&state, 1, &Some(stranger), Some(1), now + 400 * MS);
    assert_eq!(spenders(&page), vec![account(4)]);

    // Once an approval has expired the listing passes it over; the store keeps it.
    let later = icrc37_get_token_approvals(&state, 1, &None, None, now + SECOND);
    assert_eq!(spenders(&later), vec![account(4), sub, account(2)]);
    assert_eq!(state.token_approvals.get(1).unwrap().len(), 4);
    assert!(icrc37_get_token_approvals(&state, 2, &None, None, now).is_empty());
}

#[test]
fn listing_a_collection() {
    let mut state = new_state(None, None);
    mint_for(&mut state, account(1), SECOND, 0);
    let now = 10 * SECOND;
    approve_all(&mut state, 1, account(2), None, now, 1).unwrap();
    approve_all(&mut state, 1, account(3), None, now, 2).unwrap();
    approve_all(&mut state, 1, account(4), None, now + 1, 3).unwrap();
    let lines = icrc37_get_collection_approvals(&state, &account(1), &None, None, now + 2);
    let spenders: Vec<Account> = lines.iter().map(|line| line.approval_info.spender).collect();
    // Lines of one age keep the order in which their spenders were approved.
    assert_eq!(spenders, vec![account(4), account(2), account(3)]);
    let lines = icrc37_get_collection_approvals(&state, &account(1), &Some(lines[1].clone()), None, now + 2);
    assert_eq!(lines.len(), 1);
    assert_eq!(lines[0].approval_info.spender, account(3));
    assert!(icrc37_get_collection_approvals(&state, &account(2), &None, None, now).is_empty());
}

#[test]
fn a_batch_of_revocations_is_cut_to_the_cap() {
    let mut state = new_state(None, Some(3));
    let arg = |token_id: u64| RevokeTokenApprovalArg {
        spender: None,
        from_subaccount: None,
        token_id,
        memo: None,
        created_at_time: None,
    };
    let batch: Vec<RevokeTokenApprovalArg> = (1..=5).map(arg).collect();
    assert_eq!(icrc37_revoke_token_approvals(&mut state, Some(batch[0].token_id), batch.len(), SECOND), Ok(3));
    assert_eq!(icrc37_revoke_token_approvals(&mut state, Some(batch[0].token_id), 2, SECOND + 1), Ok(2));
    assert_eq!(icrc37_revoke_token_approvals(&mut state, None, 0, SECOND + 2), Ok(0));
    // The limiter counted the two batches under the token of their first entry.
    assert_eq!(state.sliding_window_guards.get(&1), Some(&vec![SECOND, SECOND + 1]));
    assert!(state.sliding_window_guards.get(&2).is_none());

    let mut state = new_state(None, None);
    let batch: Vec<RevokeTokenApprovalArg> = (1..=12).map(arg).collect();
    assert_eq!(icrc37_revoke_token_approvals(&mut state, Some(batch[0].token_id), batch.len(), SECOND), Ok(10));

    let none = RevokeCollectionApprovalArg {
        spender: None,
        from_subaccount: None,
        memo: None,
        created_at_time: None,
    };
    let batch = vec![none.clone(), none.clone()];
    for call in 0..5u64 {
        assert_eq!(icrc37_revoke_collection_approvals(&mut state, &batch, 2 * SECOND + call), Ok(2));
    }
    let answer = icrc37_revoke_collection_approvals(&mut state, &batch, 2 * SECOND + 10 * MS);
    assert_eq!(
        answer,
        Err(RevokeCollectionApprovalError::GenericError {
            error_code: 0,
            message: "Rate limit exceeded. You can make another call in 50 milliseconds".to_string(),
        })
    );
    assert_eq!(state.sliding_window_guards.get(&0).unwrap().len(), 5);
}
