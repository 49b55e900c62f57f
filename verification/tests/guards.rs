use std::collections::HashMap;
use core_nft::guards::{
    caller_is_governance_principal, caller_is_minting_authority, guard_sliding_window,
    GuardManagement, PrincipalGuards, MAX_CONCURRENT, SLIDING_WINDOW_CALLS,
    SLIDING_WINDOW_DURATION_NS,
};
use core_nft::state::{Data, InitApprovalsArg, RuntimeState};
use core_nft::text::{framed_number, prefixed, u64_to_string};
use core_nft::types::account::{subaccount_eq, Account, Principal, MAX_PRINCIPAL_LEN};
use core_nft::types::ledger::{LedgerOutcome, Operation};
use core_nft::utils::{check_memo, verify_approval_timing, verify_optional_timing, TimingError};

const MS: u64 = 1_000_000;

fn principal(tag: u8) -> Principal {
    Principal::try_from_slice(&[tag, 1, 2, 3]).unwrap()
}

fn new_state() -> RuntimeState {
    RuntimeState::new(Data::new(
        vec![principal(200), principal(202)],
        vec![principal(201)],
        None,
        "SYM".to_string(),
        "Name".to_string(),
        None,
        None,
        None,
        None,
        None,
        None,
        None,
        None,
        None,
        None,
        None,
        InitApprovalsArg { max_approvals_per_token_or_collection: None, max_revoke_approvals: None },
    ))
}

#[test]
fn the_anonymous_principal_is_the_byte_four() {
    let anonymous = Principal::anonymous();
    assert_eq!(anonymous.to_vec(), vec![4u8]);
    assert!(anonymous.is_anonymous());
    assert_eq!(Principal::try_from_slice(&[4]).unwrap(), anonymous);
    assert!(!Principal::try_from_slice(&[]).unwrap().is_anonymous());
    assert!(!Principal::try_from_slice(&[4, 0]).unwrap().is_anonymous());
    assert!(!principal(4).is_anonymous());
    assert!(Account::new(anonymous, Some([1u8; 32])).is_anonymous());
    assert!(!Account::new(principal(1), None).is_anonymous());
}

#[test]
fn principals_are_told_apart_by_their_bytes() {
    assert_eq!(MAX_PRINCIPAL_LEN, 29);
    let longest = [7u8; 29];
    assert_eq!(Principal::try_from_slice(&longest).unwrap().to_vec(), longest.to_vec());
    assert!(Principal::try_from_slice(&[7u8; 30]).is_none());
    assert_eq!(Principal::try_from_slice(&[]).unwrap().to_vec(), Vec::<u8>::new());
    assert_eq!(principal(1), principal(1));
    assert_ne!(principal(1), principal(2));
    assert_ne!(
        Principal::try_from_slice(&[1, 0]).unwrap(),
        Principal::try_from_slice(&[1]).unwrap()
    );
    assert_ne!(
        Principal::try_from_slice(&[1, 2, 3]).unwrap(),
        Principal::try_from_slice(&[1, 2, 4]).unwrap()
    );
}

#[test]
fn accounts_are_told_apart_by_owner_and_subaccount() {
    let plain = Account::new(principal(1), None);
    let zero = Account::new(principal(1), Some([0u8; 32]));
    let mut bytes = [0u8; 32];
    bytes[31] = 1;
    let one = Account::new(principal(1), Some(bytes));
    assert_eq!(plain, Account::new(principal(1), None));
    assert_eq!(one, Account::new(principal(1), Some(bytes)));
    assert_ne!(plain, zero);
    assert_ne!(zero, one);
    assert_ne!(plain, Account::new(principal(2), None));
    assert!(subaccount_eq(&None, &None));
    assert!(subaccount_eq(&Some(bytes), &Some(bytes)));
    assert!(!subaccount_eq(&Some(bytes), &None));
    assert!(!subaccount_eq(&None, &Some(bytes)));
    assert!(!subaccount_eq(&Some([0u8; 32]), &Some(bytes)));
}

#[test]
fn numbers_are_written_in_decimal() {
    assert_eq!(u64_to_string(0), "0");
    assert_eq!(u64_to_string(7), "7");
    assert_eq!(u64_to_string(10), "10");
    assert_eq!(u64_to_string(1234567890), "1234567890");
    assert_eq!(u64_to_string(u64::MAX), "18446744073709551615");
    assert_eq!(framed_number("a", 305, "b"), "a305b");
    assert_eq!(prefixed("Failed: ", "why"), "Failed: why");
}

#[test]
fn a_second_guard_is_refused_until_the_first_is_released() {
    assert_eq!(MAX_CONCURRENT, 1);
    let mut guards = PrincipalGuards::new();
    assert_eq!(guards.len(), 0);
    let first = GuardManagement::new(&mut guards, principal(1)).unwrap();
    assert!(guards.contains(&principal(1)));
    assert_eq!(guards.len(), 1);
    // Neither another caller nor the same one gets a second guard.
    let refused = GuardManagement::new(&mut guards, principal(2));
    assert_eq!(
        refused.err(),
        Some("Service is already running a management query, try again shortly".to_string())
    );
    assert!(GuardManagement::new(&mut guards, principal(1)).is_err());
    assert_eq!(guards.len(), 1);
    assert!(!guards.contains(&principal(2)));
    first.release(&mut guards);
    assert_eq!(guards.len(), 0);
    let second = GuardManagement::new(&mut guards, principal(2)).unwrap();
    assert!(guards.contains(&principal(2)));
    second.release(&mut guards);
    assert!(!guards.contains(&principal(2)));
}

#[test]
fn five_calls_within_a_window_and_the_sixth_refused() {
    assert_eq!(SLIDING_WINDOW_CALLS, 5);
    assert_eq!(SLIDING_WINDOW_DURATION_NS, 60 * MS);
    let mut guards: HashMap<u64, Vec<u64>> = HashMap::new();
    let start = 1_000 * MS;
    for call in 0..5u64 {
        assert_eq!(guard_sliding_window(&mut guards, 7, start + call * MS), Ok(()));
    }
    // 9 ms after the first call: 51 ms are left of its 60.
    let refused = guard_sliding_window(&mut guards, 7, start + 9 * MS);
    assert_eq!(
        refused,
        Err("Rate limit exceeded. You can make another call in 51 milliseconds".to_string())
    );
    assert_eq!(guards.get(&7), Some(&vec![start, start + MS, start + 2 * MS, start + 3 * MS, start + 4 * MS]));
    // Another token has a window of its own.
    assert_eq!(guard_sliding_window(&mut guards, 8, start + 9 * MS), Ok(()));
    // One nanosecond before the first call leaves the window: a millisecond
    // that has begun is told in full.
    let refused = guard_sliding_window(&mut guards, 7, start + 60 * MS - 1);
    assert_eq!(
        refused,
        Err("Rate limit exceeded. You can make another call in 1 milliseconds".to_string())
    );
    // Sixty milliseconds after the first call it has left the window.
    assert_eq!(guard_sliding_window(&mut guards, 7, start + 60 * MS), Ok(()));
    assert_eq!(
        guards.get(&7),
        Some(&vec![start + MS, start + 2 * MS, start + 3 * MS, start + 4 * MS, start + 60 * MS])
    );
    let refused = guard_sliding_window(&mut guards, 7, start + 60 * MS);
    assert_eq!(
        refused,
        Err("Rate limit exceeded. You can make another call in 1 milliseconds".to_string())
    );
    // Long after, everything is forgotten.
    assert_eq!(guard_sliding_window(&mut guards, 7, start + 1_000 * MS), Ok(()));
    assert_eq!(guards.get(&7), Some(&vec![start + 1_000 * MS]));
}

#[test]
fn the_wait_is_told_in_milliseconds() {
    let mut guards: HashMap<u64, Vec<u64>> = HashMap::new();
    for call in 0..5u64 {
        assert_eq!(guard_sliding_window(&mut guards, 1, call * 10 * MS), Ok(()));
    }
    // The first call was 50 ms ago: 10 ms are left of its 60.
    assert_eq!(
        guard_sliding_window(&mut guards, 1, 50 * MS),
        Err("Rate limit exceeded. You can make another call in 10 milliseconds".to_string())
    );
    assert_eq!(guards.get(&1), Some(&vec![0, 10 * MS, 20 * MS, 30 * MS, 40 * MS]));
    // 9.5 ms are left: the tenth millisecond has begun.
    assert_eq!(
        guard_sliding_window(&mut guards, 1, 50 * MS + MS / 2),
        Err("Rate limit exceeded. You can make another call in 10 milliseconds".to_string())
    );
    assert_eq!(
        guard_sliding_window(&mut guards, 1, 51 * MS),
        Err("Rate limit exceeded. You can make another call in 9 milliseconds".to_string())
    );
    assert_eq!(
        guard_sliding_window(&mut guards, 1, 59 * MS + 1),
        Err("Rate limit exceeded. You can make another call in 1 milliseconds".to_string())
    );
    assert_eq!(guard_sliding_window(&mut guards, 1, 60 * MS), Ok(()));
}

#[test]
fn a_clock_that_runs_back_keeps_the_calls_in_the_window() {
    let mut guards: HashMap<u64, Vec<u64>> = HashMap::new();
    for call in 0..5u64 {
        assert_eq!(guard_sliding_window(&mut guards, 0, 500 * MS + call), Ok(()));
    }
    let refused = guard_sliding_window(&mut guards, 0, 100 * MS);
    assert_eq!(
        refused,
        Err("Rate limit exceeded. You can make another call in 60 milliseconds".to_string())
    );
}

#[test]
fn callers_are_admitted_by_the_lists_of_the_state() {
    let state = new_state();
    assert_eq!(caller_is_governance_principal(&state, &principal(200)), Ok(()));
    assert_eq!(caller_is_governance_principal(&state, &principal(202)), Ok(()));
    assert_eq!(
        caller_is_governance_principal(&state, &principal(201)),
        Err("Caller is not a governance principal".to_string())
    );
    assert_eq!(caller_is_minting_authority(&state, &principal(201)), Ok(()));
    assert_eq!(
        caller_is_minting_authority(&state, &principal(200)),
        Err("Caller is not a minting authority".to_string())
    );
    assert!(state.is_caller_governance_principal(&principal(200)));
    assert!(!state.is_caller_governance_principal(&principal(1)));
    assert!(state.is_caller_minting_authority(&principal(201)));
    assert!(!state.is_caller_minting_authority(&principal(1)));
}

#[test]
fn memos_are_measured_against_the_limit() {
    let mut state = new_state();
    assert_eq!(check_memo(&state.data, &None), Ok(()));
    assert_eq!(check_memo(&state.data, &Some(vec![0u8; 1_000_000])), Ok(()));
    assert_eq!(
        check_memo(&state.data, &Some(vec![0u8; 1_000_001])),
        Err("Exceeds Max Memo Size".to_string())
    );
    state.data.max_memo_size = Some(2);
    assert_eq!(check_memo(&state.data, &Some(vec![1, 2])), Ok(()));
    assert_eq!(check_memo(&state.data, &Some(vec![1, 2, 3])), Err("Exceeds Max Memo Size".to_string()));
    state.data.max_memo_size = Some(0);
    assert_eq!(check_memo(&state.data, &Some(Vec::new())), Ok(()));
    assert_eq!(check_memo(&state.data, &None), Ok(()));
}

#[test]
fn dates_at_the_edges_of_drift_and_window() {
    let mut state = new_state();
    let now = 100_000 * MS;
    assert_eq!(verify_approval_timing(&state.data, now, now), Ok(()));
    assert_eq!(verify_approval_timing(&state.data, now + 50 * MS, now), Ok(()));
    assert_eq!(
        verify_approval_timing(&state.data, now + 50 * MS + 1, now),
        Err(TimingError::CreatedInFuture { ledger_time: now })
    );
    assert_eq!(verify_approval_timing(&state.data, now - 10_000 * MS, now), Ok(()));
    assert_eq!(verify_approval_timing(&state.data, now - 10_000 * MS - 1, now), Err(TimingError::TooOld));
    assert_eq!(verify_approval_timing(&state.data, 0, 10_000 * MS), Ok(()));
    assert_eq!(verify_approval_timing(&state.data, 0, 10_000 * MS + 1), Err(TimingError::TooOld));
    assert_eq!(verify_approval_timing(&state.data, u64::MAX, u64::MAX), Ok(()));
    assert_eq!(
        verify_approval_timing(&state.data, u64::MAX, u64::MAX - 50 * MS - 1),
        Err(TimingError::CreatedInFuture { ledger_time: u64::MAX - 50 * MS - 1 })
    );
    state.data.tx_window = Some(u64::MAX);
    assert_eq!(verify_approval_timing(&state.data, 0, u64::MAX), Ok(()));
    assert_eq!(verify_optional_timing(&state.data, None, now), Ok(()));
    assert_eq!(
        verify_optional_timing(&state.data, Some(now + 51 * MS), now),
        Err(TimingError::CreatedInFuture { ledger_time: now })
    );
}

#[test]
fn the_log_names_its_operations() {
    assert_eq!(Operation::Mint.name(), "7mint");
    assert_eq!(Operation::Burn.name(), "7burn");
    assert_eq!(Operation::Transfer.name(), "7xfer");
    assert_eq!(Operation::ApproveToken.name(), "37approve");
    assert_eq!(Operation::ApproveCollection.name(), "37approve_coll");
    assert_eq!(Operation::RevokeToken.name(), "37revoke");
    assert_eq!(Operation::RevokeCollection.name(), "37revoke_coll");
    assert_eq!(Operation::TransferFrom.name(), "37xfer");
    assert_eq!(LedgerOutcome::Appended { index: 3 }.failure_message("x: "), "x: ");
    assert_eq!(
        LedgerOutcome::Duplicate { duplicate_of: 3 }.failure_message("x: "),
        "x: DuplicateTransaction { duplicate_of: 3 }"
    );
    assert_eq!(LedgerOutcome::Failed { reason: "why".to_string() }.failure_message("x: "), "x: why");
}
