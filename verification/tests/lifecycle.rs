use core_nft::lifecycle::init::{init, init_state, logo_parses, InitArgs};
use core_nft::state::{InitApprovalsArg, RuntimeState};
use core_nft::types::account::Principal;

fn principal(tag: u8) -> Principal {
    Principal::try_from_slice(&[tag, 1, 2, 3]).unwrap()
}

fn args(logo: Option<&str>, cap: Option<u64>, revoke_cap: Option<u64>) -> InitArgs {
    InitArgs {
        test_mode: false,
        authorized_principals: vec![principal(1)],
        minting_authorities: vec![principal(2)],
        description: Some("A collection".to_string()),
        symbol: "SYM".to_string(),
        name: "Name".to_string(),
        logo: logo.map(str::to_string),
        supply_cap: Some(5),
        max_query_batch_size: None,
        max_update_batch_size: Some(7),
        max_take_value: None,
        default_take_value: Some(9),
        max_memo_size: None,
        atomic_batch_transfers: Some(true),
        tx_window: Some(11),
        permitted_drift: None,
        max_canister_storage_threshold: Some(13),
        approval_init: InitApprovalsArg {
            max_approvals_per_token_or_collection: cap,
            max_revoke_approvals: revoke_cap,
        },
    }
}

fn refusal(answer: Result<RuntimeState, String>) -> Option<String> {
    answer.err()
}

#[test]
fn a_logo_must_parse_as_a_url() {
    assert!(logo_parses(&None));
    assert!(logo_parses(&Some("https://example.com/logo.png".to_string())));
    assert!(logo_parses(&Some("data:image/png;base64,AAAA".to_string())));
    assert!(!logo_parses(&Some("not a url".to_string())));
    assert!(!logo_parses(&Some("/relative/logo.png".to_string())));
    assert!(!logo_parses(&Some(String::new())));
    assert_eq!(
        refusal(init(args(Some("not a url"), None, None), principal(9))),
        Some("Invalid logo URL: not a url".to_string())
    );
    assert_eq!(
        refusal(init(args(Some("not a url"), Some(0), Some(0)), principal(9))),
        Some("Invalid logo URL: not a url".to_string())
    );
    assert!(init(args(Some("https://example.com/logo.png"), None, None), principal(9)).is_ok());
    assert!(init(args(None, None, None), principal(9)).is_ok());
}

#[test]
fn a_cap_of_zero_is_refused() {
    assert_eq!(
        refusal(init(args(None, None, Some(0)), principal(9))),
        Some("max_revoke_approvals cannot be 0".to_string())
    );
    assert_eq!(
        refusal(init(args(None, Some(0), None), principal(9))),
        Some("max_approvals_per_token_or_collection cannot be 0".to_string())
    );
    assert_eq!(
        refusal(init(args(None, Some(0), Some(0)), principal(9))),
        Some("max_revoke_approvals cannot be 0".to_string())
    );
    assert!(init(args(None, Some(1), Some(1)), principal(9)).is_ok());
    // The verdict on the logo is taken as it is given.
    assert_eq!(
        refusal(init_state(args(Some("https://example.com"), None, None), principal(9), false)),
        Some("Invalid logo URL: https://example.com".to_string())
    );
    assert!(init_state(args(Some("not a url"), None, None), principal(9), true).is_ok());
    assert!(init_state(args(None, None, None), principal(9), false).is_ok());
}

#[test]
fn the_first_state_holds_the_settings_and_nothing_else() {
    let state = init(args(Some("https://example.com/logo.png"), Some(3), Some(4)), principal(9)).unwrap();
    assert_eq!(state.data.authorized_principals, vec![principal(1)]);
    assert_eq!(state.data.minting_authorities, vec![principal(2)]);
    assert_eq!(state.data.description, Some("A collection".to_string()));
    assert_eq!(state.data.symbol, "SYM");
    assert_eq!(state.data.name, "Name");
    assert_eq!(state.data.logo, Some("https://example.com/logo.png".to_string()));
    assert_eq!(state.data.supply_cap, Some(5));
    assert_eq!(state.data.max_query_batch_size, None);
    assert_eq!(state.data.max_update_batch_size, Some(7));
    assert_eq!(state.data.max_take_value, None);
    assert_eq!(state.data.default_take_value, Some(9));
    assert_eq!(state.data.max_memo_size, None);
    assert_eq!(state.data.atomic_batch_transfers, Some(true));
    assert_eq!(state.data.tx_window, Some(11));
    assert_eq!(state.data.permitted_drift, None);
    assert_eq!(state.data.max_canister_storage_threshold, Some(13));
    assert_eq!(state.data.approval_init.max_approvals_per_token_or_collection, Some(3));
    assert_eq!(state.data.approval_init.max_revoke_approvals, Some(4));
    assert_eq!(state.data.last_token_id, 1);
    assert_eq!(state.data.total_supply(), 0);
    assert_eq!(state.data.tokens_list_by_owner.len(), 0);
    assert_eq!(state.principal_guards.len(), 0);
    assert_eq!(state.sliding_window_guards.len(), 0);
    assert_eq!(state.token_approvals.len(), 0);
    assert_eq!(state.collection_approvals.len(), 0);

    let mut in_test = args(None, None, None);
    in_test.test_mode = true;
    let state = init(in_test, principal(9)).unwrap();
    assert_eq!(state.data.authorized_principals, vec![principal(1), principal(9)]);
    assert!(state.is_caller_governance_principal(&principal(9)));
}
