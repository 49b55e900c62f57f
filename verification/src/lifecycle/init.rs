//! The first state of a registry, made from the arguments of its
//! installation.

use vstd::prelude::*;
use vstd::string::StringExecFns;
use crate::state::{Data, InitApprovalsArg, RuntimeState};
use crate::text::prefixed;
use crate::types::account::{AccountView, Principal};
use crate::types::icrc37::SpenderSeq;
use crate::types::nft::Icrc7TokenView;

verus! {

/// The arguments of an installation.
pub struct InitArgs {
    /// In test mode the installer is one of the authorized principals.
    pub test_mode: bool,
    pub authorized_principals: Vec<Principal>,
    pub minting_authorities: Vec<Principal>,
    pub description: Option<String>,
    pub symbol: String,
    pub name: String,
    pub logo: Option<String>,
    pub supply_cap: Option<u64>,
    pub max_query_batch_size: Option<u64>,
    pub max_update_batch_size: Option<u64>,
    pub max_take_value: Option<u64>,
    pub default_take_value: Option<u64>,
    pub max_memo_size: Option<u64>,
    pub atomic_batch_transfers: Option<bool>,
    pub tx_window: Option<u64>,
    pub permitted_drift: Option<u64>,
    pub max_canister_storage_threshold: Option<u64>,
    pub approval_init: InitApprovalsArg,
}

/// Whether `url::Url::parse` accepts `text` as an absolute URL.
pub uninterp spec fn url_parses(text: Seq<char>) -> bool;

/// Calls `url::Url::parse` on `text` and says whether it gave a URL. The
/// contract claims no more than that the answer is the same for the same
/// text: it names the answer `url_parses`.
#[verifier::external_body]
fn parses_as_url(text: &str) -> (r: bool)
    ensures
        r == url_parses(text@),
{
    url::Url::parse(text).is_ok()
}

/// Whether the logo is acceptable: there is none, or it parses as a URL.
pub fn logo_parses(logo: &Option<String>) -> (r: bool)
    ensures
        r == match *logo {
            Some(text) => url_parses(text@),
            None => true,
        },
{
    match logo {
        Some(text) => parses_as_url(text.as_str()),
        None => true,
    }
}

/// Why an installation is refused, if it is, `logo_ok` saying whether the
/// logo is acceptable. The checks come in this order: the logo; the cap
/// on a batch of revocations, which may not be 0; the cap on approvals,
/// which may not be 0.
pub open spec fn init_refusal(args: &InitArgs, logo_ok: bool) -> Option<Seq<char>> {
    if args.logo is Some && !logo_ok {
        Some("Invalid logo URL: "@ + args.logo->0@)
    } else if args.approval_init.max_revoke_approvals == Some(0u64) {
        Some("max_revoke_approvals cannot be 0"@)
    } else if args.approval_init.max_approvals_per_token_or_collection == Some(0u64) {
        Some("max_approvals_per_token_or_collection cannot be 0"@)
    } else {
        None
    }
}

/// The authorized principals of a new registry: those that the arguments
/// name and, in test mode, the installer behind them.
pub open spec fn first_authorized(args: &InitArgs, installer: Principal) -> Seq<Principal> {
    if args.test_mode {
        args.authorized_principals@.push(installer)
    } else {
        args.authorized_principals@
    }
}

/// Whether `state` is the first state of a registry installed with
/// `args` by `installer`: the settings are those of the arguments, and
/// there is no token, no approval, no guard taken and no call recorded.
pub open spec fn is_first_state(state: &RuntimeState, args: &InitArgs, installer: Principal) -> bool {
    &&& state.wf()
    &&& state.data.authorized_principals@ == first_authorized(args, installer)
    &&& state.data.minting_authorities == args.minting_authorities
    &&& state.data.description == args.description
    &&& state.data.symbol == args.symbol
    &&& state.data.name == args.name
    &&& state.data.logo == args.logo
    &&& state.data.supply_cap == args.supply_cap
    &&& state.data.max_query_batch_size == args.max_query_batch_size
    &&& state.data.max_update_batch_size == args.max_update_batch_size
    &&& state.data.max_take_value == args.max_take_value
    &&& state.data.default_take_value == args.default_take_value
    &&& state.data.max_memo_size == args.max_memo_size
    &&& state.data.atomic_batch_transfers == args.atomic_batch_transfers
    &&& state.data.tx_window == args.tx_window
    &&& state.data.permitted_drift == args.permitted_drift
    &&& state.data.max_canister_storage_threshold == args.max_canister_storage_threshold
    &&& state.data.approval_init == args.approval_init
    &&& state.data.last_token_id == 1
    &&& state.data.tokens_list@ == Map::<u64, Icrc7TokenView>::empty()
    &&& state.data.tokens_list_by_owner@ == Seq::<(AccountView, Seq<u64>)>::empty()
    &&& state.principal_guards@ == Set::<Seq<u8>>::empty()
    &&& state.call_windows() == Map::<u64, Seq<u64>>::empty()
    &&& state.token_approvals@ == Map::<u64, SpenderSeq>::empty()
    &&& state.collection_approvals@ == Seq::<(AccountView, SpenderSeq)>::empty()
}

/// Makes the first state of a registry from `args`, `logo_ok` saying
/// whether the logo is acceptable. Arguments that fail a check are
/// refused with the text of the failure.
pub fn init_state(args: InitArgs, installer: Principal, logo_ok: bool) -> (r: Result<
    RuntimeState,
    String,
>)
    ensures
        match init_refusal(&args, logo_ok) {
            Some(text) => r is Err && r->Err_0@ == text,
            None => r is Ok && is_first_state(&r->Ok_0, &args, installer),
        },
{
    if !logo_ok {
        match &args.logo {
            Some(logo) => {
                return Err(prefixed("Invalid logo URL: ", logo.as_str()));
            },
            None => {},
        }
    }
    match args.approval_init.max_revoke_approvals {
        Some(cap) => {
            if cap == 0 {
                return Err(String::from_str("max_revoke_approvals cannot be 0"));
            }
        },
        None => {},
    }
    match args.approval_init.max_approvals_per_token_or_collection {
        Some(cap) => {
            if cap == 0 {
                return Err(String::from_str("max_approvals_per_token_or_collection cannot be 0"));
            }
        },
        None => {},
    }
    let mut authorized_principals = args.authorized_principals;
    if args.test_mode {
        authorized_principals.push(installer);
    }
    let data = Data::new(
        authorized_principals,
        args.minting_authorities,
        args.description,
        args.symbol,
        args.name,
        args.logo,
        args.supply_cap,
        args.max_query_batch_size,
        args.max_update_batch_size,
        args.max_take_value,
        args.default_take_value,
        args.max_memo_size,
        args.atomic_batch_transfers,
        args.tx_window,
        args.max_canister_storage_threshold,
        args.permitted_drift,
        args.approval_init,
    );
    Ok(RuntimeState::new(data))
}

/// Makes the first state of a registry from `args`. A logo that
/// `url::Url::parse` does not accept is refused, and so is a cap of 0 on
/// approvals or on a batch of revocations.
pub fn init(args: InitArgs, installer: Principal) -> (r: Result<RuntimeState, String>)
    ensures
        match init_refusal(
            &args,
            match args.logo {
                Some(text) => url_parses(text@),
                None => true,
            },
        ) {
            Some(text) => r is Err && r->Err_0@ == text,
            None => r is Ok && is_first_state(&r->Ok_0, &args, installer),
        },
{
    let logo_ok = logo_parses(&args.logo);
    init_state(args, installer, logo_ok)
}

} // verus!
