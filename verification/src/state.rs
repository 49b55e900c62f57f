//! The state of the registry: its configuration, the ownership table with
//! its reverse index, the two guards and the two approval stores.

use vstd::prelude::*;
use std::collections::HashMap;
use crate::collections::account_map::{lookup, AccountMap};
use crate::collections::id_map::{strictly_ascending, IdMap};
use crate::guards::{call_windows, PrincipalGuards};
use crate::types::account::{Account, AccountView, Principal};
use crate::types::icrc37::{
    collection_approvals_wf, init_collection_approvals, init_token_approvals, token_approvals_wf,
    CollectionApprovals, SpenderSeq, TokenApprovals, DEFAULT_MAX_APPROVALS_PER_TOKEN_OR_COLLECTION,
};
use crate::types::icrc7::{DEFAULT_PERMITTED_DRIFT, DEFAULT_TX_WINDOW};
use crate::types::nft::{Icrc7Token, Icrc7TokenView};

verus! {

/// The limits on approvals. An absent limit stands for
/// `DEFAULT_MAX_APPROVALS_PER_TOKEN_OR_COLLECTION`.
#[derive(Clone, Copy, Debug)]
pub struct InitApprovalsArg {
    pub max_approvals_per_token_or_collection: Option<u64>,
    pub max_revoke_approvals: Option<u64>,
}

/// The value of a setting: what is configured, or `default` where nothing is.
pub open spec fn setting(configured: Option<u64>, default: u64) -> u64 {
    match configured {
        Some(v) => v,
        None => default,
    }
}

/// The value of a setting: what is configured, or `default` where nothing is.
pub fn setting_or(configured: Option<u64>, default: u64) -> (r: u64)
    ensures
        r == setting(configured, default),
{
    match configured {
        Some(v) => v,
        None => default,
    }
}

/// Whether `principal` is one of `list`.
pub open spec fn lists_principal(list: Seq<Principal>, principal: Seq<u8>) -> bool {
    exists|i: int| 0 <= i < list.len() && (#[trigger] list[i])@ == principal
}

/// Whether `principal` is one of `list`.
pub fn contains_principal(list: &Vec<Principal>, principal: &Principal) -> (r: bool)
    ensures
        r == lists_principal(list@, principal@),
{
    let mut i: usize = 0;
    while i < list.len()
        invariant
            i <= list@.len(),
            forall|j: int| 0 <= j < i ==> (#[trigger] list@[j])@ != principal@,
        decreases list@.len() - i,
    {
        if list[i] == *principal {
            return true;
        }
        i = i + 1;
    }
    false
}

/// The owner of `token_id` according to the ownership table `tokens`.
pub open spec fn owner_in(tokens: Map<u64, Icrc7TokenView>, token_id: u64) -> Option<AccountView> {
    if tokens.contains_key(token_id) {
        Some(tokens[token_id].token_owner)
    } else {
        None
    }
}

/// The tokens that the reverse index lists for `owner`.
pub open spec fn indexed_tokens(index: Seq<(AccountView, Seq<u64>)>, owner: AccountView) -> Seq<
    u64,
> {
    match lookup(index, owner) {
        Some(ids) => ids,
        None => Seq::<u64>::empty(),
    }
}

/// Whether `id` is a token of `tokens` that `owner` owns.
pub open spec fn owned_by(tokens: Map<u64, Icrc7TokenView>, id: u64, owner: AccountView) -> bool {
    tokens.contains_key(id) && tokens[id].token_owner == owner
}

/// Those of `keys` that are tokens of `owner`, in the order of `keys`.
pub open spec fn ids_owned(keys: Seq<u64>, tokens: Map<u64, Icrc7TokenView>, owner: AccountView) -> Seq<
    u64,
>
    decreases keys.len(),
{
    if keys.len() == 0 {
        keys
    } else if owned_by(tokens, keys.last(), owner) {
        ids_owned(keys.drop_last(), tokens, owner).push(keys.last())
    } else {
        ids_owned(keys.drop_last(), tokens, owner)
    }
}

/// What `ids_owned` picks from ascending keys is ascending, and is what
/// `owner` owns among them.
pub proof fn lemma_ids_owned(keys: Seq<u64>, tokens: Map<u64, Icrc7TokenView>, owner: AccountView)
    requires
        strictly_ascending(keys),
    ensures
        strictly_ascending(ids_owned(keys, tokens, owner)),
        forall|id: u64|
            #[trigger] ids_owned(keys, tokens, owner).contains(id) <==> keys.contains(id) && owned_by(
                tokens,
                id,
                owner,
            ),
        forall|i: int|
            0 <= i < ids_owned(keys, tokens, owner).len() && keys.len() > 0 ==> #[trigger] ids_owned(
                keys,
                tokens,
                owner,
            )[i] <= keys.last(),
    decreases keys.len(),
{
    if keys.len() > 0 {
        let rest = keys.drop_last();
        let picked = ids_owned(keys, tokens, owner);
        let before = ids_owned(rest, tokens, owner);
        lemma_ids_owned(rest, tokens, owner);
        assert forall|i: int| 0 <= i < before.len() implies #[trigger] before[i] < keys.last() by {
            assert(rest.len() > 0 ==> before[i] <= rest.last());
            if rest.len() > 0 {
                assert(rest.last() == keys[keys.len() - 2]);
                assert(keys[keys.len() - 2] < keys[keys.len() - 1]);
            }
        }
        assert forall|id: u64| picked.contains(id) <==> keys.contains(id) && owned_by(
            tokens,
            id,
            owner,
        ) by {
            let last = keys.last();
            assert(keys =~= rest.push(last));
            assert(before.contains(id) <==> rest.contains(id) && owned_by(tokens, id, owner));
            if picked.contains(id) {
                let j = picked.index_of(id);
                assert(picked[j] == id);
                if j < before.len() {
                    assert(before[j] == id);
                    assert(before.contains(id));
                    assert(rest.contains(id));
                    let m = rest.index_of(id);
                    assert(rest[m] == id);
                    assert(keys[m] == id);
                } else {
                    assert(id == last);
                    assert(keys[keys.len() - 1] == id);
                }
            }
            if keys.contains(id) && owned_by(tokens, id, owner) {
                let m = keys.index_of(id);
                assert(keys[m] == id);
                if m < rest.len() {
                    assert(rest[m] == id);
                    assert(rest.contains(id));
                    assert(before.contains(id));
                    let j = before.index_of(id);
                    assert(before[j] == id);
                    assert(picked[j] == id);
                } else {
                    assert(id == last);
                    assert(picked[before.len() as int] == id);
                }
            }
        }
    }
}

/// Whether some token of `tokens` belongs to an account of `principal`.
pub open spec fn owns_any(tokens: Map<u64, Icrc7TokenView>, principal: Seq<u8>) -> bool {
    exists|id: u64| tokens.contains_key(id) && (#[trigger] tokens[id]).token_owner.owner == principal
}

/// Those of `ids` that are tokens of `tokens`, each with its record, in
/// the order of `ids`.
pub open spec fn listed_tokens(ids: Seq<u64>, tokens: Map<u64, Icrc7TokenView>) -> Seq<
    Icrc7TokenView,
>
    decreases ids.len(),
{
    if ids.len() == 0 {
        Seq::<Icrc7TokenView>::empty()
    } else if tokens.contains_key(ids.last()) {
        listed_tokens(ids.drop_last(), tokens).push(tokens[ids.last()])
    } else {
        listed_tokens(ids.drop_last(), tokens)
    }
}

/// The configuration of the collection and the ownership table.
pub struct Data {
    pub authorized_principals: Vec<Principal>,
    pub minting_authorities: Vec<Principal>,
    pub description: Option<String>,
    pub symbol: String,
    pub name: String,
    pub logo: Option<String>,
    pub supply_cap: Option<u64>,
    pub max_query_batch_size: Option<u64>,
    pub max_update_batch_size: Option<u64>,
    pub max_take_value: Option<u64>,
    pub default_take_value: Option<u64>,
    pub max_memo_size: Option<u64>,
    pub atomic_batch_transfers: Option<bool>,
    pub tx_window: Option<u64>,
    pub permitted_drift: Option<u64>,
    pub max_canister_storage_threshold: Option<u64>,
    /// The ownership table: each token under its identifier.
    pub tokens_list: IdMap<Icrc7Token>,
    /// The reverse index: for an account, the tokens it was given by mint
    /// or by an owner's own transfer.
    pub tokens_list_by_owner: AccountMap<Vec<u64>>,
    pub approval_init: InitApprovalsArg,
    /// The identifier that the next mint assigns. Identifier 0 is never
    /// assigned: it stands for the collection as a whole.
    pub last_token_id: u64,
}

impl Data {
    /// The two tables are in order.
    pub open spec fn wf(&self) -> bool {
        &&& self.tokens_list.wf()
        &&& self.tokens_list_by_owner.wf()
    }

    /// A collection without tokens. The first identifier to be assigned is 1.
    #[allow(clippy::too_many_arguments)]
    pub fn new(
        authorized_principals: Vec<Principal>,
        minting_authorities: Vec<Principal>,
        description: Option<String>,
        symbol: String,
        name: String,
        logo: Option<String>,
        supply_cap: Option<u64>,
        max_query_batch_size: Option<u64>,
        max_update_batch_size: Option<u64>,
        max_take_value: Option<u64>,
        default_take_value: Option<u64>,
        max_memo_size: Option<u64>,
        atomic_batch_transfers: Option<bool>,
        tx_window: Option<u64>,
        max_canister_storage_threshold: Option<u64>,
        permitted_drift: Option<u64>,
        approval_init: InitApprovalsArg,
    ) -> (r: Self)
        ensures
            r.wf(),
            r.tokens_list@ == Map::<u64, Icrc7TokenView>::empty(),
            r.tokens_list_by_owner@ == Seq::<(AccountView, Seq<u64>)>::empty(),
            r.last_token_id == 1,
            r.authorized_principals == authorized_principals,
            r.minting_authorities == minting_authorities,
            r.description == description,
            r.symbol == symbol,
            r.name == name,
            r.logo == logo,
            r.supply_cap == supply_cap,
            r.max_query_batch_size == max_query_batch_size,
            r.max_update_batch_size == max_update_batch_size,
            r.max_take_value == max_take_value,
            r.default_take_value == default_take_value,
            r.max_memo_size == max_memo_size,
            r.atomic_batch_transfers == atomic_batch_transfers,
            r.tx_window == tx_window,
            r.permitted_drift == permitted_drift,
            r.max_canister_storage_threshold == max_canister_storage_threshold,
            r.approval_init == approval_init,
    {
        Data {
            authorized_principals,
            minting_authorities,
            description,
            symbol,
            name,
            logo,
            supply_cap,
            max_query_batch_size,
            max_update_batch_size,
            max_take_value,
            default_take_value,
            max_memo_size,
            atomic_batch_transfers,
            tx_window,
            permitted_drift,
            max_canister_storage_threshold,
            tokens_list: IdMap::new(),
            tokens_list_by_owner: AccountMap::new(),
            approval_init,
            last_token_id: 1,
        }
    }

    /// How many spenders one token or one collection may have approved.
    pub open spec fn approvals_cap(&self) -> u64 {
        setting(
            self.approval_init.max_approvals_per_token_or_collection,
            DEFAULT_MAX_APPROVALS_PER_TOKEN_OR_COLLECTION,
        )
    }

    /// How many entries of one batch of revocations are processed.
    pub open spec fn revoke_cap(&self) -> u64 {
        setting(
            self.approval_init.max_revoke_approvals,
            DEFAULT_MAX_APPROVALS_PER_TOKEN_OR_COLLECTION,
        )
    }

    /// How far ahead of the clock a request may be dated.
    pub open spec fn drift(&self) -> u64 {
        setting(self.permitted_drift, DEFAULT_PERMITTED_DRIFT)
    }

    /// How old a request may be.
    pub open spec fn window(&self) -> u64 {
        setting(self.tx_window, DEFAULT_TX_WINDOW)
    }

    /// The token under `token_id`, if there is one.
    pub fn get_token_by_id(&self, token_id: &u64) -> (r: Option<&Icrc7Token>)
        requires
            self.wf(),
        ensures
            match r {
                Some(t) => self.tokens_list@.contains_key(*token_id) && self.tokens_list@[*token_id]
                    == t@,
                None => !self.tokens_list@.contains_key(*token_id),
            },
    {
        self.tokens_list.get(*token_id)
    }

    /// Files `token` under `token_id`, in place of what was there.
    pub fn update_token_by_id(&mut self, token_id: &u64, token: &Icrc7Token)
        requires
            old(self).wf(),
        ensures
            final(self).wf(),
            final(self).tokens_list@ == old(self).tokens_list@.insert(*token_id, token@),
            *final(self) == (Data { tokens_list: final(self).tokens_list, ..*old(self) }),
    {
        self.tokens_list.insert(*token_id, *token);
    }

    /// Files `token` under its own identifier, in place of what was there.
    pub fn add_token(&mut self, token: &Icrc7Token)
        requires
            old(self).wf(),
        ensures
            final(self).wf(),
            final(self).tokens_list@ == old(self).tokens_list@.insert(token.token_id, token@),
            *final(self) == (Data { tokens_list: final(self).tokens_list, ..*old(self) }),
    {
        self.tokens_list.insert(token.token_id, *token);
    }

    /// Takes the token under `token_id` out of the table and hands it
    /// back, if there is one.
    pub fn remove_token_by_id(&mut self, token_id: &u64) -> (r: Option<Icrc7Token>)
        requires
            old(self).wf(),
        ensures
            final(self).wf(),
            final(self).tokens_list@ == old(self).tokens_list@.remove(*token_id),
            *final(self) == (Data { tokens_list: final(self).tokens_list, ..*old(self) }),
            match r {
                Some(token) => old(self).tokens_list@.contains_key(*token_id) && old(self).tokens_list@[*token_id]
                    == token@,
                None => !old(self).tokens_list@.contains_key(*token_id),
            },
    {
        self.tokens_list.remove(*token_id)
    }

    /// The account that owns `token_id`, if the token exists.
    pub fn owner_of(&self, token_id: &u64) -> (r: Option<Account>)
        requires
            self.wf(),
        ensures
            crate::types::account::option_account_view(r) == owner_in(self.tokens_list@, *token_id),
    {
        match self.tokens_list.get(*token_id) {
            Some(token) => Some(token.token_owner),
            None => None,
        }
    }

    /// How many tokens the reverse index lists for `owner`.
    pub fn tokens_balance_of(&self, owner: &Account) -> (r: u64)
        requires
            self.wf(),
        ensures
            r == indexed_tokens(self.tokens_list_by_owner@, owner@).len(),
    {
        match self.tokens_list_by_owner.get(owner) {
            Some(ids) => ids.len() as u64,
            None => 0,
        }
    }

    /// The tokens that the reverse index lists for `owner` and that exist,
    /// in the order of the index.
    pub fn tokens_of_account(&self, owner: &Account) -> (r: Vec<Icrc7Token>)
        requires
            self.wf(),
        ensures
            r@.len() == listed_tokens(
                indexed_tokens(self.tokens_list_by_owner@, owner@),
                self.tokens_list@,
            ).len(),
            forall|i: int|
                0 <= i < r@.len() ==> (#[trigger] r@[i])@ == listed_tokens(
                    indexed_tokens(self.tokens_list_by_owner@, owner@),
                    self.tokens_list@,
                )[i],
    {
        let mut out: Vec<Icrc7Token> = Vec::new();
        match self.tokens_list_by_owner.get(owner) {
            Some(ids) => {
                let mut i: usize = 0;
                while i < ids.len()
                    invariant
                        self.wf(),
                        i <= ids@.len(),
                        out@.len() == listed_tokens(ids@.take(i as int), self.tokens_list@).len(),
                        forall|j: int|
                            0 <= j < out@.len() ==> (#[trigger] out@[j])@ == listed_tokens(
                                ids@.take(i as int),
                                self.tokens_list@,
                            )[j],
                    decreases ids@.len() - i,
                {
                    proof {
                        assert(ids@.take(i + 1).drop_last() =~= ids@.take(i as int));
                        assert(ids@.take(i + 1).last() == ids@[i as int]);
                    }
                    match self.tokens_list.get(ids[i]) {
                        Some(token) => {
                            out.push(*token);
                        },
                        None => {},
                    }
                    i = i + 1;
                }
                assert(ids@.take(ids@.len() as int) =~= ids@);
            },
            None => {},
        }
        out
    }

    /// The identifiers of the tokens that `owner` owns, in ascending order.
    pub fn tokens_ids_of_account(&self, owner: &Account) -> (r: Vec<u64>)
        requires
            self.wf(),
        ensures
            r@ == ids_owned(self.tokens_list.keys(), self.tokens_list@, owner@),
    {
        let mut out: Vec<u64> = Vec::new();
        let n: usize = self.tokens_list.len();
        let mut i: usize = 0;
        proof {
            self.tokens_list.lemma_model();
        }
        while i < n
            invariant
                self.wf(),
                n == self.tokens_list.keys().len(),
                i <= n,
                out@ == ids_owned(self.tokens_list.keys().take(i as int), self.tokens_list@, owner@),
            decreases n - i,
        {
            proof {
                self.tokens_list.lemma_model();
            }
            let id: u64 = self.tokens_list.key_at(i);
            let token = self.tokens_list.value_at(i);
            proof {
                let keys = self.tokens_list.keys();
                assert(keys.take(i + 1).drop_last() =~= keys.take(i as int));
                assert(keys.take(i + 1).last() == id);
                assert(self.tokens_list@[id] == token@);
            }
            if token.token_owner == *owner {
                out.push(id);
            }
            i = i + 1;
        }
        proof {
            assert(self.tokens_list.keys().take(n as int) =~= self.tokens_list.keys());
        }
        out
    }

    /// Whether some token belongs to an account of `principal`.
    pub fn owns_any_token(&self, principal: &Principal) -> (r: bool)
        requires
            self.wf(),
        ensures
            r == owns_any(self.tokens_list@, principal@),
    {
        let n: usize = self.tokens_list.len();
        let mut i: usize = 0;
        proof {
            self.tokens_list.lemma_model();
        }
        while i < n
            invariant
                self.wf(),
                n == self.tokens_list.keys().len(),
                i <= n,
                forall|j: int|
                    0 <= j < i ==> (#[trigger] self.tokens_list.values()[j]).token_owner.owner
                        != principal@,
            decreases n - i,
        {
            proof {
                self.tokens_list.lemma_model();
            }
            let token = self.tokens_list.value_at(i);
            if token.token_owner.owner == *principal {
                proof {
                    let id = self.tokens_list.keys()[i as int];
                    assert(self.tokens_list@.contains_key(id));
                    assert(self.tokens_list@[id] == self.tokens_list.values()[i as int]);
                }
                return true;
            }
            i = i + 1;
        }
        proof {
            self.tokens_list.lemma_model();
            if owns_any(self.tokens_list@, principal@) {
                let id = choose|id: u64|
                    self.tokens_list@.contains_key(id) && (#[trigger] self.tokens_list@[id]).token_owner.owner
                        == principal@;
                let j = self.tokens_list.keys().index_of(id);
                assert(self.tokens_list.keys()[j] == id);
                assert(self.tokens_list@[id] == self.tokens_list.values()[j]);
            }
        }
        false
    }

    /// The number of tokens.
    pub fn total_supply(&self) -> (r: u64)
        requires
            self.wf(),
        ensures
            r == self.tokens_list@.len(),
    {
        self.tokens_list.len() as u64
    }
}

/// The whole state of the registry.
pub struct RuntimeState {
    pub data: Data,
    /// The callers that hold the single-flight guard.
    pub principal_guards: PrincipalGuards,
    /// The rate limiter's table: for a token, the times of its recent calls.
    pub sliding_window_guards: HashMap<u64, Vec<u64>>,
    /// The approvals on single tokens.
    pub token_approvals: TokenApprovals,
    /// The approvals on whole collections.
    pub collection_approvals: CollectionApprovals,
}

impl RuntimeState {
    /// Every table of the state is in order.
    pub open spec fn wf(&self) -> bool {
        &&& self.data.wf()
        &&& self.principal_guards.wf()
        &&& token_approvals_wf(&self.token_approvals)
        &&& collection_approvals_wf(&self.collection_approvals)
    }

    /// The rate limiter's table: for a token, the times of its recent
    /// calls.
    pub open spec fn call_windows(&self) -> Map<u64, Seq<u64>> {
        call_windows(self.sliding_window_guards@)
    }

    /// The state of a registry that holds `data`, with no guard taken, no
    /// call recorded and no approval given.
    pub fn new(data: Data) -> (r: Self)
        requires
            data.wf(),
        ensures
            r.wf(),
            r.data == data,
            r.principal_guards@ == Set::<Seq<u8>>::empty(),
            r.call_windows() == Map::<u64, Seq<u64>>::empty(),
            r.token_approvals@ == Map::<u64, SpenderSeq>::empty(),
            r.collection_approvals@ == Seq::<(AccountView, SpenderSeq)>::empty(),
    {
        RuntimeState {
            data,
            principal_guards: PrincipalGuards::new(),
            sliding_window_guards: HashMap::new(),
            token_approvals: init_token_approvals(),
            collection_approvals: init_collection_approvals(),
        }
    }

    /// Whether `caller` is one of the authorized principals.
    pub fn is_caller_governance_principal(&self, caller: &Principal) -> (r: bool)
        ensures
            r == lists_principal(self.data.authorized_principals@, caller@),
    {
        contains_principal(&self.data.authorized_principals, caller)
    }

    /// Whether `caller` is one of the minting authorities.
    pub fn is_caller_minting_authority(&self, caller: &Principal) -> (r: bool)
        ensures
            r == lists_principal(self.data.minting_authorities@, caller@),
    {
        contains_principal(&self.data.minting_authorities, caller)
    }
}

} // verus!
