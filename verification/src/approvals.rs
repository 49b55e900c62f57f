//! The approval store: the approvals on single tokens and the approvals
//! on whole collections.
//!
//! Both halves keep, for a key, one approval for each approved spender: the
//! key is the identifier of a token in the one and the granting account in
//! the other. The store holds the approvals as they were given; whether
//! one is still in force is for its readers to say.

use vstd::prelude::*;
use crate::collections::account_map::{
    del, distinct_keys, has_key, key_index, lemma_del, lemma_del_after_put, lemma_del_keeps,
    lemma_put, lemma_put_keeps, lemma_put_twice, lookup, put, AccountMap,
};
use crate::types::account::{Account, AccountView};
use crate::types::icrc37::{
    approval_active, collection_approvals_wf, token_approvals_wf, Approval, ApprovalView,
    CollectionApprovals, SpenderSeq, TokenApprovalValue, TokenApprovals,
};

verus! {

/// The approvals that `store` holds for `token_id`; none where the token
/// has no entry.
pub open spec fn spenders_of(store: Map<u64, SpenderSeq>, token_id: u64) -> SpenderSeq {
    if store.contains_key(token_id) {
        store[token_id]
    } else {
        Seq::<(AccountView, ApprovalView)>::empty()
    }
}

/// The approvals that `store` holds for the collection of `owner`; none
/// where the owner has no entry.
pub open spec fn collection_spenders_of(
    store: Seq<(AccountView, SpenderSeq)>,
    owner: AccountView,
) -> SpenderSeq {
    match lookup(store, owner) {
        Some(spenders) => spenders,
        None => Seq::<(AccountView, ApprovalView)>::empty(),
    }
}

/// Whether one more spender would take `spenders` over `cap`: `spender`
/// is not among them and there are `cap` of them already.
pub open spec fn cap_reached(spenders: SpenderSeq, spender: AccountView, cap: u64) -> bool {
    !has_key(spenders, spender) && spenders.len() >= cap
}

/// Whether no token carries more approvals than `cap`.
pub open spec fn tokens_within_cap(store: Map<u64, SpenderSeq>, cap: u64) -> bool {
    forall|id: u64| store.contains_key(id) ==> (#[trigger] store[id]).len() <= cap
}

/// Whether no collection carries more approvals than `cap`.
pub open spec fn collections_within_cap(store: Seq<(AccountView, SpenderSeq)>, cap: u64) -> bool {
    forall|i: int| 0 <= i < store.len() ==> (#[trigger] store[i]).1.len() <= cap
}

/// Whether `spenders` hold an approval of `spender` that is in force at
/// `now`.
pub open spec fn approves(spenders: SpenderSeq, spender: AccountView, now: u64) -> bool {
    match lookup(spenders, spender) {
        Some(approval) => approval_active(approval, now),
        None => false,
    }
}

/// Whether `spenders` hold an approval of `spender` that has expired by
/// `now`.
pub open spec fn holds_expired(spenders: SpenderSeq, spender: AccountView, now: u64) -> bool {
    match lookup(spenders, spender) {
        Some(approval) => !approval_active(approval, now),
        None => false,
    }
}

/// Whether one more approval, of `spender`, would take the token
/// `token_id` over `cap`.
pub fn token_cap_reached(store: &TokenApprovals, token_id: u64, spender: &Account, cap: u64) -> (r: bool)
    requires
        token_approvals_wf(store),
    ensures
        r == cap_reached(spenders_of(store@, token_id), spender@, cap),
{
    match store.get(token_id) {
        Some(spenders) => !spenders.contains_key(spender) && spenders.len() as u64 >= cap,
        None => cap == 0,
    }
}

/// Whether one more approval, of `spender`, would take the collection of
/// `owner` over `cap`.
pub fn collection_cap_reached(
    store: &CollectionApprovals,
    owner: &Account,
    spender: &Account,
    cap: u64,
) -> (r: bool)
    requires
        collection_approvals_wf(store),
    ensures
        r == cap_reached(collection_spenders_of(store@, owner@), spender@, cap),
{
    match store.get(owner) {
        Some(spenders) => !spenders.contains_key(spender) && spenders.len() as u64 >= cap,
        None => cap == 0,
    }
}

/// The approvals on single tokens once `approval` has been put under
/// `token_id` for `spender`.
pub open spec fn token_approved(
    store: Map<u64, SpenderSeq>,
    token_id: u64,
    spender: AccountView,
    approval: ApprovalView,
) -> Map<u64, SpenderSeq> {
    store.insert(token_id, put(spenders_of(store, token_id), spender, approval))
}

/// Puts `approval` under the token `token_id` for `spender`, in place of
/// an earlier approval of the same spender.
pub fn put_token_approval(store: &mut TokenApprovals, token_id: u64, spender: Account, approval: Approval)
    requires
        token_approvals_wf(old(store)),
    ensures
        token_approvals_wf(final(store)),
        final(store)@ == token_approved(old(store)@, token_id, spender@, approval@),
{
    let mut spenders: TokenApprovalValue = match store.remove(token_id) {
        Some(existing) => existing,
        None => AccountMap::new(),
    };
    proof {
        lemma_put(spenders@, spender@, approval@);
    }
    spenders.insert(spender, approval);
    store.insert(token_id, spenders);
    assert(final(store)@ =~= token_approved(old(store)@, token_id, spender@, approval@));
}

/// The approvals on collections once `approval` has been put under
/// `owner` for `spender`.
pub open spec fn collection_approved(
    store: Seq<(AccountView, SpenderSeq)>,
    owner: AccountView,
    spender: AccountView,
    approval: ApprovalView,
) -> Seq<(AccountView, SpenderSeq)> {
    put(store, owner, put(collection_spenders_of(store, owner), spender, approval))
}

/// Puts `approval` under the collection of `owner` for `spender`, in
/// place of an earlier approval of the same spender. The owner's entry
/// keeps its place among the entries.
pub fn put_collection_approval(
    store: &mut CollectionApprovals,
    owner: Account,
    spender: Account,
    approval: Approval,
)
    requires
        collection_approvals_wf(old(store)),
    ensures
        collection_approvals_wf(final(store)),
        final(store)@ == collection_approved(old(store)@, owner@, spender@, approval@),
{
    let ghost before = store@;
    let ghost empty = Seq::<(AccountView, ApprovalView)>::empty();
    proof {
        lemma_put(before, owner@, empty);
        lemma_put_keeps(before, owner@, empty);
        if has_key(before, owner@) {
            let i = key_index(before, owner@);
            assert(before[i].1 == collection_spenders_of(before, owner@));
        }
    }
    let taken = store.insert(owner, AccountMap::new());
    let mut spenders: TokenApprovalValue = match taken {
        Some(existing) => existing,
        None => AccountMap::new(),
    };
    assert(spenders@ == collection_spenders_of(before, owner@));
    proof {
        lemma_put(spenders@, spender@, approval@);
    }
    spenders.insert(spender, approval);
    proof {
        lemma_put_keeps(store@, owner@, spenders@);
        lemma_put_twice(before, owner@, empty, spenders@);
        lemma_put(store@, owner@, spenders@);
    }
    store.insert(owner, spenders);
}

/// The refusal of an approval that would take its key over the cap.
#[derive(Clone, Copy, Debug, PartialEq, Eq, Structural)]
pub struct CapExceeded;

/// Puts `approval` under the token `token_id` for `spender`, unless that
/// would take the token over `cap`: an approval of a new spender is
/// refused where the token has `cap` spenders already, and the store
/// stays as it was; an approval of a spender who has one replaces it.
pub fn upsert_token_approval(
    store: &mut TokenApprovals,
    token_id: u64,
    spender: Account,
    approval: Approval,
    cap: u64,
) -> (r: Result<(), CapExceeded>)
    requires
        token_approvals_wf(old(store)),
    ensures
        token_approvals_wf(final(store)),
        r is Err <==> cap_reached(spenders_of(old(store)@, token_id), spender@, cap),
        r is Err ==> final(store)@ == old(store)@,
        r is Ok ==> final(store)@ == token_approved(old(store)@, token_id, spender@, approval@),
        tokens_within_cap(old(store)@, cap) ==> tokens_within_cap(final(store)@, cap),
{
    if token_cap_reached(store, token_id, &spender, cap) {
        return Err(CapExceeded);
    }
    proof {
        if tokens_within_cap(store@, cap) {
            if store@.contains_key(token_id) {
                assert(store@[token_id].len() <= cap);
            }
            lemma_cap_kept(spenders_of(store@, token_id), spender@, approval@, cap);
        }
    }
    put_token_approval(store, token_id, spender, approval);
    Ok(())
}

/// Puts `approval` under the collection of `owner` for `spender`, unless
/// that would take the collection over `cap`: an approval of a new spender
/// is refused where the collection has `cap` spenders already, and the
/// store stays as it was; an approval of a spender who has one replaces
/// it.
pub fn upsert_collection_approval(
    store: &mut CollectionApprovals,
    owner: Account,
    spender: Account,
    approval: Approval,
    cap: u64,
) -> (r: Result<(), CapExceeded>)
    requires
        collection_approvals_wf(old(store)),
    ensures
        collection_approvals_wf(final(store)),
        r is Err <==> cap_reached(collection_spenders_of(old(store)@, owner@), spender@, cap),
        r is Err ==> final(store)@ == old(store)@,
        r is Ok ==> final(store)@ == collection_approved(old(store)@, owner@, spender@, approval@),
        collections_within_cap(old(store)@, cap) ==> collections_within_cap(final(store)@, cap),
{
    if collection_cap_reached(store, &owner, &spender, cap) {
        return Err(CapExceeded);
    }
    proof {
        if collections_within_cap(store@, cap) {
            lemma_collection_cap_kept(store@, owner@, spender@, approval@, cap);
        }
    }
    put_collection_approval(store, owner, spender, approval);
    Ok(())
}

/// What is left of `spenders` after a revocation: all but `spender` where
/// one is named, and none where none is.
pub open spec fn revoked(spenders: SpenderSeq, spender: Option<AccountView>) -> SpenderSeq {
    match spender {
        Some(s) => del(spenders, s),
        None => Seq::<(AccountView, ApprovalView)>::empty(),
    }
}

/// Revokes from `spenders`: the approval of `spender` where one is named,
/// all of them where none is.
fn revoke_from(spenders: &mut TokenApprovalValue, spender: &Option<Account>)
    requires
        old(spenders).wf(),
    ensures
        final(spenders).wf(),
        final(spenders)@ == revoked(old(spenders)@, crate::types::account::option_account_view(*spender)),
{
    match spender {
        Some(s) => {
            spenders.remove(s);
        },
        None => {
            spenders.clear();
        },
    }
}

/// Revokes on the token `token_id`: the approval of `spender` where one
/// is named, all approvals where none is. The token keeps, or gets, its
/// entry in the store, be it empty.
pub fn revoke_token_spenders(store: &mut TokenApprovals, token_id: u64, spender: &Option<Account>)
    requires
        token_approvals_wf(old(store)),
    ensures
        token_approvals_wf(final(store)),
        final(store)@ == old(store)@.insert(
            token_id,
            revoked(
                spenders_of(old(store)@, token_id),
                crate::types::account::option_account_view(*spender),
            ),
        ),
{
    let mut spenders: TokenApprovalValue = match store.remove(token_id) {
        Some(existing) => existing,
        None => AccountMap::new(),
    };
    proof {
        lemma_revoked(spenders@, crate::types::account::option_account_view(*spender));
    }
    revoke_from(&mut spenders, spender);
    store.insert(token_id, spenders);
    assert(final(store)@ =~= old(store)@.insert(
        token_id,
        revoked(
            spenders_of(old(store)@, token_id),
            crate::types::account::option_account_view(*spender),
        ),
    ));
}

/// Revokes on the collection of `owner`: the approval of `spender` where
/// one is named, all approvals where none is. The owner keeps, or gets,
/// an entry in the store, be it empty.
pub fn revoke_collection_spenders(
    store: &mut CollectionApprovals,
    owner: Account,
    spender: &Option<Account>,
)
    requires
        collection_approvals_wf(old(store)),
    ensures
        collection_approvals_wf(final(store)),
        final(store)@ == put(
            old(store)@,
            owner@,
            revoked(
                collection_spenders_of(old(store)@, owner@),
                crate::types::account::option_account_view(*spender),
            ),
        ),
{
    let ghost before = store@;
    let ghost empty = Seq::<(AccountView, ApprovalView)>::empty();
    proof {
        lemma_put(before, owner@, empty);
        lemma_put_keeps(before, owner@, empty);
        if has_key(before, owner@) {
            let i = key_index(before, owner@);
            assert(before[i].1 == collection_spenders_of(before, owner@));
        }
    }
    let taken = store.insert(owner, AccountMap::new());
    let mut spenders: TokenApprovalValue = match taken {
        Some(existing) => existing,
        None => AccountMap::new(),
    };
    proof {
        lemma_revoked(spenders@, crate::types::account::option_account_view(*spender));
    }
    revoke_from(&mut spenders, spender);
    proof {
        lemma_put_keeps(store@, owner@, spenders@);
        lemma_put_twice(before, owner@, empty, spenders@);
        lemma_put(store@, owner@, spenders@);
    }
    store.insert(owner, spenders);
}

/// Takes every approval from the token `token_id`, with the token's
/// entry in the store.
pub fn clear_token_approvals(store: &mut TokenApprovals, token_id: u64)
    requires
        token_approvals_wf(old(store)),
    ensures
        token_approvals_wf(final(store)),
        final(store)@ == old(store)@.remove(token_id),
        spenders_of(final(store)@, token_id).len() == 0,
{
    store.remove(token_id);
}

/// Takes every approval from the collection of `owner`, with the owner's
/// entry in the store.
pub fn clear_collection_approvals(store: &mut CollectionApprovals, owner: &Account)
    requires
        collection_approvals_wf(old(store)),
    ensures
        collection_approvals_wf(final(store)),
        final(store)@ == del(old(store)@, owner@),
        collection_spenders_of(final(store)@, owner@).len() == 0,
{
    proof {
        lemma_del(store@, owner@);
        lemma_del_keeps(store@, owner@);
    }
    store.remove(owner);
}

/// The approvals on single tokens once a delegated transfer of
/// `token_id` by `spender` has looked at them: an approval of `spender`
/// that has expired is gone, and nothing else has changed.
pub open spec fn token_purged(
    store: Map<u64, SpenderSeq>,
    token_id: u64,
    spender: AccountView,
    now: u64,
) -> Map<u64, SpenderSeq> {
    if holds_expired(spenders_of(store, token_id), spender, now) {
        store.insert(token_id, del(spenders_of(store, token_id), spender))
    } else {
        store
    }
}

/// The approvals on collections once a delegated transfer by `spender`
/// of a token of `owner` has looked at them: an approval of `spender` that
/// has expired is gone, with the owner's entry where it was the last one,
/// and nothing else has changed.
pub open spec fn collection_purged(
    store: Seq<(AccountView, SpenderSeq)>,
    owner: AccountView,
    spender: AccountView,
    now: u64,
) -> Seq<(AccountView, SpenderSeq)> {
    let spenders = collection_spenders_of(store, owner);
    if holds_expired(spenders, spender, now) {
        if del(spenders, spender).len() == 0 {
            del(store, owner)
        } else {
            put(store, owner, del(spenders, spender))
        }
    } else {
        store
    }
}

/// Looks for an approval of `spender` on the token `token_id` and drops
/// it where it has expired. The result says whether one is in force.
pub fn check_token_approval(
    store: &mut TokenApprovals,
    token_id: u64,
    spender: &Account,
    current_time: u64,
) -> (r: bool)
    requires
        token_approvals_wf(old(store)),
    ensures
        token_approvals_wf(final(store)),
        final(store)@ == token_purged(old(store)@, token_id, spender@, current_time),
        r == approves(spenders_of(old(store)@, token_id), spender@, current_time),
{
    let expired: bool = match store.get(token_id) {
        Some(spenders) => match spenders.get(spender) {
            Some(approval) => {
                if approval.is_active(current_time) {
                    return true;
                }
                true
            },
            None => false,
        },
        None => false,
    };
    if expired {
        let mut spenders: TokenApprovalValue = match store.remove(token_id) {
            Some(existing) => existing,
            None => AccountMap::new(),
        };
        proof {
            lemma_del(spenders@, spender@);
        }
        spenders.remove(spender);
        store.insert(token_id, spenders);
        proof {
            assert(final(store)@ =~= token_purged(old(store)@, token_id, spender@, current_time));
        }
    }
    false
}

/// Looks for an approval of `spender` on the collection of `owner` and
/// drops it where it has expired, with the owner's entry where it was the
/// last one. The result says whether one is in force.
pub fn check_collection_approval(
    store: &mut CollectionApprovals,
    owner: &Account,
    spender: &Account,
    current_time: u64,
) -> (r: bool)
    requires
        collection_approvals_wf(old(store)),
    ensures
        collection_approvals_wf(final(store)),
        final(store)@ == collection_purged(old(store)@, owner@, spender@, current_time),
        r == approves(collection_spenders_of(old(store)@, owner@), spender@, current_time),
{
    let ghost before = store@;
    proof {
        if has_key(before, owner@) {
            let i = key_index(before, owner@);
            assert(before[i].1 == collection_spenders_of(before, owner@));
        }
    }
    let expired: bool = match store.get(owner) {
        Some(spenders) => match spenders.get(spender) {
            Some(approval) => {
                if approval.is_active(current_time) {
                    return true;
                }
                true
            },
            None => false,
        },
        None => false,
    };
    if expired {
        let ghost empty = Seq::<(AccountView, ApprovalView)>::empty();
        proof {
            lemma_put(before, owner@, empty);
            lemma_put_keeps(before, owner@, empty);
        }
        let taken = store.insert(*owner, AccountMap::new());
        let mut spenders: TokenApprovalValue = match taken {
            Some(existing) => existing,
            None => AccountMap::new(),
        };
        proof {
            lemma_del(spenders@, spender@);
        }
        spenders.remove(spender);
        if spenders.is_empty() {
            proof {
                lemma_del(store@, owner@);
                lemma_del_keeps(store@, owner@);
                lemma_del_after_put(before, owner@, empty);
            }
            store.remove(owner);
        } else {
            proof {
                lemma_put_keeps(store@, owner@, spenders@);
                lemma_put_twice(before, owner@, empty, spenders@);
                lemma_put(store@, owner@, spenders@);
            }
            store.insert(*owner, spenders);
        }
    }
    false
}

/// A revocation that names no spender leaves no approval at all. One that
/// names a spender takes that spender's approval and leaves every other
/// as it was.
pub proof fn lemma_revoked(spenders: SpenderSeq, spender: Option<AccountView>)
    requires
        distinct_keys(spenders),
    ensures
        distinct_keys(revoked(spenders, spender)),
        spender is None ==> revoked(spenders, spender).len() == 0,
        spender is Some ==> lookup(revoked(spenders, spender), spender->0) is None,
        spender is Some ==> forall|other: AccountView|
            other != spender->0 ==> lookup(revoked(spenders, spender), other) == lookup(
                spenders,
                other,
            ),
{
    match spender {
        Some(s) => {
            lemma_del(spenders, s);
        },
        None => {},
    }
}

/// With as many spenders as the cap allows, an approval is refused for
/// the cap if and only if its spender is a new one: approving once more a
/// spender who is approved already replaces the approval and is let
/// through.
pub proof fn lemma_cap_decides(spenders: SpenderSeq, spender: AccountView, cap: u64)
    requires
        spenders.len() == cap,
    ensures
        cap_reached(spenders, spender, cap) <==> !has_key(spenders, spender),
{
}

/// An approval that is not refused for the cap leaves no more spenders
/// than the cap allows, and is the approval of its spender afterwards.
pub proof fn lemma_cap_kept(spenders: SpenderSeq, spender: AccountView, approval: ApprovalView, cap: u64)
    requires
        distinct_keys(spenders),
        spenders.len() <= cap,
        !cap_reached(spenders, spender, cap),
    ensures
        distinct_keys(put(spenders, spender, approval)),
        put(spenders, spender, approval).len() <= cap,
        lookup(put(spenders, spender, approval), spender) == Some(approval),
{
    lemma_put(spenders, spender, approval);
}

/// Once an approval has been put under a token for a spender, the token
/// approves that spender at every time at which the approval is in force.
pub proof fn lemma_token_approved_approves(
    store: Map<u64, SpenderSeq>,
    token_id: u64,
    spender: AccountView,
    approval: ApprovalView,
    now: u64,
)
    requires
        distinct_keys(spenders_of(store, token_id)),
        approval_active(approval, now),
    ensures
        approves(
            spenders_of(token_approved(store, token_id, spender, approval), token_id),
            spender,
            now,
        ),
{
    lemma_put(spenders_of(store, token_id), spender, approval);
}

/// Once the approvals of a token have been cleared, the token approves
/// nobody.
pub proof fn lemma_cleared_token_approves_nobody(
    store: Map<u64, SpenderSeq>,
    token_id: u64,
    spender: AccountView,
    now: u64,
)
    ensures
        !approves(spenders_of(store.remove(token_id), token_id), spender, now),
{
}

/// An approval that is not refused for the cap leaves every collection
/// within the cap that was within it before.
pub proof fn lemma_collection_cap_kept(
    store: Seq<(AccountView, SpenderSeq)>,
    owner: AccountView,
    spender: AccountView,
    approval: ApprovalView,
    cap: u64,
)
    requires
        distinct_keys(store),
        forall|i: int| 0 <= i < store.len() ==> distinct_keys((#[trigger] store[i]).1),
        collections_within_cap(store, cap),
        !cap_reached(collection_spenders_of(store, owner), spender, cap),
    ensures
        collections_within_cap(collection_approved(store, owner, spender, approval), cap),
{
    let spenders = collection_spenders_of(store, owner);
    if has_key(store, owner) {
        let i = key_index(store, owner);
        assert(store[i].1 == spenders);
    }
    lemma_cap_kept(spenders, spender, approval, cap);
    let after = put(store, owner, put(spenders, spender, approval));
    lemma_put_keeps(store, owner, put(spenders, spender, approval));
    assert forall|i: int| 0 <= i < after.len() implies (#[trigger] after[i]).1.len() <= cap by {
        if store.contains(after[i]) {
            let j = store.index_of(after[i]);
            assert(store[j].1.len() <= cap);
        }
    }
}

} // verus!
