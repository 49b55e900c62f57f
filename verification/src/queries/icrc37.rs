//! Questions about approvals: whether a spender may transfer a token, and
//! which approvals a token or a collection carries.

use vstd::prelude::*;
use crate::collections::account_map::{has_key, key_index, lookup};
use crate::state::{owner_in, RuntimeState};
use crate::types::account::{Account, AccountView};
use crate::types::icrc37::{
    approval_active, ApprovalInfo, ApprovalInfoView, ApprovalView, CollectionApproval,
    IsApprovedArg, SpenderSeq, TokenApproval, TokenApprovalValue,
};
use crate::types::ledger::clone_bytes;
use crate::approvals::{approves, collection_spenders_of, spenders_of};
use crate::updates::icrc37::account_of;

verus! {

/// The page size of a listing of approvals where the caller names none.
pub const DEFAULT_APPROVALS_TAKE: u64 = 10;

/// Whether the owner of the token `token_id` has approved `spender` for
/// the whole collection by an approval that is in force at `now`. A
/// token that does not exist has no owner to approve anyone.
pub open spec fn collection_approves(
    state: &RuntimeState,
    token_id: u64,
    spender: AccountView,
    now: u64,
) -> bool {
    let tokens = state.data.tokens_list@;
    tokens.contains_key(token_id) && approves(
        collection_spenders_of(state.collection_approvals@, tokens[token_id].token_owner),
        spender,
        now,
    )
}

/// Whether `arg.spender` counts as approved for the token `arg.token_id`
/// at `now`: the account of the spender's owner under the subaccount
/// `arg.from_subaccount` owns the token, or the token carries an approval
/// of the spender that is in force, or the owner of the token has approved
/// the spender for the collection by an approval that is in force.
pub open spec fn is_approved_for(state: &RuntimeState, arg: &IsApprovedArg, now: u64) -> bool {
    ||| owner_in(state.data.tokens_list@, arg.token_id) == Some(
        account_of(arg.spender@.owner, arg.from_subaccount),
    )
    ||| approves(spenders_of(state.token_approvals@, arg.token_id), arg.spender@, now)
    ||| collection_approves(state, arg.token_id, arg.spender@, now)
}

/// Answers one question.
pub fn is_approved(state: &RuntimeState, arg: &IsApprovedArg, current_time: u64) -> (r: bool)
    requires
        state.wf(),
    ensures
        r == is_approved_for(state, arg, current_time),
{
    let from_account = Account { owner: arg.spender.owner, subaccount: arg.from_subaccount };
    let has_token_approval: bool = match state.token_approvals.get(arg.token_id) {
        Some(spenders) => match spenders.get(&arg.spender) {
            Some(approval) => approval.is_active(current_time),
            None => false,
        },
        None => false,
    };
    match state.data.owner_of(&arg.token_id) {
        Some(owner) => {
            proof {
                let store = state.collection_approvals@;
                if has_key(store, owner@) {
                    let i = key_index(store, owner@);
                    assert(store[i].1 == collection_spenders_of(store, owner@));
                }
            }
            let has_collection_approval: bool = match state.collection_approvals.get(&owner) {
                Some(spenders) => match spenders.get(&arg.spender) {
                    Some(approval) => approval.is_active(current_time),
                    None => false,
                },
                None => false,
            };
            owner == from_account || has_token_approval || has_collection_approval
        },
        None => has_token_approval,
    }
}

/// An approval that is in force makes its spender count as approved,
/// be it an approval on the token or one that the token's owner gave for
/// the collection.
pub proof fn lemma_approval_in_force_is_reported(state: &RuntimeState, arg: &IsApprovedArg, now: u64)
    requires
        approves(spenders_of(state.token_approvals@, arg.token_id), arg.spender@, now)
            || collection_approves(state, arg.token_id, arg.spender@, now),
    ensures
        is_approved_for(state, arg, now),
{
}

/// A spender who does not own the token and holds no approval in force,
/// neither on the token nor from its owner for the collection, does not
/// count as approved, whatever approvals that have expired the store
/// still holds.
pub proof fn lemma_no_approval_in_force_is_reported(
    state: &RuntimeState,
    arg: &IsApprovedArg,
    now: u64,
)
    requires
        owner_in(state.data.tokens_list@, arg.token_id) != Some(
            account_of(arg.spender@.owner, arg.from_subaccount),
        ),
        !approves(spenders_of(state.token_approvals@, arg.token_id), arg.spender@, now),
        !collection_approves(state, arg.token_id, arg.spender@, now),
    ensures
        !is_approved_for(state, arg, now),
{
}

/// An approval on a token makes its spender count as approved for as long
/// as it is in force and no longer: before its expiry the answer is yes;
/// from its expiry on the answer is no, though nobody revoked it, for a
/// spender who does not own the token and holds no approval in force from
/// its owner for the collection.
pub proof fn lemma_approval_lapses(
    state: &RuntimeState,
    arg: &IsApprovedArg,
    expires_at: u64,
    before: u64,
    after: u64,
)
    requires
        lookup(spenders_of(state.token_approvals@, arg.token_id), arg.spender@) is Some,
        lookup(spenders_of(state.token_approvals@, arg.token_id), arg.spender@)->0.expires_at
            == Some(expires_at),
        before < expires_at <= after,
        owner_in(state.data.tokens_list@, arg.token_id) != Some(
            account_of(arg.spender@.owner, arg.from_subaccount),
        ),
        !collection_approves(state, arg.token_id, arg.spender@, after),
    ensures
        is_approved_for(state, arg, before),
        !is_approved_for(state, arg, after),
{
}

/// An approval for a collection makes its spender count as approved for
/// every token of the owner who gave it, for as long as it is in force and
/// no longer: before its expiry the answer is yes; from its expiry on the
/// answer is no, though nobody revoked it, for a spender who does not own
/// the token and holds no approval in force on the token itself.
pub proof fn lemma_collection_approval_lapses(
    state: &RuntimeState,
    arg: &IsApprovedArg,
    expires_at: u64,
    before: u64,
    after: u64,
)
    requires
        state.data.tokens_list@.contains_key(arg.token_id),
        lookup(
            collection_spenders_of(
                state.collection_approvals@,
                state.data.tokens_list@[arg.token_id].token_owner,
            ),
            arg.spender@,
        ) is Some,
        lookup(
            collection_spenders_of(
                state.collection_approvals@,
                state.data.tokens_list@[arg.token_id].token_owner,
            ),
            arg.spender@,
        )->0.expires_at == Some(expires_at),
        before < expires_at <= after,
        owner_in(state.data.tokens_list@, arg.token_id) != Some(
            account_of(arg.spender@.owner, arg.from_subaccount),
        ),
        !approves(spenders_of(state.token_approvals@, arg.token_id), arg.spender@, after),
    ensures
        is_approved_for(state, arg, before),
        !is_approved_for(state, arg, after),
{
}

/// An approval without an expiry makes its spender count as approved at
/// every time.
pub proof fn lemma_approval_without_expiry(state: &RuntimeState, arg: &IsApprovedArg, now: u64)
    requires
        lookup(spenders_of(state.token_approvals@, arg.token_id), arg.spender@) is Some,
        lookup(spenders_of(state.token_approvals@, arg.token_id), arg.spender@)->0.expires_at is None,
    ensures
        is_approved_for(state, arg, now),
{
}

/// Answers a batch of questions, one answer for each, in their order.
pub fn icrc37_is_approved(state: &RuntimeState, args: &Vec<IsApprovedArg>, current_time: u64) -> (r: Vec<
    bool,
>)
    requires
        state.wf(),
    ensures
        r@.len() == args@.len(),
        forall|i: int|
            0 <= i < args@.len() ==> r@[i] == is_approved_for(state, &#[trigger] args@[i], current_time),
{
    let mut response: Vec<bool> = Vec::new();
    let mut i: usize = 0;
    while i < args.len()
        invariant
            state.wf(),
            i <= args@.len(),
            response@.len() == i,
            forall|j: int|
                0 <= j < i ==> response@[j] == is_approved_for(
                    state,
                    &#[trigger] args@[j],
                    current_time,
                ),
        decreases args@.len() - i,
    {
        let answer: bool = is_approved(state, &args[i], current_time);
        response.push(answer);
        i = i + 1;
    }
    response
}

/// What a listing says of the approval that the store holds under `key`.
pub open spec fn info_of(key: AccountView, approval: ApprovalView) -> ApprovalInfoView {
    ApprovalInfoView {
        spender: approval.spender,
        from_subaccount: key.subaccount,
        expires_at: approval.expires_at,
        memo: approval.memo,
        created_at_time: approval.created_at,
    }
}

/// The lines of the approvals among `spenders` that are in force at
/// `now`, in the order of `spenders`.
pub open spec fn active_infos(spenders: SpenderSeq, now: u64) -> Seq<ApprovalInfoView>
    decreases spenders.len(),
{
    if spenders.len() == 0 {
        Seq::<ApprovalInfoView>::empty()
    } else if approval_active(spenders.last().1, now) {
        active_infos(spenders.drop_last(), now).push(info_of(spenders.last().0, spenders.last().1))
    } else {
        active_infos(spenders.drop_last(), now)
    }
}

/// `sorted` with `x` put behind the last line that is not older than `x`.
pub open spec fn insert_desc(sorted: Seq<ApprovalInfoView>, x: ApprovalInfoView) -> Seq<
    ApprovalInfoView,
>
    decreases sorted.len(),
{
    if sorted.len() == 0 {
        seq![x]
    } else if sorted.last().created_at_time >= x.created_at_time {
        sorted.push(x)
    } else {
        insert_desc(sorted.drop_last(), x).push(sorted.last())
    }
}

/// The lines `s` with the newest first; lines of the same age keep the
/// order they had in `s`.
pub open spec fn sort_desc(s: Seq<ApprovalInfoView>) -> Seq<ApprovalInfoView>
    decreases s.len(),
{
    if s.len() == 0 {
        s
    } else {
        insert_desc(sort_desc(s.drop_last()), s.last())
    }
}

/// Whether the lines run from the newest to the oldest.
pub open spec fn newest_first(s: Seq<ApprovalInfoView>) -> bool {
    forall|i: int, j: int|
        0 <= i < j < s.len() ==> s[i].created_at_time >= s[j].created_at_time
}

/// The place of the first line for `spender`, if there is one.
pub open spec fn first_line_of(s: Seq<ApprovalInfoView>, spender: AccountView) -> Option<int>
    decreases s.len(),
{
    if s.len() == 0 {
        None
    } else {
        match first_line_of(s.drop_last(), spender) {
            Some(i) => Some(i),
            None => if s.last().spender == spender {
                Some(s.len() - 1)
            } else {
                None
            },
        }
    }
}

/// Where a page begins: behind the first line of the spender that the
/// caller saw last, or at the top where the caller names none or the
/// listing holds none of that spender.
pub open spec fn page_start(s: Seq<ApprovalInfoView>, prev: Option<AccountView>) -> int {
    match prev {
        Some(spender) => match first_line_of(s, spender) {
            Some(i) => i + 1,
            None => 0,
        },
        None => 0,
    }
}

/// How many lines a page has at most.
pub open spec fn page_len(take: Option<u64>) -> nat {
    match take {
        Some(n) => n as nat,
        None => DEFAULT_APPROVALS_TAKE as nat,
    }
}

/// At most `n` elements of `s`, from `start` on.
pub open spec fn page<A>(s: Seq<A>, start: int, n: nat) -> Seq<A> {
    if start + n <= s.len() {
        s.subrange(start, start + n)
    } else {
        s.subrange(start, s.len() as int)
    }
}

/// The page of the listing of `spenders` that a caller gets who saw
/// `prev` last and asks for `take` lines: of the approvals in force at
/// `now`, newest first.
pub open spec fn approvals_page(
    spenders: SpenderSeq,
    prev: Option<AccountView>,
    take: Option<u64>,
    now: u64,
) -> Seq<ApprovalInfoView> {
    let all = sort_desc(active_infos(spenders, now));
    page(all, page_start(all, prev), page_len(take))
}

/// The views of the lines `v`.
pub open spec fn info_views(v: Seq<ApprovalInfo>) -> Seq<ApprovalInfoView> {
    Seq::new(v.len(), |i: int| v[i]@)
}

/// Where `x` goes among lines that are older than it from `j` on and not
/// older just before `j`.
pub proof fn lemma_insert_desc_at(s: Seq<ApprovalInfoView>, x: ApprovalInfoView, j: int)
    requires
        0 <= j <= s.len(),
        forall|k: int| j <= k < s.len() ==> s[k].created_at_time < x.created_at_time,
        j > 0 ==> s[j - 1].created_at_time >= x.created_at_time,
    ensures
        insert_desc(s, x) == s.insert(j, x),
    decreases s.len() - j,
{
    if s.len() == 0 {
        assert(s.insert(j, x) =~= seq![x]);
    } else if j == s.len() {
        assert(s.insert(j, x) =~= s.push(x));
    } else {
        let rest = s.drop_last();
        lemma_insert_desc_at(rest, x, j);
        assert(s.insert(j, x) =~= rest.insert(j, x).push(s.last()));
    }
}

/// Putting a line in keeps the newest first.
pub proof fn lemma_insert_desc_sorted(s: Seq<ApprovalInfoView>, x: ApprovalInfoView)
    requires
        newest_first(s),
    ensures
        newest_first(insert_desc(s, x)),
        insert_desc(s, x).len() == s.len() + 1,
        insert_desc(s, x).to_multiset() == s.to_multiset().insert(x),
    decreases s.len(),
{
    broadcast use vstd::seq_lib::group_to_multiset_ensures;

    if s.len() == 0 {
        assert(s =~= Seq::<ApprovalInfoView>::empty());
        assert(seq![x] =~= Seq::<ApprovalInfoView>::empty().push(x));
    } else if s.last().created_at_time >= x.created_at_time {
        let t = s.push(x);
        assert forall|i: int, j: int| 0 <= i < j < t.len() implies t[i].created_at_time
            >= t[j].created_at_time by {
            if j == s.len() {
                if i < s.len() - 1 {
                    assert(s[i].created_at_time >= s[s.len() - 1].created_at_time);
                }
            }
        }
    } else {
        let rest = s.drop_last();
        assert(newest_first(rest));
        lemma_insert_desc_sorted(rest, x);
        let u = insert_desc(rest, x);
        let t = u.push(s.last());
        assert(s =~= rest.push(s.last()));
        assert forall|i: int, j: int| 0 <= i < j < t.len() implies t[i].created_at_time
            >= t[j].created_at_time by {
            if j == u.len() {
                assert(u.to_multiset().contains(u[i]));
                if u[i] != x {
                    assert(rest.to_multiset().contains(u[i]));
                    assert(rest.contains(u[i]));
                    let m = rest.index_of(u[i]);
                    assert(s[m].created_at_time >= s[s.len() - 1].created_at_time);
                }
            }
        }
        assert(t.to_multiset() =~= s.to_multiset().insert(x));
    }
}

/// The sorted lines run from the newest to the oldest and are the lines
/// that were given, each as often as it was given.
pub proof fn lemma_sort_desc(s: Seq<ApprovalInfoView>)
    ensures
        newest_first(sort_desc(s)),
        sort_desc(s).len() == s.len(),
        sort_desc(s).to_multiset() == s.to_multiset(),
    decreases s.len(),
{
    broadcast use vstd::seq_lib::group_to_multiset_ensures;

    if s.len() > 0 {
        lemma_sort_desc(s.drop_last());
        lemma_insert_desc_sorted(sort_desc(s.drop_last()), s.last());
        assert(s =~= s.drop_last().push(s.last()));
    }
}

fn copy_info(info: &ApprovalInfo) -> (r: ApprovalInfo)
    ensures
        r@ == info@,
{
    ApprovalInfo {
        spender: info.spender,
        from_subaccount: info.from_subaccount,
        expires_at: info.expires_at,
        memo: clone_bytes(&info.memo),
        created_at_time: info.created_at_time,
    }
}

/// The lines of the approvals among `spenders` that are in force, newest
/// first.
fn sorted_infos(spenders: &TokenApprovalValue, current_time: u64) -> (all: Vec<ApprovalInfo>)
    ensures
        info_views(all@) == sort_desc(active_infos(spenders@, current_time)),
{
    let mut all: Vec<ApprovalInfo> = Vec::new();
    let mut i: usize = 0;
    assert(info_views(all@) =~= Seq::<ApprovalInfoView>::empty());
    while i < spenders.len()
        invariant
            i <= spenders@.len(),
            info_views(all@) == sort_desc(active_infos(spenders@.take(i as int), current_time)),
        decreases spenders@.len() - i,
    {
        let key: Account = spenders.key_at(i);
        let approval = spenders.value_at(i);
        proof {
            assert(spenders@.take(i + 1).drop_last() =~= spenders@.take(i as int));
            assert(spenders@.take(i + 1).last() == spenders@[i as int]);
        }
        if approval.is_active(current_time) {
            let info = ApprovalInfo {
                spender: approval.spender,
                from_subaccount: key.subaccount,
                expires_at: approval.expires_at,
                memo: clone_bytes(&approval.memo),
                created_at_time: approval.created_at,
            };
            let mut j: usize = all.len();
            while j > 0 && all[j - 1].created_at_time < info.created_at_time
                invariant
                    j <= all@.len(),
                    forall|k: int|
                        j <= k < all@.len() ==> (#[trigger] all@[k]).created_at_time
                            < info.created_at_time,
                decreases j,
            {
                j = j - 1;
            }
            let ghost before = info_views(all@);
            proof {
                assert forall|k: int| j <= k < before.len() implies before[k].created_at_time
                    < info@.created_at_time by {
                    assert(before[k] == all@[k]@);
                }
                if j > 0 {
                    assert(before[j - 1] == all@[j - 1]@);
                }
                lemma_insert_desc_at(before, info@, j as int);
            }
            all.insert(j, info);
            proof {
                assert(info_views(all@) =~= before.insert(j as int, info@));
                let active = active_infos(spenders@.take(i as int), current_time);
                assert(active.push(info@).drop_last() =~= active);
                assert(active.push(info@).last() == info@);
            }
        }
        i = i + 1;
    }
    assert(spenders@.take(spenders@.len() as int) =~= spenders@);
    all
}

/// Where a page of `all` begins for a caller who saw `prev` last.
fn start_index(all: &Vec<ApprovalInfo>, prev: &Option<Account>) -> (r: usize)
    ensures
        r == page_start(info_views(all@), crate::types::account::option_account_view(*prev)),
        r <= all@.len(),
{
    match prev {
        Some(spender) => {
            let mut i: usize = 0;
            while i < all.len()
                invariant
                    i <= all@.len(),
                    *prev == Some(*spender),
                    first_line_of(info_views(all@).take(i as int), spender@) is None,
                decreases all@.len() - i,
            {
                proof {
                    let views = info_views(all@);
                    assert(views.take(i + 1).drop_last() =~= views.take(i as int));
                    assert(views.take(i + 1).last() == all@[i as int]@);
                }
                if all[i].spender == *spender {
                    proof {
                        lemma_first_line_stays(info_views(all@), spender@, i as int + 1);
                    }
                    return i + 1;
                }
                i = i + 1;
            }
            assert(info_views(all@).take(all@.len() as int) =~= info_views(all@));
            0
        },
        None => 0,
    }
}

/// A first line found among the first `n` lines is the first line of
/// all of them.
pub proof fn lemma_first_line_stays(s: Seq<ApprovalInfoView>, spender: AccountView, n: int)
    requires
        0 <= n <= s.len(),
        first_line_of(s.take(n), spender) is Some,
    ensures
        first_line_of(s, spender) == first_line_of(s.take(n), spender),
    decreases s.len() - n,
{
    if n < s.len() {
        assert(s.take(n + 1).drop_last() =~= s.take(n));
        lemma_first_line_stays(s, spender, n + 1);
    } else {
        assert(s.take(n) =~= s);
    }
}

/// The lines of `all` from `start` on, at most `take` of them.
fn copy_page(all: &Vec<ApprovalInfo>, start: usize, take: u64) -> (r: Vec<ApprovalInfo>)
    requires
        start <= all@.len(),
    ensures
        info_views(r@) == page(info_views(all@), start as int, take as nat),
{
    let mut out: Vec<ApprovalInfo> = Vec::new();
    let rest: usize = all.len() - start;
    let count: usize = if rest as u64 <= take {
        rest
    } else {
        take as usize
    };
    let mut i: usize = 0;
    while i < count
        invariant
            i <= count,
            start + count <= all@.len(),
            all@.len() <= usize::MAX,
            out@.len() == i,
            forall|k: int| 0 <= k < i ==> (#[trigger] out@[k])@ == all@[start + k]@,
        decreases count - i,
    {
        out.push(copy_info(&all[start + i]));
        i = i + 1;
    }
    assert(info_views(out@) =~= page(info_views(all@), start as int, take as nat));
    out
}

/// The approvals on the token `token_id` that are in force at
/// `current_time`, newest first, from behind the line of `prev`'s spender
/// on, `take` lines or `DEFAULT_APPROVALS_TAKE` where none is named. A
/// token without an entry in the store has no lines.
pub fn icrc37_get_token_approvals(
    state: &RuntimeState,
    token_id: u64,
    prev: &Option<TokenApproval>,
    take: Option<u64>,
    current_time: u64,
) -> (r: Vec<TokenApproval>)
    requires
        state.wf(),
    ensures
        r@.len() == approvals_page(
            spenders_of(state.token_approvals@, token_id),
            prev_token_spender(*prev),
            take,
            current_time,
        ).len(),
        forall|i: int|
            0 <= i < r@.len() ==> (#[trigger] r@[i]).token_id == token_id && r@[i].approval_info@
                == approvals_page(
                spenders_of(state.token_approvals@, token_id),
                prev_token_spender(*prev),
                take,
                current_time,
            )[i],
{
    let mut response: Vec<TokenApproval> = Vec::new();
    let take_value: u64 = match take {
        Some(n) => n,
        None => DEFAULT_APPROVALS_TAKE,
    };
    let prev_spender: Option<Account> = match prev {
        Some(line) => Some(line.approval_info.spender),
        None => None,
    };
    match state.token_approvals.get(token_id) {
        Some(spenders) => {
            let all = sorted_infos(spenders, current_time);
            let start = start_index(&all, &prev_spender);
            let mut lines = copy_page(&all, start, take_value);
            let ghost wanted = info_views(lines@);
            let mut i: usize = 0;
            while i < lines.len()
                invariant
                    i <= lines@.len(),
                    info_views(lines@) == wanted,
                    response@.len() == i,
                    forall|k: int|
                        0 <= k < i ==> (#[trigger] response@[k]).token_id == token_id
                            && response@[k].approval_info@ == wanted[k],
                decreases lines@.len() - i,
            {
                let info = copy_info(&lines[i]);
                assert(info@ == info_views(lines@)[i as int]);
                response.push(TokenApproval { token_id, approval_info: info });
                i = i + 1;
            }
        },
        None => {
            let ghost none = Seq::<(AccountView, ApprovalView)>::empty();
            assert(sort_desc(active_infos(none, current_time)) =~= Seq::<ApprovalInfoView>::empty());
        },
    }
    response
}

/// The spender of the line that a caller of a token listing saw last.
pub open spec fn prev_token_spender(prev: Option<TokenApproval>) -> Option<AccountView> {
    match prev {
        Some(line) => Some(line.approval_info.spender@),
        None => None,
    }
}

/// The spender of the line that a caller of a collection listing saw last.
pub open spec fn prev_collection_spender(prev: Option<CollectionApproval>) -> Option<AccountView> {
    match prev {
        Some(line) => Some(line.approval_info.spender@),
        None => None,
    }
}

/// The approvals on the collection of `account` that are in force at
/// `current_time`, newest first, from behind the line of `prev`'s spender
/// on, `take` lines or `DEFAULT_APPROVALS_TAKE` where none is named. An
/// account without an entry in the store has no lines.
pub fn icrc37_get_collection_approvals(
    state: &RuntimeState,
    account: &Account,
    prev: &Option<CollectionApproval>,
    take: Option<u64>,
    current_time: u64,
) -> (r: Vec<CollectionApproval>)
    requires
        state.wf(),
    ensures
        r@.len() == approvals_page(
            collection_spenders_of(state.collection_approvals@, account@),
            prev_collection_spender(*prev),
            take,
            current_time,
        ).len(),
        forall|i: int|
            0 <= i < r@.len() ==> (#[trigger] r@[i]).approval_info@ == approvals_page(
                collection_spenders_of(state.collection_approvals@, account@),
                prev_collection_spender(*prev),
                take,
                current_time,
            )[i],
{
    let mut response: Vec<CollectionApproval> = Vec::new();
    let take_value: u64 = match take {
        Some(n) => n,
        None => DEFAULT_APPROVALS_TAKE,
    };
    let prev_spender: Option<Account> = match prev {
        Some(line) => Some(line.approval_info.spender),
        None => None,
    };
    match state.collection_approvals.get(account) {
        Some(spenders) => {
            let all = sorted_infos(spenders, current_time);
            let start = start_index(&all, &prev_spender);
            let mut lines = copy_page(&all, start, take_value);
            let ghost wanted = info_views(lines@);
            let mut i: usize = 0;
            while i < lines.len()
                invariant
                    i <= lines@.len(),
                    info_views(lines@) == wanted,
                    response@.len() == i,
                    forall|k: int|
                        0 <= k < i ==> (#[trigger] response@[k]).approval_info@ == wanted[k],
                decreases lines@.len() - i,
            {
                let info = copy_info(&lines[i]);
                assert(info@ == info_views(lines@)[i as int]);
                response.push(CollectionApproval { approval_info: info });
                i = i + 1;
            }
        },
        None => {
            let ghost none = Seq::<(AccountView, ApprovalView)>::empty();
            assert(sort_desc(active_infos(none, current_time)) =~= Seq::<ApprovalInfoView>::empty());
        },
    }
    response
}

/// The configured cap on the approvals of one token or collection.
pub fn icrc37_max_approvals_per_token_or_collection(state: &RuntimeState) -> (r: Option<u64>)
    ensures
        r == state.data.approval_init.max_approvals_per_token_or_collection,
{
    state.data.approval_init.max_approvals_per_token_or_collection
}

/// The configured cap on the entries of one batch of revocations.
pub fn icrc37_max_revoke_approvals(state: &RuntimeState) -> (r: Option<u64>)
    ensures
        r == state.data.approval_init.max_revoke_approvals,
{
    state.data.approval_init.max_revoke_approvals
}

} // verus!
