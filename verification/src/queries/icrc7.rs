//! Questions about tokens: who owns them, how many an account holds, and
//! which there are.

use vstd::prelude::*;
use vstd::string::StringExecFns;
use crate::collections::id_map::strictly_ascending;
use crate::queries::icrc37::page;
use crate::state::{
    ids_owned, indexed_tokens, lemma_ids_owned, owner_in, setting, setting_or, Data, RuntimeState,
};
use crate::text::{decimal, framed_number};
use crate::types::account::{option_account_view, Account};
use crate::types::icrc7::{
    MetadataValue, MetadataValueView, DEFAULT_MAX_QUERY_BATCH_SIZE, DEFAULT_MAX_TAKE_VALUE,
    DEFAULT_TAKE_VALUE,
};

verus! {

/// The largest batch of a query.
pub open spec fn query_batch_cap(data: &Data) -> u64 {
    setting(data.max_query_batch_size, DEFAULT_MAX_QUERY_BATCH_SIZE)
}

/// The largest page a caller may ask for.
pub open spec fn take_cap(data: &Data) -> u64 {
    setting(data.max_take_value, DEFAULT_MAX_TAKE_VALUE)
}

/// The size of a page: what the caller asks for, or the configured
/// default, or `DEFAULT_TAKE_VALUE`.
pub open spec fn take_or_default(data: &Data, take: Option<u64>) -> u64 {
    match take {
        Some(n) => n,
        None => setting(data.default_take_value, DEFAULT_TAKE_VALUE),
    }
}

/// The text with which a batch over the limit is refused.
pub open spec fn batch_refusal(limit: u64) -> Seq<char> {
    "max_query_batch_size exceeded. Limit is "@ + decimal(limit as nat)
        + ". Retry with a smaller batch size."@
}

/// The text with which a page size over the limit is refused.
pub open spec fn take_refusal(limit: u64) -> Seq<char> {
    "max_take_value exceeded. Limit is "@ + decimal(limit as nat)
        + ". Retry with a smaller take value."@
}

/// Refuses a batch of `len` questions where it is over the limit.
pub fn check_query_batch(data: &Data, len: usize) -> (r: Result<(), String>)
    ensures
        r is Ok <==> len <= query_batch_cap(data),
        r is Err ==> r->Err_0@ == batch_refusal(query_batch_cap(data)),
{
    let limit: u64 = setting_or(data.max_query_batch_size, DEFAULT_MAX_QUERY_BATCH_SIZE);
    if len as u64 > limit {
        return Err(
            framed_number(
                "max_query_batch_size exceeded. Limit is ",
                limit,
                ". Retry with a smaller batch size.",
            ),
        );
    }
    Ok(())
}

/// Refuses a page size that is over the limit. A caller who names none
/// is not refused.
pub fn check_take(data: &Data, take: Option<u64>) -> (r: Result<(), String>)
    ensures
        r is Ok <==> (take is Some ==> take->0 <= take_cap(data)),
        r is Err ==> r->Err_0@ == take_refusal(take_cap(data)),
{
    match take {
        Some(n) => {
            let limit: u64 = setting_or(data.max_take_value, DEFAULT_MAX_TAKE_VALUE);
            if n > limit {
                return Err(
                    framed_number(
                        "max_take_value exceeded. Limit is ",
                        limit,
                        ". Retry with a smaller take value.",
                    ),
                );
            }
            Ok(())
        },
        None => Ok(()),
    }
}

/// The owner of each of `token_ids`, in their order; none for an
/// identifier that is no token. A batch over the limit is refused.
pub fn icrc7_owner_of(state: &RuntimeState, token_ids: &Vec<u64>) -> (r: Result<
    Vec<Option<Account>>,
    String,
>)
    requires
        state.wf(),
    ensures
        r is Ok <==> token_ids@.len() <= query_batch_cap(&state.data),
        r is Err ==> r->Err_0@ == batch_refusal(query_batch_cap(&state.data)),
        r is Ok ==> r->Ok_0@.len() == token_ids@.len(),
        r is Ok ==> forall|i: int|
            0 <= i < token_ids@.len() ==> option_account_view(#[trigger] r->Ok_0@[i]) == owner_in(
                state.data.tokens_list@,
                token_ids@[i],
            ),
{
    match check_query_batch(&state.data, token_ids.len()) {
        Ok(()) => {},
        Err(e) => {
            return Err(e);
        },
    }
    let mut owners: Vec<Option<Account>> = Vec::new();
    let mut i: usize = 0;
    while i < token_ids.len()
        invariant
            state.wf(),
            i <= token_ids@.len(),
            owners@.len() == i,
            forall|j: int|
                0 <= j < i ==> option_account_view(#[trigger] owners@[j]) == owner_in(
                    state.data.tokens_list@,
                    token_ids@[j],
                ),
        decreases token_ids@.len() - i,
    {
        let owner = state.data.owner_of(&token_ids[i]);
        owners.push(owner);
        i = i + 1;
    }
    Ok(owners)
}

/// The number of tokens that the reverse index lists for each of
/// `accounts`, in their order. A batch over the limit is refused.
pub fn icrc7_balance_of(state: &RuntimeState, accounts: &Vec<Account>) -> (r: Result<Vec<u64>, String>)
    requires
        state.wf(),
    ensures
        r is Ok <==> accounts@.len() <= query_batch_cap(&state.data),
        r is Err ==> r->Err_0@ == batch_refusal(query_batch_cap(&state.data)),
        r is Ok ==> r->Ok_0@.len() == accounts@.len(),
        r is Ok ==> forall|i: int|
            0 <= i < accounts@.len() ==> #[trigger] r->Ok_0@[i] == indexed_tokens(
                state.data.tokens_list_by_owner@,
                accounts@[i]@,
            ).len(),
{
    match check_query_batch(&state.data, accounts.len()) {
        Ok(()) => {},
        Err(e) => {
            return Err(e);
        },
    }
    let mut balances: Vec<u64> = Vec::new();
    let mut i: usize = 0;
    while i < accounts.len()
        invariant
            state.wf(),
            i <= accounts@.len(),
            balances@.len() == i,
            forall|j: int|
                0 <= j < i ==> #[trigger] balances@[j] == indexed_tokens(
                    state.data.tokens_list_by_owner@,
                    accounts@[j]@,
                ).len(),
        decreases accounts@.len() - i,
    {
        let balance: u64 = state.data.tokens_balance_of(&accounts[i]);
        balances.push(balance);
        i = i + 1;
    }
    Ok(balances)
}

/// Those of `ids` that are above `prev`, in the order of `ids`.
pub open spec fn above(ids: Seq<u64>, prev: u64) -> Seq<u64>
    decreases ids.len(),
{
    if ids.len() == 0 {
        ids
    } else if ids.last() > prev {
        above(ids.drop_last(), prev).push(ids.last())
    } else {
        above(ids.drop_last(), prev)
    }
}

/// The cursor of a listing: the identifier the caller saw last, or 0
/// where the caller names none.
pub open spec fn cursor(prev: Option<u64>) -> u64 {
    match prev {
        Some(id) => id,
        None => 0,
    }
}

/// The page of `ids` behind `prev`, `n` long at most.
pub open spec fn ids_page(ids: Seq<u64>, prev: Option<u64>, n: u64) -> Seq<u64> {
    page(above(ids, cursor(prev)), 0, n as nat)
}

/// In ascending identifiers, those above `prev` are the ones from the
/// first such on.
pub proof fn lemma_above(ids: Seq<u64>, prev: u64, start: int)
    requires
        strictly_ascending(ids),
        0 <= start <= ids.len(),
        forall|j: int| 0 <= j < start ==> ids[j] <= prev,
        forall|j: int| start <= j < ids.len() ==> ids[j] > prev,
    ensures
        above(ids, prev) == ids.subrange(start, ids.len() as int),
    decreases ids.len(),
{
    if ids.len() == 0 {
        assert(ids.subrange(start, ids.len() as int) =~= ids);
    } else if start == ids.len() {
        lemma_above(ids.drop_last(), prev, start - 1);
        assert(ids.subrange(start, ids.len() as int) =~= Seq::<u64>::empty());
        assert(ids.drop_last().subrange(start - 1, ids.len() - 1) =~= Seq::<u64>::empty());
    } else {
        lemma_above(ids.drop_last(), prev, start);
        assert(ids.subrange(start, ids.len() as int) =~= ids.drop_last().subrange(
            start,
            ids.len() - 1,
        ).push(ids.last()));
    }
}

/// The page of the ascending identifiers `ids` behind `prev`, `n` long at
/// most.
fn page_above(ids: &Vec<u64>, prev: Option<u64>, n: u64) -> (r: Vec<u64>)
    requires
        strictly_ascending(ids@),
    ensures
        r@ == ids_page(ids@, prev, n),
{
    let after: u64 = match prev {
        Some(id) => id,
        None => 0,
    };
    let mut start: usize = 0;
    while start < ids.len() && ids[start] <= after
        invariant
            start <= ids@.len(),
            forall|j: int| 0 <= j < start ==> ids@[j] <= after,
        decreases ids@.len() - start,
    {
        start = start + 1;
    }
    proof {
        assert forall|j: int| start <= j < ids@.len() implies ids@[j] > after by {
            if start < j {
                assert(ids@[start as int] < ids@[j]);
            }
        }
        lemma_above(ids@, after, start as int);
    }
    let rest: usize = ids.len() - start;
    let count: usize = if rest as u64 <= n {
        rest
    } else {
        n as usize
    };
    let mut out: Vec<u64> = Vec::new();
    let mut i: usize = 0;
    while i < count
        invariant
            i <= count,
            start + count <= ids@.len(),
            ids@.len() <= usize::MAX,
            out@.len() == i,
            forall|k: int| 0 <= k < i ==> out@[k] == ids@[start + k],
        decreases count - i,
    {
        out.push(ids[start + i]);
        i = i + 1;
    }
    assert(out@ =~= ids_page(ids@, prev, n));
    out
}

/// A page of the token identifiers, in ascending order: those above
/// `prev`, or all where none is named, and of these the first `take`, or
/// the default number where none is named. A page size over the limit is
/// refused.
pub fn icrc7_tokens(state: &RuntimeState, prev: Option<u64>, take: Option<u64>) -> (r: Result<
    Vec<u64>,
    String,
>)
    requires
        state.wf(),
    ensures
        r is Ok <==> (take is Some ==> take->0 <= take_cap(&state.data)),
        r is Err ==> r->Err_0@ == take_refusal(take_cap(&state.data)),
        r is Ok ==> r->Ok_0@ == ids_page(
            state.data.tokens_list.keys(),
            prev,
            take_or_default(&state.data, take),
        ),
{
    match check_take(&state.data, take) {
        Ok(()) => {},
        Err(e) => {
            return Err(e);
        },
    }
    let n: u64 = match take {
        Some(n) => n,
        None => setting_or(state.data.default_take_value, DEFAULT_TAKE_VALUE),
    };
    let mut tokens: Vec<u64> = Vec::new();
    let len: usize = state.data.tokens_list.len();
    let mut i: usize = 0;
    proof {
        state.data.tokens_list.lemma_model();
    }
    while i < len
        invariant
            i <= len,
            len == state.data.tokens_list.keys().len(),
            tokens@ == state.data.tokens_list.keys().take(i as int),
        decreases len - i,
    {
        let id: u64 = state.data.tokens_list.key_at(i);
        tokens.push(id);
        proof {
            let keys = state.data.tokens_list.keys();
            assert(keys.take(i + 1) =~= keys.take(i as int).push(id));
        }
        i = i + 1;
    }
    proof {
        state.data.tokens_list.lemma_model();
        assert(state.data.tokens_list.keys().take(len as int) =~= state.data.tokens_list.keys());
    }
    Ok(page_above(&tokens, prev, n))
}

/// A page of the identifiers of the tokens that `account` owns, in
/// ascending order: those above `prev`, or all where none is named, and of
/// these the first `take`, or the default number where none is named. A
/// page size over the limit is refused.
pub fn icrc7_tokens_of(state: &RuntimeState, account: &Account, prev: Option<u64>, take: Option<u64>) -> (r:
    Result<Vec<u64>, String>)
    requires
        state.wf(),
    ensures
        r is Ok <==> (take is Some ==> take->0 <= take_cap(&state.data)),
        r is Err ==> r->Err_0@ == take_refusal(take_cap(&state.data)),
        r is Ok ==> r->Ok_0@ == ids_page(
            ids_owned(state.data.tokens_list.keys(), state.data.tokens_list@, account@),
            prev,
            take_or_default(&state.data, take),
        ),
{
    match check_take(&state.data, take) {
        Ok(()) => {},
        Err(e) => {
            return Err(e);
        },
    }
    let n: u64 = match take {
        Some(n) => n,
        None => setting_or(state.data.default_take_value, DEFAULT_TAKE_VALUE),
    };
    let tokens: Vec<u64> = state.data.tokens_ids_of_account(account);
    proof {
        state.data.tokens_list.lemma_model();
        lemma_ids_owned(state.data.tokens_list.keys(), state.data.tokens_list@, account@);
    }
    Ok(page_above(&tokens, prev, n))
}

/// The number of tokens.
pub fn icrc7_total_supply(state: &RuntimeState) -> (r: u64)
    requires
        state.wf(),
    ensures
        r == state.data.tokens_list@.len(),
{
    state.data.total_supply()
}

/// The symbol of the collection.
pub fn icrc7_symbol(state: &RuntimeState) -> (r: String)
    ensures
        r@ == state.data.symbol@,
{
    state.data.symbol.clone()
}

/// The name of the collection.
pub fn icrc7_name(state: &RuntimeState) -> (r: String)
    ensures
        r@ == state.data.name@,
{
    state.data.name.clone()
}

/// The view of an optional text.
pub open spec fn text_view(text: Option<String>) -> Option<Seq<char>> {
    match text {
        Some(t) => Some(t@),
        None => None,
    }
}

fn clone_text(text: &Option<String>) -> (r: Option<String>)
    ensures
        text_view(r) == text_view(*text),
{
    match text {
        Some(t) => Some(t.clone()),
        None => None,
    }
}

/// The description of the collection, if it has one.
pub fn icrc7_description(state: &RuntimeState) -> (r: Option<String>)
    ensures
        text_view(r) == text_view(state.data.description),
{
    clone_text(&state.data.description)
}

/// The logo of the collection, if it has one.
pub fn icrc7_logo(state: &RuntimeState) -> (r: Option<String>)
    ensures
        text_view(r) == text_view(state.data.logo),
{
    clone_text(&state.data.logo)
}

/// The configured cap on the number of tokens.
pub fn icrc7_supply_cap(state: &RuntimeState) -> (r: Option<u64>)
    ensures
        r == state.data.supply_cap,
{
    state.data.supply_cap
}

/// The configured cap on the batch of a query.
pub fn icrc7_max_query_batch_size(state: &RuntimeState) -> (r: Option<u64>)
    ensures
        r == state.data.max_query_batch_size,
{
    state.data.max_query_batch_size
}

/// The configured cap on the batch of an update.
pub fn icrc7_max_update_batch_size(state: &RuntimeState) -> (r: Option<u64>)
    ensures
        r == state.data.max_update_batch_size,
{
    state.data.max_update_batch_size
}

/// The configured page size of a listing whose caller names none.
pub fn icrc7_default_take_value(state: &RuntimeState) -> (r: Option<u64>)
    ensures
        r == state.data.default_take_value,
{
    state.data.default_take_value
}

/// The configured cap on the page size of a listing.
pub fn icrc7_max_take_value(state: &RuntimeState) -> (r: Option<u64>)
    ensures
        r == state.data.max_take_value,
{
    state.data.max_take_value
}

/// The configured cap on the length of a memo.
pub fn icrc7_max_memo_size(state: &RuntimeState) -> (r: Option<u64>)
    ensures
        r == state.data.max_memo_size,
{
    state.data.max_memo_size
}

/// Whether batches of transfers are atomic, where that is configured.
pub fn icrc7_atomic_batch_transfers(state: &RuntimeState) -> (r: Option<bool>)
    ensures
        r == state.data.atomic_batch_transfers,
{
    state.data.atomic_batch_transfers
}

/// The configured age that a request may have.
pub fn icrc7_tx_window(state: &RuntimeState) -> (r: Option<u64>)
    ensures
        r == state.data.tx_window,
{
    state.data.tx_window
}

/// The configured time by which a request may be dated ahead.
pub fn icrc7_permitted_drift(state: &RuntimeState) -> (r: Option<u64>)
    ensures
        r == state.data.permitted_drift,
{
    state.data.permitted_drift
}

/// One line of the collection's metadata: a key and a value.
pub type MetadataLine = (Seq<char>, MetadataValueView);

/// The line of a number, if there is one.
pub open spec fn nat_line(key: Seq<char>, value: Option<u64>) -> Seq<MetadataLine> {
    match value {
        Some(n) => seq![(key, MetadataValueView::Nat(n))],
        None => Seq::<MetadataLine>::empty(),
    }
}

/// The line of a text, if there is one.
pub open spec fn text_line(key: Seq<char>, value: Option<Seq<char>>) -> Seq<MetadataLine> {
    match value {
        Some(t) => seq![(key, MetadataValueView::Text(t))],
        None => Seq::<MetadataLine>::empty(),
    }
}

/// The text of a truth value.
pub open spec fn bool_text(value: Option<bool>) -> Option<Seq<char>> {
    match value {
        Some(true) => Some("true"@),
        Some(false) => Some("false"@),
        None => None,
    }
}

/// The metadata of the collection: symbol, name and number of tokens, and
/// every setting that is configured, in the order of their keys.
pub open spec fn collection_metadata(data: &Data) -> Seq<MetadataLine> {
    text_line("icrc7:atomic_batch_transfers"@, bool_text(data.atomic_batch_transfers)) + nat_line(
        "icrc7:default_take_value"@,
        data.default_take_value,
    ) + text_line("icrc7:description"@, text_view(data.description)) + text_line(
        "icrc7:logo"@,
        text_view(data.logo),
    ) + nat_line("icrc7:max_memo_size"@, data.max_memo_size) + nat_line(
        "icrc7:max_query_batch_size"@,
        data.max_query_batch_size,
    ) + nat_line("icrc7:max_take_value"@, data.max_take_value) + nat_line(
        "icrc7:max_update_batch_size"@,
        data.max_update_batch_size,
    ) + text_line("icrc7:name"@, Some(data.name@)) + nat_line(
        "icrc7:permitted_drift"@,
        data.permitted_drift,
    ) + nat_line("icrc7:supply_cap"@, data.supply_cap) + text_line(
        "icrc7:symbol"@,
        Some(data.symbol@),
    ) + nat_line("icrc7:total_supply"@, Some(data.tokens_list@.len() as u64)) + nat_line(
        "icrc7:tx_window"@,
        data.tx_window,
    )
}

/// The views of the lines `v`.
pub open spec fn line_views(v: Seq<(String, MetadataValue)>) -> Seq<MetadataLine> {
    Seq::new(v.len(), |i: int| (v[i].0@, v[i].1@))
}

fn push_nat(lines: &mut Vec<(String, MetadataValue)>, key: &str, value: Option<u64>)
    ensures
        line_views(final(lines)@) == line_views(old(lines)@) + nat_line(key@, value),
{
    match value {
        Some(n) => {
            lines.push((String::from_str(key), MetadataValue::Nat(n)));
        },
        None => {},
    }
    assert(line_views(final(lines)@) =~= line_views(old(lines)@) + nat_line(key@, value));
}

fn push_text(lines: &mut Vec<(String, MetadataValue)>, key: &str, value: Option<String>)
    ensures
        line_views(final(lines)@) == line_views(old(lines)@) + text_line(key@, text_view(value)),
{
    match value {
        Some(t) => {
            lines.push((String::from_str(key), MetadataValue::Text(t)));
        },
        None => {},
    }
    assert(line_views(final(lines)@) =~= line_views(old(lines)@) + text_line(
        key@,
        text_view(value),
    ));
}

fn bool_to_text(value: Option<bool>) -> (r: Option<String>)
    ensures
        text_view(r) == bool_text(value),
{
    match value {
        Some(true) => Some(String::from_str("true")),
        Some(false) => Some(String::from_str("false")),
        None => None,
    }
}

/// The metadata of the collection.
pub fn icrc7_collection_metadata(state: &RuntimeState) -> (r: Vec<(String, MetadataValue)>)
    requires
        state.wf(),
    ensures
        line_views(r@) == collection_metadata(&state.data),
{
    let mut metadata: Vec<(String, MetadataValue)> = Vec::new();
    assert(line_views(metadata@) =~= Seq::<MetadataLine>::empty());
    push_text(&mut metadata, "icrc7:atomic_batch_transfers", bool_to_text(state.data.atomic_batch_transfers));
    push_nat(&mut metadata, "icrc7:default_take_value", state.data.default_take_value);
    push_text(&mut metadata, "icrc7:description", clone_text(&state.data.description));
    push_text(&mut metadata, "icrc7:logo", clone_text(&state.data.logo));
    push_nat(&mut metadata, "icrc7:max_memo_size", state.data.max_memo_size);
    push_nat(&mut metadata, "icrc7:max_query_batch_size", state.data.max_query_batch_size);
    push_nat(&mut metadata, "icrc7:max_take_value", state.data.max_take_value);
    push_nat(&mut metadata, "icrc7:max_update_batch_size", state.data.max_update_batch_size);
    push_text(&mut metadata, "icrc7:name", Some(state.data.name.clone()));
    push_nat(&mut metadata, "icrc7:permitted_drift", state.data.permitted_drift);
    push_nat(&mut metadata, "icrc7:supply_cap", state.data.supply_cap);
    push_text(&mut metadata, "icrc7:symbol", Some(state.data.symbol.clone()));
    push_nat(&mut metadata, "icrc7:total_supply", Some(state.data.total_supply()));
    push_nat(&mut metadata, "icrc7:tx_window", state.data.tx_window);
    assert(line_views(metadata@) =~= collection_metadata(&state.data));
    metadata
}

} // verus!
