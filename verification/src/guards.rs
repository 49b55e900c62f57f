//! The two guards in front of every mutating operation: the single-flight
//! guard of the management operations, and the sliding-window rate limiter
//! of the operations on one token.

use vstd::prelude::*;
use vstd::string::StringExecFns;
use std::collections::HashMap;
use crate::text::{decimal, framed_number};
use crate::types::account::Principal;

verus! {

/// How many management operations may be under way at once, over all callers.
pub const MAX_CONCURRENT: usize = 1;

/// How many calls the rate limiter lets through per token within one window.
pub const SLIDING_WINDOW_CALLS: usize = 5;

/// The length of the rate limiter's window: 60 ms, in nanoseconds.
pub const SLIDING_WINDOW_DURATION_NS: u64 = 60_000_000;

/// The nanoseconds of one millisecond.
pub const NANOS_PER_MILLI: u64 = 1_000_000;

/// The callers that hold the single-flight guard.
pub struct PrincipalGuards {
    holders: Vec<Principal>,
}

impl View for PrincipalGuards {
    type V = Set<Seq<u8>>;

    /// The identities that hold a guard.
    closed spec fn view(&self) -> Set<Seq<u8>> {
        self.ids().to_set()
    }
}

impl PrincipalGuards {
    closed spec fn ids(&self) -> Seq<Seq<u8>> {
        Seq::new(self.holders@.len(), |i: int| self.holders@[i]@)
    }

    /// No holder is listed twice.
    pub closed spec fn wf(&self) -> bool {
        self.ids().no_duplicates()
    }

    /// The set of holders is finite.
    pub proof fn lemma_finite(&self)
        ensures
            self@.finite(),
    {
        vstd::seq_lib::seq_to_set_is_finite(self.ids());
    }

    /// No guard is held.
    pub fn new() -> (r: Self)
        ensures
            r.wf(),
            r@ == Set::<Seq<u8>>::empty(),
    {
        let r = PrincipalGuards { holders: Vec::new() };
        assert(r.ids() =~= Seq::<Seq<u8>>::empty());
        assert(r@ =~= Set::<Seq<u8>>::empty());
        r
    }

    /// How many guards are held.
    pub fn len(&self) -> (r: usize)
        requires
            self.wf(),
        ensures
            r == self@.len(),
    {
        proof {
            self.ids().unique_seq_to_set();
        }
        self.holders.len()
    }

    fn position(&self, principal: &Principal) -> (r: Option<usize>)
        ensures
            match r {
                Some(i) => i < self.holders@.len() && self.ids()[i as int] == principal@,
                None => !self.ids().contains(principal@),
            },
    {
        let mut i: usize = 0;
        while i < self.holders.len()
            invariant
                i <= self.holders@.len(),
                forall|j: int| 0 <= j < i ==> self.ids()[j] != principal@,
            decreases self.holders@.len() - i,
        {
            if self.holders[i] == *principal {
                return Some(i);
            }
            i = i + 1;
        }
        None
    }

    /// Whether `principal` holds a guard.
    pub fn contains(&self, principal: &Principal) -> (r: bool)
        ensures
            r == self@.contains(principal@),
    {
        self.position(principal).is_some()
    }

    fn insert(&mut self, principal: Principal)
        requires
            old(self).wf(),
        ensures
            final(self).wf(),
            final(self)@ == old(self)@.insert(principal@),
    {
        let ghost before = *self;
        match self.position(&principal) {
            Some(i) => {
                proof {
                    assert(before.ids().contains(principal@));
                    assert(self@ =~= before@.insert(principal@));
                }
            },
            None => {
                self.holders.push(principal);
                proof {
                    assert(self.ids() =~= before.ids().push(principal@));
                    assert forall|a: int, b: int|
                        0 <= a < self.ids().len() && 0 <= b < self.ids().len() && a != b
                        implies self.ids()[a] != self.ids()[b] by {
                        if a < before.ids().len() {
                            assert(before.ids()[a] == self.ids()[a]);
                            assert(before.ids().contains(self.ids()[a]));
                        }
                        if b < before.ids().len() {
                            assert(before.ids()[b] == self.ids()[b]);
                            assert(before.ids().contains(self.ids()[b]));
                        }
                    }
                    assert forall|x: Seq<u8>| #[trigger]
                        self@.contains(x) == before@.insert(principal@).contains(x) by {
                        if self.ids().contains(x) {
                            let j = self.ids().index_of(x);
                            if j < before.ids().len() {
                                assert(before.ids()[j] == x);
                            }
                        }
                        if before.ids().contains(x) {
                            let j = before.ids().index_of(x);
                            assert(self.ids()[j] == x);
                        }
                        if x == principal@ {
                            assert(self.ids()[before.ids().len() as int] == x);
                        }
                    }
                    assert(self@ =~= before@.insert(principal@));
                }
            },
        }
    }

    fn remove(&mut self, principal: &Principal)
        requires
            old(self).wf(),
        ensures
            final(self).wf(),
            final(self)@ == old(self)@.remove(principal@),
    {
        let ghost before = *self;
        match self.position(principal) {
            Some(i) => {
                self.holders.remove(i);
                proof {
                    assert(self.ids() =~= before.ids().remove(i as int));
                    assert forall|a: int, b: int|
                        0 <= a < self.ids().len() && 0 <= b < self.ids().len() && a != b
                        implies self.ids()[a] != self.ids()[b] by {
                        let a0 = if a < i { a } else { a + 1 };
                        let b0 = if b < i { b } else { b + 1 };
                        assert(self.ids()[a] == before.ids()[a0]);
                        assert(self.ids()[b] == before.ids()[b0]);
                    }
                    assert forall|x: Seq<u8>| #[trigger]
                        self@.contains(x) == before@.remove(principal@).contains(x) by {
                        if self.ids().contains(x) {
                            let j = self.ids().index_of(x);
                            let j0 = if j < i { j } else { j + 1 };
                            assert(before.ids()[j0] == x);
                            assert(before.ids().contains(x));
                        }
                        if before.ids().contains(x) && x != principal@ {
                            let j0 = before.ids().index_of(x);
                            let j = if j0 < i { j0 } else { j0 - 1 };
                            assert(self.ids()[j] == x);
                        }
                    }
                    assert(self@ =~= before@.remove(principal@));
                }
            },
            None => {
                proof {
                    assert(self@ =~= before@.remove(principal@));
                }
            },
        }
    }
}

/// Whether a new guard can be had while `held` are outstanding.
pub open spec fn guard_available(held: Set<Seq<u8>>) -> bool {
    held.len() < MAX_CONCURRENT
}

/// The text with which a guard is refused.
pub open spec fn guard_refusal() -> Seq<char> {
    "Service is already running a management query, try again shortly"@
}

/// The handle of a management operation under way. While it is
/// outstanding no other management operation is admitted, whoever calls;
/// `release` gives it back.
#[must_use]
pub struct GuardManagement {
    principal: Principal,
}

impl GuardManagement {
    /// The caller to whom the guard was given.
    pub closed spec fn holder(&self) -> Seq<u8> {
        self.principal@
    }

    /// Takes the guard for `principal`. It is given as long as fewer than
    /// `MAX_CONCURRENT` guards are outstanding, and refused otherwise,
    /// with the guards unchanged.
    pub fn new(guards: &mut PrincipalGuards, principal: Principal) -> (r: Result<Self, String>)
        requires
            old(guards).wf(),
        ensures
            final(guards).wf(),
            r is Ok <==> guard_available(old(guards)@),
            match r {
                Ok(g) => g.holder() == principal@ && final(guards)@ == old(guards)@.insert(
                    principal@,
                ),
                Err(e) => e@ == guard_refusal() && final(guards)@ == old(guards)@,
            },
    {
        if guards.len() >= MAX_CONCURRENT {
            return Err(
                String::from_str("Service is already running a management query, try again shortly"),
            );
        }
        guards.insert(principal);
        Ok(GuardManagement { principal })
    }

    /// Gives the guard back. This is the one way out of a guarded
    /// operation, whether it went well or not.
    pub fn release(self, guards: &mut PrincipalGuards)
        requires
            old(guards).wf(),
        ensures
            final(guards).wf(),
            final(guards)@ == old(guards)@.remove(self.holder()),
    {
        guards.remove(&self.principal);
    }
}

/// While a guard is outstanding a second one is refused, and once it has
/// been released the next one is given.
pub proof fn lemma_single_flight(held: Set<Seq<u8>>, first: Seq<u8>)
    requires
        held.finite(),
        guard_available(held),
    ensures
        !guard_available(held.insert(first)),
        guard_available(held.insert(first).remove(first)),
{
    assert(held.len() == 0);
    assert(held =~= Set::<Seq<u8>>::empty());
    assert(held.insert(first).remove(first) =~= Set::<Seq<u8>>::empty());
}

/// The timestamps of `history` that are still inside the window at `now`.
pub open spec fn retained(history: Seq<u64>, now: u64) -> Seq<u64>
    decreases history.len(),
{
    if history.len() == 0 {
        history
    } else if in_window(history.last(), now) {
        retained(history.drop_last(), now).push(history.last())
    } else {
        retained(history.drop_last(), now)
    }
}

/// What is retained was in the history, is inside the window, and is no
/// more than was there.
pub proof fn lemma_retained(history: Seq<u64>, now: u64)
    ensures
        retained(history, now).len() <= history.len(),
        forall|i: int|
            0 <= i < retained(history, now).len() ==> in_window(
                #[trigger] retained(history, now)[i],
                now,
            ) && history.contains(retained(history, now)[i]),
    decreases history.len(),
{
    if history.len() > 0 {
        let rest = history.drop_last();
        lemma_retained(rest, now);
        assert forall|i: int| 0 <= i < retained(history, now).len() implies in_window(
            #[trigger] retained(history, now)[i],
            now,
        ) && history.contains(retained(history, now)[i]) by {
            if i < retained(rest, now).len() {
                let x = retained(rest, now)[i];
                let j = rest.index_of(x);
                assert(history[j] == x);
            } else {
                assert(history[history.len() - 1] == history.last());
            }
        }
    }
}

/// Whether a call made at `t` still counts at `now`: fewer than
/// `SLIDING_WINDOW_DURATION_NS` nanoseconds have passed since.
pub open spec fn in_window(t: u64, now: u64) -> bool {
    t >= now || now - t < SLIDING_WINDOW_DURATION_NS
}

/// How long to wait, at `now`, until the call made at `oldest` leaves the
/// window.
pub open spec fn wait_time(oldest: u64, now: u64) -> int {
    if oldest >= now {
        SLIDING_WINDOW_DURATION_NS as int
    } else {
        SLIDING_WINDOW_DURATION_NS - (now - oldest)
    }
}

/// A time of `nanos` nanoseconds in milliseconds: the whole milliseconds,
/// and one more for a millisecond that has begun.
pub open spec fn to_millis(nanos: int) -> int {
    (nanos + NANOS_PER_MILLI - 1) / (NANOS_PER_MILLI as int)
}

/// The text with which the rate limiter refuses a call, `wait_ms` being
/// the milliseconds until the next call is let through.
pub open spec fn rate_limit_message(wait_ms: nat) -> Seq<char> {
    "Rate limit exceeded. You can make another call in "@ + decimal(wait_ms) + " milliseconds"@
}

/// The call timestamps the rate limiter keeps for `token_id`.
pub open spec fn call_history(guards: Map<u64, Seq<u64>>, token_id: u64) -> Seq<u64> {
    if guards.contains_key(token_id) {
        guards[token_id]
    } else {
        Seq::<u64>::empty()
    }
}

/// Whether the rate limiter lets a call on `token_id` through at `now`.
pub open spec fn rate_limit_admits(guards: Map<u64, Seq<u64>>, token_id: u64, now: u64) -> bool {
    retained(call_history(guards, token_id), now).len() < SLIDING_WINDOW_CALLS
}

/// The rate limiter's table after a call on `token_id` at `now`: the
/// timestamps that left the window are dropped, and where the call was let
/// through its own timestamp is added.
pub open spec fn rate_limit_after(guards: Map<u64, Seq<u64>>, token_id: u64, now: u64) -> Map<
    u64,
    Seq<u64>,
> {
    let kept = retained(call_history(guards, token_id), now);
    if kept.len() < SLIDING_WINDOW_CALLS {
        guards.insert(token_id, kept.push(now))
    } else {
        guards.insert(token_id, kept)
    }
}

/// The time, in nanoseconds, that a refused caller has to wait: until
/// the oldest call that still counts leaves the window.
pub open spec fn rate_limit_wait(guards: Map<u64, Seq<u64>>, token_id: u64, now: u64) -> int {
    wait_time(retained(call_history(guards, token_id), now)[0], now)
}

/// The milliseconds that a refused caller is told to wait.
pub open spec fn rate_limit_wait_ms(guards: Map<u64, Seq<u64>>, token_id: u64, now: u64) -> nat {
    to_millis(rate_limit_wait(guards, token_id, now)) as nat
}

/// A whole number of milliseconds is told as it is.
pub proof fn lemma_whole_millis(millis: nat)
    ensures
        to_millis(millis * NANOS_PER_MILLI) == millis,
{
    assert((millis * 1_000_000 + 999_999) / 1_000_000 == millis) by (nonlinear_arith);
}

/// A caller who is refused is told to wait more than nothing and no more
/// than the window.
pub proof fn lemma_wait_bounds(guards: Map<u64, Seq<u64>>, token_id: u64, now: u64)
    requires
        !rate_limit_admits(guards, token_id, now),
    ensures
        0 < rate_limit_wait(guards, token_id, now) <= SLIDING_WINDOW_DURATION_NS,
        0 < rate_limit_wait_ms(guards, token_id, now) <= 60,
{
    lemma_retained(call_history(guards, token_id), now);
    let wait = rate_limit_wait(guards, token_id, now);
    assert(in_window(retained(call_history(guards, token_id), now)[0], now));
    assert(0 < wait <= 60_000_000);
    assert(0 < (wait + 999_999) / 1_000_000 <= 60);
}

/// Timestamps that are all inside the window are all retained.
pub proof fn lemma_retained_all(history: Seq<u64>, now: u64)
    requires
        forall|i: int| 0 <= i < history.len() ==> in_window(#[trigger] history[i], now),
    ensures
        retained(history, now) == history,
    decreases history.len(),
{
    if history.len() > 0 {
        lemma_retained_all(history.drop_last(), now);
        assert(history =~= history.drop_last().push(history.last()));
    }
}

/// The rate limiter's table after calls on `token_id` at each of `times`,
/// in their order.
pub open spec fn after_calls(guards: Map<u64, Seq<u64>>, token_id: u64, times: Seq<u64>) -> Map<
    u64,
    Seq<u64>,
>
    decreases times.len(),
{
    if times.len() == 0 {
        guards
    } else {
        rate_limit_after(after_calls(guards, token_id, times.drop_last()), token_id, times.last())
    }
}

/// Calls that follow one another within one window, none earlier still
/// counting, are all recorded as long as there are no more than
/// `SLIDING_WINDOW_CALLS` of them.
pub proof fn lemma_calls_recorded(guards: Map<u64, Seq<u64>>, token_id: u64, times: Seq<u64>)
    requires
        0 < times.len() <= SLIDING_WINDOW_CALLS,
        forall|i: int, j: int| 0 <= i <= j < times.len() ==> times[i] <= times[j],
        times.last() - times[0] < SLIDING_WINDOW_DURATION_NS,
        retained(call_history(guards, token_id), times[0]).len() == 0,
    ensures
        call_history(after_calls(guards, token_id, times), token_id) == times,
        rate_limit_admits(
            after_calls(guards, token_id, times.drop_last()),
            token_id,
            times.last(),
        ),
    decreases times.len(),
{
    let earlier = times.drop_last();
    let now = times.last();
    let table = after_calls(guards, token_id, earlier);
    if earlier.len() == 0 {
        assert(table == guards);
        assert(times =~= Seq::<u64>::empty().push(now));
        assert(retained(call_history(guards, token_id), now) =~= Seq::<u64>::empty());
    } else {
        assert(earlier[0] == times[0]);
        assert(earlier.last() == times[times.len() - 2]);
        lemma_calls_recorded(guards, token_id, earlier);
        assert(call_history(table, token_id) == earlier);
        assert forall|i: int| 0 <= i < earlier.len() implies in_window(#[trigger] earlier[i], now) by {
            assert(earlier[i] == times[i]);
            assert(times[0] <= times[i]);
        }
        lemma_retained_all(earlier, now);
        assert(times =~= earlier.push(now));
    }
}

/// Within one window of 60 ms exactly `SLIDING_WINDOW_CALLS` calls on a
/// token are let through: of six calls that follow one another within one
/// window, none earlier still counting, the first five are let through
/// and the sixth is refused, and the time it is told to wait is the
/// window less the time since the first call, in milliseconds.
pub proof fn lemma_sixth_call_refused(guards: Map<u64, Seq<u64>>, token_id: u64, times: Seq<u64>)
    requires
        times.len() == SLIDING_WINDOW_CALLS + 1,
        forall|i: int, j: int| 0 <= i <= j < times.len() ==> times[i] <= times[j],
        times.last() - times[0] < SLIDING_WINDOW_DURATION_NS,
        retained(call_history(guards, token_id), times[0]).len() == 0,
    ensures
        forall|k: int|
            0 <= k < SLIDING_WINDOW_CALLS ==> rate_limit_admits(
                #[trigger] after_calls(guards, token_id, times.take(k)),
                token_id,
                times[k],
            ),
        !rate_limit_admits(
            after_calls(guards, token_id, times.drop_last()),
            token_id,
            times.last(),
        ),
        rate_limit_wait(after_calls(guards, token_id, times.drop_last()), token_id, times.last())
            == SLIDING_WINDOW_DURATION_NS - (times.last() - times[0]),
        rate_limit_wait_ms(after_calls(guards, token_id, times.drop_last()), token_id, times.last())
            == to_millis(SLIDING_WINDOW_DURATION_NS - (times.last() - times[0])),
{
    assert forall|k: int| 0 <= k < SLIDING_WINDOW_CALLS implies rate_limit_admits(
        #[trigger] after_calls(guards, token_id, times.take(k)),
        token_id,
        times[k],
    ) by {
        let upto = times.take(k + 1);
        assert(upto.drop_last() =~= times.take(k));
        assert(upto.last() == times[k]);
        assert(upto[0] == times[0]);
        assert(times[k] <= times[times.len() - 1]);
        assert forall|i: int, j: int| 0 <= i <= j < upto.len() implies upto[i] <= upto[j] by {
            assert(upto[i] == times[i] && upto[j] == times[j]);
        }
        lemma_calls_recorded(guards, token_id, upto);
    }
    let five = times.drop_last();
    let now = times.last();
    assert(five[0] == times[0]);
    assert(five.last() == times[times.len() - 2]);
    assert forall|i: int, j: int| 0 <= i <= j < five.len() implies five[i] <= five[j] by {
        assert(five[i] == times[i] && five[j] == times[j]);
    }
    lemma_calls_recorded(guards, token_id, five);
    assert forall|i: int| 0 <= i < five.len() implies in_window(#[trigger] five[i], now) by {
        assert(five[i] == times[i]);
        assert(times[0] <= times[i]);
    }
    lemma_retained_all(five, now);
}

/// The rate limiter never keeps more than `SLIDING_WINDOW_CALLS` calls
/// of a token that it kept no more of before.
pub proof fn lemma_history_bounded(guards: Map<u64, Seq<u64>>, token_id: u64, now: u64)
    requires
        call_history(guards, token_id).len() <= SLIDING_WINDOW_CALLS,
    ensures
        call_history(rate_limit_after(guards, token_id, now), token_id).len() <= SLIDING_WINDOW_CALLS,
{
    lemma_retained(call_history(guards, token_id), now);
}

fn retain_in_window(history: &Vec<u64>, current_time: u64) -> (kept: Vec<u64>)
    ensures
        kept@ == retained(history@, current_time),
{
    let mut kept: Vec<u64> = Vec::new();
    let mut i: usize = 0;
    while i < history.len()
        invariant
            i <= history@.len(),
            kept@ == retained(history@.take(i as int), current_time),
        decreases history@.len() - i,
    {
        let t: u64 = history[i];
        proof {
            assert(history@.take(i + 1).drop_last() =~= history@.take(i as int));
            assert(history@.take(i + 1).last() == t);
        }
        if t >= current_time || current_time - t < SLIDING_WINDOW_DURATION_NS {
            kept.push(t);
        }
        i = i + 1;
    }
    assert(history@.take(history@.len() as int) =~= history@);
    kept
}

/// The rate limiter's table as contracts speak of it: for a token, the
/// times of the calls that the table keeps for it.
pub open spec fn call_windows(table: Map<u64, Vec<u64>>) -> Map<u64, Seq<u64>> {
    table.map_values(|calls: Vec<u64>| calls@)
}

/// The sliding-window rate limiter. The calls on `token_id` that are older
/// than the window are forgotten. If `SLIDING_WINDOW_CALLS` calls are
/// left, this one is refused with the milliseconds until the oldest of
/// them leaves the window; otherwise it is recorded and let through.
pub fn guard_sliding_window(guards: &mut HashMap<u64, Vec<u64>>, token_id: u64, current_time: u64) -> (r:
    Result<(), String>)
    ensures
        call_windows(final(guards)@) == rate_limit_after(
            call_windows(old(guards)@),
            token_id,
            current_time,
        ),
        r is Ok <==> rate_limit_admits(call_windows(old(guards)@), token_id, current_time),
        r is Err ==> r->Err_0@ == rate_limit_message(
            rate_limit_wait_ms(call_windows(old(guards)@), token_id, current_time),
        ),
{
    broadcast use vstd::std_specs::hash::group_hash_axioms;

    let mut kept: Vec<u64> = match guards.get(&token_id) {
        Some(history) => retain_in_window(history, current_time),
        None => Vec::new(),
    };
    assert(kept@ == retained(call_history(call_windows(old(guards)@), token_id), current_time));
    if kept.len() >= SLIDING_WINDOW_CALLS {
        let oldest: u64 = kept[0];
        proof {
            lemma_retained(call_history(call_windows(old(guards)@), token_id), current_time);
        }
        let waited: u64 = if oldest >= current_time {
            0
        } else {
            current_time - oldest
        };
        let wait: u64 = SLIDING_WINDOW_DURATION_NS - waited;
        let wait_ms: u64 = (wait + (NANOS_PER_MILLI - 1)) / NANOS_PER_MILLI;
        let ghost stays = kept@;
        guards.insert(token_id, kept);
        assert(call_windows(final(guards)@) =~= call_windows(old(guards)@).insert(token_id, stays));
        return Err(
            framed_number(
                "Rate limit exceeded. You can make another call in ",
                wait_ms,
                " milliseconds",
            ),
        );
    }
    kept.push(current_time);
    let ghost grown = kept@;
    guards.insert(token_id, kept);
    assert(call_windows(final(guards)@) =~= call_windows(old(guards)@).insert(token_id, grown));
    Ok(())
}

/// The text with which a caller who is no governance principal is refused.
pub open spec fn governance_refusal() -> Seq<char> {
    "Caller is not a governance principal"@
}

/// The text with which a caller who is no minting authority is refused.
pub open spec fn minting_refusal() -> Seq<char> {
    "Caller is not a minting authority"@
}

/// Admits `caller` where it is one of the authorized principals.
pub fn caller_is_governance_principal(state: &crate::state::RuntimeState, caller: &Principal) -> (r:
    Result<(), String>)
    ensures
        r is Ok <==> crate::state::lists_principal(state.data.authorized_principals@, caller@),
        r is Err ==> r->Err_0@ == governance_refusal(),
{
    if state.is_caller_governance_principal(caller) {
        Ok(())
    } else {
        Err(String::from_str("Caller is not a governance principal"))
    }
}

/// Admits `caller` where it is one of the minting authorities.
pub fn caller_is_minting_authority(state: &crate::state::RuntimeState, caller: &Principal) -> (r: Result<
    (),
    String,
>)
    ensures
        r is Ok <==> crate::state::lists_principal(state.data.minting_authorities@, caller@),
        r is Err ==> r->Err_0@ == minting_refusal(),
{
    if state.is_caller_minting_authority(caller) {
        Ok(())
    } else {
        Err(String::from_str("Caller is not a minting authority"))
    }
}

} // verus!
