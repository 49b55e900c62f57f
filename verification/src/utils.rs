//! Checks that several operations share.

use vstd::prelude::*;
use vstd::string::StringExecFns;
use crate::state::{setting, setting_or, Data};
use crate::types::icrc37::ErrorView;
use crate::types::icrc7::DEFAULT_MAX_MEMO_SIZE;
use crate::types::ledger::bytes_view;

verus! {

/// The text with which an overlong memo is refused.
pub open spec fn memo_refusal() -> Seq<char> {
    "Exceeds Max Memo Size"@
}

/// Whether a memo is within the limit: there is none, or it is no longer
/// than `max_memo_size` bytes.
pub open spec fn memo_fits(memo: Option<Seq<u8>>, max_memo_size: u64) -> bool {
    match memo {
        Some(bytes) => bytes.len() <= max_memo_size,
        None => true,
    }
}

/// Checks a memo against the configured limit, `DEFAULT_MAX_MEMO_SIZE`
/// where none is configured.
pub fn check_memo(data: &Data, memo: &Option<Vec<u8>>) -> (r: Result<(), String>)
    ensures
        r is Ok <==> memo_fits(bytes_view(*memo), setting(data.max_memo_size, DEFAULT_MAX_MEMO_SIZE)),
        r is Err ==> r->Err_0@ == memo_refusal(),
{
    match memo {
        Some(bytes) => {
            let max_memo_size: u64 = setting_or(data.max_memo_size, DEFAULT_MAX_MEMO_SIZE);
            if bytes.len() as u64 > max_memo_size {
                return Err(String::from_str("Exceeds Max Memo Size"));
            }
            Ok(())
        },
        None => Ok(()),
    }
}

/// Why a request is refused for its date, if it is: `CreatedInFuture`
/// where it is dated more than `drift` after `now`, `TooOld` where it is
/// dated more than `window` before `now`.
pub open spec fn timing_refusal(drift: u64, window: u64, created_at_time: u64, now: u64) -> Option<
    ErrorView,
> {
    if created_at_time > now + drift {
        Some(ErrorView::CreatedInFuture { ledger_time: now })
    } else if created_at_time + window < now {
        Some(ErrorView::TooOld)
    } else {
        None
    }
}

/// The same for a request that need not be dated: one without a date is
/// never refused for it.
pub open spec fn optional_timing_refusal(
    drift: u64,
    window: u64,
    created_at_time: Option<u64>,
    now: u64,
) -> Option<ErrorView> {
    match created_at_time {
        Some(t) => timing_refusal(drift, window, t, now),
        None => None,
    }
}

/// Why a request was refused for its date.
#[derive(Clone, Copy, Debug, PartialEq, Eq, Structural)]
pub enum TimingError {
    /// It is dated too far ahead of `ledger_time`, the time of the check.
    CreatedInFuture { ledger_time: u64 },
    /// It is dated too long ago.
    TooOld,
}

impl View for TimingError {
    type V = ErrorView;

    open spec fn view(&self) -> ErrorView {
        match *self {
            TimingError::CreatedInFuture { ledger_time } => ErrorView::CreatedInFuture {
                ledger_time,
            },
            TimingError::TooOld => ErrorView::TooOld,
        }
    }
}

/// Checks the date of a request against the clock, with the configured
/// drift and window.
pub fn verify_approval_timing(data: &Data, created_at_time: u64, current_time: u64) -> (r: Result<
    (),
    TimingError,
>)
    ensures
        match timing_refusal(data.drift(), data.window(), created_at_time, current_time) {
            Some(refusal) => r is Err && r->Err_0@ == refusal,
            None => r is Ok,
        },
{
    let permitted_drift: u64 = setting_or(data.permitted_drift, crate::types::icrc7::DEFAULT_PERMITTED_DRIFT);
    if created_at_time as u128 > current_time as u128 + permitted_drift as u128 {
        return Err(TimingError::CreatedInFuture { ledger_time: current_time });
    }
    let tx_window: u64 = setting_or(data.tx_window, crate::types::icrc7::DEFAULT_TX_WINDOW);
    if (created_at_time as u128 + tx_window as u128) < current_time as u128 {
        return Err(TimingError::TooOld);
    }
    Ok(())
}

/// The same for a request that need not be dated.
pub fn verify_optional_timing(data: &Data, created_at_time: Option<u64>, current_time: u64) -> (r:
    Result<(), TimingError>)
    ensures
        match optional_timing_refusal(data.drift(), data.window(), created_at_time, current_time) {
            Some(refusal) => r is Err && r->Err_0@ == refusal,
            None => r is Ok,
        },
{
    match created_at_time {
        Some(t) => verify_approval_timing(data, t, current_time),
        None => Ok(()),
    }
}

} // verus!
