//! What the timeline endpoints accept.

use crate::error::{AppError, AppResult};
use vstd::prelude::*;

verus! {

/// Largest window a single peaks request may cover.
///
/// A month of envelope is 26 million buckets to walk, and no timeline shows that at once, so an unbounded
/// request is a mistake rather than a use case.
pub const MAX_WINDOW_MS: i64 = 32 * 24 * 3_600_000;

pub const BACKWARDS_WINDOW: &'static str = "toMs must be greater than fromMs";

pub const WIDE_WINDOW: &'static str = "the requested window is too wide, ask for at most 32 days at a time";

/// A peaks window must run forwards and span at most [`MAX_WINDOW_MS`].
pub fn check_peaks_window(from_ms: i64, to_ms: i64) -> (outcome: AppResult<()>)
    ensures
        to_ms <= from_ms ==> (outcome matches Err(AppError::BadRequest(m)) && m@ == BACKWARDS_WINDOW@),
        from_ms < to_ms && to_ms - from_ms > MAX_WINDOW_MS ==> (outcome matches Err(
            AppError::BadRequest(m),
        ) && m@ == WIDE_WINDOW@),
        from_ms < to_ms && to_ms - from_ms <= MAX_WINDOW_MS ==> outcome is Ok,
{
    if to_ms <= from_ms {
        return Err(AppError::bad_request(BACKWARDS_WINDOW));
    }
    if (to_ms as i128) - (from_ms as i128) > MAX_WINDOW_MS as i128 {
        return Err(AppError::bad_request(WIDE_WINDOW));
    }
    Ok(())
}

} // verus!
