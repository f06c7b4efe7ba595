//! What the sessions listing reads.

use crate::models::session::RecordingSession;
use vstd::prelude::*;

verus! {

/// A session joined with aggregates over its segments, which is what the sessions endpoint returns.
#[derive(Debug, Clone)]
pub struct SessionSummary {
    pub session: RecordingSession,
    pub segment_count: i64,
    pub bytes: i64,
}

} // verus!
