//! Timeline payloads.

use crate::models::segment::TimeRange;
use vstd::prelude::*;

verus! {

#[derive(Debug, Clone, Copy, PartialEq, Eq, Structural)]
pub struct CoverageDto {
    pub start_ms: i64,
    pub end_ms: i64,
}

impl From<TimeRange> for CoverageDto {
    fn from(range: TimeRange) -> (dto: Self) {
        CoverageDto { start_ms: range.start_ms, end_ms: range.end_ms }
    }
}

impl vstd::std_specs::convert::FromSpecImpl<TimeRange> for CoverageDto {
    open spec fn obeys_from_spec() -> bool {
        true
    }

    open spec fn from_spec(range: TimeRange) -> Self {
        CoverageDto { start_ms: range.start_ms, end_ms: range.end_ms }
    }
}

#[derive(Debug)]
pub struct TimelineRangeResponse {
    pub earliest_ms: Option<i64>,
    pub latest_ms: Option<i64>,
    pub live_edge_ms: Option<i64>,
    pub server_time_ms: i64,
    pub coverage: Vec<CoverageDto>,
}

impl TimelineRangeResponse {
    /// The extent of the recording and its coverage bands, stamped with the server's clock.
    pub fn new(
        earliest_ms: Option<i64>,
        latest_ms: Option<i64>,
        live_edge_ms: Option<i64>,
        server_time_ms: i64,
        coverage: &[TimeRange],
    ) -> (response: Self)
        ensures
            response.earliest_ms == earliest_ms,
            response.latest_ms == latest_ms,
            response.live_edge_ms == live_edge_ms,
            response.server_time_ms == server_time_ms,
            response.coverage@.len() == coverage@.len(),
            forall|i: int|
                0 <= i < coverage@.len() ==> #[trigger] response.coverage@[i] == (CoverageDto {
                    start_ms: coverage@[i].start_ms,
                    end_ms: coverage@[i].end_ms,
                }),
    {
        let mut bands: Vec<CoverageDto> = Vec::new();
        let mut i: usize = 0;
        while i < coverage.len()
            invariant
                i <= coverage@.len(),
                bands@.len() == i,
                forall|j: int|
                    0 <= j < i ==> #[trigger] bands@[j] == (CoverageDto {
                        start_ms: coverage@[j].start_ms,
                        end_ms: coverage@[j].end_ms,
                    }),
            decreases coverage@.len() - i,
        {
            bands.push(CoverageDto { start_ms: coverage[i].start_ms, end_ms: coverage[i].end_ms });
            i = i + 1;
        }
        TimelineRangeResponse { earliest_ms, latest_ms, live_edge_ms, server_time_ms, coverage: bands }
    }
}

/// Columns a peaks request is drawn in when it does not say.
pub const DEFAULT_BUCKETS: usize = 1_000;

/// Query string of the peaks endpoint.
#[derive(Debug)]
pub struct PeaksQuery {
    pub from_ms: i64,
    pub to_ms: i64,
    pub buckets: usize,
}

/// The column count a peaks request gets when it names none.
pub fn default_buckets() -> (buckets: usize)
    ensures
        buckets == DEFAULT_BUCKETS,
{
    DEFAULT_BUCKETS
}

#[derive(Debug)]
pub struct PeaksResponse {
    pub from_ms: i64,
    pub to_ms: i64,
    pub bucket_ms: i64,
    pub peaks: Vec<u8>,
}

} // verus!
