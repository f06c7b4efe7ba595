//! What the segment index is read into: storage totals, and the coverage bands the timeline shades.

use crate::models::segment::TimeRange;
use vstd::prelude::*;

verus! {

/// Aggregate view used by the storage endpoint.
#[derive(Debug, Clone)]
pub struct SegmentStorageStats {
    pub segment_count: i64,
    pub bytes: i64,
    pub oldest_ms: Option<i64>,
    pub newest_ms: Option<i64>,
}

impl Default for SegmentStorageStats {
    /// An empty index: nothing stored, no bounds.
    fn default() -> (stats: Self)
        ensures
            stats.segment_count == 0,
            stats.bytes == 0,
            stats.oldest_ms is None,
            stats.newest_ms is None,
    {
        SegmentStorageStats { segment_count: 0, bytes: 0, oldest_ms: None, newest_ms: None }
    }
}

/// One step of merging: `range` joins the last band when it starts within `tolerance` of that band's
/// end, stretching the band if it reaches further; otherwise it opens a new band.
pub open spec fn merge_step(merged: Seq<TimeRange>, range: TimeRange, tolerance: int) -> Seq<TimeRange> {
    if merged.len() > 0 && range.start_ms - merged.last().end_ms <= tolerance {
        if range.end_ms > merged.last().end_ms {
            merged.update(
                merged.len() - 1,
                TimeRange { start_ms: merged.last().start_ms, end_ms: range.end_ms },
            )
        } else {
            merged
        }
    } else {
        merged.push(range)
    }
}

/// The coverage bands of ranges taken in order.
pub open spec fn merged_ranges(ranges: Seq<TimeRange>, tolerance: int) -> Seq<TimeRange>
    decreases ranges.len(),
{
    if ranges.len() == 0 {
        Seq::empty()
    } else {
        merge_step(merged_ranges(ranges.drop_last(), tolerance), ranges.last(), tolerance)
    }
}

/// Ranges ordered by their start, as the index hands them over.
pub open spec fn sorted_by_start(ranges: Seq<TimeRange>) -> bool {
    forall|i: int, j: int| 0 <= i < j < ranges.len() ==> ranges[i].start_ms <= ranges[j].start_ms
}

/// `outer` holds every moment of `inner`.
pub open spec fn encloses(outer: TimeRange, inner: TimeRange) -> bool {
    outer.start_ms <= inner.start_ms && inner.end_ms <= outer.end_ms
}

/// Merge already sorted ranges that are adjacent within `gap_tolerance_ms`.
///
/// Segments closer together than the tolerance are merged, because the millisecond rounding between
/// one segment ending and the next starting should not draw as a hole.
pub fn merge_ranges(ranges: Vec<TimeRange>, gap_tolerance_ms: i64) -> (merged: Vec<TimeRange>)
    ensures
        merged@ == merged_ranges(ranges@, gap_tolerance_ms as int),
{
    let mut merged: Vec<TimeRange> = Vec::new();
    let mut i: usize = 0;
    while i < ranges.len()
        invariant
            i <= ranges@.len(),
            merged@ == merged_ranges(ranges@.take(i as int), gap_tolerance_ms as int),
        decreases ranges@.len() - i,
    {
        let range = ranges[i];
        let count = merged.len();
        proof {
            assert(ranges@.take(i + 1).drop_last() =~= ranges@.take(i as int));
            assert(ranges@.take(i + 1).last() == range);
        }
        if count > 0 && (range.start_ms as i128) - (merged[count - 1].end_ms as i128)
            <= gap_tolerance_ms as i128 {
            let previous = merged[count - 1];
            if range.end_ms > previous.end_ms {
                merged.set(count - 1, TimeRange { start_ms: previous.start_ms, end_ms: range.end_ms });
            }
        } else {
            merged.push(range);
        }
        i = i + 1;
    }
    assert(ranges@.take(ranges@.len() as int) =~= ranges@);
    merged
}

proof fn lemma_merged_separate(ranges: Seq<TimeRange>, tolerance: int)
    ensures
        merged_ranges(ranges, tolerance).len() <= ranges.len(),
        forall|k: int|
            0 <= k < merged_ranges(ranges, tolerance).len() - 1 ==> #[trigger] merged_ranges(
                ranges,
                tolerance,
            )[k + 1].start_ms - merged_ranges(ranges, tolerance)[k].end_ms > tolerance,
    decreases ranges.len(),
{
    if ranges.len() > 0 {
        let earlier = ranges.drop_last();
        let range = ranges.last();
        lemma_merged_separate(earlier, tolerance);
        let before = merged_ranges(earlier, tolerance);
        let after = merged_ranges(ranges, tolerance);
        let n = before.len() as int;
        let joins = n > 0 && range.start_ms - before.last().end_ms <= tolerance;
        // Only the last band ever changes, and only its end grows.
        assert forall|k: int| 0 <= k < after.len() - 1 implies #[trigger] after[k + 1].start_ms
            - after[k].end_ms > tolerance by {
            if joins {
                assert(k + 1 < n);
                assert(after[k + 1].start_ms == before[k + 1].start_ms);
                assert(after[k].end_ms == before[k].end_ms);
            } else if k + 1 < n {
                assert(after[k] == before[k] && after[k + 1] == before[k + 1]);
            } else {
                assert(after[k] == before.last() && after[k + 1] == range);
            }
        }
    }
}

proof fn lemma_merged_starts(ranges: Seq<TimeRange>, tolerance: int)
    ensures
        forall|k: int|
            #![trigger merged_ranges(ranges, tolerance)[k]]
            0 <= k < merged_ranges(ranges, tolerance).len() ==> exists|j: int|
                0 <= j < ranges.len() && merged_ranges(ranges, tolerance)[k].start_ms
                    == #[trigger] ranges[j].start_ms,
    decreases ranges.len(),
{
    if ranges.len() > 0 {
        let earlier = ranges.drop_last();
        let range = ranges.last();
        lemma_merged_starts(earlier, tolerance);
        let before = merged_ranges(earlier, tolerance);
        let after = merged_ranges(ranges, tolerance);
        let n = before.len() as int;
        assert forall|k: int| #![trigger after[k]] 0 <= k < after.len() implies exists|j: int|
            0 <= j < ranges.len() && after[k].start_ms == #[trigger] ranges[j].start_ms by {
            if k < n {
                assert(after[k].start_ms == before[k].start_ms);
                let j = choose|j: int|
                    0 <= j < earlier.len() && before[k].start_ms == #[trigger] earlier[j].start_ms;
                assert(earlier[j] == ranges[j]);
            } else {
                assert(after[k] == range);
                assert(ranges[ranges.len() - 1] == range);
            }
        }
    }
}

/// The last band starts at or before the last range, for ranges ordered by start.
proof fn lemma_last_band_starts_early(ranges: Seq<TimeRange>, tolerance: int)
    requires
        ranges.len() > 0,
        sorted_by_start(ranges),
    ensures
        merged_ranges(ranges, tolerance).len() > 0,
        merged_ranges(ranges, tolerance).last().start_ms <= ranges.last().start_ms,
    decreases ranges.len(),
{
    let earlier = ranges.drop_last();
    let range = ranges.last();
    let before = merged_ranges(earlier, tolerance);
    if earlier.len() > 0 {
        assert(sorted_by_start(earlier)) by {
            assert forall|i: int, j: int| 0 <= i < j < earlier.len() implies earlier[i].start_ms
                <= earlier[j].start_ms by {
                assert(earlier[i] == ranges[i] && earlier[j] == ranges[j]);
            }
        }
        lemma_last_band_starts_early(earlier, tolerance);
        assert(earlier.last() == ranges[ranges.len() - 2]);
        assert(ranges[ranges.len() - 2].start_ms <= ranges[ranges.len() - 1].start_ms);
    }
}

proof fn lemma_merged_encloses_one(ranges: Seq<TimeRange>, tolerance: int, j: int)
    requires
        sorted_by_start(ranges),
        0 <= j < ranges.len(),
    ensures
        exists|k: int|
            0 <= k < merged_ranges(ranges, tolerance).len() && encloses(
                #[trigger] merged_ranges(ranges, tolerance)[k],
                ranges[j],
            ),
    decreases ranges.len(),
{
    let earlier = ranges.drop_last();
    let range = ranges.last();
    let before = merged_ranges(earlier, tolerance);
    let after = merged_ranges(ranges, tolerance);
    let n = before.len() as int;
    let joins = n > 0 && range.start_ms - before.last().end_ms <= tolerance;
    if j < ranges.len() - 1 {
        assert(sorted_by_start(earlier)) by {
            assert forall|a: int, b: int| 0 <= a < b < earlier.len() implies earlier[a].start_ms
                <= earlier[b].start_ms by {
                assert(earlier[a] == ranges[a] && earlier[b] == ranges[b]);
            }
        }
        lemma_merged_encloses_one(earlier, tolerance, j);
        assert(ranges[j] == earlier[j]);
        let k = choose|k: int| 0 <= k < before.len() && encloses(#[trigger] before[k], earlier[j]);
        assert(after[k].start_ms == before[k].start_ms);
        assert(after[k].end_ms >= before[k].end_ms);
        assert(encloses(after[k], ranges[j]));
    } else if joins {
        assert(sorted_by_start(earlier)) by {
            assert forall|a: int, b: int| 0 <= a < b < earlier.len() implies earlier[a].start_ms
                <= earlier[b].start_ms by {
                assert(earlier[a] == ranges[a] && earlier[b] == ranges[b]);
            }
        }
        lemma_last_band_starts_early(earlier, tolerance);
        assert(earlier.last() == ranges[ranges.len() - 2]);
        assert(ranges[ranges.len() - 2].start_ms <= ranges[ranges.len() - 1].start_ms);
        assert(encloses(after[n - 1], ranges[j]));
    } else {
        assert(after[n] == range);
        assert(encloses(after[n], ranges[j]));
    }
}

/// The bands a merge produces: never more than the ranges that went in, separated by more than the
/// tolerance, each starting where some input range starts, and, for input ordered by start, holding
/// every input range whole, so no recorded moment is lost from the shading.
pub proof fn lemma_merged_ranges_cover_and_separate(ranges: Seq<TimeRange>, tolerance: int)
    ensures
        merged_ranges(ranges, tolerance).len() <= ranges.len(),
        forall|k: int|
            0 <= k < merged_ranges(ranges, tolerance).len() - 1 ==> #[trigger] merged_ranges(
                ranges,
                tolerance,
            )[k + 1].start_ms - merged_ranges(ranges, tolerance)[k].end_ms > tolerance,
        forall|k: int|
            #![trigger merged_ranges(ranges, tolerance)[k]]
            0 <= k < merged_ranges(ranges, tolerance).len() ==> exists|j: int|
                0 <= j < ranges.len() && merged_ranges(ranges, tolerance)[k].start_ms
                    == #[trigger] ranges[j].start_ms,
        sorted_by_start(ranges) ==> forall|j: int|
            #![trigger ranges[j]]
            0 <= j < ranges.len() ==> exists|k: int|
                0 <= k < merged_ranges(ranges, tolerance).len() && encloses(
                    #[trigger] merged_ranges(ranges, tolerance)[k],
                    ranges[j],
                ),
{
    lemma_merged_separate(ranges, tolerance);
    lemma_merged_starts(ranges, tolerance);
    if sorted_by_start(ranges) {
        assert forall|j: int| #![trigger ranges[j]] 0 <= j < ranges.len() implies exists|k: int|
            0 <= k < merged_ranges(ranges, tolerance).len() && encloses(
                #[trigger] merged_ranges(ranges, tolerance)[k],
                ranges[j],
            ) by {
            lemma_merged_encloses_one(ranges, tolerance, j);
        }
    }
}

} // verus!
