//! A closed chunk of recorded audio and its index entry.

use vstd::prelude::*;

verus! {

/// Half open time range, `[start_ms, end_ms)`.
#[derive(Debug, Clone, Copy, PartialEq, Eq, Structural)]
pub struct TimeRange {
    pub start_ms: i64,
    pub end_ms: i64,
}

impl TimeRange {
    pub fn new(start_ms: i64, end_ms: i64) -> (range: Self)
        ensures
            range.start_ms == start_ms,
            range.end_ms == end_ms,
    {
        Self { start_ms, end_ms }
    }

    /// Length of the range, zero when it is empty or backwards.
    pub open spec fn spec_duration(self) -> int {
        if self.end_ms >= self.start_ms {
            self.end_ms - self.start_ms
        } else {
            0
        }
    }

    pub fn duration_ms(&self) -> (duration: i64)
        requires
            self.end_ms - self.start_ms <= i64::MAX,
        ensures
            duration == self.spec_duration(),
    {
        if self.end_ms >= self.start_ms {
            self.end_ms - self.start_ms
        } else {
            0
        }
    }

    pub open spec fn spec_contains(self, timestamp_ms: int) -> bool {
        self.start_ms <= timestamp_ms < self.end_ms
    }

    pub fn contains(&self, timestamp_ms: i64) -> (inside: bool)
        ensures
            inside == self.spec_contains(timestamp_ms as int),
    {
        timestamp_ms >= self.start_ms && timestamp_ms < self.end_ms
    }

    pub open spec fn spec_overlaps(self, other: TimeRange) -> bool {
        self.start_ms < other.end_ms && other.start_ms < self.end_ms
    }

    pub fn overlaps(&self, other: &TimeRange) -> (overlapping: bool)
        ensures
            overlapping == self.spec_overlaps(*other),
    {
        self.start_ms < other.end_ms && other.start_ms < self.end_ms
    }
}

/// Two ranges overlap exactly when some moment lies in both of them.
pub proof fn lemma_overlap_means_a_shared_moment(a: TimeRange, b: TimeRange)
    requires
        a.start_ms < a.end_ms,
        b.start_ms < b.end_ms,
    ensures
        a.spec_overlaps(b) <==> exists|t: int| a.spec_contains(t) && b.spec_contains(t),
{
    if a.spec_overlaps(b) {
        let t = if a.start_ms >= b.start_ms { a.start_ms as int } else { b.start_ms as int };
        assert(a.spec_contains(t) && b.spec_contains(t));
    }
}

/// Overlap does not depend on which range asks.
pub proof fn lemma_overlap_is_symmetric(a: TimeRange, b: TimeRange)
    ensures
        a.spec_overlaps(b) == b.spec_overlaps(a),
{
}

#[derive(Debug, Clone)]
pub struct Segment {
    pub id: i64,
    pub session_id: i64,
    pub sequence: i64,
    /// Path relative to the configured data directory, so the directory can be relocated.
    pub path: String,
    pub started_at_ms: i64,
    pub ended_at_ms: i64,
    pub sample_rate: u32,
    pub channels: u16,
    pub byte_len: i64,
    /// One byte of normalised RMS per envelope bucket, see `audio::peaks`.
    pub peaks: Vec<u8>,
}

/// Rust's `/` on integers, which rounds towards zero.
pub open spec fn trunc_div(a: int, b: int) -> int
    recommends
        b > 0,
{
    if a >= 0 {
        a / b
    } else {
        -((-a) / b)
    }
}

pub open spec fn clamp_int(value: int, low: int, high: int) -> int {
    if value < low {
        low
    } else if value > high {
        high
    } else {
        value
    }
}

impl Segment {
    pub open spec fn spec_range(self) -> TimeRange {
        TimeRange { start_ms: self.started_at_ms, end_ms: self.ended_at_ms }
    }

    pub fn range(&self) -> (range: TimeRange)
        ensures
            range == self.spec_range(),
    {
        TimeRange::new(self.started_at_ms, self.ended_at_ms)
    }

    pub fn duration_ms(&self) -> (duration: i64)
        requires
            self.ended_at_ms - self.started_at_ms <= i64::MAX,
        ensures
            duration == self.spec_range().spec_duration(),
    {
        self.range().duration_ms()
    }

    /// Bytes one sample occupies across every channel; a zero channel count counts as mono.
    pub open spec fn spec_bytes_per_sample_frame(self) -> int {
        2 * if self.channels == 0 { 1int } else { self.channels as int }
    }

    pub fn bytes_per_sample_frame(&self) -> (bytes: i64)
        ensures
            bytes == self.spec_bytes_per_sample_frame(),
            2 <= bytes <= 2 * 65535,
    {
        let channels: i64 = if self.channels == 0 { 1 } else { self.channels as i64 };
        2 * channels
    }

    /// Index of the sample that starts at `timestamp_ms`, counted from the segment start, before any
    /// clamping to the file.
    pub open spec fn spec_sample_index(self, timestamp_ms: int) -> int {
        let clamped = clamp_int(timestamp_ms, self.started_at_ms as int, self.ended_at_ms as int);
        (clamped - self.started_at_ms) * self.sample_rate / 1000
    }

    pub open spec fn spec_byte_offset(self, timestamp_ms: int) -> int {
        clamp_int(
            self.spec_sample_index(timestamp_ms) * self.spec_bytes_per_sample_frame(),
            0,
            self.byte_len as int,
        )
    }

    /// The segment's arithmetic stays inside `i64`: its span times its rate, and the byte offset of
    /// its last sample, are representable, and the range and the file length are not backwards.
    pub open spec fn offsets_fit(self) -> bool {
        &&& self.started_at_ms <= self.ended_at_ms
        &&& self.byte_len >= 0
        &&& self.ended_at_ms - self.started_at_ms <= i64::MAX
        &&& (self.ended_at_ms - self.started_at_ms) * self.sample_rate <= i64::MAX
        &&& (self.ended_at_ms - self.started_at_ms) * self.sample_rate / 1000
            * self.spec_bytes_per_sample_frame() <= i64::MAX
    }

    /// Byte offset inside the segment file for a wall clock timestamp, aligned down to a sample boundary.
    ///
    /// This arithmetic is the reason segments are stored as raw PCM: seeking anywhere inside an hour of
    /// audio costs one multiplication and one `seek`, with no index and no decoder warm up.
    pub fn byte_offset_for(&self, timestamp_ms: i64) -> (offset: i64)
        requires
            self.offsets_fit(),
        ensures
            offset == self.spec_byte_offset(timestamp_ms as int),
            0 <= offset <= self.byte_len,
            (offset as int) % self.spec_bytes_per_sample_frame() == 0 || offset == self.byte_len,
    {
        let clamped = if timestamp_ms < self.started_at_ms {
            self.started_at_ms
        } else if timestamp_ms > self.ended_at_ms {
            self.ended_at_ms
        } else {
            timestamp_ms
        };
        let elapsed_ms = clamped - self.started_at_ms;
        let rate = self.sample_rate as i64;
        let bpf = self.bytes_per_sample_frame();
        proof {
            let span = self.ended_at_ms - self.started_at_ms;
            assert(0 <= elapsed_ms <= span);
            assert(elapsed_ms * rate <= span * rate) by (nonlinear_arith)
                requires
                    0 <= elapsed_ms <= span,
                    rate >= 0,
            ;
            assert(0 <= elapsed_ms * rate) by (nonlinear_arith)
                requires
                    0 <= elapsed_ms,
                    rate >= 0,
            ;
        }
        let product = elapsed_ms * rate;
        let sample_index = product / 1000;
        proof {
            let span = self.ended_at_ms - self.started_at_ms;
            assert(sample_index <= span * rate / 1000) by (nonlinear_arith)
                requires
                    0 <= product <= span * rate,
                    sample_index == product / 1000,
            ;
            assert(sample_index * bpf <= span * rate / 1000 * bpf) by (nonlinear_arith)
                requires
                    0 <= sample_index <= span * rate / 1000,
                    2 <= bpf,
            ;
            assert(0 <= sample_index * bpf) by (nonlinear_arith)
                requires
                    0 <= sample_index,
                    0 <= bpf,
            ;
        }
        let offset = sample_index * bpf;
        proof {
            assert(offset % bpf == 0) by (nonlinear_arith)
                requires
                    offset == sample_index * bpf,
                    bpf > 0,
                    sample_index >= 0,
            ;
        }
        if offset > self.byte_len {
            self.byte_len
        } else {
            offset
        }
    }

    pub open spec fn spec_timestamp_for_offset(self, byte_offset: int) -> int {
        if self.sample_rate == 0 {
            self.started_at_ms as int
        } else {
            self.started_at_ms + trunc_div(
                trunc_div(byte_offset, self.spec_bytes_per_sample_frame()) * 1000,
                self.sample_rate as int,
            )
        }
    }

    /// The conversion of a byte offset back to a timestamp stays inside `i64`.
    pub open spec fn timestamp_fits(self, byte_offset: int) -> bool {
        &&& -i64::MAX <= byte_offset
        &&& trunc_div(byte_offset, self.spec_bytes_per_sample_frame()) * 1000 <= i64::MAX
        &&& trunc_div(byte_offset, self.spec_bytes_per_sample_frame()) * 1000 >= i64::MIN
        &&& i64::MIN <= self.spec_timestamp_for_offset(byte_offset) <= i64::MAX
    }

    /// Wall clock timestamp of a byte offset, the inverse of [`Segment::byte_offset_for`].
    pub fn timestamp_for_offset(&self, byte_offset: i64) -> (timestamp: i64)
        requires
            self.timestamp_fits(byte_offset as int),
        ensures
            timestamp == self.spec_timestamp_for_offset(byte_offset as int),
    {
        if self.sample_rate == 0 {
            return self.started_at_ms;
        }
        let bpf = self.bytes_per_sample_frame();
        let rate = self.sample_rate as i64;
        let sample_index: i64 = if byte_offset >= 0 {
            byte_offset / bpf
        } else {
            -((-byte_offset) / bpf)
        };
        let scaled = sample_index * 1000;
        let elapsed: i64 = if scaled >= 0 {
            scaled / rate
        } else {
            -((-scaled) / rate)
        };
        self.started_at_ms + elapsed
    }
}

/// Seeking never goes backwards: a later moment never maps to an earlier byte, every offset lies
/// inside the file, and a moment at or before the segment's start maps to its first byte.
pub proof fn lemma_byte_offset_is_monotone(segment: Segment, earlier: int, later: int)
    requires
        segment.offsets_fit(),
        earlier <= later,
    ensures
        segment.spec_byte_offset(earlier) <= segment.spec_byte_offset(later),
        0 <= segment.spec_byte_offset(earlier) <= segment.byte_len,
        earlier <= segment.started_at_ms ==> segment.spec_byte_offset(earlier) == 0,
{
    let start = segment.started_at_ms as int;
    let r = segment.sample_rate as int;
    let b = segment.spec_bytes_per_sample_frame();
    let c1 = clamp_int(earlier, start, segment.ended_at_ms as int);
    let c2 = clamp_int(later, start, segment.ended_at_ms as int);
    assert(start <= c1 <= c2);
    let i1 = (c1 - start) * r / 1000;
    let i2 = (c2 - start) * r / 1000;
    assert(0 <= i1 <= i2) by (nonlinear_arith)
        requires
            0 <= c1 - start <= c2 - start,
            r >= 0,
            i1 == (c1 - start) * r / 1000,
            i2 == (c2 - start) * r / 1000,
    ;
    assert(0 <= i1 * b <= i2 * b) by (nonlinear_arith)
        requires
            0 <= i1 <= i2,
            b >= 2,
    ;
    if earlier <= start {
        assert(c1 == start);
        assert(i1 == 0) by (nonlinear_arith)
            requires
                c1 == start,
                i1 == (c1 - start) * r / 1000,
        ;
        assert(i1 * b == 0) by (nonlinear_arith)
            requires
                i1 == 0,
        ;
    }
}

/// Going from a moment inside a segment to its byte offset and back lands on the start of the sample
/// that holds the moment: never later than the moment, and less than one sample period (plus the
/// millisecond lost to rounding) before it. When the rate is a whole number of kilohertz, every
/// millisecond starts on a sample and the round trip is exact.
pub proof fn lemma_offset_timestamp_round_trip(segment: Segment, timestamp_ms: int)
    requires
        segment.offsets_fit(),
        segment.sample_rate > 0,
        segment.started_at_ms <= timestamp_ms <= segment.ended_at_ms,
        segment.spec_sample_index(timestamp_ms) * segment.spec_bytes_per_sample_frame()
            <= segment.byte_len,
    ensures
        ({
            let back = segment.spec_timestamp_for_offset(segment.spec_byte_offset(timestamp_ms));
            &&& back <= timestamp_ms
            &&& (timestamp_ms - back) * segment.sample_rate < 1000 + segment.sample_rate
            &&& segment.sample_rate % 1000 == 0 ==> back == timestamp_ms
        }),
{
    let e = timestamp_ms - segment.started_at_ms;
    let r = segment.sample_rate as int;
    let b = segment.spec_bytes_per_sample_frame();
    let idx = e * r / 1000;
    assert(e * r >= 0) by (nonlinear_arith)
        requires
            e >= 0,
            r > 0,
    ;
    assert(idx >= 0);
    assert(segment.spec_sample_index(timestamp_ms) == idx);
    let offset = idx * b;
    assert(offset >= 0) by (nonlinear_arith)
        requires
            offset == idx * b,
            idx >= 0,
            b > 0,
    ;
    assert(segment.spec_byte_offset(timestamp_ms) == offset);
    assert(offset / b == idx) by (nonlinear_arith)
        requires
            offset == idx * b,
            b > 0,
    ;
    assert(trunc_div(offset, b) == idx);
    assert(idx * 1000 >= 0);
    let back = idx * 1000 / r;
    assert(segment.spec_timestamp_for_offset(offset) == segment.started_at_ms + back);
    assert(back <= e && (e - back) * r < 1000 + r) by (nonlinear_arith)
        requires
            idx == e * r / 1000,
            back == idx * 1000 / r,
            e >= 0,
            r > 0,
    ;
    if r % 1000 == 0 {
        let k = r / 1000;
        assert(idx == e * k) by (nonlinear_arith)
            requires
                r == 1000 * k,
                idx == e * r / 1000,
        ;
        assert(idx * 1000 == e * r) by (nonlinear_arith)
            requires
                r == 1000 * k,
                idx == e * k,
        ;
        assert((e * r) / r == e) by (nonlinear_arith)
            requires
                r > 0,
        ;
    }
}

/// Values needed to index a segment once its file has been closed.
#[derive(Debug, Clone)]
pub struct SegmentDraft {
    pub session_id: i64,
    pub sequence: i64,
    /// Local calendar day the segment belongs to, `YYYY-MM-DD`.
    pub day: String,
    pub path: String,
    pub started_at_ms: i64,
    pub ended_at_ms: i64,
    pub sample_rate: u32,
    pub channels: u16,
    pub byte_len: i64,
    pub peaks: Vec<u8>,
}

} // verus!
