//! Waveform envelope: rendering stored envelopes back onto the timeline.
//!
//! Drawing a waveform from the audio itself does not scale. An hour at 48 kHz is 172 million samples,
//! and the browser only has a few thousand pixels to put them in. So the recorder reduces the signal
//! once, while the samples are already in cache, and stores one byte per 100 ms bucket next to the
//! segment. An hour of envelope is then 36 KB, which is cheap enough to send on every timeline pan.

use vstd::prelude::*;

verus! {

/// Envelope resolution. 100 ms is the smallest bucket that still keeps an hour of envelope under 40 KB,
/// and it matches the default frame size so a frame never straddles more than two buckets.
pub const PEAK_BUCKET_MS: i64 = 100;

/// Full scale of a 16 bit sample, the level an envelope value of 255 stands for.
pub const FULL_SCALE: u64 = 32767;

/// The samples in one envelope bucket at `sample_rate`: the bucket's share of a second, at least one.
pub open spec fn bucket_samples_for(sample_rate: u32) -> int {
    let samples = sample_rate as int * PEAK_BUCKET_MS / 1000;
    if samples >= 1 {
        samples
    } else {
        1
    }
}

/// The drawn level of a bucket whose samples' squares sum to `sum_squares` over `count` samples,
/// searching down from `level`: the largest level `k` no higher than `level` with
/// `k - 1/2 <= 255 * rms`, where `rms` is the root mean square relative to full scale. Searched from
/// 255, that is 255 times the RMS rounded to the nearest whole number, halves up, capped at 255.
pub open spec fn level_at_most(sum_squares: int, count: int, level: int) -> int
    decreases level,
{
    if level <= 0 {
        0
    } else if (2 * level - 1) * (2 * level - 1) * count * (FULL_SCALE * FULL_SCALE) <= 4 * (255 * 255)
        * sum_squares {
        level
    } else {
        level_at_most(sum_squares, count, level - 1)
    }
}

/// The envelope value of a closed bucket.
pub open spec fn envelope_value(sum_squares: int, count: int) -> u8 {
    level_at_most(sum_squares, count, 255) as u8
}

/// What an envelope builder holds: samples per bucket, samples in the open bucket, the sum of their
/// squares, and the values of the closed buckets.
pub struct EnvelopeState {
    pub bucket_samples: int,
    pub filled: int,
    pub sum_squares: int,
    pub values: Seq<u8>,
}

/// One sample folded in: it joins the open bucket, which closes once it holds a bucket's worth.
pub open spec fn push_sample(state: EnvelopeState, sample: i16) -> EnvelopeState {
    let filled = state.filled + 1;
    let sum_squares = state.sum_squares + sample * sample;
    if filled >= state.bucket_samples {
        EnvelopeState {
            bucket_samples: state.bucket_samples,
            filled: 0,
            sum_squares: 0,
            values: state.values.push(envelope_value(sum_squares, filled)),
        }
    } else {
        EnvelopeState { bucket_samples: state.bucket_samples, filled, sum_squares, values: state.values }
    }
}

/// Samples folded in, in order.
pub open spec fn push_samples(state: EnvelopeState, samples: Seq<i16>) -> EnvelopeState
    decreases samples.len(),
{
    if samples.len() == 0 {
        state
    } else {
        push_sample(push_samples(state, samples.drop_last()), samples.last())
    }
}

/// The envelope once closed: a partial trailing bucket is flushed so a short segment still draws.
pub open spec fn finished(state: EnvelopeState) -> Seq<u8> {
    if state.filled > 0 {
        state.values.push(envelope_value(state.sum_squares, state.filled))
    } else {
        state.values
    }
}

/// Largest bucket the builder is made with: the bucket of the fastest rate a `u32` can name.
pub const MAX_BUCKET_SAMPLES: usize = 429_496_729;

/// Accumulates the envelope of a segment as it is written.
///
/// One byte per 100 ms bucket: the bucket's RMS relative to full scale, on a linear scale where full
/// scale maps to 255. The envelope is drawn, not measured, so a plain linear scale is what matches what
/// people expect to see. Squares are summed as integers, so the level is exact.
pub struct PeakEnvelopeBuilder {
    bucket_samples: usize,
    filled_samples: usize,
    sum_squares: u64,
    values: Vec<u8>,
}

impl View for PeakEnvelopeBuilder {
    type V = EnvelopeState;

    closed spec fn view(&self) -> EnvelopeState {
        EnvelopeState {
            bucket_samples: self.bucket_samples as int,
            filled: self.filled_samples as int,
            sum_squares: self.sum_squares as int,
            values: self.values@,
        }
    }
}

/// Bounds every builder keeps: a bucket of at least one sample, an open bucket that is not yet full,
/// and a sum of squares no larger than its samples allow.
pub open spec fn envelope_wf(state: EnvelopeState) -> bool {
    &&& 1 <= state.bucket_samples <= MAX_BUCKET_SAMPLES
    &&& 0 <= state.filled < state.bucket_samples
    &&& 0 <= state.sum_squares <= state.filled * 0x4000_0000
}

proof fn lemma_push_sample_wf(state: EnvelopeState, sample: i16)
    requires
        envelope_wf(state),
    ensures
        envelope_wf(push_sample(state, sample)),
        push_sample(state, sample).bucket_samples == state.bucket_samples,
{
    assert(sample * sample <= 0x4000_0000) by (nonlinear_arith)
        requires
            -32768 <= sample <= 32767,
    ;
    assert(sample * sample >= 0) by (nonlinear_arith);
}

proof fn lemma_push_samples_counts(state: EnvelopeState, samples: Seq<i16>)
    requires
        envelope_wf(state),
    ensures
        envelope_wf(push_samples(state, samples)),
        push_samples(state, samples).bucket_samples == state.bucket_samples,
        push_samples(state, samples).values.len() * state.bucket_samples + push_samples(
            state,
            samples,
        ).filled == state.values.len() * state.bucket_samples + state.filled + samples.len(),
        push_samples(state, samples).values.len() >= state.values.len(),
        push_samples(state, samples).values.take(state.values.len() as int) == state.values,
    decreases samples.len(),
{
    if samples.len() > 0 {
        lemma_push_samples_counts(state, samples.drop_last());
        let before = push_samples(state, samples.drop_last());
        lemma_push_sample_wf(before, samples.last());
        let after = push_samples(state, samples);
        if before.filled + 1 >= before.bucket_samples {
            assert(after.values.len() == before.values.len() + 1);
            assert((before.values.len() + 1) * state.bucket_samples == before.values.len()
                * state.bucket_samples + state.bucket_samples) by (nonlinear_arith);
            assert(after.values =~= before.values.push(after.values.last()));
            assert forall|k: int| 0 <= k < state.values.len() implies after.values[k]
                == before.values[k] by {}
            assert(after.values.take(state.values.len() as int) =~= before.values.take(
                state.values.len() as int,
            ));
        }
    }
}

fn level_of_bucket(sum_squares: u64, count: usize) -> (level: u8)
    requires
        1 <= count <= MAX_BUCKET_SAMPLES,
        sum_squares <= count * 0x4000_0000,
    ensures
        level == envelope_value(sum_squares as int, count as int),
{
    assert(FULL_SCALE * FULL_SCALE == 1_073_676_289);
    let target: u128 = 260_100 * (sum_squares as u128);
    let scale: u128 = (count as u128) * 1_073_676_289;
    assert(target <= 4 * 65025 * (MAX_BUCKET_SAMPLES as u128) * 0x4000_0000) by (nonlinear_arith)
        requires
            target == 4 * (255 * 255) * sum_squares,
            sum_squares <= count * 0x4000_0000,
            count <= MAX_BUCKET_SAMPLES,
    ;
    assert(scale <= (MAX_BUCKET_SAMPLES as u128) * 1_073_676_289) by (nonlinear_arith)
        requires
            scale == count * (32767 * 32767),
            count <= MAX_BUCKET_SAMPLES,
    ;
    let mut level: u128 = 255;
    loop
        invariant
            level <= 255,
            scale == count * (FULL_SCALE * FULL_SCALE),
            scale <= (MAX_BUCKET_SAMPLES as u128) * 1_073_676_289,
            target == 4 * (255 * 255) * sum_squares,
            level_at_most(sum_squares as int, count as int, 255) == level_at_most(
                sum_squares as int,
                count as int,
                level as int,
            ),
        ensures
            level <= 255,
            level_at_most(sum_squares as int, count as int, 255) == level as int,
        decreases level,
    {
        if level == 0 {
            break;
        }
        let odd: u128 = 2 * level - 1;
        assert(odd * odd <= 259_081 && odd * odd * scale <= 259_081 * ((MAX_BUCKET_SAMPLES as u128)
            * 1_073_676_289)) by (nonlinear_arith)
            requires
                1 <= odd <= 509,
                scale <= (MAX_BUCKET_SAMPLES as u128) * 1_073_676_289,
        ;
        assert(odd * odd * scale == (2 * level - 1) * (2 * level - 1) * count * (FULL_SCALE
            * FULL_SCALE)) by (nonlinear_arith)
            requires
                odd == 2 * level - 1,
                scale == count * (FULL_SCALE * FULL_SCALE),
        ;
        if odd * odd * scale <= target {
            break;
        }
        level = level - 1;
    }
    level as u8
}

impl PeakEnvelopeBuilder {
    /// The builder's state is within its bounds.
    pub closed spec fn wf(&self) -> bool {
        envelope_wf(self@) && self.bucket_samples as int == self@.bucket_samples
    }

    pub fn new(sample_rate: u32) -> (builder: Self)
        ensures
            builder.wf(),
            builder@ == (EnvelopeState {
                bucket_samples: bucket_samples_for(sample_rate),
                filled: 0,
                sum_squares: 0,
                values: Seq::empty(),
            }),
    {
        let samples: u64 = (sample_rate as u64) * (PEAK_BUCKET_MS as u64) / 1000;
        let bucket_samples: usize = if samples >= 1 {
            samples as usize
        } else {
            1
        };
        PeakEnvelopeBuilder { bucket_samples, filled_samples: 0, sum_squares: 0, values: Vec::new() }
    }

    /// Feed the mono samples of one frame.
    pub fn push(&mut self, samples: &[i16])
        requires
            old(self).wf(),
        ensures
            final(self).wf(),
            final(self)@ == push_samples(old(self)@, samples@),
    {
        let mut i: usize = 0;
        assert(samples@.take(0) =~= Seq::<i16>::empty());
        while i < samples.len()
            invariant
                i <= samples@.len(),
                self.wf(),
                self@ == push_samples(old(self)@, samples@.take(i as int)),
            decreases samples@.len() - i,
        {
            let sample = samples[i];
            proof {
                assert(samples@.take(i + 1).drop_last() =~= samples@.take(i as int));
                lemma_push_sample_wf(self@, sample);
            }
            let wide: i64 = sample as i64;
            assert(0 <= wide * wide <= 0x4000_0000) by (nonlinear_arith)
                requires
                    wide == sample,
                    -32768 <= sample <= 32767,
            ;
            let square: u64 = (wide * wide) as u64;
            self.sum_squares = self.sum_squares + square;
            self.filled_samples = self.filled_samples + 1;
            if self.filled_samples >= self.bucket_samples {
                let level = level_of_bucket(self.sum_squares, self.filled_samples);
                self.values.push(level);
                self.filled_samples = 0;
                self.sum_squares = 0;
            }
            i = i + 1;
        }
        assert(samples@.take(samples@.len() as int) =~= samples@);
    }

    /// Close the envelope, flushing a partial trailing bucket so a short segment still draws something.
    pub fn finish(self) -> (values: Vec<u8>)
        requires
            self.wf(),
        ensures
            values@ == finished(self@),
    {
        let mut values = self.values;
        if self.filled_samples > 0 {
            let level = level_of_bucket(self.sum_squares, self.filled_samples);
            values.push(level);
        }
        values
    }

    /// Buckets completed so far, useful for asserting alignment against the segment duration.
    pub fn len(&self) -> (count: usize)
        ensures
            count == self@.values.len(),
    {
        self.values.len()
    }

    pub fn is_empty(&self) -> (empty: bool)
        ensures
            empty == (self@.values.len() == 0),
    {
        self.values.len() == 0
    }
}

/// Every sample lands in exactly one bucket: after `n` samples from a fresh builder, `n / b` buckets
/// are closed and `n % b` samples wait in the open one, so the finished envelope has `n / b` values,
/// plus one for a partial tail. Closed buckets never change as more samples arrive.
pub proof fn lemma_every_sample_lands_in_one_bucket(sample_rate: u32, samples: Seq<i16>)
    ensures
        ({
            let fresh = EnvelopeState {
                bucket_samples: bucket_samples_for(sample_rate),
                filled: 0,
                sum_squares: 0,
                values: Seq::empty(),
            };
            let state = push_samples(fresh, samples);
            let b = bucket_samples_for(sample_rate);
            &&& state.values.len() == samples.len() as int / b
            &&& state.filled == samples.len() as int % b
            &&& finished(state).len() == samples.len() as int / b + if samples.len() as int % b == 0 {
                0int
            } else {
                1int
            }
        }),
{
    let b = bucket_samples_for(sample_rate);
    let fresh = EnvelopeState { bucket_samples: b, filled: 0, sum_squares: 0, values: Seq::empty() };
    assert(b <= MAX_BUCKET_SAMPLES) by (nonlinear_arith)
        requires
            b == (if sample_rate as int * 100 / 1000 >= 1 { sample_rate as int * 100 / 1000 } else { 1 }),
            sample_rate <= 0xffff_ffff,
    ;
    lemma_push_samples_counts(fresh, samples);
    let state = push_samples(fresh, samples);
    let n = samples.len() as int;
    let q = state.values.len() as int;
    let r = state.filled;
    assert(q * b + r == n);
    vstd::arithmetic::div_mod::lemma_fundamental_div_mod_converse(n, b, q, r);
}

/// The envelope state after a run of pushes, one after the other.
pub open spec fn envelope_run(state: EnvelopeState, pushes: Seq<Seq<i16>>) -> EnvelopeState
    decreases pushes.len(),
{
    if pushes.len() == 0 {
        state
    } else {
        push_samples(envelope_run(state, pushes.drop_last()), pushes.last())
    }
}

/// Every sample of a run of pushes, in order.
pub open spec fn run_samples(pushes: Seq<Seq<i16>>) -> Seq<i16>
    decreases pushes.len(),
{
    if pushes.len() == 0 {
        Seq::empty()
    } else {
        run_samples(pushes.drop_last()) + pushes.last()
    }
}

proof fn lemma_push_samples_compose(state: EnvelopeState, a: Seq<i16>, b: Seq<i16>)
    ensures
        push_samples(push_samples(state, a), b) == push_samples(state, a + b),
    decreases b.len(),
{
    if b.len() == 0 {
        assert(a + b =~= a);
    } else {
        lemma_push_samples_compose(state, a, b.drop_last());
        assert((a + b).drop_last() =~= a + b.drop_last());
        assert((a + b).last() == b.last());
    }
}

proof fn lemma_envelope_run_is_one_push(state: EnvelopeState, pushes: Seq<Seq<i16>>)
    ensures
        envelope_run(state, pushes) == push_samples(state, run_samples(pushes)),
    decreases pushes.len(),
{
    if pushes.len() > 0 {
        lemma_envelope_run_is_one_push(state, pushes.drop_last());
        lemma_push_samples_compose(state, run_samples(pushes.drop_last()), pushes.last());
    } else {
        assert(push_samples(state, Seq::<i16>::empty()) == state);
    }
}

/// How a frame's samples are split between pushes does not matter: a run of pushes from a fresh
/// builder ends where one push of all their samples would, so after `n` samples in all `n / b`
/// buckets are closed, and the finished envelope has `n / b` values plus one for a partial tail.
pub proof fn lemma_pushes_fill_buckets_in_order(sample_rate: u32, pushes: Seq<Seq<i16>>)
    ensures
        ({
            let fresh = EnvelopeState {
                bucket_samples: bucket_samples_for(sample_rate),
                filled: 0,
                sum_squares: 0,
                values: Seq::empty(),
            };
            let state = envelope_run(fresh, pushes);
            let n = run_samples(pushes).len() as int;
            let b = bucket_samples_for(sample_rate);
            &&& state == push_samples(fresh, run_samples(pushes))
            &&& state.values.len() == n / b
            &&& state.filled == n % b
            &&& finished(state).len() == n / b + if n % b == 0 {
                0int
            } else {
                1int
            }
        }),
{
    let fresh = EnvelopeState {
        bucket_samples: bucket_samples_for(sample_rate),
        filled: 0,
        sum_squares: 0,
        values: Seq::empty(),
    };
    lemma_envelope_run_is_one_push(fresh, pushes);
    lemma_every_sample_lands_in_one_bucket(sample_rate, run_samples(pushes));
}

/// Full scale throughout draws 255, and silence draws 0.
pub proof fn lemma_envelope_extremes(count: int)
    requires
        count >= 1,
    ensures
        envelope_value(count * (FULL_SCALE * FULL_SCALE), count) == 255,
        envelope_value(0, count) == 0,
{
    let full = count * (FULL_SCALE * FULL_SCALE);
    assert((2 * 255 - 1) * (2 * 255 - 1) * count * (FULL_SCALE * FULL_SCALE) <= 4 * (255 * 255) * full)
        by (nonlinear_arith)
        requires
            full == count * (FULL_SCALE * FULL_SCALE),
            count >= 1,
    ;
    lemma_level_at_most_zero(count, 255);
}

proof fn lemma_level_at_most_zero(count: int, level: int)
    requires
        count >= 1,
    ensures
        level_at_most(0, count, level) == 0,
    decreases level,
{
    if level > 0 {
        assert((2 * level - 1) * (2 * level - 1) * count * (FULL_SCALE * FULL_SCALE) > 0)
            by (nonlinear_arith)
            requires
                1 <= level,
                count >= 1,
        ;
        lemma_level_at_most_zero(count, level - 1);
    }
}

/// One segment's envelope, positioned on the timeline.
pub struct PeakSource<'a> {
    pub start_ms: i64,
    pub values: &'a [u8],
}

/// A source's start and values, as the render contract speaks of them.
pub open spec fn source_view(source: PeakSource) -> (int, Seq<u8>) {
    (source.start_ms as int, source.values@)
}

/// First output column an envelope bucket starting at `bucket_start_ms` reaches: the floor of its
/// position across the window, scaled to the column count.
pub open spec fn first_column(bucket_start_ms: int, from_ms: int, to_ms: int, buckets: int) -> int {
    (bucket_start_ms - from_ms) * buckets / (to_ms - from_ms)
}

/// One past the last output column the bucket reaches: the ceiling of where it ends.
pub open spec fn end_column(bucket_start_ms: int, from_ms: int, to_ms: int, buckets: int) -> int {
    let scaled = (bucket_start_ms + PEAK_BUCKET_MS - from_ms) * buckets;
    let span = to_ms - from_ms;
    if scaled % span == 0 {
        scaled / span
    } else {
        scaled / span + 1
    }
}

/// What bucket `index` of an envelope starting at `start_ms` contributes to column `column`: its value
/// when it is loud at all, lies inside the window and spans the column; otherwise nothing.
pub open spec fn contribution(
    start_ms: int,
    values: Seq<u8>,
    index: int,
    from_ms: int,
    to_ms: int,
    buckets: int,
    column: int,
) -> int {
    let bucket_start_ms = start_ms + index * PEAK_BUCKET_MS;
    let bucket_end_ms = bucket_start_ms + PEAK_BUCKET_MS;
    if values[index] != 0 && bucket_end_ms > from_ms && bucket_start_ms < to_ms && first_column(
        bucket_start_ms,
        from_ms,
        to_ms,
        buckets,
    ) <= column < end_column(bucket_start_ms, from_ms, to_ms, buckets) {
        values[index] as int
    } else {
        0
    }
}

pub open spec fn max_int(a: int, b: int) -> int {
    if a >= b {
        a
    } else {
        b
    }
}

/// The loudest contribution of the first `count` buckets of one envelope to a column.
pub open spec fn source_peak(
    start_ms: int,
    values: Seq<u8>,
    count: int,
    from_ms: int,
    to_ms: int,
    buckets: int,
    column: int,
) -> int
    decreases count,
{
    if count <= 0 {
        0
    } else {
        max_int(
            source_peak(start_ms, values, count - 1, from_ms, to_ms, buckets, column),
            contribution(start_ms, values, count - 1, from_ms, to_ms, buckets, column),
        )
    }
}

/// The loudest contribution of the first `count` envelopes to a column.
pub open spec fn column_peak(
    sources: Seq<(int, Seq<u8>)>,
    count: int,
    from_ms: int,
    to_ms: int,
    buckets: int,
    column: int,
) -> int
    decreases count,
{
    if count <= 0 {
        0
    } else {
        let (start_ms, values) = sources[count - 1];
        max_int(
            column_peak(sources, count - 1, from_ms, to_ms, buckets, column),
            source_peak(start_ms, values, values.len() as int, from_ms, to_ms, buckets, column),
        )
    }
}

/// The rendered envelope: one column per bucket, each the loudest stored value whose 100 ms span
/// reaches into it, or nothing for an empty window.
pub open spec fn render_spec(sources: Seq<(int, Seq<u8>)>, from_ms: int, to_ms: int, buckets: int) -> Seq<u8> {
    if buckets == 0 || to_ms <= from_ms {
        Seq::empty()
    } else {
        Seq::new(
            buckets as nat,
            |column: int| column_peak(sources, sources.len() as int, from_ms, to_ms, buckets, column) as u8,
        )
    }
}

proof fn lemma_peaks_are_bytes(
    sources: Seq<(int, Seq<u8>)>,
    count: int,
    from_ms: int,
    to_ms: int,
    buckets: int,
    column: int,
)
    ensures
        0 <= column_peak(sources, count, from_ms, to_ms, buckets, column) <= 255,
    decreases count,
{
    if count > 0 {
        lemma_peaks_are_bytes(sources, count - 1, from_ms, to_ms, buckets, column);
        let (start_ms, values) = sources[count - 1];
        lemma_source_peak_is_byte(start_ms, values, values.len() as int, from_ms, to_ms, buckets, column);
    }
}

proof fn lemma_source_peak_is_byte(
    start_ms: int,
    values: Seq<u8>,
    count: int,
    from_ms: int,
    to_ms: int,
    buckets: int,
    column: int,
)
    ensures
        0 <= source_peak(start_ms, values, count, from_ms, to_ms, buckets, column) <= 255,
    decreases count,
{
    if count > 0 {
        lemma_source_peak_is_byte(start_ms, values, count - 1, from_ms, to_ms, buckets, column);
    }
}

/// Where a bucket that reaches into the window lands among the columns: at or before the window's
/// start it begins at a column no later than the first, and at or past the window's end it runs to
/// the last column; otherwise it stays within the columns.
proof fn lemma_column_bounds(bucket_start_ms: int, from_ms: int, to_ms: int, buckets: int)
    requires
        from_ms < to_ms,
        buckets >= 1,
        bucket_start_ms + PEAK_BUCKET_MS > from_ms,
        bucket_start_ms < to_ms,
    ensures
        bucket_start_ms <= from_ms ==> first_column(bucket_start_ms, from_ms, to_ms, buckets) <= 0,
        bucket_start_ms > from_ms ==> 0 <= first_column(bucket_start_ms, from_ms, to_ms, buckets)
            < buckets,
        bucket_start_ms + PEAK_BUCKET_MS >= to_ms ==> end_column(
            bucket_start_ms,
            from_ms,
            to_ms,
            buckets,
        ) >= buckets,
        bucket_start_ms + PEAK_BUCKET_MS < to_ms ==> 0 <= end_column(
            bucket_start_ms,
            from_ms,
            to_ms,
            buckets,
        ) <= buckets,
        first_column(bucket_start_ms, from_ms, to_ms, buckets) <= end_column(
            bucket_start_ms,
            from_ms,
            to_ms,
            buckets,
        ),
{
    let span = to_ms - from_ms;
    let low = (bucket_start_ms - from_ms) * buckets;
    let high = (bucket_start_ms + PEAK_BUCKET_MS - from_ms) * buckets;
    assert(low <= high) by (nonlinear_arith)
        requires
            low == (bucket_start_ms - from_ms) * buckets,
            high == (bucket_start_ms + PEAK_BUCKET_MS - from_ms) * buckets,
            buckets >= 1,
    ;
    vstd::arithmetic::div_mod::lemma_div_is_ordered(low, high, span);
    let start = bucket_start_ms - from_ms;
    let end = bucket_start_ms + PEAK_BUCKET_MS - from_ms;
    if start <= 0 {
        assert(start * buckets <= 0) by (nonlinear_arith)
            requires
                start <= 0,
                buckets >= 1,
        ;
        vstd::arithmetic::div_mod::lemma_div_is_ordered(start * buckets, 0, span);
    } else {
        assert(0 <= start * buckets / span < buckets) by (nonlinear_arith)
            requires
                0 < start < span,
                buckets >= 1,
        ;
    }
    let scaled = end * buckets;
    if end >= span {
        assert(scaled / span >= buckets) by (nonlinear_arith)
            requires
                end >= span > 0,
                buckets >= 1,
                scaled == end * buckets,
        ;
    } else {
        assert(0 <= scaled / span < buckets && (scaled % span != 0 ==> scaled / span + 1
            <= buckets)) by (nonlinear_arith)
            requires
                0 < end < span,
                buckets >= 1,
                scaled == end * buckets,
        ;
        assert(scaled % span == 0 ==> scaled / span <= buckets);
    }
}

/// A column position scaled up by the column count stays within 128 bits.
proof fn lemma_scaled_fits(offset: int, span: int, buckets: int)
    requires
        0 < offset < span <= u64::MAX,
        1 <= buckets <= u64::MAX,
    ensures
        0 < offset * buckets < span * buckets <= u128::MAX,
{
    assert(0 < offset * buckets < span * buckets) by (nonlinear_arith)
        requires
            0 < offset < span,
            buckets >= 1,
    ;
    assert(span * buckets <= u64::MAX * u64::MAX) by (nonlinear_arith)
        requires
            0 < span <= u64::MAX,
            1 <= buckets <= u64::MAX,
    ;
}

/// Column `column` of `buckets` evenly spaced columns across `[from_ms, to_ms)` shares some moment with
/// the time span `[start_ms, end_ms)`. The column runs from `from_ms + column * span / buckets` up to
/// `from_ms + (column + 1) * span / buckets`; both comparisons are multiplied out by `buckets`.
pub open spec fn column_overlaps(
    column: int,
    buckets: int,
    from_ms: int,
    to_ms: int,
    start_ms: int,
    end_ms: int,
) -> bool {
    &&& (start_ms - from_ms) * buckets < (column + 1) * (to_ms - from_ms)
    &&& column * (to_ms - from_ms) < (end_ms - from_ms) * buckets
}

/// A bucket reaches into a column exactly when their spans overlap: the columns it covers are those
/// from the floor of where it starts to the ceiling of where it ends.
proof fn lemma_columns_reached_are_overlaps(
    bucket_start_ms: int,
    from_ms: int,
    to_ms: int,
    buckets: int,
    column: int,
)
    requires
        from_ms < to_ms,
        buckets >= 1,
        0 <= column < buckets,
    ensures
        column_overlaps(column, buckets, from_ms, to_ms, bucket_start_ms, bucket_start_ms + PEAK_BUCKET_MS)
            <==> (bucket_start_ms + PEAK_BUCKET_MS > from_ms && bucket_start_ms < to_ms && first_column(
            bucket_start_ms,
            from_ms,
            to_ms,
            buckets,
        ) <= column && column < end_column(bucket_start_ms, from_ms, to_ms, buckets)),
{
    let span = to_ms - from_ms;
    let low = (bucket_start_ms - from_ms) * buckets;
    let high = (bucket_start_ms + PEAK_BUCKET_MS - from_ms) * buckets;
    let q1 = low / span;
    let r1 = low % span;
    let q2 = high / span;
    let r2 = high % span;
    vstd::arithmetic::div_mod::lemma_fundamental_div_mod(low, span);
    vstd::arithmetic::div_mod::lemma_fundamental_div_mod(high, span);
    vstd::arithmetic::div_mod::lemma_mod_bound(low, span);
    vstd::arithmetic::div_mod::lemma_mod_bound(high, span);
    assert(first_column(bucket_start_ms, from_ms, to_ms, buckets) == q1);
    let end = end_column(bucket_start_ms, from_ms, to_ms, buckets);
    assert(end == if r2 == 0 { q2 } else { q2 + 1 });
    assert((q1 <= column) <==> (low < (column + 1) * span)) by (nonlinear_arith)
        requires
            low == span * q1 + r1,
            0 <= r1 < span,
    ;
    assert((column < end) <==> (column * span < high)) by (nonlinear_arith)
        requires
            high == span * q2 + r2,
            0 <= r2 < span,
            end == if r2 == 0 { q2 } else { q2 + 1 },
    ;
    assert(low < (column + 1) * span ==> bucket_start_ms < to_ms) by (nonlinear_arith)
        requires
            low == (bucket_start_ms - from_ms) * buckets,
            column + 1 <= buckets,
            span == to_ms - from_ms,
            span > 0,
            buckets >= 1,
    ;
    assert(column * span < high ==> bucket_start_ms + PEAK_BUCKET_MS > from_ms) by (nonlinear_arith)
        requires
            high == (bucket_start_ms + PEAK_BUCKET_MS - from_ms) * buckets,
            column >= 0,
            span > 0,
            buckets >= 1,
    ;
}

proof fn lemma_source_peak_at_least(
    start_ms: int,
    values: Seq<u8>,
    count: int,
    from_ms: int,
    to_ms: int,
    buckets: int,
    column: int,
    index: int,
)
    requires
        0 <= index < count,
    ensures
        source_peak(start_ms, values, count, from_ms, to_ms, buckets, column) >= contribution(
            start_ms,
            values,
            index,
            from_ms,
            to_ms,
            buckets,
            column,
        ),
    decreases count,
{
    if index < count - 1 {
        lemma_source_peak_at_least(start_ms, values, count - 1, from_ms, to_ms, buckets, column, index);
    }
}

proof fn lemma_column_peak_at_least(
    sources: Seq<(int, Seq<u8>)>,
    count: int,
    from_ms: int,
    to_ms: int,
    buckets: int,
    column: int,
    source: int,
)
    requires
        0 <= source < count,
    ensures
        column_peak(sources, count, from_ms, to_ms, buckets, column) >= source_peak(
            sources[source].0,
            sources[source].1,
            sources[source].1.len() as int,
            from_ms,
            to_ms,
            buckets,
            column,
        ),
    decreases count,
{
    if source < count - 1 {
        lemma_column_peak_at_least(sources, count - 1, from_ms, to_ms, buckets, column, source);
    }
}

/// No loud moment is hidden: every stored envelope value whose 100 ms bucket shares any moment with a
/// column raises that column to at least its value, including a bucket that straddles the start or the
/// end of the window.
pub proof fn lemma_render_keeps_every_loud_bucket(
    sources: Seq<(int, Seq<u8>)>,
    from_ms: int,
    to_ms: int,
    buckets: int,
    source: int,
    index: int,
    column: int,
)
    requires
        from_ms < to_ms,
        0 <= column < buckets,
        0 <= source < sources.len(),
        0 <= index < sources[source].1.len(),
        column_overlaps(
            column,
            buckets,
            from_ms,
            to_ms,
            sources[source].0 + index * PEAK_BUCKET_MS,
            sources[source].0 + index * PEAK_BUCKET_MS + PEAK_BUCKET_MS,
        ),
    ensures
        render_spec(sources, from_ms, to_ms, buckets)[column] >= sources[source].1[index],
{
    let (start_ms, values) = sources[source];
    lemma_columns_reached_are_overlaps(start_ms + index * PEAK_BUCKET_MS, from_ms, to_ms, buckets, column);
    lemma_source_peak_at_least(start_ms, values, values.len() as int, from_ms, to_ms, buckets, column, index);
    lemma_column_peak_at_least(sources, sources.len() as int, from_ms, to_ms, buckets, column, source);
    lemma_peaks_are_bytes(sources, sources.len() as int, from_ms, to_ms, buckets, column);
}

proof fn lemma_source_peak_comes_from_a_bucket(
    start_ms: int,
    values: Seq<u8>,
    count: int,
    from_ms: int,
    to_ms: int,
    buckets: int,
    column: int,
)
    requires
        count <= values.len(),
    ensures
        source_peak(start_ms, values, count, from_ms, to_ms, buckets, column) == 0 || exists|index: int|
            0 <= index < count && #[trigger] contribution(
                start_ms,
                values,
                index,
                from_ms,
                to_ms,
                buckets,
                column,
            ) == source_peak(start_ms, values, count, from_ms, to_ms, buckets, column),
    decreases count,
{
    if count > 0 {
        lemma_source_peak_comes_from_a_bucket(start_ms, values, count - 1, from_ms, to_ms, buckets, column);
        let last = contribution(start_ms, values, count - 1, from_ms, to_ms, buckets, column);
        let earlier = source_peak(start_ms, values, count - 1, from_ms, to_ms, buckets, column);
        if earlier >= last {
            if earlier != 0 {
                let index = choose|index: int|
                    0 <= index < count - 1 && #[trigger] contribution(
                        start_ms,
                        values,
                        index,
                        from_ms,
                        to_ms,
                        buckets,
                        column,
                    ) == earlier;
                assert(contribution(start_ms, values, index, from_ms, to_ms, buckets, column) == earlier);
            }
        } else {
            assert(contribution(start_ms, values, count - 1, from_ms, to_ms, buckets, column) == last);
        }
    }
}

proof fn lemma_column_peak_comes_from_a_bucket(
    sources: Seq<(int, Seq<u8>)>,
    count: int,
    from_ms: int,
    to_ms: int,
    buckets: int,
    column: int,
)
    requires
        count <= sources.len(),
    ensures
        column_peak(sources, count, from_ms, to_ms, buckets, column) == 0 || exists|source: int, index: int|
            0 <= source < count && 0 <= index < sources[source].1.len() && #[trigger] contribution(
                sources[source].0,
                sources[source].1,
                index,
                from_ms,
                to_ms,
                buckets,
                column,
            ) == column_peak(sources, count, from_ms, to_ms, buckets, column),
    decreases count,
{
    if count > 0 {
        lemma_column_peak_comes_from_a_bucket(sources, count - 1, from_ms, to_ms, buckets, column);
        let (start_ms, values) = sources[count - 1];
        lemma_source_peak_comes_from_a_bucket(
            start_ms,
            values,
            values.len() as int,
            from_ms,
            to_ms,
            buckets,
            column,
        );
        let earlier = column_peak(sources, count - 1, from_ms, to_ms, buckets, column);
        let last = source_peak(start_ms, values, values.len() as int, from_ms, to_ms, buckets, column);
        if earlier >= last {
            if earlier != 0 {
                let (source, index) = choose|source: int, index: int|
                    0 <= source < count - 1 && 0 <= index < sources[source].1.len()
                        && #[trigger] contribution(
                        sources[source].0,
                        sources[source].1,
                        index,
                        from_ms,
                        to_ms,
                        buckets,
                        column,
                    ) == earlier;
                assert(contribution(sources[source].0, sources[source].1, index, from_ms, to_ms, buckets, column)
                    == earlier);
            }
        } else if last != 0 {
            let index = choose|index: int|
                0 <= index < values.len() && #[trigger] contribution(
                    start_ms,
                    values,
                    index,
                    from_ms,
                    to_ms,
                    buckets,
                    column,
                ) == last;
            assert(contribution(sources[count - 1].0, sources[count - 1].1, index, from_ms, to_ms, buckets, column)
                == last);
        }
    }
}

/// Nothing is drawn that is not there: a column is either silent or shows the value of a stored
/// envelope bucket whose 100 ms span shares a moment with it.
pub proof fn lemma_render_draws_only_stored_values(
    sources: Seq<(int, Seq<u8>)>,
    from_ms: int,
    to_ms: int,
    buckets: int,
    column: int,
)
    requires
        from_ms < to_ms,
        0 <= column < buckets,
    ensures
        render_spec(sources, from_ms, to_ms, buckets)[column] == 0 || exists|source: int, index: int|
            0 <= source < sources.len() && 0 <= index < sources[source].1.len() && column_overlaps(
                column,
                buckets,
                from_ms,
                to_ms,
                sources[source].0 + index * PEAK_BUCKET_MS,
                sources[source].0 + index * PEAK_BUCKET_MS + PEAK_BUCKET_MS,
            ) && #[trigger] sources[source].1[index] == render_spec(sources, from_ms, to_ms, buckets)[column],
{
    lemma_peaks_are_bytes(sources, sources.len() as int, from_ms, to_ms, buckets, column);
    lemma_column_peak_comes_from_a_bucket(sources, sources.len() as int, from_ms, to_ms, buckets, column);
    let peak = column_peak(sources, sources.len() as int, from_ms, to_ms, buckets, column);
    if peak != 0 {
        let (source, index) = choose|source: int, index: int|
            0 <= source < sources.len() && 0 <= index < sources[source].1.len()
                && #[trigger] contribution(
                sources[source].0,
                sources[source].1,
                index,
                from_ms,
                to_ms,
                buckets,
                column,
            ) == peak;
        lemma_columns_reached_are_overlaps(
            sources[source].0 + index * PEAK_BUCKET_MS,
            from_ms,
            to_ms,
            buckets,
            column,
        );
        assert(sources[source].1[index] == render_spec(sources, from_ms, to_ms, buckets)[column]);
    }
}

/// Resample a set of stored envelopes onto `buckets` evenly spaced columns covering `[from_ms, to_ms)`.
///
/// Overlapping input buckets are combined with a maximum rather than a mean. When an hour is squeezed
/// into a thousand columns each column covers 3.6 seconds, and averaging would flatten a short loud
/// event into nothing. Taking the maximum keeps transients visible, which is what makes the timeline
/// usable for finding the moment something happened.
pub fn render(sources: &[PeakSource<'_>], from_ms: i64, to_ms: i64, buckets: usize) -> (output: Vec<u8>)
    ensures
        output@ == render_spec(
            sources@.map_values(|source: PeakSource| source_view(source)),
            from_ms as int,
            to_ms as int,
            buckets as int,
        ),
{
    let ghost views = sources@.map_values(|source: PeakSource| source_view(source));
    if buckets == 0 || to_ms <= from_ms {
        return Vec::new();
    }
    let mut output: Vec<u8> = vec![0u8; buckets];
    let ghost b = buckets as int;
    let ghost f = from_ms as int;
    let ghost t = to_ms as int;

    let mut s: usize = 0;
    while s < sources.len()
        invariant
            views == sources@.map_values(|source: PeakSource| source_view(source)),
            0 <= s <= sources@.len(),
            output@.len() == buckets,
            buckets >= 1,
            b == buckets,
            t > f,
            f == from_ms,
            t == to_ms,
            forall|c: int| 0 <= c < b ==> #[trigger] output@[c] == column_peak(views, s as int, f, t, b, c),
        decreases sources@.len() - s,
    {
        let source = &sources[s];
        let values = source.values;
        let start_ms = source.start_ms;
        let ghost sv = values@;
        assert(views[s as int] == (start_ms as int, sv));
        let mut index: usize = 0;
        while index < values.len()
            invariant
                views == sources@.map_values(|source: PeakSource| source_view(source)),
                    0 <= s < sources@.len(),
                views[s as int] == (start_ms as int, sv),
                sv == values@,
                0 <= index <= values@.len(),
                output@.len() == buckets,
                buckets >= 1,
                                b == buckets,
                t > f,
                f == from_ms,
                t == to_ms,
                forall|c: int|
                    0 <= c < b ==> #[trigger] output@[c] == max_int(
                        column_peak(views, s as int, f, t, b, c),
                        source_peak(start_ms as int, sv, index as int, f, t, b, c),
                    ),
            decreases values@.len() - index,
        {
            let value = values[index];
            let ghost before = output@;
            let bucket_start: i128 = start_ms as i128 + index as i128 * 100;
            let bucket_end: i128 = bucket_start + 100;
            let ghost bs = bucket_start as int;
            assert(bs == start_ms + index * PEAK_BUCKET_MS);
            if value != 0 && bucket_end > from_ms as i128 && bucket_start < to_ms as i128 {
                // A source bucket can be wider than an output column when zoomed in, so fill the whole
                // span it covers instead of only the column its start lands in: from the floor of
                // where it starts to the ceiling of where it ends, both in columns.
                let ghost first = first_column(bs, f, t, b);
                let ghost last = end_column(bs, f, t, b);
                let span_u: u128 = (to_ms as i128 - from_ms as i128) as u128;
                let width_u: u128 = buckets as u128;
                proof {
                    lemma_column_bounds(bs, f, t, b);
                }
                let first_index: usize = if bucket_start <= from_ms as i128 {
                    0
                } else {
                    let offset: u128 = (bucket_start - from_ms as i128) as u128;
                    proof {
                        lemma_scaled_fits(offset as int, span_u as int, b);
                    }
                    let column: u128 = offset * width_u / span_u;
                    column as usize
                };
                let last_index: usize = if bucket_end >= to_ms as i128 {
                    buckets
                } else {
                    let offset: u128 = (bucket_end - from_ms as i128) as u128;
                    proof {
                        lemma_scaled_fits(offset as int, span_u as int, b);
                    }
                    let scaled: u128 = offset * width_u;
                    let column: u128 = if scaled % span_u == 0 {
                        scaled / span_u
                    } else {
                        scaled / span_u + 1
                    };
                    column as usize
                };
                assert(first_index == (if first < 0 { 0 } else { first }));
                assert(last_index == (if last > b { b } else { last }));
                let mut slot = first_index;
                while slot < last_index
                    invariant
                        first_index <= slot <= last_index <= buckets,
                        output@.len() == buckets,
                        before.len() == buckets,
                        b == buckets,
                        forall|c: int|
                            0 <= c < b ==> #[trigger] output@[c] == if first_index <= c < slot {
                                if value > before[c] {
                                    value
                                } else {
                                    before[c]
                                }
                            } else {
                                before[c]
                            },
                    decreases last_index - slot,
                {
                    let ghost current = output@;
                    assert(current[slot as int] == before[slot as int]);
                    if value > output[slot] {
                        output.set(slot, value);
                    }
                    slot = slot + 1;
                }
                proof {
                    assert forall|c: int| 0 <= c < b implies #[trigger] output@[c] == max_int(
                        column_peak(views, s as int, f, t, b, c),
                        source_peak(start_ms as int, sv, index + 1, f, t, b, c),
                    ) by {
                        assert(contribution(start_ms as int, sv, index as int, f, t, b, c) == if first
                            <= c < last {
                            value as int
                        } else {
                            0
                        });
                        assert((first_index <= c < last_index) == (first <= c < last));
                    }
                }
            } else {
                proof {
                    assert forall|c: int| 0 <= c < b implies #[trigger] output@[c] == max_int(
                        column_peak(views, s as int, f, t, b, c),
                        source_peak(start_ms as int, sv, index + 1, f, t, b, c),
                    ) by {
                        assert(contribution(start_ms as int, sv, index as int, f, t, b, c) == 0);
                    }
                }
            }
            index = index + 1;
        }
        proof {
            assert forall|c: int| 0 <= c < b implies #[trigger] output@[c] == column_peak(
                views,
                s + 1,
                f,
                t,
                b,
                c,
            ) by {
                assert(views[s as int] == (start_ms as int, sv));
            }
        }
        s = s + 1;
    }
    proof {
        assert forall|c: int| 0 <= c < b implies #[trigger] output@[c] == render_spec(views, f, t, b)[c] by {
            lemma_peaks_are_bytes(views, views.len() as int, f, t, b, c);
        }
    }
    assert(output@ =~= render_spec(views, f, t, b));
    output
}

} // verus!
