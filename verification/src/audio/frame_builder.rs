//! Turns the irregular buffers a device hands us into fixed duration frames with sane timestamps.
//!
//! A capture callback delivers whatever the driver felt like delivering: 256 samples, then 512, then 240.
//! Everything downstream wants a steady heartbeat, so this accumulator buffers samples and emits a frame
//! whenever it has a full one.
//!
//! Timestamps are derived from the accumulated sample count rather than read from the clock once per
//! frame. Reading the clock per frame would inherit the jitter of the callback scheduling, while counting
//! samples alone would slowly drift away from the wall clock because the audio crystal and the system
//! clock never agree exactly. The compromise is to count samples and re anchor to the wall clock only
//! when the two disagree by more than [`MAX_DRIFT_MS`].

use crate::models::audio_frame::AudioFrame;
use vstd::prelude::*;

verus! {

/// How far the sample derived clock may run from the wall clock before it is re anchored.
///
/// Half a second is large enough that normal scheduling jitter never triggers it and small enough that
/// a re anchor stays inside one timeline pixel at any sensible zoom level.
pub const MAX_DRIFT_MS: i64 = 500;

/// Largest wall clock magnitude, in milliseconds, the builder's clock arithmetic is proved for: about a
/// million years either side of the epoch.
pub const CLOCK_LIMIT_MS: i64 = 0x1000_0000_0000_0000;

/// Largest number of samples counted since one anchor that the clock arithmetic is proved for.
pub const SAMPLE_LIMIT: u64 = 0x4_0000_0000_0000;

pub struct FrameBuilder {
    sample_rate: u32,
    channels: u16,
    frame_samples: usize,
    buffer: Vec<i16>,
    /// Wall clock time of the sample at index zero since the last anchor.
    anchor_ms: i64,
    samples_since_anchor: u64,
    anchored: bool,
    drift_resets: u64,
}

/// The state of a frame builder, as the contracts speak of it.
pub struct BuilderView {
    pub sample_rate: u32,
    pub channels: u16,
    pub frame_samples: int,
    pub buffer: Seq<i16>,
    pub anchor_ms: int,
    pub samples_since_anchor: int,
    pub anchored: bool,
    pub drift_resets: int,
}

/// A frame as the model emits it: where it starts and what it holds. Rate and channels are the
/// builder's, and every emitted frame is live.
pub struct FrameSpec {
    pub timestamp_ms: int,
    pub samples: Seq<i16>,
}

impl View for FrameBuilder {
    type V = BuilderView;

    closed spec fn view(&self) -> BuilderView {
        BuilderView {
            sample_rate: self.sample_rate,
            channels: self.channels,
            frame_samples: self.frame_samples as int,
            buffer: self.buffer@,
            anchor_ms: self.anchor_ms as int,
            samples_since_anchor: self.samples_since_anchor as int,
            anchored: self.anchored,
            drift_resets: self.drift_resets as int,
        }
    }
}

/// Samples per channel in a frame of `frame_ms` at `sample_rate`, never zero.
pub open spec fn frame_samples_spec(sample_rate: u32, frame_ms: u32) -> int {
    let samples = sample_rate * frame_ms / 1000;
    if samples < 1 {
        1
    } else {
        samples
    }
}

/// Milliseconds `samples` samples play for at `sample_rate`, rounded down; zero for a zero rate.
pub open spec fn samples_to_ms(sample_rate: u32, samples: int) -> int {
    if sample_rate == 0 {
        0
    } else {
        samples * 1000 / sample_rate as int
    }
}

pub open spec fn abs_int(x: int) -> int {
    if x < 0 {
        -x
    } else {
        x
    }
}

/// Close the buffered frame: it starts where the sample count since the anchor says, and afterwards the
/// clock is re anchored to `now_ms` if the sample derived time has drifted more than [`MAX_DRIFT_MS`].
pub open spec fn close_frame(v: BuilderView, now_ms: int) -> (BuilderView, FrameSpec) {
    let frame = FrameSpec {
        timestamp_ms: v.anchor_ms + samples_to_ms(v.sample_rate, v.samples_since_anchor),
        samples: v.buffer,
    };
    let counted = v.samples_since_anchor + v.buffer.len();
    let derived_now_ms = v.anchor_ms + samples_to_ms(v.sample_rate, counted);
    let next = if abs_int(derived_now_ms - now_ms) > MAX_DRIFT_MS {
        BuilderView {
            buffer: Seq::empty(),
            anchor_ms: now_ms,
            samples_since_anchor: 0,
            drift_resets: v.drift_resets + 1,
            ..v
        }
    } else {
        BuilderView { buffer: Seq::empty(), samples_since_anchor: counted, ..v }
    };
    (next, frame)
}

/// Buffer one sample, closing a frame when the buffer is full.
pub open spec fn take_sample(v: BuilderView, sample: i16, now_ms: int) -> (BuilderView, Seq<FrameSpec>) {
    let filled = BuilderView { buffer: v.buffer.push(sample), ..v };
    if filled.buffer.len() >= v.frame_samples {
        let (next, frame) = close_frame(filled, now_ms);
        (next, seq![frame])
    } else {
        (filled, Seq::empty())
    }
}

/// Buffer every sample in order, collecting the frames closed on the way.
pub open spec fn take_samples(v: BuilderView, samples: Seq<i16>, now_ms: int) -> (
    BuilderView,
    Seq<FrameSpec>,
)
    decreases samples.len(),
{
    if samples.len() == 0 {
        (v, Seq::empty())
    } else {
        let (before, frames) = take_samples(v, samples.drop_last(), now_ms);
        let (after, more) = take_sample(before, samples.last(), now_ms);
        (after, frames + more)
    }
}

/// The first buffer ever pushed anchors the clock, back dated by the buffer's own duration because it
/// was recorded before it was delivered.
pub open spec fn anchor_for(v: BuilderView, delivered: int, now_ms: int) -> BuilderView {
    if v.anchored {
        v
    } else {
        BuilderView {
            anchor_ms: now_ms - samples_to_ms(v.sample_rate, delivered),
            samples_since_anchor: 0,
            anchored: true,
            ..v
        }
    }
}

/// What [`FrameBuilder::push`] does to the builder and which frames it emits.
pub open spec fn push_spec(v: BuilderView, samples: Seq<i16>, now_ms: int) -> (
    BuilderView,
    Seq<FrameSpec>,
) {
    if v.frame_samples == 0 {
        (v, Seq::empty())
    } else {
        take_samples(anchor_for(v, samples.len() as int, now_ms), samples, now_ms)
    }
}

/// What [`FrameBuilder::flush`] does: close whatever is buffered, even a short frame.
pub open spec fn flush_spec(v: BuilderView, now_ms: int) -> (BuilderView, Seq<FrameSpec>) {
    if v.buffer.len() == 0 {
        (v, Seq::empty())
    } else {
        let (next, frame) = close_frame(v, now_ms);
        (next, seq![frame])
    }
}

/// An emitted frame is the model's frame, carrying the builder's format and marked live.
pub open spec fn frame_is(frame: AudioFrame, expected: FrameSpec, v: BuilderView) -> bool {
    &&& frame.timestamp_ms == expected.timestamp_ms
    &&& frame.samples@ == expected.samples
    &&& frame.sample_rate == v.sample_rate
    &&& frame.channels == v.channels
    &&& frame.live
}

pub open spec fn frames_are(frames: Seq<AudioFrame>, expected: Seq<FrameSpec>, v: BuilderView) -> bool {
    &&& frames.len() == expected.len()
    &&& forall|i: int| 0 <= i < frames.len() ==> frame_is(#[trigger] frames[i], expected[i], v)
}

impl BuilderView {
    /// The buffer never holds a whole frame between calls, the anchor is a sane wall clock time, and
    /// the sample count since the anchor stays where its millisecond value fits.
    pub open spec fn wf(self) -> bool {
        &&& self.frame_samples >= 1
        &&& self.buffer.len() < self.frame_samples
        &&& -CLOCK_LIMIT_MS * 2 <= self.anchor_ms <= CLOCK_LIMIT_MS * 2
        &&& 0 <= self.samples_since_anchor
        &&& self.samples_since_anchor + self.buffer.len() <= SAMPLE_LIMIT
        &&& 0 <= self.drift_resets <= u64::MAX
    }

    /// A push of `delivered` samples at `now_ms` keeps all clock arithmetic inside `i64`.
    pub open spec fn push_fits(self, delivered: int, now_ms: int) -> bool {
        &&& -CLOCK_LIMIT_MS <= now_ms <= CLOCK_LIMIT_MS
        &&& self.samples_since_anchor + self.buffer.len() + delivered <= SAMPLE_LIMIT
        &&& self.drift_resets + delivered <= u64::MAX
    }
}

/// All samples carried by a run of frames, in order.
pub open spec fn frame_samples_of(frames: Seq<FrameSpec>) -> Seq<i16>
    decreases frames.len(),
{
    if frames.len() == 0 {
        Seq::empty()
    } else {
        frame_samples_of(frames.drop_last()) + frames.last().samples
    }
}

proof fn lemma_take_samples_conserves(v: BuilderView, samples: Seq<i16>, now_ms: int)
    requires
        v.frame_samples >= 1,
        v.buffer.len() < v.frame_samples,
    ensures
        ({
            let (w, frames) = take_samples(v, samples, now_ms);
            &&& frame_samples_of(frames) + w.buffer == v.buffer + samples
            &&& w.buffer.len() < v.frame_samples
            &&& w.frame_samples == v.frame_samples
            &&& forall|k: int| 0 <= k < frames.len() ==> #[trigger] frames[k].samples.len()
                == v.frame_samples
        }),
    decreases samples.len(),
{
    if samples.len() > 0 {
        lemma_take_samples_conserves(v, samples.drop_last(), now_ms);
        let (before, frames) = take_samples(v, samples.drop_last(), now_ms);
        let (after, more) = take_sample(before, samples.last(), now_ms);
        let all = frames + more;
        let x = samples.last();
        assert(samples.drop_last().push(x) =~= samples);
        assert(v.buffer + samples =~= (v.buffer + samples.drop_last()) + seq![x]);
        assert(before.buffer.push(x) =~= before.buffer + seq![x]);
        assert(frame_samples_of(frames) + (before.buffer + seq![x]) =~= (frame_samples_of(frames)
            + before.buffer) + seq![x]);
        if more.len() == 1 {
            assert(all.drop_last() =~= frames);
            assert(all.last() == more[0]);
            assert(frame_samples_of(all) == frame_samples_of(frames) + before.buffer.push(
                samples.last(),
            ));
            assert(after.buffer =~= Seq::<i16>::empty());
            assert(frame_samples_of(all) + after.buffer =~= v.buffer + samples);
        } else {
            assert(all =~= frames);
            assert(frame_samples_of(all) + after.buffer =~= v.buffer + samples);
        }
        assert forall|k: int| 0 <= k < all.len() implies #[trigger] all[k].samples.len()
            == v.frame_samples by {
            if k < frames.len() {
                assert(all[k] == frames[k]);
            }
        }
    }
}

/// Pushing loses and duplicates nothing: the frames a push emits, followed by what stays buffered,
/// are exactly what was buffered before followed by the pushed samples. Every frame a push emits is a
/// complete frame, and what stays buffered is less than a frame.
pub proof fn lemma_push_conserves_samples(v: BuilderView, samples: Seq<i16>, now_ms: int)
    requires
        v.wf(),
    ensures
        ({
            let (w, frames) = push_spec(v, samples, now_ms);
            &&& frame_samples_of(frames) + w.buffer == v.buffer + samples
            &&& w.buffer.len() < w.frame_samples
            &&& forall|k: int| 0 <= k < frames.len() ==> #[trigger] frames[k].samples.len()
                == v.frame_samples
        }),
{
    lemma_take_samples_conserves(anchor_for(v, samples.len() as int, now_ms), samples, now_ms);
}

/// A run of pushes, each of its samples at its wall clock time, made on `v` one after the other: the
/// builder after the last, and every frame they emitted, in order.
pub open spec fn push_run(v: BuilderView, pushes: Seq<(Seq<i16>, int)>) -> (BuilderView, Seq<FrameSpec>)
    decreases pushes.len(),
{
    if pushes.len() == 0 {
        (v, Seq::empty())
    } else {
        let (mid, frames) = push_run(v, pushes.drop_last());
        let (w, more) = push_spec(mid, pushes.last().0, pushes.last().1);
        (w, frames + more)
    }
}

/// Every sample a run of pushes delivered, in order.
pub open spec fn pushed_samples(pushes: Seq<(Seq<i16>, int)>) -> Seq<i16>
    decreases pushes.len(),
{
    if pushes.len() == 0 {
        Seq::empty()
    } else {
        pushed_samples(pushes.drop_last()) + pushes.last().0
    }
}

proof fn lemma_frame_samples_of_concat(a: Seq<FrameSpec>, b: Seq<FrameSpec>)
    ensures
        frame_samples_of(a + b) == frame_samples_of(a) + frame_samples_of(b),
    decreases b.len(),
{
    if b.len() == 0 {
        assert(a + b =~= a);
        assert(frame_samples_of(a) + frame_samples_of(b) =~= frame_samples_of(a));
    } else {
        lemma_frame_samples_of_concat(a, b.drop_last());
        assert((a + b).drop_last() =~= a + b.drop_last());
        assert((a + b).last() == b.last());
        assert(frame_samples_of(a + b) =~= frame_samples_of(a) + frame_samples_of(b));
    }
}

proof fn lemma_whole_frames_length(frames: Seq<FrameSpec>, n: int)
    requires
        forall|k: int| 0 <= k < frames.len() ==> #[trigger] frames[k].samples.len() == n,
    ensures
        frame_samples_of(frames).len() == frames.len() * n,
    decreases frames.len(),
{
    if frames.len() > 0 {
        let rest = frames.drop_last();
        assert forall|k: int| 0 <= k < rest.len() implies #[trigger] rest[k].samples.len() == n by {
            assert(rest[k] == frames[k]);
        }
        lemma_whole_frames_length(rest, n);
        assert(frames.last().samples.len() == n);
        assert(rest.len() * n + n == frames.len() * n) by (nonlinear_arith)
            requires
                rest.len() + 1 == frames.len(),
        ;
    }
}

proof fn lemma_push_run_conserves(v: BuilderView, pushes: Seq<(Seq<i16>, int)>)
    requires
        v.frame_samples >= 1,
        v.buffer.len() < v.frame_samples,
    ensures
        ({
            let (w, frames) = push_run(v, pushes);
            &&& frame_samples_of(frames) + w.buffer == v.buffer + pushed_samples(pushes)
            &&& w.buffer.len() < v.frame_samples
            &&& w.frame_samples == v.frame_samples
            &&& forall|k: int| 0 <= k < frames.len() ==> #[trigger] frames[k].samples.len()
                == v.frame_samples
        }),
    decreases pushes.len(),
{
    if pushes.len() > 0 {
        let rest = pushes.drop_last();
        lemma_push_run_conserves(v, rest);
        let (mid, frames) = push_run(v, rest);
        let (samples, now_ms) = pushes.last();
        let anchored = anchor_for(mid, samples.len() as int, now_ms);
        lemma_take_samples_conserves(anchored, samples, now_ms);
        let (w, more) = push_spec(mid, samples, now_ms);
        assert(mid.frame_samples == v.frame_samples);
        assert(anchored.buffer == mid.buffer);
        assert((w, more) == take_samples(anchored, samples, now_ms));
        assert(frame_samples_of(more) + w.buffer == mid.buffer + samples);
        lemma_frame_samples_of_concat(frames, more);
        let fa = frame_samples_of(frames);
        let fb = frame_samples_of(more);
        assert((fa + fb) + w.buffer =~= fa + (fb + w.buffer));
        assert(fa + (mid.buffer + samples) =~= (fa + mid.buffer) + samples);
        assert(frame_samples_of(frames + more) + w.buffer =~= (frame_samples_of(frames)
            + mid.buffer) + samples);
        assert(v.buffer + pushed_samples(pushes) =~= (v.buffer + pushed_samples(rest)) + samples);
        assert forall|k: int| 0 <= k < (frames + more).len() implies #[trigger] (frames
            + more)[k].samples.len() == v.frame_samples by {
            if k < frames.len() {
                assert((frames + more)[k] == frames[k]);
            } else {
                assert((frames + more)[k] == more[k - frames.len()]);
            }
        }
    }
}

/// A run of pushes emits whole frames only, in order, losing and duplicating nothing: from a builder
/// holding `b` buffered samples, pushes delivering `N` samples in all emit `(b + N) / n` frames of `n`
/// samples each, which together hold the first `(b + N) / n * n` of the buffered and pushed samples in
/// order, and the last `(b + N) % n` stay buffered for the next push or flush.
pub proof fn lemma_pushes_emit_whole_frames_in_order(v: BuilderView, pushes: Seq<(Seq<i16>, int)>)
    requires
        v.frame_samples >= 1,
        v.buffer.len() < v.frame_samples,
    ensures
        ({
            let (w, frames) = push_run(v, pushes);
            let all = v.buffer + pushed_samples(pushes);
            let total = all.len() as int;
            let n = v.frame_samples;
            &&& frames.len() == total / n
            &&& forall|k: int| 0 <= k < frames.len() ==> #[trigger] frames[k].samples.len() == n
            &&& frame_samples_of(frames) == all.take(total / n * n)
            &&& w.buffer == all.skip(total / n * n)
            &&& w.buffer.len() == total % n
        }),
{
    lemma_push_run_conserves(v, pushes);
    let (w, frames) = push_run(v, pushes);
    let all = v.buffer + pushed_samples(pushes);
    let total = all.len() as int;
    let n = v.frame_samples;
    lemma_whole_frames_length(frames, n);
    let emitted = frame_samples_of(frames);
    assert(all.len() == frames.len() * n + w.buffer.len());
    vstd::arithmetic::div_mod::lemma_fundamental_div_mod_converse(
        all.len() as int,
        n,
        frames.len() as int,
        w.buffer.len() as int,
    );
    assert(emitted =~= all.take(total / n * n));
    assert(w.buffer =~= all.skip(total / n * n));
}

/// Flushing hands out exactly what was buffered and leaves the buffer empty.
pub proof fn lemma_flush_empties_the_buffer(v: BuilderView, now_ms: int)
    ensures
        ({
            let (w, frames) = flush_spec(v, now_ms);
            &&& frame_samples_of(frames) == v.buffer
            &&& w.buffer.len() == 0
        }),
{
    let (w, frames) = flush_spec(v, now_ms);
    if v.buffer.len() > 0 {
        assert(frames.drop_last() =~= Seq::<FrameSpec>::empty());
        assert(frame_samples_of(frames.drop_last()) =~= Seq::<i16>::empty());
        assert(frame_samples_of(frames) =~= v.buffer);
    } else {
        assert(frame_samples_of(frames) =~= v.buffer);
    }
}

/// The first push back dates the clock by its own duration: a builder that has never been fed
/// anchors at `now_ms` minus the play time of the pushed samples, counting from zero.
pub proof fn lemma_first_push_is_back_dated(v: BuilderView, samples: Seq<i16>, now_ms: int)
    requires
        v.wf(),
        !v.anchored,
    ensures
        anchor_for(v, samples.len() as int, now_ms).anchor_ms == now_ms - samples_to_ms(
            v.sample_rate,
            samples.len() as int,
        ),
        anchor_for(v, samples.len() as int, now_ms).samples_since_anchor == 0,
{
}

/// Closing a frame leaves the sample derived clock within [`MAX_DRIFT_MS`] of the wall clock: it is
/// re anchored to the wall clock exactly when the two had drifted further apart, and each re anchor is
/// counted once. A frame's own timestamp is never moved by the re anchor it triggers.
pub proof fn lemma_closing_keeps_the_clock_near_the_wall_clock(v: BuilderView, now_ms: int)
    ensures
        ({
            let (w, frame) = close_frame(v, now_ms);
            let counted = v.samples_since_anchor + v.buffer.len();
            let drifted = abs_int(v.anchor_ms + samples_to_ms(v.sample_rate, counted) - now_ms)
                > MAX_DRIFT_MS;
            &&& abs_int(w.anchor_ms + samples_to_ms(w.sample_rate, w.samples_since_anchor) - now_ms)
                <= MAX_DRIFT_MS
            &&& w.drift_resets == v.drift_resets + if drifted {
                1int
            } else {
                0int
            }
            &&& drifted ==> w.anchor_ms == now_ms && w.samples_since_anchor == 0
            &&& frame.timestamp_ms == v.anchor_ms + samples_to_ms(
                v.sample_rate,
                v.samples_since_anchor,
            )
        }),
{
}

impl FrameBuilder {
    pub fn new(sample_rate: u32, channels: u16, frame_ms: u32) -> (builder: Self)
        requires
            frame_samples_spec(sample_rate, frame_ms) <= usize::MAX,
        ensures
            builder@.wf(),
            builder@.sample_rate == sample_rate,
            builder@.channels == channels,
            builder@.frame_samples == frame_samples_spec(sample_rate, frame_ms),
            builder@.buffer.len() == 0,
            !builder@.anchored,
            builder@.samples_since_anchor == 0,
            builder@.drift_resets == 0,
    {
        let frame_samples = frame_samples_for(sample_rate, frame_ms);
        Self {
            sample_rate,
            channels,
            frame_samples,
            buffer: Vec::with_capacity(frame_samples),
            anchor_ms: 0,
            samples_since_anchor: 0,
            anchored: false,
            drift_resets: 0,
        }
    }

    pub fn frame_samples(&self) -> (samples: usize)
        ensures
            samples == self@.frame_samples,
    {
        self.frame_samples
    }

    pub fn drift_resets(&self) -> (resets: u64)
        ensures
            resets == self@.drift_resets,
    {
        self.drift_resets
    }

    fn samples_to_ms(&self, samples: u64) -> (ms: i64)
        requires
            samples <= SAMPLE_LIMIT,
        ensures
            ms == samples_to_ms(self.sample_rate, samples as int),
            0 <= ms <= samples * 1000,
    {
        if self.sample_rate == 0 {
            return 0;
        }
        let scaled = samples * 1000;
        let ms = scaled / self.sample_rate as u64;
        proof {
            assert(ms <= scaled) by (nonlinear_arith)
                requires
                    ms == (scaled as int) / (self.sample_rate as int),
                    self.sample_rate >= 1,
                    scaled >= 0,
            ;
        }
        ms as i64
    }

    /// Re anchor when the sample derived clock and the wall clock have separated too far.
    fn correct_drift(&mut self, now_ms: i64)
        requires
            -CLOCK_LIMIT_MS <= now_ms <= CLOCK_LIMIT_MS,
            -CLOCK_LIMIT_MS * 2 <= old(self).anchor_ms <= CLOCK_LIMIT_MS * 2,
            old(self).samples_since_anchor <= SAMPLE_LIMIT,
            old(self).drift_resets < u64::MAX,
        ensures
            ({
                let v = old(self)@;
                let derived_now_ms = v.anchor_ms + samples_to_ms(v.sample_rate, v.samples_since_anchor);
                if abs_int(derived_now_ms - now_ms) > MAX_DRIFT_MS {
                    final(self)@ == BuilderView {
                        anchor_ms: now_ms as int,
                        samples_since_anchor: 0,
                        drift_resets: v.drift_resets + 1,
                        ..v
                    }
                } else {
                    final(self)@ == v
                }
            }),
    {
        let derived_now_ms = self.anchor_ms + self.samples_to_ms(self.samples_since_anchor);
        let drift = derived_now_ms - now_ms;
        let distance = if drift < 0 { -drift } else { drift };
        if distance > MAX_DRIFT_MS {
            self.anchor_ms = now_ms;
            self.samples_since_anchor = 0;
            self.drift_resets = self.drift_resets + 1;
        }
    }

    fn flush_frame(&mut self, now_ms: i64) -> (frame: AudioFrame)
        requires
            -CLOCK_LIMIT_MS <= now_ms <= CLOCK_LIMIT_MS,
            -CLOCK_LIMIT_MS * 2 <= old(self).anchor_ms <= CLOCK_LIMIT_MS * 2,
            old(self).samples_since_anchor + old(self).buffer@.len() <= SAMPLE_LIMIT,
            old(self).drift_resets < u64::MAX,
        ensures
            final(self)@ == close_frame(old(self)@, now_ms as int).0,
            frame_is(frame, close_frame(old(self)@, now_ms as int).1, old(self)@),
    {
        let mut samples: Vec<i16> = Vec::with_capacity(self.frame_samples);
        std::mem::swap(&mut samples, &mut self.buffer);
        let emitted = samples.len() as u64;
        let timestamp_ms = self.anchor_ms + self.samples_to_ms(self.samples_since_anchor);
        let frame = AudioFrame::from_samples(timestamp_ms, self.sample_rate, self.channels, samples, true);
        self.samples_since_anchor = self.samples_since_anchor + emitted;
        self.correct_drift(now_ms);
        proof {
            let v = old(self)@;
            let (next, expected) = close_frame(v, now_ms as int);
            assert(self.buffer@ =~= Seq::<i16>::empty());
            assert(self@ == next);
        }
        frame
    }

    /// Feed mono samples, returning every complete frame in order.
    ///
    /// `now_ms` is the wall clock at the moment the driver delivered this buffer.
    pub fn push(&mut self, samples: &[i16], now_ms: i64) -> (frames: Vec<AudioFrame>)
        requires
            old(self)@.wf(),
            old(self)@.push_fits(samples@.len() as int, now_ms as int),
        ensures
            final(self)@.wf(),
            final(self)@ == push_spec(old(self)@, samples@, now_ms as int).0,
            frames_are(frames@, push_spec(old(self)@, samples@, now_ms as int).1, old(self)@),
    {
        let mut frames: Vec<AudioFrame> = Vec::new();
        if self.frame_samples == 0 {
            return frames;
        }
        if !self.anchored {
            // The buffer we were just handed was recorded before now, so back date the anchor by its own
            // duration. Without this every session starts a fraction of a second in the future.
            self.anchor_ms = now_ms - self.samples_to_ms(samples.len() as u64);
            self.samples_since_anchor = 0;
            self.anchored = true;
        }
        let ghost start = self@;
        let ghost v0 = old(self)@;
        assert(start == anchor_for(v0, samples@.len() as int, now_ms as int));
        let n = samples.len();
        let mut i: usize = 0;
        while i < n
            invariant
                n == samples@.len(),
                i <= n,
                self@.wf(),
                -CLOCK_LIMIT_MS <= now_ms <= CLOCK_LIMIT_MS,
                self@.samples_since_anchor + self@.buffer.len() + (n - i) <= SAMPLE_LIMIT,
                self@.drift_resets + (n - i) <= u64::MAX,
                self@.sample_rate == v0.sample_rate,
                self@.channels == v0.channels,
                self@.frame_samples == v0.frame_samples,
                self@ == take_samples(start, samples@.take(i as int), now_ms as int).0,
                frames_are(frames@, take_samples(start, samples@.take(i as int), now_ms as int).1, v0),
            decreases n - i,
        {
            let ghost before = self@;
            let ghost emitted = take_samples(start, samples@.take(i as int), now_ms as int).1;
            let sample = samples[i];
            self.buffer.push(sample);
            if self.buffer.len() >= self.frame_samples {
                let frame = self.flush_frame(now_ms);
                frames.push(frame);
            }
            proof {
                assert(samples@.take(i + 1).drop_last() =~= samples@.take(i as int));
                assert(samples@.take(i + 1).last() == sample);
                let (after, more) = take_sample(before, sample, now_ms as int);
                assert(self@ == after);
                assert(frames@ =~= frames@.take(emitted.len() as int) + (frames@.skip(emitted.len() as int)));
                assert forall|k: int| 0 <= k < frames@.len() implies frame_is(
                    #[trigger] frames@[k],
                    (emitted + more)[k],
                    v0,
                ) by {
                    if k < emitted.len() {
                    } else {
                    }
                }
            }
            i = i + 1;
        }
        assert(samples@.take(n as int) =~= samples@);
        frames
    }

    /// Emit whatever is buffered, even if it is a short frame. Used when capture stops so the tail of the
    /// recording is not lost.
    pub fn flush(&mut self, now_ms: i64) -> (frames: Vec<AudioFrame>)
        requires
            old(self)@.wf(),
            -CLOCK_LIMIT_MS <= now_ms <= CLOCK_LIMIT_MS,
            old(self)@.drift_resets < u64::MAX,
        ensures
            final(self)@.wf(),
            final(self)@ == flush_spec(old(self)@, now_ms as int).0,
            frames_are(frames@, flush_spec(old(self)@, now_ms as int).1, old(self)@),
    {
        let mut frames: Vec<AudioFrame> = Vec::new();
        if self.buffer.len() > 0 {
            let frame = self.flush_frame(now_ms);
            frames.push(frame);
        }
        frames
    }
}

/// Samples per channel in a frame of `frame_ms` at `sample_rate`, never zero.
pub fn frame_samples_for(sample_rate: u32, frame_ms: u32) -> (samples: usize)
    requires
        frame_samples_spec(sample_rate, frame_ms) <= usize::MAX,
    ensures
        samples == frame_samples_spec(sample_rate, frame_ms),
        samples >= 1,
{
    assert((sample_rate as u64) * (frame_ms as u64) <= u64::MAX) by (nonlinear_arith)
        requires
            sample_rate <= u32::MAX,
            frame_ms <= u32::MAX,
    ;
    let samples = (sample_rate as u64 * frame_ms as u64) / 1000;
    if samples < 1 {
        1
    } else {
        samples as usize
    }
}

} // verus!
