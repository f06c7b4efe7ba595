//! A fixed duration slice of captured audio.
//!
//! Frames are the unit of everything: the broadcast hub publishes them, the recorder appends them, the
//! WebSocket layer serialises them, and the timeline indexes their timestamps. Samples sit behind an
//! `Arc` because a single frame is cloned once per listener on every tick.
//!
//! The level meter readings (RMS and peak) are floating point and are measured by the application when
//! a frame is published; the frame itself carries the samples and their timing.

use std::sync::Arc;
use vstd::prelude::*;

verus! {

#[derive(Debug, Clone)]
pub struct AudioFrame {
    /// Start of the frame, milliseconds since the Unix epoch.
    pub timestamp_ms: i64,
    pub sample_rate: u32,
    pub channels: u16,
    /// Interleaved signed 16 bit samples.
    pub samples: Arc<Vec<i16>>,
    /// False when the frame was replayed from disk rather than captured just now.
    pub live: bool,
}

/// The unsigned 16 bit pattern of a sample, as two's complement stores it.
pub open spec fn sample_bits(sample: i16) -> int {
    if sample < 0 {
        sample + 65536
    } else {
        sample as int
    }
}

/// Signed 16 bit little endian PCM: two bytes per sample, low byte first.
pub open spec fn pcm_le_bytes(samples: Seq<i16>) -> Seq<u8> {
    Seq::new(
        2 * samples.len(),
        |i: int|
            if i % 2 == 0 {
                (sample_bits(samples[i / 2]) % 256) as u8
            } else {
                (sample_bits(samples[i / 2]) / 256) as u8
            },
    )
}

/// The sample stored in a little endian byte pair.
pub open spec fn sample_of(low: u8, high: u8) -> i16 {
    let bits = low + 256 * high;
    if bits >= 32768 {
        (bits - 65536) as i16
    } else {
        bits as i16
    }
}

/// Samples read back from little endian PCM; a trailing odd byte is ignored.
pub open spec fn pcm_samples(bytes: Seq<u8>) -> Seq<i16> {
    Seq::new(bytes.len() / 2, |i: int| sample_of(bytes[2 * i], bytes[2 * i + 1]))
}

/// Reading PCM back gives exactly the samples that were written.
pub proof fn lemma_pcm_round_trip(samples: Seq<i16>)
    ensures
        pcm_samples(pcm_le_bytes(samples)) == samples,
{
    let bytes = pcm_le_bytes(samples);
    assert forall|i: int| 0 <= i < samples.len() implies #[trigger] pcm_samples(bytes)[i]
        == samples[i] by {
        assert((2 * i) % 2 == 0);
        assert((2 * i + 1) % 2 == 1);
        assert((2 * i) / 2 == i);
        assert((2 * i + 1) / 2 == i);
        let b = sample_bits(samples[i]);
        assert(bytes[2 * i] == (b % 256) as u8);
        assert(bytes[2 * i + 1] == (b / 256) as u8);
        assert((b % 256) + 256 * (b / 256) == b);
    }
    assert(pcm_samples(bytes) =~= samples);
}

impl AudioFrame {
    /// Channels a frame is divided by; a zero count is treated as mono.
    pub open spec fn spec_channels(self) -> int {
        if self.channels == 0 {
            1
        } else {
            self.channels as int
        }
    }

    pub open spec fn spec_sample_count(self) -> int {
        (self.samples@.len() as int) / self.spec_channels()
    }

    pub open spec fn spec_duration_ms(self) -> int {
        if self.sample_rate == 0 {
            0
        } else {
            self.spec_sample_count() * 1000 / self.sample_rate as int
        }
    }

    /// Build a frame from samples that were captured at `timestamp_ms`.
    pub fn from_samples(
        timestamp_ms: i64,
        sample_rate: u32,
        channels: u16,
        samples: Vec<i16>,
        live: bool,
    ) -> (frame: Self)
        ensures
            frame.timestamp_ms == timestamp_ms,
            frame.sample_rate == sample_rate,
            frame.channels == channels,
            frame.samples@ == samples@,
            frame.live == live,
    {
        Self { timestamp_ms, sample_rate, channels, samples: Arc::new(samples), live }
    }

    /// Number of samples per channel.
    pub fn sample_count(&self) -> (count: usize)
        ensures
            count == self.spec_sample_count(),
    {
        let channels: usize = if self.channels == 0 { 1 } else { self.channels as usize };
        self.samples.len() / channels
    }

    /// Playing duration of the frame in milliseconds.
    pub fn duration_ms(&self) -> (duration: i64)
        requires
            self.samples@.len() * 1000 <= i64::MAX,
        ensures
            duration == self.spec_duration_ms(),
    {
        if self.sample_rate == 0 {
            return 0;
        }
        let count = self.sample_count();
        proof {
            assert(count <= self.samples@.len()) by (nonlinear_arith)
                requires
                    count == (self.samples@.len() as int) / self.spec_channels(),
                    self.spec_channels() >= 1,
            ;
        }
        (count as i64 * 1000) / self.sample_rate as i64
    }

    /// Timestamp immediately after the last sample, the start of the next frame.
    pub fn end_timestamp_ms(&self) -> (end: i64)
        requires
            self.samples@.len() * 1000 <= i64::MAX,
            i64::MIN <= self.timestamp_ms + self.spec_duration_ms() <= i64::MAX,
        ensures
            end == self.timestamp_ms + self.spec_duration_ms(),
    {
        self.timestamp_ms + self.duration_ms()
    }

    /// Little endian byte view of the payload, ready for the wire or for the segment file.
    pub fn to_le_bytes(&self) -> (bytes: Vec<u8>)
        requires
            2 * self.samples@.len() <= usize::MAX,
        ensures
            bytes@ == pcm_le_bytes(self.samples@),
    {
        let samples: &Vec<i16> = &self.samples;
        let n = samples.len();
        let mut bytes: Vec<u8> = Vec::with_capacity(2 * n);
        let mut i: usize = 0;
        while i < n
            invariant
                n == samples@.len(),
                samples@ == self.samples@,
                i <= n,
                bytes@.len() == 2 * i,
                forall|j: int| 0 <= j < 2 * i ==> bytes@[j] == pcm_le_bytes(samples@)[j],
            decreases n - i,
        {
            let sample = samples[i];
            let bits: u32 = if sample < 0 {
                (sample as i32 + 65536) as u32
            } else {
                sample as u32
            };
            bytes.push((bits % 256) as u8);
            bytes.push((bits / 256) as u8);
            proof {
                let k = 2 * i;
                assert(k % 2 == 0 && k / 2 == i);
                assert((k + 1) % 2 == 1 && (k + 1) / 2 == i);
            }
            i = i + 1;
        }
        assert(bytes@ =~= pcm_le_bytes(self.samples@));
        bytes
    }
}

} // verus!
