//! Canonical WAV headers.
//!
//! Segments are already signed 16 bit little endian PCM, which is exactly what a canonical WAV file
//! carries, so an export is the 44 byte header followed by the samples with nothing done to them.
//!
//! The header states the data length up front, which means the length has to be known before a single
//! byte is sent. That is why an export decides its whole plan first, and it is only possible because
//! uncompressed audio has an exactly predictable size.

use vstd::prelude::*;

verus! {

/// Size of the canonical header, before any audio.
pub const HEADER_BYTES: usize = 44;

/// Largest data chunk a WAV file can describe.
///
/// RIFF sizes are unsigned 32 bit, so four gigabytes is a hard format limit rather than a policy choice.
pub const MAX_DATA_BYTES: u64 = 4_294_967_251;

/// Little endian encoding of the low 16 bits of `x`.
pub open spec fn le16(x: int) -> Seq<u8> {
    seq![(x % 256) as u8, ((x / 256) % 256) as u8]
}

/// Little endian encoding of the low 32 bits of `x`.
pub open spec fn le32(x: int) -> Seq<u8> {
    seq![
        (x % 256) as u8,
        ((x / 256) % 256) as u8,
        ((x / 65536) % 256) as u8,
        ((x / 16777216) % 256) as u8,
    ]
}

/// The unsigned 16 bit value stored little endian at `at`.
pub open spec fn read_le16(bytes: Seq<u8>, at: int) -> int {
    bytes[at] + 256 * bytes[at + 1]
}

/// The unsigned 32 bit value stored little endian at `at`.
pub open spec fn read_le32(bytes: Seq<u8>, at: int) -> int {
    bytes[at] + 256 * bytes[at + 1] + 65536 * bytes[at + 2] + 16777216 * bytes[at + 3]
}

/// The four ASCII bytes of a chunk tag.
pub open spec fn tag(a: u8, b: u8, c: u8, d: u8) -> Seq<u8> {
    seq![a, b, c, d]
}

/// `RIFF`, `WAVE`, `fmt ` and `data`.
pub open spec fn riff_tag() -> Seq<u8> {
    tag(0x52, 0x49, 0x46, 0x46)
}

pub open spec fn wave_tag() -> Seq<u8> {
    tag(0x57, 0x41, 0x56, 0x45)
}

pub open spec fn fmt_tag() -> Seq<u8> {
    tag(0x66, 0x6d, 0x74, 0x20)
}

pub open spec fn data_tag() -> Seq<u8> {
    tag(0x64, 0x61, 0x74, 0x61)
}

/// The channel count a header describes: never zero, which no player can open.
pub open spec fn header_channels(channels: u16) -> int {
    if channels == 0 {
        1
    } else {
        channels as int
    }
}

/// Bytes per sample across all channels, for 16 bit samples.
pub open spec fn block_align(channels: u16) -> int {
    header_channels(channels) * 16 / 8
}

/// The header's arithmetic fits the field widths of the format.
pub open spec fn header_fits(sample_rate: u32, channels: u16) -> bool {
    &&& header_channels(channels) * 16 <= u16::MAX
    &&& sample_rate * block_align(channels) <= u32::MAX
}

/// The canonical 44 byte header for `data_bytes` of 16 bit PCM.
pub open spec fn header_spec(sample_rate: u32, channels: u16, data_bytes: u32) -> Seq<u8> {
    let riff_size = if 36 + data_bytes > u32::MAX { u32::MAX as int } else { 36 + data_bytes };
    riff_tag() + le32(riff_size) + wave_tag() + fmt_tag() + le32(16) + le16(1) + le16(
        header_channels(channels),
    ) + le32(sample_rate as int) + le32(sample_rate * block_align(channels)) + le16(
        block_align(channels),
    ) + le16(16) + data_tag() + le32(data_bytes as int)
}

fn put_le16(out: &mut [u8; 44], at: usize, x: u16)
    requires
        at + 2 <= 44,
    ensures
        final(out)@ == old(out)@.update(at as int, (x % 256) as u8).update(
            at + 1,
            ((x / 256) % 256) as u8,
        ),
{
    out[at] = (x % 256) as u8;
    out[at + 1] = ((x / 256) % 256) as u8;
}

fn put_le32(out: &mut [u8; 44], at: usize, x: u32)
    requires
        at + 4 <= 44,
    ensures
        final(out)@ == old(out)@.update(at as int, (x % 256) as u8).update(
            at + 1,
            ((x / 256) % 256) as u8,
        ).update(at + 2, ((x / 65536) % 256) as u8).update(at + 3, ((x / 16777216) % 256) as u8),
{
    out[at] = (x % 256) as u8;
    out[at + 1] = ((x / 256) % 256) as u8;
    out[at + 2] = ((x / 65536) % 256) as u8;
    out[at + 3] = ((x / 16777216) % 256) as u8;
}

fn put_tag(out: &mut [u8; 44], at: usize, a: u8, b: u8, c: u8, d: u8)
    requires
        at + 4 <= 44,
    ensures
        final(out)@ == old(out)@.update(at as int, a).update(at + 1, b).update(at + 2, c).update(
            at + 3,
            d,
        ),
{
    out[at] = a;
    out[at + 1] = b;
    out[at + 2] = c;
    out[at + 3] = d;
}

/// Build the header for a stream of signed 16 bit little endian samples.
///
/// `data_bytes` is the size of the audio that will follow, which the caller must already know.
pub fn header(sample_rate: u32, channels: u16, data_bytes: u32) -> (out: [u8; 44])
    requires
        header_fits(sample_rate, channels),
    ensures
        out@ == header_spec(sample_rate, channels, data_bytes),
{
    let channels: u16 = if channels == 0 { 1 } else { channels };
    let bits_per_sample: u16 = 16;
    let block_align: u16 = channels * bits_per_sample / 8;
    let byte_rate: u32 = sample_rate * block_align as u32;
    let riff_size: u32 = if data_bytes > u32::MAX - 36 { u32::MAX } else { 36 + data_bytes };

    let mut out = [0u8; 44];
    put_tag(&mut out, 0, 0x52, 0x49, 0x46, 0x46);
    // Everything after this field: the remaining 36 bytes of header plus the audio.
    put_le32(&mut out, 4, riff_size);
    put_tag(&mut out, 8, 0x57, 0x41, 0x56, 0x45);
    put_tag(&mut out, 12, 0x66, 0x6d, 0x74, 0x20);
    // PCM format chunk length, then 1 for uncompressed PCM.
    put_le32(&mut out, 16, 16);
    put_le16(&mut out, 20, 1);
    put_le16(&mut out, 22, channels);
    put_le32(&mut out, 24, sample_rate);
    put_le32(&mut out, 28, byte_rate);
    put_le16(&mut out, 32, block_align);
    put_le16(&mut out, 34, bits_per_sample);
    put_tag(&mut out, 36, 0x64, 0x61, 0x74, 0x61);
    put_le32(&mut out, 40, data_bytes);
    assert(out@ =~= header_spec(sample_rate, channels, data_bytes));
    out
}

proof fn lemma_read_le32_at(s: Seq<u8>, at: int, x: int)
    requires
        0 <= at,
        at + 4 <= s.len(),
        0 <= x <= u32::MAX,
        s.subrange(at, at + 4) == le32(x),
    ensures
        read_le32(s, at) == x,
{
    assert(s[at] == s.subrange(at, at + 4)[0]);
    assert(s[at + 1] == s.subrange(at, at + 4)[1]);
    assert(s[at + 2] == s.subrange(at, at + 4)[2]);
    assert(s[at + 3] == s.subrange(at, at + 4)[3]);
}

proof fn lemma_read_le16_at(s: Seq<u8>, at: int, x: int)
    requires
        0 <= at,
        at + 2 <= s.len(),
        0 <= x <= u16::MAX,
        s.subrange(at, at + 2) == le16(x),
    ensures
        read_le16(s, at) == x,
{
    assert(s[at] == s.subrange(at, at + 2)[0]);
    assert(s[at + 1] == s.subrange(at, at + 2)[1]);
}

/// Every field of the header reads back as the value it describes: the RIFF size is the rest of the
/// file, the format is PCM with the channel count (never zero), rate, byte rate and block alignment of
/// 16 bit samples, and the data chunk announces exactly `data_bytes`.
#[verifier::rlimit(60)]
pub proof fn lemma_header_fields(sample_rate: u32, channels: u16, data_bytes: u32)
    requires
        header_fits(sample_rate, channels),
    ensures
        ({
            let h = header_spec(sample_rate, channels, data_bytes);
            &&& h.len() == 44
            &&& h.subrange(0, 4) == riff_tag()
            &&& read_le32(h, 4) == if 36 + data_bytes > u32::MAX {
                u32::MAX as int
            } else {
                36 + data_bytes
            }
            &&& h.subrange(8, 12) == wave_tag()
            &&& h.subrange(12, 16) == fmt_tag()
            &&& read_le32(h, 16) == 16
            &&& read_le16(h, 20) == 1
            &&& read_le16(h, 22) == header_channels(channels)
            &&& read_le32(h, 24) == sample_rate
            &&& read_le32(h, 28) == sample_rate * block_align(channels)
            &&& read_le16(h, 32) == block_align(channels)
            &&& read_le16(h, 34) == 16
            &&& h.subrange(36, 40) == data_tag()
            &&& read_le32(h, 40) == data_bytes
        }),
{
    let h = header_spec(sample_rate, channels, data_bytes);
    let riff_size = if 36 + data_bytes > u32::MAX { u32::MAX as int } else { 36 + data_bytes };
    let ch = header_channels(channels);
    let ba = block_align(channels);
    let br = sample_rate * block_align(channels);
    let flat = riff_tag() + le32(riff_size) + wave_tag() + fmt_tag() + le32(16) + le16(1) + le16(ch)
        + le32(sample_rate as int) + le32(br) + le16(ba) + le16(16) + data_tag() + le32(
        data_bytes as int,
    );
    assert(h == flat);
    assert(h.len() == 44);
    assert(h.subrange(0, 4) =~= riff_tag());
    assert(h.subrange(8, 12) =~= wave_tag());
    assert(h.subrange(12, 16) =~= fmt_tag());
    assert(h.subrange(36, 40) =~= data_tag());
    assert(h.subrange(4, 8) =~= le32(riff_size));
    lemma_read_le32_at(h, 4, riff_size);
    assert(h.subrange(16, 20) =~= le32(16));
    lemma_read_le32_at(h, 16, 16);
    assert(h.subrange(20, 22) =~= le16(1));
    lemma_read_le16_at(h, 20, 1);
    assert(h.subrange(22, 24) =~= le16(ch));
    lemma_read_le16_at(h, 22, ch);
    assert(h.subrange(24, 28) =~= le32(sample_rate as int));
    lemma_read_le32_at(h, 24, sample_rate as int);
    assert(h.subrange(28, 32) =~= le32(br));
    lemma_read_le32_at(h, 28, br);
    assert(h.subrange(32, 34) =~= le16(ba));
    lemma_read_le16_at(h, 32, ba);
    assert(h.subrange(34, 36) =~= le16(16));
    lemma_read_le16_at(h, 34, 16);
    assert(h.subrange(40, 44) =~= le32(data_bytes as int));
    lemma_read_le32_at(h, 40, data_bytes as int);
}

/// Bytes a span of audio occupies, or `None` when it would overflow what WAV can describe.
pub open spec fn data_bytes_spec(sample_rate: u32, channels: u16, duration_ms: i64) -> Option<u64> {
    if duration_ms <= 0 {
        Some(0)
    } else if duration_ms * sample_rate > u64::MAX {
        None
    } else {
        let bytes = duration_ms * sample_rate / 1000 * header_channels(channels) * 2;
        if bytes <= MAX_DATA_BYTES {
            Some(bytes as u64)
        } else {
            None
        }
    }
}

pub fn data_bytes_for(sample_rate: u32, channels: u16, duration_ms: i64) -> (bytes: Option<u64>)
    ensures
        bytes == data_bytes_spec(sample_rate, channels, duration_ms),
{
    if duration_ms <= 0 {
        return Some(0);
    }
    let product = match (duration_ms as u64).checked_mul(sample_rate as u64) {
        Some(product) => product,
        None => return None,
    };
    let samples = product / 1000;
    let channels: u64 = if channels == 0 { 1 } else { channels as u64 };
    let per_channel = match samples.checked_mul(channels) {
        Some(value) => value,
        None => {
            proof {
                assert(samples * channels * 2 > MAX_DATA_BYTES) by (nonlinear_arith)
                    requires
                        samples * channels > u64::MAX,
                ;
            }
            return None;
        },
    };
    let bytes = match per_channel.checked_mul(2) {
        Some(value) => value,
        None => return None,
    };
    if bytes <= MAX_DATA_BYTES {
        Some(bytes)
    } else {
        None
    }
}

} // verus!
