//! Where segment files live, and the format of what is in them.
//!
//! Paths are held as text and joined with `/`, the separator every platform the recorder runs on
//! accepts, so the layout is decided by one set of rules that can be stated and checked.

use crate::audio::peaks::{bucket_samples_for, finished, push_samples, EnvelopeState, PeakEnvelopeBuilder};
use crate::models::audio_frame::{pcm_samples, sample_of, AudioFrame};
use crate::models::segment::SegmentDraft;
use crate::util::day::{is_day_text, is_filing_day_of, local_day};
use crate::util::path::{
    below_root, below_root_chars, forward_slash_chars, forward_slashes, join_chars, join_path,
};
use crate::util::text::{
    chars_of, decimal, extend_chars, padded_decimal, signed_decimal, string_from_chars,
    zero_padded,
};
use vstd::prelude::*;

verus! {

/// The path the index stores for a file: relative to `root` with forward slashes where the file
/// lies below it, else the absolute path as it stands.
pub open spec fn indexed_path(absolute: Seq<char>, root: Option<Seq<char>>) -> Seq<char> {
    match root {
        Some(root) => match below_root(absolute, root) {
            Some(rest) => forward_slashes(rest),
            None => absolute,
        },
        None => absolute,
    }
}

/// The file name of a segment: its sequence number zero-padded to six places, sign included.
pub open spec fn segment_file_name(sequence: int) -> Seq<char> {
    (if sequence < 0 {
        seq!['-'] + zero_padded(decimal((-sequence) as nat), 5)
    } else {
        zero_padded(decimal(sequence as nat), 6)
    }) + ".pcm"@
}

/// `<recordings>/<day>/<session>/<sequence>.pcm`.
pub open spec fn segment_path(recordings_dir: Seq<char>, day: Seq<char>, session_id: int, sequence: int) -> Seq<
    char,
> {
    join_path(
        join_path(join_path(recordings_dir, day), signed_decimal(session_id)),
        segment_file_name(sequence),
    )
}

/// Where segments are written, and how their paths are recorded.
///
/// Two roots rather than one, because the file location and the indexed path are different questions.
/// Recordings in the default place are indexed relative to the data directory so the whole directory
/// stays relocatable; recordings the operator has redirected elsewhere are indexed absolutely, because a
/// relative path would have nothing meaningful to be relative to.
#[derive(Debug, Clone)]
pub struct SegmentLayout {
    /// Absolute directory segments are written into.
    pub recordings_dir: String,
    /// Root the stored path is made relative to. `None` stores absolute paths.
    pub relative_to: Option<String>,
}

/// The text of an optional path.
pub open spec fn root_of(relative_to: Option<String>) -> Option<Seq<char>> {
    match relative_to {
        Some(root) => Some(root@),
        None => None,
    }
}

impl SegmentLayout {
    /// The default layout: `<data dir>/recordings`, indexed relative to the data directory.
    pub fn under_data_dir(data_dir: &str) -> (layout: Self)
        ensures
            layout.recordings_dir@ == join_path(data_dir@, "recordings"@),
            root_of(layout.relative_to) == Some(data_dir@),
    {
        let dir = chars_of(data_dir);
        let name = chars_of("recordings");
        let recordings = join_chars(dir.as_slice(), name.as_slice());
        SegmentLayout {
            recordings_dir: string_from_chars(recordings.as_slice()),
            relative_to: Some(string_from_chars(dir.as_slice())),
        }
    }

    /// A layout writing into `recordings_dir`, indexed absolutely.
    pub fn at(recordings_dir: String) -> (layout: Self)
        ensures
            layout.recordings_dir == recordings_dir,
            layout.relative_to is None,
    {
        SegmentLayout { recordings_dir, relative_to: None }
    }
}

/// Where a segment lives, on disk and on the calendar.
///
/// This is the one place the storage layout is decided. Deriving the day and the path together from the
/// same timestamp is what guarantees a segment's `day` column always names the directory its file is
/// actually in, which is the property the day picker relies on.
#[derive(Debug, Clone)]
pub struct SegmentLocation {
    pub session_id: i64,
    pub sequence: i64,
    /// Local calendar day, `YYYY-MM-DD`.
    pub day: String,
    /// Path relative to the data directory, which is what the index stores.
    pub relative_path: String,
    pub absolute_path: String,
}

/// `location` is the segment `sequence` of `session_id`, filed under `day` in `layout`.
pub open spec fn located(
    location: SegmentLocation,
    layout: SegmentLayout,
    session_id: i64,
    sequence: i64,
    day: Seq<char>,
) -> bool {
    &&& location.session_id == session_id
    &&& location.sequence == sequence
    &&& location.day@ == day
    &&& location.absolute_path@ == segment_path(
        layout.recordings_dir@,
        day,
        session_id as int,
        sequence as int,
    )
    &&& location.relative_path@ == indexed_path(location.absolute_path@, root_of(layout.relative_to))
}

fn file_name_chars(sequence: i64) -> (name: Vec<char>)
    ensures
        name@ == segment_file_name(sequence as int),
{
    let mut name: Vec<char> = Vec::new();
    if sequence < 0 {
        name.push('-');
        let magnitude: u64 = if sequence == i64::MIN {
            0x8000_0000_0000_0000
        } else {
            (-sequence) as u64
        };
        let digits = padded_decimal(magnitude, 5);
        extend_chars(&mut name, digits.as_slice());
    } else {
        let digits = padded_decimal(sequence as u64, 6);
        extend_chars(&mut name, digits.as_slice());
    }
    let suffix = chars_of(".pcm");
    extend_chars(&mut name, suffix.as_slice());
    name
}

impl SegmentLocation {
    /// Lay out segment `sequence` of `session_id` under the calendar day `day`.
    ///
    /// Recordings are grouped by day first and session second, so a day's audio is one directory even
    /// when the recorder was stopped and started several times within it. That ordering is what makes
    /// the data directory browsable by hand and a day's material trivial to archive or delete.
    pub fn for_segment_on_day(layout: &SegmentLayout, session_id: i64, sequence: i64, day: &str) -> (location: Self)
        ensures
            located(location, *layout, session_id, sequence, day@),
    {
        let recordings = chars_of(layout.recordings_dir.as_str());
        let day_chars = chars_of(day);
        let day_dir = join_chars(recordings.as_slice(), day_chars.as_slice());
        let session_text = crate::util::text::i64_to_decimal(session_id);
        let session_chars = chars_of(session_text.as_str());
        let session_dir = join_chars(day_dir.as_slice(), session_chars.as_slice());
        let file = file_name_chars(sequence);
        let absolute = join_chars(session_dir.as_slice(), file.as_slice());

        // Separators are normalised so an index written on Windows still reads on any other platform.
        let relative = match &layout.relative_to {
            Some(root) => {
                let root_chars = chars_of(root.as_str());
                match below_root_chars(absolute.as_slice(), root_chars.as_slice()) {
                    Some(rest) => forward_slash_chars(rest.as_slice()),
                    None => {
                        let mut copy: Vec<char> = Vec::new();
                        extend_chars(&mut copy, absolute.as_slice());
                        copy
                    },
                }
            },
            None => {
                let mut copy: Vec<char> = Vec::new();
                extend_chars(&mut copy, absolute.as_slice());
                copy
            },
        };
        SegmentLocation {
            session_id,
            sequence,
            day: string_from_chars(day_chars.as_slice()),
            relative_path: string_from_chars(relative.as_slice()),
            absolute_path: string_from_chars(absolute.as_slice()),
        }
    }

    /// Lay out the segment that starts at `started_at_ms`, under the local calendar day of that moment.
    ///
    /// Deriving the day and the path together from the same timestamp is what keeps the day a segment
    /// is indexed under equal to the directory its file is in.
    pub fn for_segment(layout: &SegmentLayout, session_id: i64, sequence: i64, started_at_ms: i64) -> (location: Self)
        ensures
            is_day_text(location.day@),
            is_filing_day_of(location.day@, started_at_ms),
            located(location, *layout, session_id, sequence, location.day@),
    {
        let day = local_day(started_at_ms);
        Self::for_segment_on_day(layout, session_id, sequence, day.as_str())
    }
}

/// What a segment file being written has taken in so far, and what its index entry will say.
///
/// The file itself belongs to the application, which writes each frame's payload and tells the tally
/// how many bytes went out. Rolling over to the next segment is the recorder's job, so this stays a
/// simple sink with no notion of time policy.
pub struct SegmentTally {
    session_id: i64,
    sequence: i64,
    day: String,
    absolute_path: String,
    relative_path: String,
    started_at_ms: i64,
    last_end_ms: i64,
    byte_len: i64,
    sample_rate: u32,
    channels: u16,
    envelope: PeakEnvelopeBuilder,
}

/// A tally as values.
pub struct TallyView {
    pub session_id: i64,
    pub sequence: i64,
    pub day: Seq<char>,
    pub absolute_path: Seq<char>,
    pub relative_path: Seq<char>,
    pub started_at_ms: i64,
    pub last_end_ms: i64,
    pub byte_len: i64,
    pub sample_rate: u32,
    pub channels: u16,
    pub envelope: EnvelopeState,
}

impl View for SegmentTally {
    type V = TallyView;

    closed spec fn view(&self) -> TallyView {
        TallyView {
            session_id: self.session_id,
            sequence: self.sequence,
            day: self.day@,
            absolute_path: self.absolute_path@,
            relative_path: self.relative_path@,
            started_at_ms: self.started_at_ms,
            last_end_ms: self.last_end_ms,
            byte_len: self.byte_len,
            sample_rate: self.sample_rate,
            channels: self.channels,
            envelope: self.envelope@,
        }
    }
}

/// The index entry a finished tally produces: nothing for a segment that never received a byte,
/// because an empty file in the index would make playback stall on a zero length read.
pub open spec fn finished_draft_matches(draft: Option<SegmentDraft>, tally: TallyView) -> bool {
    if tally.byte_len == 0 {
        draft is None
    } else {
        draft matches Some(d) && d.session_id == tally.session_id && d.sequence == tally.sequence
            && d.day@ == tally.day && d.path@ == tally.relative_path && d.started_at_ms
            == tally.started_at_ms && d.ended_at_ms == tally.last_end_ms && d.sample_rate
            == tally.sample_rate && d.channels == tally.channels && d.byte_len == tally.byte_len
            && d.peaks@ == finished(tally.envelope)
    }
}

impl SegmentTally {
    /// The tally stays within its bounds.
    pub closed spec fn wf(&self) -> bool {
        &&& self.envelope.wf()
        &&& self.byte_len >= 0
    }

    /// Open the tally of the segment at `location`, which starts with `first_frame`.
    pub fn start(location: SegmentLocation, first_frame: &AudioFrame) -> (tally: Self)
        ensures
            tally.wf(),
            tally@.session_id == location.session_id,
            tally@.sequence == location.sequence,
            tally@.day == location.day@,
            tally@.absolute_path == location.absolute_path@,
            tally@.relative_path == location.relative_path@,
            tally@.started_at_ms == first_frame.timestamp_ms,
            tally@.last_end_ms == first_frame.timestamp_ms,
            tally@.byte_len == 0,
            tally@.sample_rate == first_frame.sample_rate,
            tally@.channels == first_frame.channels,
            tally@.envelope == (EnvelopeState {
                bucket_samples: bucket_samples_for(first_frame.sample_rate),
                filled: 0,
                sum_squares: 0,
                values: Seq::empty(),
            }),
    {
        SegmentTally {
            session_id: location.session_id,
            sequence: location.sequence,
            day: location.day,
            absolute_path: location.absolute_path,
            relative_path: location.relative_path,
            started_at_ms: first_frame.timestamp_ms,
            last_end_ms: first_frame.timestamp_ms,
            byte_len: 0,
            sample_rate: first_frame.sample_rate,
            channels: first_frame.channels,
            envelope: PeakEnvelopeBuilder::new(first_frame.sample_rate),
        }
    }

    pub fn started_at_ms(&self) -> (started: i64)
        ensures
            started == self@.started_at_ms,
    {
        self.started_at_ms
    }

    /// How long the segment plays so far, never negative.
    pub fn duration_ms(&self) -> (duration: i64)
        requires
            self@.last_end_ms - self@.started_at_ms <= i64::MAX,
        ensures
            duration == if self@.last_end_ms >= self@.started_at_ms {
                self@.last_end_ms - self@.started_at_ms
            } else {
                0
            },
    {
        if self.last_end_ms >= self.started_at_ms {
            self.last_end_ms - self.started_at_ms
        } else {
            0
        }
    }

    pub fn byte_len(&self) -> (bytes: i64)
        ensures
            bytes == self@.byte_len,
    {
        self.byte_len
    }

    /// Where the segment's file is.
    pub fn path(&self) -> (path: &str)
        ensures
            path@ == self@.absolute_path,
    {
        self.absolute_path.as_str()
    }

    /// Local calendar day this segment belongs to.
    pub fn day(&self) -> (day: &str)
        ensures
            day@ == self@.day,
    {
        self.day.as_str()
    }

    /// Count a frame whose payload of `payload_bytes` bytes has been written, and fold its samples into
    /// the envelope.
    pub fn record(&mut self, frame: &AudioFrame, payload_bytes: usize)
        requires
            old(self).wf(),
            old(self)@.byte_len + payload_bytes <= i64::MAX,
            frame.samples@.len() * 1000 <= i64::MAX,
            i64::MIN <= frame.timestamp_ms + frame.spec_duration_ms() <= i64::MAX,
        ensures
            final(self).wf(),
            final(self)@ == (TallyView {
                byte_len: (old(self)@.byte_len + payload_bytes) as i64,
                last_end_ms: (frame.timestamp_ms + frame.spec_duration_ms()) as i64,
                envelope: push_samples(old(self)@.envelope, frame.samples@),
                ..old(self)@
            }),
    {
        self.byte_len = self.byte_len + payload_bytes as i64;
        self.envelope.push(frame.samples.as_slice());
        self.last_end_ms = frame.end_timestamp_ms();
    }

    /// Close the tally and describe the segment so it can be indexed; nothing when it never received a
    /// byte, in which case the file should be removed instead.
    pub fn finish(self) -> (draft: Option<SegmentDraft>)
        requires
            self.wf(),
        ensures
            finished_draft_matches(draft, self@),
    {
        if self.byte_len == 0 {
            return None;
        }
        let peaks = self.envelope.finish();
        Some(
            SegmentDraft {
                session_id: self.session_id,
                sequence: self.sequence,
                day: self.day,
                path: self.relative_path,
                started_at_ms: self.started_at_ms,
                ended_at_ms: self.last_end_ms,
                sample_rate: self.sample_rate,
                channels: self.channels,
                byte_len: self.byte_len,
                peaks,
            },
        )
    }
}

/// Interpret raw little endian PCM bytes as signed 16 bit samples. A trailing odd byte is ignored.
pub fn decode_pcm_s16(bytes: &[u8]) -> (samples: Vec<i16>)
    ensures
        samples@ == pcm_samples(bytes@),
{
    let mut samples: Vec<i16> = Vec::new();
    let mut k: usize = 0;
    while k + 1 < bytes.len()
        invariant
            k == 2 * samples@.len(),
            k <= bytes@.len(),
            samples@.len() <= bytes@.len() / 2,
            forall|j: int|
                0 <= j < samples@.len() ==> samples@[j] == sample_of(bytes@[2 * j], bytes@[2 * j + 1]),
        decreases bytes@.len() - k,
    {
        let low = bytes[k];
        let high = bytes[k + 1];
        let bits: i32 = (low as i32) + 256 * (high as i32);
        let sample: i16 = if bits >= 32768 {
            (bits - 65536) as i16
        } else {
            bits as i16
        };
        samples.push(sample);
        k = k + 2;
    }
    assert(samples@ =~= pcm_samples(bytes@));
    samples
}

} // verus!
