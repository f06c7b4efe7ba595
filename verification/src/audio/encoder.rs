//! Frame encoding strategy.
//!
//! The recorder and the streaming layer both need bytes out of an [`AudioFrame`], and both should stay
//! ignorant of how those bytes are produced. Encoding therefore sits behind a trait: today the only
//! implementation writes signed 16 bit PCM. The wire header carries [`FrameFormat`] so a client always
//! knows how to interpret the payload it just received.

use crate::models::audio_frame::{pcm_le_bytes, AudioFrame};
use vstd::prelude::*;

verus! {

/// Payload encodings, numbered because the value goes on the wire.
#[derive(Debug, Clone, Copy, PartialEq, Eq, Structural)]
pub enum FrameFormat {
    /// Interleaved signed 16 bit little endian samples.
    PcmS16,
}

impl FrameFormat {
    pub open spec fn spec_wire_code(self) -> u8 {
        match self {
            FrameFormat::PcmS16 => 0,
        }
    }

    pub fn wire_code(self) -> (code: u8)
        ensures
            code == self.spec_wire_code(),
    {
        match self {
            FrameFormat::PcmS16 => 0,
        }
    }

    pub fn from_wire_code(code: u8) -> (format: Option<Self>)
        ensures
            format == format_of_code(code),
    {
        match code {
            0 => Some(FrameFormat::PcmS16),
            _ => None,
        }
    }
}

/// The format a wire code names, if any.
pub open spec fn format_of_code(code: u8) -> Option<FrameFormat> {
    if code == 0 {
        Some(FrameFormat::PcmS16)
    } else {
        None
    }
}

/// Every format survives a trip through its wire code, and no two formats share a code.
pub proof fn lemma_wire_code_round_trip(format: FrameFormat, other: FrameFormat)
    ensures
        format_of_code(format.spec_wire_code()) == Some(format),
        format != other ==> format.spec_wire_code() != other.spec_wire_code(),
{
}

pub trait FrameEncoder: Send + Sync {
    fn format(&self) -> FrameFormat;

    /// Encode the payload of a single frame. The header is added by the transport, not here, because the
    /// same encoded bytes are written to a segment file where no header is wanted.
    fn encode(&self, frame: &AudioFrame) -> Vec<u8>
        requires
            2 * frame.samples@.len() <= usize::MAX,
    ;
}

/// Pass through encoder: the in memory representation already is little endian PCM.
pub struct PcmS16Encoder;

impl FrameEncoder for PcmS16Encoder {
    fn format(&self) -> (format: FrameFormat)
        ensures
            format == FrameFormat::PcmS16,
    {
        FrameFormat::PcmS16
    }

    fn encode(&self, frame: &AudioFrame) -> (bytes: Vec<u8>)
        ensures
            bytes@ == pcm_le_bytes(frame.samples@),
    {
        frame.to_le_bytes()
    }
}

} // verus!
