//! Lifecycle of the capture engine as seen from outside.

use vstd::prelude::*;

verus! {

/// Where the capture engine currently is. `Starting` exists because opening a device can block for a
/// noticeable moment on some hosts, and the UI should show that rather than a stale idle state.
#[derive(Debug, Clone, Copy, PartialEq, Eq, Structural)]
pub enum CaptureState {
    Idle,
    Starting,
    Recording,
    Error,
}

impl CaptureState {
    /// Starting and recording count as active: capture holds the device in both.
    pub fn is_active(self) -> (active: bool)
        ensures
            active == (self == CaptureState::Starting || self == CaptureState::Recording),
    {
        match self {
            CaptureState::Starting | CaptureState::Recording => true,
            _ => false,
        }
    }
}

/// Immutable view of the capture engine, taken under the engine lock and then released, so callers never
/// hold a lock while serialising a response.
#[derive(Debug, Clone)]
pub struct CaptureSnapshot {
    pub state: CaptureState,
    pub session_id: Option<i64>,
    pub device_id: Option<String>,
    pub device_name: Option<String>,
    pub sample_rate: u32,
    pub channels: u16,
    pub frame_ms: u32,
    pub started_at_ms: Option<i64>,
    pub dropped_frames: u64,
    pub error: Option<String>,
}

impl Default for CaptureSnapshot {
    /// An idle engine with nothing open and nothing counted.
    fn default() -> (snapshot: Self)
        ensures
            snapshot.state == CaptureState::Idle,
            snapshot.session_id is None,
            snapshot.device_id is None,
            snapshot.device_name is None,
            snapshot.sample_rate == 0,
            snapshot.channels == 0,
            snapshot.frame_ms == 0,
            snapshot.started_at_ms is None,
            snapshot.dropped_frames == 0,
            snapshot.error is None,
    {
        CaptureSnapshot {
            state: CaptureState::Idle,
            session_id: None,
            device_id: None,
            device_name: None,
            sample_rate: 0,
            channels: 0,
            frame_ms: 0,
            started_at_ms: None,
            dropped_frames: 0,
            error: None,
        }
    }
}

/// Best estimate of "now" on the recording timeline: the newest captured frame while capture runs,
/// else the end of the newest indexed segment, and nothing when nothing was ever recorded.
pub fn live_edge_ms(newest_frame_ms: Option<i64>, newest_segment_end_ms: Option<i64>) -> (edge: Option<i64>)
    ensures
        edge == match newest_frame_ms {
            Some(frame_ms) => Some(frame_ms),
            None => newest_segment_end_ms,
        },
{
    match newest_frame_ms {
        Some(frame_ms) => Some(frame_ms),
        None => newest_segment_end_ms,
    }
}

} // verus!
