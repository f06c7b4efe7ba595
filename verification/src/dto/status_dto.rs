//! Service and capture status payloads.

use crate::models::capture_state::{CaptureSnapshot, CaptureState};
use vstd::prelude::*;

verus! {

#[derive(Debug)]
pub struct HealthResponse {
    pub status: &'static str,
    pub version: &'static str,
    pub uptime_ms: i64,
}

#[derive(Debug)]
pub struct CaptureDto {
    pub state: CaptureState,
    pub session_id: Option<i64>,
    pub device_id: Option<String>,
    pub device_name: Option<String>,
    pub sample_rate: u32,
    pub channels: u16,
    pub frame_ms: u32,
    pub started_at_ms: Option<i64>,
    pub dropped_frames: u64,
    pub error: Option<String>,
}

impl From<CaptureSnapshot> for CaptureDto {
    fn from(snapshot: CaptureSnapshot) -> (dto: Self) {
        CaptureDto {
            state: snapshot.state,
            session_id: snapshot.session_id,
            device_id: snapshot.device_id,
            device_name: snapshot.device_name,
            sample_rate: snapshot.sample_rate,
            channels: snapshot.channels,
            frame_ms: snapshot.frame_ms,
            started_at_ms: snapshot.started_at_ms,
            dropped_frames: snapshot.dropped_frames,
            error: snapshot.error,
        }
    }
}

impl vstd::std_specs::convert::FromSpecImpl<CaptureSnapshot> for CaptureDto {
    open spec fn obeys_from_spec() -> bool {
        true
    }

    open spec fn from_spec(snapshot: CaptureSnapshot) -> Self {
        CaptureDto {
            state: snapshot.state,
            session_id: snapshot.session_id,
            device_id: snapshot.device_id,
            device_name: snapshot.device_name,
            sample_rate: snapshot.sample_rate,
            channels: snapshot.channels,
            frame_ms: snapshot.frame_ms,
            started_at_ms: snapshot.started_at_ms,
            dropped_frames: snapshot.dropped_frames,
            error: snapshot.error,
        }
    }
}

} // verus!
