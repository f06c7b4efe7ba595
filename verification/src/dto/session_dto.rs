//! Session and storage payloads.

use crate::models::settings::Settings;
use crate::repositories::segments::SegmentStorageStats;
use crate::repositories::sessions::SessionSummary;
use vstd::prelude::*;

verus! {

#[derive(Debug)]
pub struct SessionDto {
    pub id: i64,
    pub device_id: String,
    pub device_name: String,
    pub sample_rate: u32,
    pub channels: u16,
    pub started_at_ms: i64,
    pub ended_at_ms: Option<i64>,
    pub segment_count: i64,
    pub bytes: i64,
}

impl From<SessionSummary> for SessionDto {
    fn from(summary: SessionSummary) -> (dto: Self) {
        SessionDto {
            id: summary.session.id,
            device_id: summary.session.device_id,
            device_name: summary.session.device_name,
            sample_rate: summary.session.sample_rate,
            channels: summary.session.channels,
            started_at_ms: summary.session.started_at_ms,
            ended_at_ms: summary.session.ended_at_ms,
            segment_count: summary.segment_count,
            bytes: summary.bytes,
        }
    }
}

impl vstd::std_specs::convert::FromSpecImpl<SessionSummary> for SessionDto {
    open spec fn obeys_from_spec() -> bool {
        true
    }

    open spec fn from_spec(summary: SessionSummary) -> Self {
        SessionDto {
            id: summary.session.id,
            device_id: summary.session.device_id,
            device_name: summary.session.device_name,
            sample_rate: summary.session.sample_rate,
            channels: summary.session.channels,
            started_at_ms: summary.session.started_at_ms,
            ended_at_ms: summary.session.ended_at_ms,
            segment_count: summary.segment_count,
            bytes: summary.bytes,
        }
    }
}

#[derive(Debug)]
pub struct SessionListResponse {
    pub sessions: Vec<SessionDto>,
}

#[derive(Debug)]
pub struct StorageResponse {
    pub bytes: i64,
    pub segment_count: i64,
    pub oldest_ms: Option<i64>,
    pub newest_ms: Option<i64>,
    /// `None` when recordings are kept forever.
    pub retention_hours: Option<u32>,
    pub data_dir: String,
    /// Where segments are being written right now.
    pub recordings_dir: String,
    /// Bytes one hour of audio occupies at the format currently in use. Raw PCM, so this is exact rather
    /// than an average over a compressor.
    pub bytes_per_hour: i64,
    /// What the disk would hold once the retention window is full, or `None` when keeping forever, in
    /// which case there is no ceiling to project.
    pub projected_max_bytes: Option<i64>,
}

/// Everything the storage endpoint needs that does not come from the segment index.
pub struct StorageContext {
    pub data_dir: String,
    pub recordings_dir: String,
    pub sample_rate: u32,
    pub channels: u16,
}

/// The sample rate assumed before capture has ever run: the shipping default.
pub const DEFAULT_SAMPLE_RATE: u32 = 48_000;

/// Bytes an hour of raw PCM occupies: two bytes per sample per channel, with a zero rate read as the
/// shipping default and a zero channel count as mono.
pub open spec fn bytes_per_hour_spec(sample_rate: u32, channels: u16) -> int {
    let rate: int = if sample_rate == 0 {
        DEFAULT_SAMPLE_RATE as int
    } else {
        sample_rate as int
    };
    let channels: int = if channels == 0 {
        1
    } else {
        channels as int
    };
    rate * channels * 2 * 3600
}

/// Bytes an hour of raw PCM occupies at the given format.
///
/// Two bytes per sample per channel, and no compression, so the figure is exact rather than an estimate.
/// A zero sample rate means capture has never run, in which case the shipping default is the honest guess.
pub fn bytes_per_hour(sample_rate: u32, channels: u16) -> (bytes: i64)
    ensures
        bytes == bytes_per_hour_spec(sample_rate, channels),
{
    let rate: i64 = if sample_rate == 0 {
        DEFAULT_SAMPLE_RATE as i64
    } else {
        sample_rate as i64
    };
    let channels: i64 = if channels == 0 {
        1
    } else {
        channels as i64
    };
    assert(rate * channels <= 0xffff_ffff * 0xffff) by (nonlinear_arith)
        requires
            0 <= rate <= 0xffff_ffff,
            1 <= channels <= 0xffff,
    ;
    rate * channels * 2 * 3600
}

impl StorageResponse {
    /// The storage figures: what the index holds, the retention window, and what the window would fill
    /// at the format in use.
    pub fn new(stats: SegmentStorageStats, settings: &Settings, context: StorageContext) -> (response: Self)
        requires
            settings.retention_hours matches Some(hours) ==> bytes_per_hour_spec(
                context.sample_rate,
                context.channels,
            ) * hours <= i64::MAX,
        ensures
            response.bytes == stats.bytes,
            response.segment_count == stats.segment_count,
            response.oldest_ms == stats.oldest_ms,
            response.newest_ms == stats.newest_ms,
            response.retention_hours == settings.retention_hours,
            response.data_dir == context.data_dir,
            response.recordings_dir == context.recordings_dir,
            response.bytes_per_hour == bytes_per_hour_spec(context.sample_rate, context.channels),
            response.projected_max_bytes == match settings.retention_hours {
                Some(hours) => Some(
                    (bytes_per_hour_spec(context.sample_rate, context.channels) * hours) as i64,
                ),
                None => None,
            },
    {
        let per_hour = bytes_per_hour(context.sample_rate, context.channels);
        let projected_max_bytes = match settings.retention_hours {
            Some(hours) => Some(per_hour * hours as i64),
            None => None,
        };
        StorageResponse {
            bytes: stats.bytes,
            segment_count: stats.segment_count,
            oldest_ms: stats.oldest_ms,
            newest_ms: stats.newest_ms,
            retention_hours: settings.retention_hours,
            data_dir: context.data_dir,
            recordings_dir: context.recordings_dir,
            bytes_per_hour: per_hour,
            projected_max_bytes,
        }
    }
}

/// The hourly figure scales with the channel count and the rate, and an unstarted capture is counted
/// at the shipping default in mono.
pub proof fn lemma_bytes_per_hour_scales(sample_rate: u32, channels: u16)
    requires
        sample_rate > 0,
        channels > 0,
    ensures
        bytes_per_hour_spec(sample_rate, channels) == bytes_per_hour_spec(sample_rate, 1) * channels,
        bytes_per_hour_spec(0, 0) == bytes_per_hour_spec(DEFAULT_SAMPLE_RATE, 1),
        bytes_per_hour_spec(sample_rate, 1) == sample_rate * 7200,
{
    assert(sample_rate * channels * 2 * 3600 == sample_rate * 1 * 2 * 3600 * channels) by (nonlinear_arith);
}

} // verus!
