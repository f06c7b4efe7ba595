//! What the capture engine reports about the stream it opened. Opening the device, the callback and
//! the sample conversion belong to the application, which talks to the audio host.

use vstd::prelude::*;

verus! {

/// What the engine actually negotiated with the device.
#[derive(Debug, Clone)]
pub struct CaptureRuntime {
    pub device_id: String,
    pub device_name: String,
    /// Sample rate of the captured stream. The device decides, we do not resample.
    pub sample_rate: u32,
    /// Channels after the downmix, always 1 today.
    pub channels: u16,
    /// Channels the device delivered before the downmix, kept for diagnostics.
    pub source_channels: u16,
    pub frame_ms: u32,
}

} // verus!
