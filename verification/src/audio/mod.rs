//! Everything about the raw sample stream: framing, encoding, the segment files, WAV headers and the
//! waveform envelope. Nothing here touches a device; the capture engine hands it samples.

pub mod capture;
pub mod device_registry;
pub mod encoder;
pub mod frame_builder;
pub mod peaks;
pub mod segment_writer;
pub mod wav;

pub use capture::CaptureRuntime;
pub use device_registry::DeviceRegistry;
pub use encoder::{FrameEncoder, FrameFormat, PcmS16Encoder};
pub use frame_builder::FrameBuilder;
pub use peaks::{PeakEnvelopeBuilder, PeakSource, PEAK_BUCKET_MS};
pub use segment_writer::{SegmentLayout, SegmentLocation};
