use on_air_record::audio::device_registry::DeviceRegistry;
use on_air_record::audio::encoder::{FrameEncoder, FrameFormat, PcmS16Encoder};
use on_air_record::audio::frame_builder::{frame_samples_for, FrameBuilder};
use on_air_record::audio::peaks::{render, PeakEnvelopeBuilder, PeakSource};
use on_air_record::audio::segment_writer::{decode_pcm_s16, SegmentLayout, SegmentLocation};
use on_air_record::audio::wav::{data_bytes_for, header, HEADER_BYTES};
use on_air_record::models::audio_frame::AudioFrame;
use on_air_record::models::device::InputDevice;
use on_air_record::util::day::{format_day, local_day};

#[test]
fn wire_codes_round_trip() {
    assert_eq!(
        FrameFormat::from_wire_code(FrameFormat::PcmS16.wire_code()),
        Some(FrameFormat::PcmS16)
    );
    assert_eq!(FrameFormat::from_wire_code(99), None);
}

#[test]
fn pcm_encoder_emits_two_bytes_per_sample() {
    let encoder = PcmS16Encoder;
    assert_eq!(encoder.format(), FrameFormat::PcmS16);
    let frame = AudioFrame::from_samples(0, 48_000, 1, vec![256, -256], true);
    assert_eq!(encoder.encode(&frame), vec![0x00, 0x01, 0x00, 0xff]);
}

#[test]
fn frame_size_follows_sample_rate_and_duration() {
    assert_eq!(frame_samples_for(48_000, 100), 4800);
    assert_eq!(frame_samples_for(44_100, 20), 882);
    assert_eq!(frame_samples_for(0, 100), 1);
}

#[test]
fn emits_only_complete_frames() {
    let mut builder = FrameBuilder::new(48_000, 1, 100);
    let mut frames = Vec::new();

    frames.extend(builder.push(&vec![0; 2000], 10_000));
    assert!(frames.is_empty());

    frames.extend(builder.push(&vec![0; 3000], 10_020));
    assert_eq!(frames.len(), 1);
    assert_eq!(frames[0].sample_count(), 4800);
}

#[test]
fn frame_timestamps_advance_by_the_frame_duration() {
    let mut builder = FrameBuilder::new(48_000, 1, 100);
    let mut frames = Vec::new();

    // Feed exactly three frames in one buffer, delivered at a plausible wall clock.
    frames.extend(builder.push(&vec![0; 14_400], 1_000_300));

    assert_eq!(frames.len(), 3);
    assert_eq!(frames[1].timestamp_ms - frames[0].timestamp_ms, 100);
    assert_eq!(frames[2].timestamp_ms - frames[1].timestamp_ms, 100);
}

#[test]
fn first_frame_is_back_dated_by_the_buffer_duration() {
    let mut builder = FrameBuilder::new(48_000, 1, 100);
    let mut frames = Vec::new();

    // A 100 ms buffer delivered at t = 1_000_000 was recorded from t = 999_900.
    frames.extend(builder.push(&vec![0; 4800], 1_000_000));

    assert_eq!(frames.len(), 1);
    assert_eq!(frames[0].timestamp_ms, 999_900);
}

#[test]
fn large_wall_clock_jump_re_anchors_the_stream() {
    let mut builder = FrameBuilder::new(48_000, 1, 100);
    let mut frames = Vec::new();

    frames.extend(builder.push(&vec![0; 4800], 1_000_000));
    assert_eq!(builder.drift_resets(), 0);

    // The machine slept for a minute. The next buffer arrives far in the future.
    frames.extend(builder.push(&vec![0; 4800], 1_060_000));

    // The frame in flight keeps its sample derived timestamp, the re anchor applies from the next one.
    assert_eq!(builder.drift_resets(), 1);
    assert_eq!(frames[1].timestamp_ms, 1_000_000);

    frames.extend(builder.push(&vec![0; 4800], 1_060_100));
    assert_eq!(frames[2].timestamp_ms, 1_060_000);
    assert_eq!(builder.drift_resets(), 1);
}

#[test]
fn flush_emits_a_partial_frame() {
    let mut builder = FrameBuilder::new(48_000, 1, 100);
    let mut frames = Vec::new();

    frames.extend(builder.push(&vec![0; 1000], 1_000_000));
    frames.extend(builder.flush(1_000_021));

    assert_eq!(frames.len(), 1);
    assert_eq!(frames[0].sample_count(), 1000);
}

#[test]
fn a_frame_builder_reports_its_frame_size() {
    assert_eq!(FrameBuilder::new(48_000, 1, 100).frame_samples(), 4800);
    assert_eq!(FrameBuilder::new(16_000, 1, 20).frame_samples(), 320);
}

#[test]
fn silence_produces_zero_buckets() {
    let mut builder = PeakEnvelopeBuilder::new(48_000);
    builder.push(&vec![0; 4800]);
    assert_eq!(builder.finish(), vec![0]);
}

#[test]
fn one_second_at_48k_produces_ten_buckets() {
    let mut builder = PeakEnvelopeBuilder::new(48_000);
    builder.push(&vec![1000; 48_000]);
    assert_eq!(builder.finish().len(), 10);
}

#[test]
fn full_scale_saturates_the_bucket() {
    let mut builder = PeakEnvelopeBuilder::new(48_000);
    let samples: Vec<i16> = (0..4800)
        .map(|index| if index % 2 == 0 { i16::MAX } else { -i16::MAX })
        .collect();
    builder.push(&samples);
    assert_eq!(builder.finish(), vec![255]);
}

#[test]
fn partial_bucket_is_flushed_on_finish() {
    let mut builder = PeakEnvelopeBuilder::new(48_000);
    builder.push(&vec![1000; 1000]);
    assert_eq!(builder.len(), 0);
    assert_eq!(builder.finish().len(), 1);
}

#[test]
fn an_envelope_value_is_the_rounded_rms_on_a_linear_scale() {
    // Half of full scale throughout is an RMS of a half, drawn as 127.5 rounded up.
    let mut builder = PeakEnvelopeBuilder::new(8_000);
    assert!(builder.is_empty());
    builder.push(&vec![16_384; 800]);
    assert_eq!(builder.len(), 1);
    assert_eq!(builder.finish(), vec![128]);

    // A quarter: 63.75 rounds to 64. Two buckets of 800 samples each at 8 kHz.
    let mut builder = PeakEnvelopeBuilder::new(8_000);
    builder.push(&vec![8_192; 1_600]);
    assert_eq!(builder.len(), 2);
    assert_eq!(builder.finish(), vec![64, 64]);
}

#[test]
fn render_places_values_in_the_right_columns() {
    let values = vec![10, 20, 30, 40];
    let sources = vec![PeakSource {
        start_ms: 1_000,
        values: &values,
    }];

    // Four 100 ms buckets rendered onto four columns covering exactly the same 400 ms.
    let rendered = render(&sources, 1_000, 1_400, 4);
    assert_eq!(rendered, vec![10, 20, 30, 40]);
}

#[test]
fn render_keeps_the_loudest_value_when_downsampling() {
    let values = vec![10, 200, 15, 20];
    let sources = vec![PeakSource {
        start_ms: 0,
        values: &values,
    }];

    // Four buckets squeezed into one column must not average the transient away.
    assert_eq!(render(&sources, 0, 400, 1), vec![200]);
}

#[test]
fn render_leaves_gaps_empty() {
    let first = vec![100, 100];
    let second = vec![200, 200];
    let sources = vec![
        PeakSource {
            start_ms: 0,
            values: &first,
        },
        PeakSource {
            start_ms: 600,
            values: &second,
        },
    ];

    let rendered = render(&sources, 0, 800, 8);
    assert_eq!(rendered[0], 100);
    assert_eq!(rendered[1], 100);
    assert_eq!(rendered[3], 0);
    assert_eq!(rendered[6], 200);
}

#[test]
fn render_rejects_an_empty_window() {
    assert!(render(&[], 100, 100, 10).is_empty());
    assert!(render(&[], 0, 100, 0).is_empty());
}

#[test]
fn render_widens_a_bucket_over_every_column_it_spans_when_zoomed_in() {
    let values = vec![50];
    let sources = vec![PeakSource {
        start_ms: 0,
        values: &values,
    }];
    // One 100 ms bucket across a 200 ms window of four columns fills the first two.
    assert_eq!(render(&sources, 0, 200, 4), vec![50, 50, 0, 0]);
}

#[test]
fn segments_are_laid_out_by_day_then_session() {
    let started_at_ms = 1_757_030_400_000;
    let day = local_day(started_at_ms);
    let layout = SegmentLayout::under_data_dir("/srv/oar");
    let location = SegmentLocation::for_segment(&layout, 3, 12, started_at_ms);

    assert_eq!(location.day, day);
    assert_eq!(
        location.relative_path,
        format!("recordings/{day}/3/000012.pcm")
    );
    assert_eq!(
        location.absolute_path,
        format!("/srv/oar/recordings/{day}/3/000012.pcm")
    );
}

#[test]
fn a_redirected_directory_is_indexed_absolutely() {
    let started_at_ms = 1_757_030_400_000;
    let day = local_day(started_at_ms);
    let layout = SegmentLayout::at("/mnt/audio".to_string());
    let location = SegmentLocation::for_segment(&layout, 3, 12, started_at_ms);

    // No `recordings` prefix: the chosen directory is itself the recordings root.
    assert_eq!(
        location.absolute_path,
        format!("/mnt/audio/{day}/3/000012.pcm")
    );
    // Absolute, because there is no root it could sensibly be relative to.
    assert_eq!(location.relative_path, location.absolute_path);
}

#[test]
fn two_sessions_on_one_day_share_the_day_directory() {
    let started_at_ms = 1_757_030_400_000;
    let layout = SegmentLayout::under_data_dir("/srv/oar");
    let morning = SegmentLocation::for_segment(&layout, 1, 0, started_at_ms);
    let evening = SegmentLocation::for_segment(&layout, 2, 0, started_at_ms + 3_600_000);

    assert_eq!(morning.day, evening.day);
    assert_ne!(morning.relative_path, evening.relative_path);
}

#[test]
fn a_day_is_written_year_month_day_with_zero_padding() {
    assert_eq!(format_day(2025, 9, 5), "2025-09-05");
    assert_eq!(format_day(987, 12, 31), "0987-12-31");
    assert_eq!(format_day(12_345, 1, 1), "+12345-01-01");
    assert_eq!(format_day(-44, 3, 15), "-0044-03-15");
    let day = local_day(1_757_030_400_000);
    assert_eq!(day.len(), 10);
    assert_eq!(&day[4..5], "-");
    assert_eq!(&day[7..8], "-");
}

#[test]
fn a_segment_layout_on_a_given_day_pads_the_sequence() {
    let layout = SegmentLayout::under_data_dir("/srv/oar/");
    let location = SegmentLocation::for_segment_on_day(&layout, 7, 3, "2025-09-05");
    assert_eq!(location.absolute_path, "/srv/oar/recordings/2025-09-05/7/000003.pcm");
    assert_eq!(location.relative_path, "recordings/2025-09-05/7/000003.pcm");
    assert_eq!(location.day, "2025-09-05");

    let negative = SegmentLocation::for_segment_on_day(&layout, -2, -12, "2025-09-05");
    assert_eq!(negative.relative_path, "recordings/2025-09-05/-2/-00012.pcm");
}

#[test]
fn decoding_reads_little_endian_pairs_and_ignores_a_trailing_byte() {
    assert_eq!(decode_pcm_s16(&[0x02, 0x00, 0x03, 0x00]), vec![2, 3]);
    assert_eq!(decode_pcm_s16(&[0x00, 0x80, 0xff, 0x7f, 0x09]), vec![i16::MIN, i16::MAX]);
    let frame = AudioFrame::from_samples(0, 48_000, 1, vec![1, -1, 1000, -32768], true);
    assert_eq!(decode_pcm_s16(&frame.to_le_bytes()), vec![1, -1, 1000, -32768]);
}

fn read_u32(bytes: &[u8], at: usize) -> u32 {
    u32::from_le_bytes(bytes[at..at + 4].try_into().expect("four bytes"))
}

fn read_u16(bytes: &[u8], at: usize) -> u16 {
    u16::from_le_bytes(bytes[at..at + 2].try_into().expect("two bytes"))
}

#[test]
fn writes_the_expected_chunk_layout() {
    let out = header(48_000, 1, 960_000);

    assert_eq!(&out[0..4], b"RIFF");
    assert_eq!(&out[8..12], b"WAVE");
    assert_eq!(&out[12..16], b"fmt ");
    assert_eq!(&out[36..40], b"data");
    assert_eq!(out.len(), HEADER_BYTES);
}

#[test]
fn describes_mono_48k_correctly() {
    let out = header(48_000, 1, 960_000);

    assert_eq!(read_u32(&out, 4), 960_000 + 36);
    assert_eq!(read_u32(&out, 16), 16);
    assert_eq!(read_u16(&out, 20), 1);
    assert_eq!(read_u16(&out, 22), 1);
    assert_eq!(read_u32(&out, 24), 48_000);
    // Byte rate is rate times block align: 48000 * 2 for mono 16 bit.
    assert_eq!(read_u32(&out, 28), 96_000);
    assert_eq!(read_u16(&out, 32), 2);
    assert_eq!(read_u16(&out, 34), 16);
    assert_eq!(read_u32(&out, 40), 960_000);
}

#[test]
fn block_align_and_byte_rate_follow_the_channel_count() {
    let stereo = header(44_100, 2, 0);
    assert_eq!(read_u16(&stereo, 32), 4);
    assert_eq!(read_u32(&stereo, 28), 44_100 * 4);
}

#[test]
fn a_zero_channel_count_is_treated_as_mono() {
    // Never emit a header describing zero channels, which no player can open.
    assert_eq!(read_u16(&header(48_000, 0, 0), 22), 1);
}

#[test]
fn data_size_matches_the_duration() {
    // One second of mono 48 kHz is 96000 bytes.
    assert_eq!(data_bytes_for(48_000, 1, 1_000), Some(96_000));
    assert_eq!(data_bytes_for(16_000, 1, 60_000), Some(16_000 * 2 * 60));
    assert_eq!(data_bytes_for(48_000, 2, 1_000), Some(192_000));
}

#[test]
fn an_empty_or_backwards_span_is_empty() {
    assert_eq!(data_bytes_for(48_000, 1, 0), Some(0));
    assert_eq!(data_bytes_for(48_000, 1, -5_000), Some(0));
}

#[test]
fn a_span_too_large_for_the_format_is_refused() {
    // Roughly thirteen hours of 48 kHz mono exceeds what a RIFF size field can express.
    assert_eq!(data_bytes_for(48_000, 1, 1_000 * 60 * 60 * 13), None);
    assert!(data_bytes_for(48_000, 1, 1_000 * 60 * 60 * 6).is_some());
}

#[test]
fn the_riff_size_saturates_instead_of_wrapping() {
    let out = header(48_000, 1, u32::MAX);
    assert_eq!(read_u32(&out, 4), u32::MAX);
}

fn device(name: &str, is_default: bool) -> InputDevice {
    InputDevice {
        id: name.to_string(),
        name: name.to_string(),
        is_default,
        available: true,
        channels: 2,
        sample_rate: 48_000,
    }
}

#[test]
fn devices_are_offered_default_first_then_by_name_regardless_of_case() {
    let found = vec![
        device("zoom H1", false),
        device("Built-in Microphone", true),
        device("alpha", false),
        device("Beta", false),
    ];
    let listed = DeviceRegistry::arrange(found, None);
    let names: Vec<&str> = listed.iter().map(|d| d.name.as_str()).collect();
    assert_eq!(names, ["Built-in Microphone", "alpha", "Beta", "zoom H1"]);
}

#[test]
fn a_missing_selected_device_is_listed_as_unavailable() {
    let found = vec![device("Built-in Microphone", true)];
    let listed = DeviceRegistry::arrange(found, Some("Scarlett Solo USB"));
    assert_eq!(listed.len(), 2);
    assert_eq!(listed[1].id, "Scarlett Solo USB");
    assert!(!listed[1].available);
    assert_eq!(listed[1].channels, 0);

    let found = vec![device("Scarlett Solo USB", false)];
    let listed = DeviceRegistry::arrange(found, Some("Scarlett Solo USB"));
    assert_eq!(listed.len(), 1);
    assert!(listed[0].available);

    let unplugged = InputDevice::unavailable("mic");
    assert_eq!(unplugged.name, "mic");
    assert!(!unplugged.is_default);
}
